//! The state of a listener and the decisions that it takes: which channels it is subscribed to,
//! when it reconnects, and what it does with what the server sends.
//!
//! The caller owns the connection. It runs the statements and performs the actions that are
//! asked for here, and reports the outcome.

use core::time::Duration;
use vstd::prelude::*;

use crate::postgres::notification::{Notification, PgNotification};
use crate::postgres::quoting::{
    build_listen_all_query, listen_all_text, listen_query, listen_text, names_of, truncated,
    unlisten_all_query, unlisten_query, unlisten_text, ChannelName,
};
use crate::postgres::reading::{law_listen_all_names_its_channels, read_listen_all};

verus! {

/// Where a listener stands with its connection.
#[derive(Debug, Clone, Copy, PartialEq, Eq)]
pub enum Link {
    /// There is a connection, and it is subscribed.
    Connected,
    /// There is no connection.
    Disconnected,
    /// A new connection is being subscribed to the channels, and is not in use yet.
    Subscribing,
}

/// The settings of the pool that a listener makes for itself.
#[derive(Debug, PartialEq, Eq)]
pub struct PoolOptions {
    /// The most connections that the pool holds.
    pub max_size: u32,
    /// How long a connection may live.
    pub max_lifetime: Option<Duration>,
    /// How long a connection may be idle.
    pub idle_timeout: Option<Duration>,
}

/// A stream of asynchronous notifications from Postgres.
///
/// This listener will auto-reconnect. If the active connection being used ever dies, this
/// listener will detect that event, ask for a new connection, will re-subscribe to all of the
/// originally specified channels, and will resume operations as normal. A connection is taken for
/// dead when reading from it fails in one of the ways that [`means_death`] tells.
pub struct PgListener {
    link: Link,
    has_sender: bool,
    channels: Vec<String>,
}

/// The state of a [`PgListener`].
#[verifier::ext_equal]
pub struct ListenerState {
    /// Where the listener stands with its connection.
    pub link: Link,
    /// Whether the sending half of the notification buffer is still held: by the connection
    /// where there is one, aside until the next one where there is none.
    pub has_sender: bool,
    /// The channels that the listener is subscribed to, in the order of subscription.
    pub channels: Seq<Seq<char>>,
}

impl View for PgListener {
    type V = ListenerState;

    closed spec fn view(&self) -> ListenerState {
        ListenerState {
            link: self.link,
            has_sender: self.has_sender,
            channels: names_of(self.channels@),
        }
    }
}

/// What happened to a command that changes the subscriptions.
#[derive(Debug, PartialEq, Eq)]
pub enum CommandEvent<E> {
    /// The command is given.
    Called,
    /// Its statements were run on the connection.
    Executed(Result<(), E>),
}

/// What is to be done next to carry out a command that changes the subscriptions.
#[derive(Debug, PartialEq, Eq)]
pub enum CommandAction<E> {
    /// Run these statements on the connection, and report that as `Executed`.
    Execute(String),
    /// Give this to the caller.
    Return(Result<(), E>),
}

/// Whether `action` carries out a command: it runs these statements, and then hands on what came
/// of them.
pub open spec fn carries_out<E>(
    event: CommandEvent<E>,
    statements: Seq<char>,
    action: CommandAction<E>,
) -> bool {
    match event {
        CommandEvent::Called => action matches CommandAction::Execute(query) && query@
            == statements,
        CommandEvent::Executed(outcome) => action == CommandAction::Return(outcome),
    }
}

/// Whether the statements of a command ran without an error.
pub open spec fn succeeded<E>(event: CommandEvent<E>) -> bool {
    event matches CommandEvent::Executed(outcome) && outcome is Ok
}

/// How reading from a connection failed.
#[derive(Debug, Clone, Copy, PartialEq, Eq)]
pub enum ReadErrorKind {
    /// The connection was aborted.
    ConnectionAborted,
    /// The connection was reset by the server.
    ConnectionReset,
    /// The connection was closed on the other side.
    BrokenPipe,
    /// The connection ended in the middle of a message.
    UnexpectedEof,
    /// There is no connection any more.
    NotConnected,
    /// Anything else.
    Other,
}

/// Whether a failure to read is of one of the kinds by which a connection is taken for dead.
pub open spec fn is_death(kind: ReadErrorKind) -> bool {
    ||| kind is ConnectionAborted
    ||| kind is ConnectionReset
    ||| kind is BrokenPipe
    ||| kind is UnexpectedEof
    ||| kind is NotConnected
}

/// Tells whether a failure to read is of one of the kinds by which a connection is taken for dead:
/// aborted, reset, broken pipe, unexpected end and not connected.
pub fn means_death(kind: ReadErrorKind) -> (dead: bool)
    ensures
        dead == is_death(kind),
{
    match kind {
        ReadErrorKind::ConnectionAborted => true,
        ReadErrorKind::ConnectionReset => true,
        ReadErrorKind::BrokenPipe => true,
        ReadErrorKind::UnexpectedEof => true,
        ReadErrorKind::NotConnected => true,
        ReadErrorKind::Other => false,
    }
}

/// Why nothing could be received.
#[derive(Debug, PartialEq, Eq)]
pub enum StreamError<E> {
    /// Reading from the connection failed.
    Read {
        /// How it failed.
        kind: ReadErrorKind,
        /// The error.
        error: E,
    },
    /// Anything else.
    Other(E),
}

/// A message from the server, as far as a listener tells messages apart.
#[derive(Debug, PartialEq, Eq)]
pub enum Message<E> {
    /// An asynchronous notification, or the error of decoding it.
    NotificationResponse(Result<Notification, E>),
    /// The server is ready for another query.
    ReadyForQuery {
        /// How many of these messages the connection is waiting for, this one included.
        pending_ready_for_query_count: usize,
    },
    /// Any other message.
    Other,
}

/// What happened while the next notification is being received.
#[derive(Debug, PartialEq, Eq)]
pub enum RecvEvent<E> {
    /// The next notification is asked for. A notification that is waiting in the buffer comes
    /// with the question.
    Called(Option<Notification>),
    /// The pool was asked for a connection.
    Acquired(Result<(), E>),
    /// The subscribing statements were run on the new connection.
    Executed(Result<(), E>),
    /// The connection was asked for a message.
    Received(Result<Message<E>, StreamError<E>>),
}

/// What is to be done next to receive a notification.
#[derive(PartialEq, Eq)]
pub enum RecvAction<E> {
    /// Ask the pool for a connection, and report it as `Acquired`.
    Acquire,
    /// Take the sender out of the dead connection and put it aside, drop the connection, then go
    /// on as for `Acquire`.
    Reconnect,
    /// Hand the sender to the new connection, run these statements on it, and report that as
    /// `Executed`. If they fail the new connection is dropped.
    Execute(String),
    /// Ask the connection for a message, and report it as `Received`.
    Receive,
    /// Set the connection's count of pending `ReadyForQuery` messages, then go on as for
    /// `Receive`.
    MarkReady {
        /// The new count.
        pending_ready_for_query_count: usize,
    },
    /// Give this to the caller.
    Return(Result<PgNotification, E>),
}

/// Whether an event can happen to a listener in this state.
pub open spec fn expected<E>(state: ListenerState, event: RecvEvent<E>) -> bool {
    match event {
        RecvEvent::Called(_) => true,
        RecvEvent::Acquired(_) => state.link is Disconnected,
        RecvEvent::Executed(_) => state.link is Subscribing,
        RecvEvent::Received(received) => {
            &&& state.link is Connected
            &&& received matches Ok(
                Message::ReadyForQuery { pending_ready_for_query_count: pending },
            ) ==> pending > 0
        },
    }
}

/// The state after an event.
pub open spec fn after<E>(state: ListenerState, event: RecvEvent<E>) -> ListenerState {
    match event {
        RecvEvent::Called(None) if state.link is Subscribing => disconnected_without_sender(state),
        RecvEvent::Acquired(Ok(_)) => ListenerState { link: Link::Subscribing, ..state },
        RecvEvent::Executed(Ok(_)) => ListenerState { link: Link::Connected, ..state },
        RecvEvent::Executed(Err(_)) => disconnected_without_sender(state),
        RecvEvent::Received(Err(StreamError::Read { kind, .. })) if is_death(kind) => ListenerState {
            link: Link::Disconnected,
            ..state
        },
        _ => state,
    }
}

/// The state when a new connection was lost before it was in use, and the sender with it.
pub open spec fn disconnected_without_sender(state: ListenerState) -> ListenerState {
    ListenerState { link: Link::Disconnected, has_sender: false, ..state }
}

/// Whether `action` is what an event calls for.
pub open spec fn answers<E>(
    state: ListenerState,
    event: RecvEvent<E>,
    action: RecvAction<E>,
) -> bool {
    match event {
        RecvEvent::Called(Some(buffered)) => action == RecvAction::<E>::Return(
            Ok(PgNotification(buffered)),
        ),
        RecvEvent::Called(None) => if state.link is Connected {
            action is Receive
        } else {
            action is Acquire
        },
        RecvEvent::Acquired(Ok(_)) => action matches RecvAction::Execute(query) && query@
            == listen_all_text(state.channels),
        RecvEvent::Acquired(Err(error)) => action == RecvAction::Return(Err(error)),
        RecvEvent::Executed(Ok(_)) => action is Receive,
        RecvEvent::Executed(Err(error)) => action == RecvAction::Return(Err(error)),
        RecvEvent::Received(Ok(Message::NotificationResponse(Ok(notification)))) => action
            == RecvAction::<E>::Return(Ok(PgNotification(notification))),
        RecvEvent::Received(Ok(Message::NotificationResponse(Err(error)))) => action
            == RecvAction::Return(Err(error)),
        RecvEvent::Received(
            Ok(Message::ReadyForQuery { pending_ready_for_query_count: pending }),
        ) => action == RecvAction::<E>::MarkReady {
            pending_ready_for_query_count: (pending - 1) as usize,
        },
        RecvEvent::Received(Ok(Message::Other)) => action is Receive,
        RecvEvent::Received(Err(StreamError::Read { kind, error })) => if is_death(kind) {
            action is Reconnect
        } else {
            action == RecvAction::Return(Err(error))
        },
        RecvEvent::Received(Err(StreamError::Other(error))) => action == RecvAction::Return(
            Err(error),
        ),
    }
}

/// A list of names without the first occurrence of `name`.
pub open spec fn without_first(names: Seq<Seq<char>>, name: Seq<char>) -> Seq<Seq<char>>
    decreases names.len(),
{
    if names.len() == 0 {
        names
    } else if names[0] == name {
        names.drop_first()
    } else {
        seq![names[0]] + without_first(names.drop_first(), name)
    }
}

proof fn lemma_without_first_at(names: Seq<Seq<char>>, name: Seq<char>, position: int)
    requires
        0 <= position < names.len(),
        names[position] == name,
        forall|i: int| 0 <= i < position ==> names[i] != name,
    ensures
        without_first(names, name) == names.remove(position),
    decreases names.len(),
{
    if position > 0 {
        lemma_without_first_at(names.drop_first(), name, position - 1);
        assert(without_first(names, name) == names.remove(position));
    } else {
        assert(names.drop_first() == names.remove(0));
    }
}

proof fn lemma_without_first_absent(names: Seq<Seq<char>>, name: Seq<char>)
    requires
        !names.contains(name),
    ensures
        without_first(names, name) == names,
    decreases names.len(),
{
    if names.len() > 0 {
        assert(names[0] != name);
        assert forall|i: int| 0 <= i < names.drop_first().len() implies names.drop_first()[i]
            != name by {
            assert(names[i + 1] != name);
        }
        lemma_without_first_absent(names.drop_first(), name);
        assert(names == seq![names[0]] + names.drop_first());
    }
}

/// The position of the first of the channels that has this name.
fn position_of(channels: &Vec<String>, name: &str) -> (position: Option<usize>)
    ensures
        match position {
            Some(position) => {
                &&& position < channels@.len()
                &&& without_first(names_of(channels@), name@) == names_of(channels@).remove(
                    position as int,
                )
            },
            None => without_first(names_of(channels@), name@) == names_of(channels@),
        },
{
    let wanted = name.to_owned();
    for i in 0..channels.len()
        invariant
            wanted@ == name@,
            forall|j: int| 0 <= j < i ==> names_of(channels@)[j] != name@,
    {
        if channels[i] == wanted {
            proof {
                lemma_without_first_at(names_of(channels@), name@, i as int);
            }
            return Some(i);
        }
    }
    proof {
        lemma_without_first_absent(names_of(channels@), name@);
    }
    None
}

impl PgListener {
    /// The settings of the pool that serves a listener alone: one connection, without timeouts,
    /// as they don't apply here. The pool is only used to handle re-connections.
    pub fn pool_options() -> (options: PoolOptions)
        ensures
            options.max_size == 1,
            options.max_lifetime is None,
            options.idle_timeout is None,
    {
        PoolOptions { max_size: 1, max_lifetime: None, idle_timeout: None }
    }

    /// A listener on the connection that a pool was asked for, if there is one. The connection
    /// holds the sending half of a new notification buffer; no channel is subscribed to.
    pub fn from_pool<E>(acquired: Result<(), E>) -> (listener: Result<Self, E>)
        ensures
            match acquired {
                Ok(_) => listener matches Ok(listener) && listener@ == (ListenerState {
                    link: Link::Connected,
                    has_sender: true,
                    channels: Seq::empty(),
                }),
                Err(error) => listener == Err::<Self, E>(error),
            },
    {
        match acquired {
            Ok(_) => {
                let listener = PgListener {
                    link: Link::Connected,
                    has_sender: true,
                    channels: Vec::new(),
                };
                assert(listener@.channels == Seq::<Seq<char>>::empty());
                Ok(listener)
            },
            Err(error) => Err(error),
        }
    }

    /// Where the listener stands with its connection.
    pub fn link(&self) -> (link: Link)
        ensures
            link == self@.link,
    {
        self.link
    }

    /// Whether the sending half of the notification buffer is still held.
    pub fn has_sender(&self) -> (held: bool)
        ensures
            held == self@.has_sender,
    {
        self.has_sender
    }

    /// The channels that the listener is subscribed to.
    pub fn channels(&self) -> (channels: &[String])
        ensures
            names_of(channels@) == self@.channels,
            channels@.len() == self@.channels.len(),
            forall|i: int| 0 <= i < channels@.len() ==> (#[trigger] channels@[i])@
                == self@.channels[i],
    {
        self.channels.as_slice()
    }

    /// Starts listening for notifications on a channel: what to do about an event. The channel
    /// name is quoted to ensure case sensitivity. The channel is on the list once the statement
    /// has run.
    pub fn listen<E>(&mut self, channel: &str, event: CommandEvent<E>) -> (action: CommandAction<E>)
        requires
            old(self)@.link is Connected,
        ensures
            carries_out(event, listen_text(channel@), action),
            final(self)@ == (ListenerState {
                channels: if succeeded(event) {
                    old(self)@.channels.push(channel@)
                } else {
                    old(self)@.channels
                },
                ..old(self)@
            }),
    {
        match event {
            CommandEvent::Called => CommandAction::Execute(listen_query(channel)),
            CommandEvent::Executed(outcome) => {
                if outcome.is_ok() {
                    self.channels.push(channel.to_owned());
                    assert(self@.channels == old(self)@.channels.push(channel@));
                }
                CommandAction::Return(outcome)
            },
        }
    }

    /// Starts listening for notifications on all of the channels: what to do about an event. The
    /// channels are on the list from the start, whether or not there is a connection to run the
    /// statements on, and stay there even if the statements fail.
    pub fn listen_all<S: ChannelName, E>(
        &mut self,
        channels: &[S],
        event: CommandEvent<E>,
    ) -> (action: CommandAction<E>)
        ensures
            carries_out(event, listen_all_text(names_of(channels@)), action),
            final(self)@ == (ListenerState {
                channels: if event is Called {
                    old(self)@.channels + names_of(channels@)
                } else {
                    old(self)@.channels
                },
                ..old(self)@
            }),
    {
        match event {
            CommandEvent::Called => {
                self.add_channels(channels);
                CommandAction::Execute(build_listen_all_query(channels))
            },
            CommandEvent::Executed(outcome) => CommandAction::Return(outcome),
        }
    }

    /// Puts channels on the list.
    fn add_channels<S: ChannelName>(&mut self, channels: &[S])
        ensures
            final(self)@ == (ListenerState {
                channels: old(self)@.channels + names_of(channels@),
                ..old(self)@
            }),
    {
        for i in 0..channels.len()
            invariant
                self.link == old(self).link,
                self.has_sender == old(self).has_sender,
                self@.channels == old(self)@.channels + names_of(channels@).take(i as int),
        {
            let ghost before = self@.channels;
            self.channels.push(channels[i].as_name().to_owned());
            assert(self@.channels == before.push(channels@[i as int].chars_of()));
            assert(names_of(channels@).take(i + 1) == names_of(channels@).take(i as int).push(
                names_of(channels@)[i as int],
            ));
        }
        assert(names_of(channels@).take(channels@.len() as int) == names_of(channels@));
    }

    /// Stops listening for notifications on a channel: what to do about an event. The channel
    /// name is quoted to ensure case sensitivity. One subscription to the channel is off the list
    /// once the statement has run.
    pub fn unlisten<E>(&mut self, channel: &str, event: CommandEvent<E>) -> (action: CommandAction<
        E,
    >)
        requires
            old(self)@.link is Connected,
        ensures
            carries_out(event, unlisten_text(channel@), action),
            final(self)@ == (ListenerState {
                channels: if succeeded(event) {
                    without_first(old(self)@.channels, channel@)
                } else {
                    old(self)@.channels
                },
                ..old(self)@
            }),
    {
        match event {
            CommandEvent::Called => CommandAction::Execute(unlisten_query(channel)),
            CommandEvent::Executed(outcome) => {
                if outcome.is_ok() {
                    if let Some(position) = position_of(&self.channels, channel) {
                        let _ = self.channels.remove(position);
                        assert(self@.channels == old(self)@.channels.remove(position as int));
                    }
                }
                CommandAction::Return(outcome)
            },
        }
    }

    /// Stops listening for notifications on all channels: what to do about an event. The list is
    /// empty once the statement has run.
    pub fn unlisten_all<E>(&mut self, event: CommandEvent<E>) -> (action: CommandAction<E>)
        requires
            old(self)@.link is Connected,
        ensures
            carries_out(event, "UNLISTEN *"@, action),
            final(self)@ == (ListenerState {
                channels: if succeeded(event) {
                    Seq::empty()
                } else {
                    old(self)@.channels
                },
                ..old(self)@
            }),
    {
        match event {
            CommandEvent::Called => CommandAction::Execute(unlisten_all_query()),
            CommandEvent::Executed(outcome) => {
                if outcome.is_ok() {
                    self.channels.clear();
                    assert(self@.channels == Seq::<Seq<char>>::empty());
                }
                CommandAction::Return(outcome)
            },
        }
    }

    /// Ensures that there is a connection to work with: asks for one where there is none, and
    /// does nothing where there is one.
    pub fn connect_if_needed<E>(&mut self) -> (action: RecvAction<E>)
        ensures
            old(self)@.link is Connected ==> *final(self) == *old(self) && action is Receive,
            !(old(self)@.link is Connected) ==> action is Acquire,
            final(self)@ == after(old(self)@, RecvEvent::<E>::Called(None)),
            answers(old(self)@, RecvEvent::<E>::Called(None), action),
    {
        match self.link {
            Link::Connected => RecvAction::Receive,
            Link::Disconnected => RecvAction::Acquire,
            // Subscribing was given up halfway: the new connection is gone, and the sender that it
            // held.
            Link::Subscribing => {
                self.link = Link::Disconnected;
                self.has_sender = false;
                RecvAction::Acquire
            },
        }
    }

    /// One step of receiving the next notification available from any of the subscribed
    /// channels: what to do about an event.
    pub fn recv<E>(&mut self, event: RecvEvent<E>) -> (action: RecvAction<E>)
        requires
            expected(old(self)@, event),
        ensures
            final(self)@ == after(old(self)@, event),
            answers(old(self)@, event, action),
            event matches RecvEvent::Called(Some(notification)) ==> action == RecvAction::<
                E,
            >::Return(Ok(PgNotification(notification))),
            event matches RecvEvent::Received(Ok(Message::NotificationResponse(Ok(notification))))
                ==> action == RecvAction::<E>::Return(Ok(PgNotification(notification))),
            final(self)@.channels == old(self)@.channels,
    {
        match event {
            RecvEvent::Called(buffered) => match buffered {
                // The buffer is flushed first.
                Some(notification) => RecvAction::Return(Ok(PgNotification(notification))),
                None => self.connect_if_needed(),
            },
            RecvEvent::Acquired(Ok(_)) => {
                self.link = Link::Subscribing;
                RecvAction::Execute(build_listen_all_query(self.channels.as_slice()))
            },
            RecvEvent::Acquired(Err(error)) => RecvAction::Return(Err(error)),
            RecvEvent::Executed(Ok(_)) => {
                self.link = Link::Connected;
                RecvAction::Receive
            },
            RecvEvent::Executed(Err(error)) => {
                self.link = Link::Disconnected;
                self.has_sender = false;
                RecvAction::Return(Err(error))
            },
            RecvEvent::Received(Ok(message)) => match message {
                Message::NotificationResponse(Ok(notification)) => RecvAction::Return(
                    Ok(PgNotification(notification)),
                ),
                Message::NotificationResponse(Err(error)) => RecvAction::Return(Err(error)),
                Message::ReadyForQuery { pending_ready_for_query_count } => RecvAction::MarkReady {
                    pending_ready_for_query_count: pending_ready_for_query_count - 1,
                },
                // Unexpected messages are ignored.
                Message::Other => RecvAction::Receive,
            },
            RecvEvent::Received(Err(StreamError::Read { kind, error })) => if means_death(kind) {
                self.link = Link::Disconnected;
                RecvAction::Reconnect
            } else {
                RecvAction::Return(Err(error))
            },
            RecvEvent::Received(Err(StreamError::Other(error))) => RecvAction::Return(Err(error)),
        }
    }
}

/// Reading from the connection failed.
pub open spec fn read_failed<E>(kind: ReadErrorKind, error: E) -> RecvEvent<E> {
    RecvEvent::Received(Err(StreamError::Read { kind, error }))
}

/// The pool gave a connection.
pub open spec fn acquired<E>() -> RecvEvent<E> {
    RecvEvent::Acquired(Ok(()))
}

/// The subscribing statements ran.
pub open spec fn executed<E>() -> RecvEvent<E> {
    RecvEvent::Executed(Ok(()))
}

/// Receiving never changes the channels that a listener is subscribed to.
pub proof fn law_recv_keeps_channels<E>(state: ListenerState, event: RecvEvent<E>)
    ensures
        after(state, event).channels == state.channels,
{
}

/// A listener that does what it is asked for never meets an event that it does not expect: each
/// action leaves it in the state in which the outcome of that action is expected.
pub proof fn law_actions_lead_to_expected_events<E>(
    state: ListenerState,
    event: RecvEvent<E>,
    action: RecvAction<E>,
    outcome: Result<(), E>,
    received: Result<Message<E>, StreamError<E>>,
)
    requires
        expected(state, event),
        answers(state, event, action),
        received matches Ok(Message::ReadyForQuery { pending_ready_for_query_count: pending })
            ==> pending > 0,
    ensures
        action is Acquire || action is Reconnect ==> expected(
            after(state, event),
            RecvEvent::Acquired(outcome),
        ),
        action is Execute ==> expected(after(state, event), RecvEvent::Executed(outcome)),
        action is Receive || action is MarkReady ==> expected(
            after(state, event),
            RecvEvent::Received(received),
        ),
{
}

/// When the connection dies by one of these kinds, a new one is asked for; once there is one, the
/// statements that are run on it name all of the channels, in order, and nothing else; once they
/// have run the listener is again in the state that it was in, and receives as before.
pub proof fn law_reconnect_resubscribes<E>(
    state: ListenerState,
    kind: ReadErrorKind,
    error: E,
    reconnect: RecvAction<E>,
    subscribe: RecvAction<E>,
    resume: RecvAction<E>,
)
    requires
        state.link is Connected,
        is_death(kind),
        answers(state, read_failed(kind, error), reconnect),
        answers(after(state, read_failed(kind, error)), acquired(), subscribe),
        answers(
            after(after(state, read_failed(kind, error)), acquired::<E>()),
            executed(),
            resume,
        ),
    ensures
        expected(state, read_failed(kind, error)),
        reconnect is Reconnect,
        expected(after(state, read_failed(kind, error)), acquired::<E>()),
        subscribe matches RecvAction::Execute(query) && read_listen_all(query@) == Some(
            state.channels.map_values(|name: Seq<char>| truncated(name)),
        ),
        expected(after(after(state, read_failed(kind, error)), acquired::<E>()), executed::<E>()),
        resume is Receive,
        after(after(after(state, read_failed(kind, error)), acquired::<E>()), executed::<E>())
            == state,
{
    law_listen_all_names_its_channels(state.channels);
}

/// A failure to read that is no death of the connection is handed to the caller, and changes
/// nothing.
pub proof fn law_other_read_errors_are_returned<E>(
    state: ListenerState,
    kind: ReadErrorKind,
    error: E,
    action: RecvAction<E>,
)
    requires
        !is_death(kind),
        answers(state, read_failed(kind, error), action),
    ensures
        action == RecvAction::Return(Err(error)),
        after(state, read_failed(kind, error)) == state,
{
}

/// A listener that has a connection asks for none and runs nothing on it: it stays wholly as it
/// is and goes on to receive. So does one that has just connected.
pub proof fn law_connected_listener_is_left_alone<E>(
    state: ListenerState,
    action: RecvAction<E>,
    connected: ListenerState,
    again: RecvAction<E>,
)
    requires
        state.link is Connected,
        answers(state, RecvEvent::Called(None), action),
        answers(after(connected, executed::<E>()), RecvEvent::Called(None), again),
    ensures
        action is Receive,
        after(state, RecvEvent::<E>::Called(None)) == state,
        again is Receive,
        after(after(connected, executed::<E>()), RecvEvent::<E>::Called(None)) == after(
            connected,
            executed::<E>(),
        ),
{
}

/// Whatever fails while a listener reconnects, it keeps its channels, and asks for a connection
/// again the next time that a notification is asked for.
pub proof fn law_failed_reconnect_is_retried<E>(
    state: ListenerState,
    failed: RecvEvent<E>,
    error: E,
    answer: RecvAction<E>,
    retry: RecvAction<E>,
)
    requires
        failed == RecvEvent::Acquired(Err(error)) || failed == RecvEvent::Executed(Err(error)),
        expected(state, failed),
        answers(state, failed, answer),
        answers(after(state, failed), RecvEvent::Called(None), retry),
    ensures
        answer == RecvAction::Return(Err(error)),
        retry is Acquire,
        after(after(state, failed), RecvEvent::<E>::Called(None)).link is Disconnected,
        after(after(state, failed), RecvEvent::<E>::Called(None)).channels == state.channels,
{
}

/// Stopping to listen on a channel undoes starting to listen on it, where the listener was not
/// subscribed to it before.
pub proof fn law_unlisten_undoes_listen(names: Seq<Seq<char>>, name: Seq<char>)
    requires
        !names.contains(name),
    ensures
        without_first(names.push(name), name) == names,
{
    assert forall|i: int| 0 <= i < names.len() implies names.push(name)[i] != name by {
        assert(names.contains(names[i]));
    }
    lemma_without_first_at(names.push(name), name, names.len() as int);
    assert(names.push(name).remove(names.len() as int) == names);
}

/// Stopping to listen on a channel drops one subscription to it and keeps the others, whether or
/// not the channel was subscribed to more than once.
pub proof fn law_unlisten_drops_one_subscription(names: Seq<Seq<char>>, name: Seq<char>)
    ensures
        without_first(names, name).to_multiset() == names.to_multiset().remove(name),
{
    broadcast use vstd::seq_lib::group_to_multiset_ensures;

    if names.contains(name) {
        let position = names.index_of_first(name).unwrap();
        names.index_of_first_ensures(name);
        lemma_without_first_at(names, name, position);
    } else {
        lemma_without_first_absent(names, name);
    }
}

} // verus!
