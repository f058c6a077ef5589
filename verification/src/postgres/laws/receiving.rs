//! Laws of commands and of receiving: what happens to what the server, the pool and the caller hand
//! in.

use vstd::prelude::*;

use crate::postgres::listener::{
    after, answers, carries_out, expected, is_death, succeeded, CommandAction, CommandEvent, Link,
    ListenerState, Message, ReadErrorKind, RecvAction, RecvEvent, StreamError,
};
use crate::postgres::notification::{Notification, PgNotification};
use crate::postgres::quoting::truncated;
use crate::postgres::reading::{law_listen_all_names_its_channels, read_listen_all};

verus! {

/// Every notification that was waiting, and every one that the server sends and that decodes, is
/// handed to the caller unchanged, whatever it holds and whatever state the listener is in; and
/// the state stays as it is.
pub proof fn law_notifications_are_handed_over<E>(
    state: ListenerState,
    notification: Notification,
    action: RecvAction<E>,
)
    ensures
        answers(state, RecvEvent::<E>::Called(Some(notification)), action) <==> action
            == RecvAction::<E>::Return(Ok(PgNotification(notification))),
        answers(
            state,
            RecvEvent::<E>::Received(Ok(Message::NotificationResponse(Ok(notification)))),
            action,
        ) <==> action == RecvAction::<E>::Return(Ok(PgNotification(notification))),
        after(state, RecvEvent::<E>::Called(Some(notification))) == state,
        after(
            state,
            RecvEvent::<E>::Received(Ok(Message::NotificationResponse(Ok(notification)))),
        ) == state,
{
}

/// Every error is handed to the caller unchanged, but for that of a dead connection: the pool's,
/// that of the subscribing statements, that of decoding a notification, that of a read that is no
/// death, and any other.
pub proof fn law_errors_are_handed_over<E>(
    state: ListenerState,
    kind: ReadErrorKind,
    error: E,
    action: RecvAction<E>,
)
    ensures
        answers(state, RecvEvent::Acquired(Err(error)), action) <==> action == RecvAction::Return(
            Err(error),
        ),
        answers(state, RecvEvent::Executed(Err(error)), action) <==> action == RecvAction::Return(
            Err(error),
        ),
        answers(
            state,
            RecvEvent::Received(Ok(Message::NotificationResponse(Err(error)))),
            action,
        ) <==> action == RecvAction::Return(Err(error)),
        answers(state, RecvEvent::Received(Err(StreamError::Other(error))), action) <==> action
            == RecvAction::Return(Err(error)),
        kind is Other ==> (answers(
            state,
            RecvEvent::Received(Err(StreamError::Read { kind, error })),
            action,
        ) <==> action == RecvAction::Return(Err(error))),
        after(state, RecvEvent::Acquired(Err(error))) == state,
        after(state, RecvEvent::Received(Ok(Message::NotificationResponse(Err(error))))) == state,
        after(state, RecvEvent::Received(Err(StreamError::Other(error)))) == state,
        kind is Other ==> after(
            state,
            RecvEvent::Received(Err(StreamError::Read { kind, error })),
        ) == state,
{
}

/// What the caller is given came in with the event: no notification and no error is made up.
pub proof fn law_nothing_is_made_up<E>(
    state: ListenerState,
    event: RecvEvent<E>,
    given: Result<PgNotification, E>,
)
    requires
        answers(state, event, RecvAction::Return(given)),
    ensures
        match given {
            Ok(notification) => {
                ||| event == RecvEvent::<E>::Called(Some(notification.0))
                ||| event == RecvEvent::<E>::Received(
                    Ok(Message::NotificationResponse(Ok(notification.0))),
                )
            },
            Err(error) => {
                ||| event == RecvEvent::<E>::Acquired(Err(error))
                ||| event == RecvEvent::<E>::Executed(Err(error))
                ||| event == RecvEvent::<E>::Received(
                    Ok(Message::NotificationResponse(Err(error))),
                )
                ||| event == RecvEvent::<E>::Received(Err(StreamError::Other(error)))
                ||| exists|kind: ReadErrorKind|
                    event == RecvEvent::<E>::Received(
                        Err(StreamError::Read { kind, error }),
                    ) && !(#[trigger] is_death(kind))
            },
        },
{
    if let RecvEvent::Received(Err(StreamError::Read { kind, error })) = event {
        assert(!is_death(kind));
    }
}

/// A connection is taken for dead exactly when reading from it fails by an abort, a reset, a broken
/// pipe, an unexpected end or for want of a connection.
pub proof fn law_deaths(kind: ReadErrorKind)
    ensures
        is_death(ReadErrorKind::ConnectionAborted),
        is_death(ReadErrorKind::ConnectionReset),
        is_death(ReadErrorKind::BrokenPipe),
        is_death(ReadErrorKind::UnexpectedEof),
        is_death(ReadErrorKind::NotConnected),
        is_death(kind) <==> kind != ReadErrorKind::Other,
{
}

/// A dead connection is given up and another is asked for, whatever state the channels are in; the
/// sender is kept for the next connection.
pub proof fn law_dead_connection_is_replaced<E>(
    state: ListenerState,
    kind: ReadErrorKind,
    error: E,
    action: RecvAction<E>,
)
    requires
        !(kind is Other),
    ensures
        answers(state, RecvEvent::Received(Err(StreamError::Read { kind, error })), action)
            <==> action == RecvAction::<E>::Reconnect,
        after(state, RecvEvent::Received(Err(StreamError::Read { kind, error }))) == (
        ListenerState {
            link: Link::Disconnected,
            has_sender: state.has_sender,
            channels: state.channels,
        }),
{
}

/// A message that says that the server is ready takes one off the count of those that are waited
/// for; any other message is passed over; neither changes the state.
pub proof fn law_other_messages<E>(state: ListenerState, pending: usize, action: RecvAction<E>)
    requires
        pending > 0,
    ensures
        answers(
            state,
            RecvEvent::<E>::Received(
                Ok(Message::ReadyForQuery { pending_ready_for_query_count: pending }),
            ),
            action,
        ) <==> (action matches RecvAction::MarkReady { pending_ready_for_query_count: left } && left
            + 1 == pending),
        answers(state, RecvEvent::<E>::Received(Ok(Message::Other)), action) <==> action
            == RecvAction::<E>::Receive,
        after(
            state,
            RecvEvent::<E>::Received(
                Ok(Message::ReadyForQuery { pending_ready_for_query_count: pending }),
            ),
        ) == state,
        after(state, RecvEvent::<E>::Received(Ok(Message::Other))) == state,
{
}

/// Asked for a notification with nothing waiting, a listener receives from its connection where it
/// has one, and asks for one where it has none. A connection that was being subscribed is given
/// up, and the sender with it.
pub proof fn law_asked_with_nothing_waiting<E>(state: ListenerState, action: RecvAction<E>)
    ensures
        state.link is Connected ==> (answers(state, RecvEvent::<E>::Called(None), action)
            <==> action == RecvAction::<E>::Receive),
        !(state.link is Connected) ==> (answers(state, RecvEvent::<E>::Called(None), action)
            <==> action == RecvAction::<E>::Acquire),
        !(state.link is Subscribing) ==> after(state, RecvEvent::<E>::Called(None)) == state,
        state.link is Subscribing ==> after(state, RecvEvent::<E>::Called(None)) == (
        ListenerState { link: Link::Disconnected, has_sender: false, channels: state.channels }),
{
}

/// A new connection is subscribed to every channel of the list, in order, and to no other; it is in
/// use once that has succeeded. Where it fails, the connection is given up, and the sender with
/// it.
pub proof fn law_new_connection_is_subscribed<E>(
    state: ListenerState,
    error: E,
    action: RecvAction<E>,
)
    ensures
        answers(state, RecvEvent::<E>::Acquired(Ok(())), action) ==> (action matches
            RecvAction::Execute(query) && read_listen_all(query@) == Some(
            Seq::new(state.channels.len(), |i: int| truncated(state.channels[i])),
        )),
        after(state, RecvEvent::<E>::Acquired(Ok(()))) == (ListenerState {
            link: Link::Subscribing,
            has_sender: state.has_sender,
            channels: state.channels,
        }),
        answers(state, RecvEvent::<E>::Executed(Ok(())), action) <==> action
            == RecvAction::<E>::Receive,
        after(state, RecvEvent::<E>::Executed(Ok(()))) == (ListenerState {
            link: Link::Connected,
            has_sender: state.has_sender,
            channels: state.channels,
        }),
        after(state, RecvEvent::Executed(Err(error))) == (ListenerState {
            link: Link::Disconnected,
            has_sender: false,
            channels: state.channels,
        }),
{
    law_listen_all_names_its_channels(state.channels);
    assert(state.channels.map_values(|name: Seq<char>| truncated(name)) =~= Seq::new(
        state.channels.len(),
        |i: int| truncated(state.channels[i]),
    ));
}

/// A listener can be asked for a notification at any time. It takes a connection where it has none,
/// the outcome of subscribing where it is subscribing, and anything that is received where it is
/// connected, but for a message that says that the server is ready where nothing is waited for.
pub proof fn law_events_that_can_happen<E>(
    state: ListenerState,
    buffered: Option<Notification>,
    outcome: Result<(), E>,
    decoded: Result<Notification, E>,
    pending: usize,
    failed: StreamError<E>,
)
    ensures
        expected(state, RecvEvent::<E>::Called(buffered)),
        expected(state, RecvEvent::Acquired(outcome)) <==> state.link == Link::Disconnected,
        expected(state, RecvEvent::Executed(outcome)) <==> state.link == Link::Subscribing,
        expected(state, RecvEvent::Received(Ok(Message::NotificationResponse(decoded))))
            <==> state.link == Link::Connected,
        expected(
            state,
            RecvEvent::<E>::Received(
                Ok(Message::ReadyForQuery { pending_ready_for_query_count: pending }),
            ),
        ) <==> state.link == Link::Connected && pending > 0,
        expected(state, RecvEvent::<E>::Received(Ok(Message::Other))) <==> state.link
            == Link::Connected,
        expected(state, RecvEvent::Received(Err(failed))) <==> state.link == Link::Connected,
{
}

/// A command runs its statements, whatever they hold, and then hands on what came of them; it has
/// succeeded exactly when they have run without an error.
pub proof fn law_commands_run_their_statements<E>(
    statements: Seq<char>,
    outcome: Result<(), E>,
    action: CommandAction<E>,
)
    ensures
        carries_out(CommandEvent::Called, statements, action) <==> (action matches
            CommandAction::Execute(query) && query@ == statements),
        carries_out(CommandEvent::Executed(outcome), statements, action) <==> action
            == CommandAction::Return(outcome),
        !succeeded(CommandEvent::<E>::Called),
        succeeded(CommandEvent::Executed(outcome)) <==> outcome is Ok,
{
}

} // verus!
