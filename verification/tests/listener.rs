use sqlx_core::postgres::listener::{
    means_death, CommandAction, CommandEvent, Link, Message, PgListener, ReadErrorKind,
    RecvAction, RecvEvent, StreamError,
};
use sqlx_core::postgres::notification::{Notification, PgNotification};
use sqlx_core::postgres::quoting::{
    build_listen_all_query, ident, listen_query, unlisten_all_query, unlisten_query,
};

#[test]
fn test_build_listen_all_query_with_single_channel() {
    let output = build_listen_all_query(&["test"]);
    assert_eq!(output.as_str(), r#"LISTEN "test";"#);
}

#[test]
fn test_build_listen_all_query_with_multiple_channels() {
    let output = build_listen_all_query(&["channel.0", "channel.1"]);
    assert_eq!(output.as_str(), r#"LISTEN "channel.0";LISTEN "channel.1";"#);
}

#[test]
fn build_listen_all_query_without_channels_is_empty() {
    let none: [&str; 0] = [];
    assert_eq!(build_listen_all_query(&none), "");
}

#[test]
fn build_listen_all_query_takes_owned_names() {
    let names = vec!["A".to_string(), "b\"\0c".to_string()];
    assert_eq!(build_listen_all_query(&names), r#"LISTEN "A";LISTEN "b""";"#);
}

#[test]
fn ident_doubles_quotes() {
    assert_eq!(ident(r#"a"b""c"#), r#"a""b""""c"#);
    assert_eq!(ident(r#"""#), r#""""#);
}

#[test]
fn ident_stops_at_nul() {
    assert_eq!(ident("abc\0def"), "abc");
    assert_eq!(ident("\0"), "");
    assert_eq!(ident("a\"\0\"b\0"), "a\"\"");
}

#[test]
fn ident_keeps_everything_else() {
    assert_eq!(ident(""), "");
    assert_eq!(ident("MixedCase'; -- \u{e9}\u{1f600}"), "MixedCase'; -- \u{e9}\u{1f600}");
}

#[test]
fn single_statements_are_quoted_and_unterminated() {
    assert_eq!(listen_query("My\"Chan"), r#"LISTEN "My""Chan""#);
    assert_eq!(unlisten_query("My\"Chan"), r#"UNLISTEN "My""Chan""#);
    assert_eq!(unlisten_all_query(), "UNLISTEN *");
}

fn notification(payload: &str) -> Notification {
    Notification {
        process_id: 7,
        channel: "chan".as_bytes().to_vec(),
        payload: payload.as_bytes().to_vec(),
    }
}

fn connected() -> PgListener {
    match PgListener::from_pool::<&str>(Ok(())) {
        Ok(listener) => listener,
        Err(_) => panic!("a connection was acquired"),
    }
}

fn names(listener: &PgListener) -> Vec<&str> {
    listener.channels().iter().map(|name| name.as_str()).collect()
}

#[test]
fn notification_gives_its_parts() {
    let received = PgNotification(notification("h\u{e9}llo"));
    assert_eq!(received.process_id(), 7);
    assert_eq!(received.channel(), "chan");
    assert_eq!(received.payload(), "h\u{e9}llo");
}

#[test]
fn empty_payload_is_an_empty_string() {
    assert_eq!(PgNotification(notification("")).payload(), "");
}

#[test]
fn pool_has_one_connection_and_no_timeouts() {
    let options = PgListener::pool_options();
    assert_eq!(options.max_size, 1);
    assert_eq!(options.max_lifetime, None);
    assert_eq!(options.idle_timeout, None);
}

#[test]
fn from_pool_forwards_the_error() {
    assert_eq!(PgListener::from_pool(Err("full")).err(), Some("full"));
    let listener = connected();
    assert_eq!(listener.link(), Link::Connected);
    assert!(listener.has_sender());
    assert!(names(&listener).is_empty());
}

const CALLED: CommandEvent<&str> = CommandEvent::Called;

const DONE: CommandEvent<&str> = CommandEvent::Executed(Ok(()));

const FAILED: CommandEvent<&str> = CommandEvent::Executed(Err("no"));

fn execute(query: &str) -> CommandAction<&'static str> {
    CommandAction::Execute(query.to_string())
}

#[test]
fn listen_keeps_the_channel_only_if_the_statement_ran() {
    let mut listener = connected();
    assert_eq!(listener.listen("a\"", CALLED), execute(r#"LISTEN "a""""#));
    assert!(names(&listener).is_empty());
    assert_eq!(listener.listen("a\"", DONE), CommandAction::Return(Ok(())));
    assert_eq!(listener.listen("b", FAILED), CommandAction::Return(Err("no")));
    assert_eq!(names(&listener), vec!["a\""]);
}

#[test]
fn listen_all_keeps_the_channels_and_names_the_new_ones_only() {
    let mut listener = connected();
    assert_eq!(listener.listen("a", DONE), CommandAction::Return(Ok(())));
    let channels = ["b", "c\""];
    assert_eq!(
        listener.listen_all(&channels, CALLED),
        execute(r#"LISTEN "b";LISTEN "c""";"#)
    );
    assert_eq!(names(&listener), vec!["a", "b", "c\""]);
    assert_eq!(listener.listen_all(&channels, DONE), CommandAction::Return(Ok(())));
    assert_eq!(names(&listener), vec!["a", "b", "c\""]);
    assert_eq!(listener.listen_all(&channels, FAILED), CommandAction::Return(Err("no")));
    assert_eq!(names(&listener), vec!["a", "b", "c\""]);
}

#[test]
fn listen_all_keeps_the_channels_without_a_connection() {
    let mut listener = connected();
    let _ = listener.recv(read_failed(ReadErrorKind::ConnectionReset));
    assert_eq!(listener.listen_all(&["a"], CALLED), execute(r#"LISTEN "a";"#));
    assert_eq!(names(&listener), vec!["a"]);
    assert_eq!(listener.link(), Link::Disconnected);
}

#[test]
fn unlisten_drops_the_first_subscription() {
    let mut listener = connected();
    let _ = listener.listen_all(&["a", "b", "a", "c"], CALLED);
    assert_eq!(listener.unlisten("a", CALLED), execute(r#"UNLISTEN "a""#));
    assert_eq!(listener.unlisten("a", FAILED), CommandAction::Return(Err("no")));
    assert_eq!(names(&listener), vec!["a", "b", "a", "c"]);
    assert_eq!(listener.unlisten("a", DONE), CommandAction::Return(Ok(())));
    assert_eq!(names(&listener), vec!["b", "a", "c"]);
    assert_eq!(listener.unlisten("z", DONE), CommandAction::Return(Ok(())));
    assert_eq!(names(&listener), vec!["b", "a", "c"]);
}

#[test]
fn unlisten_undoes_listen() {
    let mut listener = connected();
    let _ = listener.listen_all(&["a", "b"], CALLED);
    assert_eq!(listener.listen("c", DONE), CommandAction::Return(Ok(())));
    assert_eq!(listener.unlisten("c", DONE), CommandAction::Return(Ok(())));
    assert_eq!(names(&listener), vec!["a", "b"]);
}

#[test]
fn unlisten_all_drops_everything_if_the_statement_ran() {
    let mut listener = connected();
    let _ = listener.listen_all(&["a", "b"], CALLED);
    assert_eq!(listener.unlisten_all(CALLED), execute("UNLISTEN *"));
    assert_eq!(listener.unlisten_all(FAILED), CommandAction::Return(Err("no")));
    assert_eq!(names(&listener), vec!["a", "b"]);
    assert_eq!(listener.unlisten_all(DONE), CommandAction::Return(Ok(())));
    assert!(names(&listener).is_empty());
}

#[test]
fn recv_flushes_the_buffer_first() {
    let mut listener = connected();
    let event: RecvEvent<&str> = RecvEvent::Called(Some(notification("x")));
    assert!(
        listener.recv(event) == RecvAction::Return(Ok(PgNotification(notification("x"))))
    );
    assert!(listener.recv::<&str>(RecvEvent::Called(None)) == RecvAction::Receive);
}

#[test]
fn recv_returns_notifications_and_errors() {
    let mut listener = connected();
    let message: Message<&str> = Message::NotificationResponse(Ok(notification("x")));
    assert!(
        listener.recv(RecvEvent::Received(Ok(message)))
            == RecvAction::Return(Ok(PgNotification(notification("x"))))
    );
    assert!(
        listener.recv(RecvEvent::Received(Ok(Message::NotificationResponse(Err("bad")))))
            == RecvAction::Return(Err("bad"))
    );
    assert!(
        listener.recv(RecvEvent::Received(Err(StreamError::Other("tls"))))
            == RecvAction::Return(Err("tls"))
    );
    assert_eq!(listener.link(), Link::Connected);
}

#[test]
fn recv_counts_ready_messages_and_ignores_others() {
    let mut listener = connected();
    let ready: Message<&str> = Message::ReadyForQuery { pending_ready_for_query_count: 3 };
    assert!(
        listener.recv(RecvEvent::Received(Ok(ready)))
            == RecvAction::MarkReady { pending_ready_for_query_count: 2 }
    );
    let other: Message<&str> = Message::Other;
    assert!(listener.recv(RecvEvent::Received(Ok(other))) == RecvAction::Receive);
}

fn read_failed(kind: ReadErrorKind) -> RecvEvent<&'static str> {
    RecvEvent::Received(Err(StreamError::Read { kind, error: "io" }))
}

#[test]
fn recv_reconnects_however_the_connection_dies() {
    for kind in vec![
        ReadErrorKind::ConnectionAborted,
        ReadErrorKind::ConnectionReset,
        ReadErrorKind::BrokenPipe,
        ReadErrorKind::UnexpectedEof,
        ReadErrorKind::NotConnected,
    ] {
        assert!(means_death(kind));
        let mut listener = connected();
        let _ = listener.listen_all(&["a", "b"], CALLED);
        assert!(listener.recv(read_failed(kind)) == RecvAction::Reconnect);
        assert!(
            listener.recv::<&str>(RecvEvent::Acquired(Ok(())))
                == RecvAction::Execute(r#"LISTEN "a";LISTEN "b";"#.to_string())
        );
        assert!(listener.recv::<&str>(RecvEvent::Executed(Ok(()))) == RecvAction::Receive);
        let message: Message<&str> = Message::NotificationResponse(Ok(notification("x")));
        assert!(
            listener.recv(RecvEvent::Received(Ok(message)))
                == RecvAction::Return(Ok(PgNotification(notification("x"))))
        );
    }
}

#[test]
fn recv_returns_read_errors_that_are_no_death() {
    assert!(!means_death(ReadErrorKind::Other));
    let mut listener = connected();
    assert!(
        listener.recv(read_failed(ReadErrorKind::Other))
            == RecvAction::Return(Err("io"))
    );
    assert_eq!(listener.link(), Link::Connected);
}

#[test]
fn connect_if_needed_does_nothing_on_a_connection() {
    let mut listener = connected();
    let _ = listener.listen_all(&["a"], CALLED);
    for _ in 0..2 {
        assert!(listener.connect_if_needed::<&str>() == RecvAction::Receive);
        assert_eq!(listener.link(), Link::Connected);
        assert!(listener.has_sender());
        assert_eq!(names(&listener), vec!["a"]);
    }
    let _ = listener.recv(read_failed(ReadErrorKind::BrokenPipe));
    assert!(listener.connect_if_needed::<&str>() == RecvAction::Acquire);
    assert_eq!(listener.link(), Link::Disconnected);
    assert!(listener.has_sender());
}

#[test]
fn recv_reconnects_and_subscribes_again() {
    let mut listener = connected();
    let _ = listener.listen_all(&["a", "b"], CALLED);
    let died = read_failed(ReadErrorKind::ConnectionAborted);
    assert!(listener.recv(died) == RecvAction::Reconnect);
    assert_eq!(listener.link(), Link::Disconnected);
    assert!(listener.has_sender());
    assert!(
        listener.recv::<&str>(RecvEvent::Acquired(Ok(())))
            == RecvAction::Execute(r#"LISTEN "a";LISTEN "b";"#.to_string())
    );
    assert_eq!(listener.link(), Link::Subscribing);
    assert!(listener.recv::<&str>(RecvEvent::Executed(Ok(()))) == RecvAction::Receive);
    assert_eq!(listener.link(), Link::Connected);
    assert!(listener.has_sender());
    assert_eq!(names(&listener), vec!["a", "b"]);
}

#[test]
fn recv_asks_again_after_a_failed_reconnect() {
    let mut listener = connected();
    let died = read_failed(ReadErrorKind::ConnectionAborted);
    assert!(listener.recv(died) == RecvAction::Reconnect);
    assert!(
        listener.recv(RecvEvent::Acquired(Err("full")))
            == RecvAction::Return(Err("full"))
    );
    assert!(listener.has_sender());
    assert!(listener.recv::<&str>(RecvEvent::Called(None)) == RecvAction::Acquire);
    assert!(
        listener.recv::<&str>(RecvEvent::Acquired(Ok(())))
            == RecvAction::Execute(String::new())
    );
    assert!(
        listener.recv(RecvEvent::Executed(Err("denied")))
            == RecvAction::Return(Err("denied"))
    );
    assert_eq!(listener.link(), Link::Disconnected);
    assert!(!listener.has_sender());
    assert!(listener.recv::<&str>(RecvEvent::Called(None)) == RecvAction::Acquire);
}

#[test]
fn recv_starts_over_after_an_abandoned_reconnect() {
    let mut listener = connected();
    let died = read_failed(ReadErrorKind::ConnectionAborted);
    assert!(listener.recv(died) == RecvAction::Reconnect);
    let _ = listener.recv::<&str>(RecvEvent::Acquired(Ok(())));
    assert!(listener.recv::<&str>(RecvEvent::Called(None)) == RecvAction::Acquire);
    assert_eq!(listener.link(), Link::Disconnected);
    assert!(!listener.has_sender());
}
