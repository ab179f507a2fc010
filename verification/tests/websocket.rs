use screeps_network::error::{ApiError, ParseError, WebSocketError};
use screeps_network::login::LoginDetails;
use screeps_network::message::{CloseData, OwnedMessage, ScreepsMessage, SockjsMessage};
use screeps_network::request::NetworkEvent;
use screeps_network::room::RoomName;
use screeps_network::ws::{
    read_verdict, Action, Effect, Executor, Reply, Step, Verdict, WebsocketRequest,
    WebsocketRequestOrRaw,
};

fn room(x_coord: i32, y_coord: i32) -> RoomName {
    RoomName { x_coord, y_coord }
}

fn executor() -> Executor {
    Executor::new(LoginDetails::new("ada".to_owned(), "engine".to_owned()))
}

fn rooms(rooms: Vec<RoomName>) -> WebsocketRequestOrRaw {
    WebsocketRequestOrRaw::Structured(WebsocketRequest::SetMapSubscribes { rooms })
}

fn lost(description: &str) -> WebSocketError {
    WebSocketError { description: description.to_owned() }
}

fn received(text: &str) -> Reply {
    Reply::Received(Ok(Some(OwnedMessage::Text(text.to_owned()))))
}

/// The text of the message to send over the connection that is kept.
fn sends(step: &Step) -> &str {
    match &step.action {
        Action::Send { message: OwnedMessage::Text(text) } => text,
        other => panic!("{:?}", other),
    }
}

fn greets(step: &Step) -> &OwnedMessage {
    match &step.action {
        Action::Greet { message } => message,
        other => panic!("{:?}", other),
    }
}

fn relayed(step: &Step) -> &NetworkEvent {
    assert_eq!(step.effects.len(), 1);
    match &step.effects[0] {
        Effect::Relay(event) => event,
        other => panic!("{:?}", other),
    }
}

/// From the wish for a token to the wait for the server's answer.
fn listen(executor: Executor, step: Step) -> Executor {
    assert!(matches!(step.action, Action::TakeToken));
    let (executor, step) = executor.resume(Reply::Token(Some("tok".to_owned()))).unwrap();
    assert!(matches!(step.action, Action::Connect));
    let (executor, step) = executor.resume(Reply::Connected(Ok(()))).unwrap();
    assert_eq!(greets(&step), &OwnedMessage::Text("[\"auth tok\"]".to_owned()));
    let (executor, step) = executor.resume(Reply::Sent(Ok(()))).unwrap();
    assert!(matches!(step.action, Action::Receive));
    executor
}

/// From the wish for a token to the message that is sent over the new connection.
fn connect(executor: Executor, step: Step, id: u16) -> (Executor, Step) {
    let executor = listen(executor, step);
    let (executor, step) = executor.resume(received("a[\"auth ok next\"]")).unwrap();
    assert_eq!(step.effects.len(), 2);
    match &step.effects[0] {
        Effect::ReturnToken(token) => assert_eq!(token, "next"),
        other => panic!("{:?}", other),
    }
    match &step.effects[1] {
        Effect::StartReader { connection_id } => assert_eq!(*connection_id, id),
        other => panic!("{:?}", other),
    }
    (executor, step)
}

/// An executor that is subscribed to some rooms over its first connection.
fn subscribed(wanted: Vec<RoomName>) -> Executor {
    let count = wanted.len();
    let (executor, step) = executor().run(rooms(wanted));
    let (mut executor, mut step) = connect(executor, step, 1);
    for _ in 0..count {
        assert!(matches!(step.action, Action::Send { .. }));
        let next = executor.resume(Reply::Sent(Ok(()))).unwrap();
        executor = next.0;
        step = next.1;
    }
    assert!(matches!(step.action, Action::Done));
    executor
}

#[test]
fn executor_keeps_its_login() {
    assert_eq!(executor().login().username(), "ada");
}

#[test]
fn subscribing_brings_up_a_connection_first() {
    let (executor, step) = executor().run(rooms(vec![room(0, 0), room(-4, -5)]));
    let (executor, step) = connect(executor, step, 1);
    assert_eq!(sends(&step), "[\"subscribe roomMap2:E0N0\"]");
    assert!(!executor.is_subscribed(room(0, 0)));
    let (executor, step) = executor.resume(Reply::Sent(Ok(()))).unwrap();
    assert!(executor.is_subscribed(room(0, 0)));
    assert_eq!(sends(&step), "[\"subscribe roomMap2:W3S4\"]");
    let (executor, step) = executor.resume(Reply::Sent(Ok(()))).unwrap();
    assert!(executor.is_subscribed(room(-4, -5)));
    assert!(matches!(step.action, Action::Done));
    assert!(step.effects.is_empty());
}

#[test]
fn rooms_that_are_not_wanted_are_unsubscribed_from() {
    let executor = subscribed(vec![room(0, 0), room(1, 1)]);
    let (executor, step) = executor.run(rooms(vec![room(2, 2), room(1, 1)]));
    assert_eq!(sends(&step), "[\"subscribe roomMap2:E2N2\"]");
    let (executor, step) = executor.resume(Reply::Sent(Ok(()))).unwrap();
    assert_eq!(sends(&step), "[\"unsubscribe roomMap2:E0N0\"]");
    assert!(executor.is_subscribed(room(0, 0)));
    let (executor, step) = executor.resume(Reply::Sent(Ok(()))).unwrap();
    assert!(matches!(step.action, Action::Done));
    assert!(!executor.is_subscribed(room(0, 0)));
    assert!(executor.is_subscribed(room(1, 1)));
    assert!(executor.is_subscribed(room(2, 2)));
}

#[test]
fn all_rooms_can_be_given_up() {
    let executor = subscribed(vec![room(0, 0), room(1, 1)]);
    let (mut executor, mut step) = executor.run(rooms(vec![]));
    let mut texts = vec![];
    for _ in 0..2 {
        texts.push(sends(&step).to_owned());
        let next = executor.resume(Reply::Sent(Ok(()))).unwrap();
        executor = next.0;
        step = next.1;
    }
    texts.sort();
    assert_eq!(
        texts,
        vec!["[\"unsubscribe roomMap2:E0N0\"]", "[\"unsubscribe roomMap2:E1N1\"]"]
    );
    assert!(matches!(step.action, Action::Done));
    assert!(!executor.is_subscribed(room(0, 0)));
    assert!(!executor.is_subscribed(room(1, 1)));
}

#[test]
fn nothing_is_sent_when_nothing_changes() {
    let executor = subscribed(vec![room(3, 3)]);
    let (executor, step) = executor.run(rooms(vec![room(3, 3), room(3, 3)]));
    assert!(matches!(step.action, Action::Done));
    assert!(executor.is_subscribed(room(3, 3)));
}

#[test]
fn a_room_listed_twice_is_subscribed_to_once() {
    let (executor, step) = executor().run(rooms(vec![room(5, 5), room(5, 5)]));
    let (executor, step) = connect(executor, step, 1);
    assert_eq!(sends(&step), "[\"subscribe roomMap2:E5N5\"]");
    let (executor, step) = executor.resume(Reply::Sent(Ok(()))).unwrap();
    assert!(matches!(step.action, Action::Done));
    assert!(executor.is_subscribed(room(5, 5)));
}

#[test]
fn a_room_listed_twice_is_tried_again_after_a_loss() {
    let (executor, step) = executor().run(rooms(vec![room(5, 5), room(5, 5)]));
    let (executor, _) = connect(executor, step, 1);
    let (executor, step) = executor.resume(Reply::Sent(Err(lost("cut")))).unwrap();
    assert!(matches!(relayed(&step), NetworkEvent::WebsocketError { .. }));
    assert!(!executor.is_subscribed(room(5, 5)));
    let (executor, step) = connect(executor, step, 2);
    assert_eq!(sends(&step), "[\"subscribe roomMap2:E5N5\"]");
    let (executor, step) = executor.resume(Reply::Sent(Ok(()))).unwrap();
    assert!(matches!(step.action, Action::Done));
    assert!(executor.is_subscribed(room(5, 5)));
}

#[test]
fn a_login_is_made_where_there_is_no_token() {
    let (executor, step) = executor().run(rooms(vec![room(0, 0)]));
    assert!(matches!(step.action, Action::TakeToken));
    let (executor, step) = executor.resume(Reply::Token(None)).unwrap();
    match &step.action {
        Action::Login { username, password } => {
            assert_eq!((username.as_str(), password.as_str()), ("ada", "engine"))
        }
        other => panic!("{:?}", other),
    }
    let (executor, step) = executor.resume(Reply::LoggedIn(Ok("new".to_owned()))).unwrap();
    assert!(matches!(step.action, Action::TakeToken));
    match &step.effects[0] {
        Effect::ReturnToken(token) => assert_eq!(token, "new"),
        other => panic!("{:?}", other),
    }
    let (_, step) = executor.resume(Reply::Token(Some("n\"w".to_owned()))).unwrap();
    assert!(matches!(step.action, Action::Connect));
}

#[test]
fn tokens_are_escaped_where_json_needs_it() {
    let (executor, _) = executor().run(rooms(vec![room(0, 0)]));
    let (executor, _) = executor.resume(Reply::Token(Some("n\"w".to_owned()))).unwrap();
    let (_, step) = executor.resume(Reply::Connected(Ok(()))).unwrap();
    assert_eq!(greets(&step), &OwnedMessage::Text("[\"auth n\\\"w\"]".to_owned()));
    for (token, written) in vec![
        ("a\\b", "a\\\\b"),
        ("\u{8}\t\n\u{c}\r", "\\b\\t\\n\\f\\r"),
        ("\u{0}\u{1f}\u{b}", "\\u0000\\u001f\\u000b"),
        ("\u{7f}/\u{e9}", "\u{7f}/\u{e9}"),
    ] {
        let (executor, _) = Executor::new(LoginDetails::new("a".to_owned(), "b".to_owned()))
            .run(rooms(vec![room(0, 0)]));
        let (executor, _) = executor.resume(Reply::Token(Some(token.to_owned()))).unwrap();
        let (_, step) = executor.resume(Reply::Connected(Ok(()))).unwrap();
        assert_eq!(greets(&step), &OwnedMessage::Text(format!("[\"auth {}\"]", written)));
    }
}

#[test]
fn a_failed_login_is_relayed() {
    let (executor, _) = executor().run(rooms(vec![room(0, 0)]));
    let (executor, _) = executor.resume(Reply::Token(None)).unwrap();
    let (executor, step) = executor.resume(Reply::LoggedIn(Err(ApiError::StatusCode(503)))).unwrap();
    match relayed(&step) {
        NetworkEvent::WebsocketHttpError { error } => assert_eq!(error, &ApiError::StatusCode(503)),
        other => panic!("{:?}", other),
    }
    assert!(matches!(step.action, Action::Done));
    assert!(!executor.is_subscribed(room(0, 0)));
}

#[test]
fn a_failed_connection_is_relayed_for_every_room() {
    let (executor, _) = executor().run(rooms(vec![room(0, 0), room(1, 1)]));
    let (executor, _) = executor.resume(Reply::Token(Some("t".to_owned()))).unwrap();
    let (executor, step) = executor.resume(Reply::Connected(Err(lost("refused")))).unwrap();
    match relayed(&step) {
        NetworkEvent::WebsocketError { error } => assert_eq!(error.description, "refused"),
        other => panic!("{:?}", other),
    }
    assert!(matches!(step.action, Action::TakeToken));
    let (executor, _) = executor.resume(Reply::Token(Some("t".to_owned()))).unwrap();
    let (_, step) = executor.resume(Reply::Connected(Err(lost("again")))).unwrap();
    relayed(&step);
    assert!(matches!(step.action, Action::Done));
}

#[test]
fn a_token_that_cannot_be_sent_is_relayed() {
    let (executor, _) = executor().run(rooms(vec![room(0, 0)]));
    let (executor, _) = executor.resume(Reply::Token(Some("t".to_owned()))).unwrap();
    let (executor, _) = executor.resume(Reply::Connected(Ok(()))).unwrap();
    let (_, step) = executor.resume(Reply::Sent(Err(lost("cut")))).unwrap();
    assert!(matches!(relayed(&step), NetworkEvent::WebsocketError { .. }));
}

#[test]
fn a_refused_token_is_relayed_as_unauthorized() {
    for refusal in vec!["m\"auth failed\"", "a[\"time 3\",\"auth failed\",\"auth ok x\"]"] {
        let (executor, step) = executor().run(rooms(vec![room(0, 0)]));
        let executor = listen(executor, step);
        let (_, step) = executor.resume(received(refusal)).unwrap();
        match relayed(&step) {
            NetworkEvent::WebsocketHttpError { error } => assert_eq!(error, &ApiError::Unauthorized),
            other => panic!("{:?}", other),
        }
        assert!(matches!(step.action, Action::Done));
    }
}

#[test]
fn other_frames_and_pings_do_not_end_the_wait() {
    let (executor, step) = executor().run(rooms(vec![room(0, 0)]));
    let mut executor = listen(executor, step);
    for frame in vec!["o", "h", "m\"time 1\"", "a[\"protocol 4\",\"package 7\"]", ""] {
        let (next, step) = executor.resume(received(frame)).unwrap();
        assert!(matches!(step.action, Action::Receive), "{}", frame);
        assert!(step.effects.is_empty());
        executor = next;
    }
    let ping = Reply::Received(Ok(Some(OwnedMessage::Ping(vec![4, 2]))));
    let (executor, step) = executor.resume(ping).unwrap();
    assert_eq!(greets(&step), &OwnedMessage::Pong(vec![4, 2]));
    let (executor, step) = executor.resume(Reply::Sent(Ok(()))).unwrap();
    assert!(matches!(step.action, Action::Receive));
    let (_, step) = executor.resume(received("m\"auth ok t\"")).unwrap();
    assert_eq!(sends(&step), "[\"subscribe roomMap2:E0N0\"]");
}

#[test]
fn messages_that_are_no_text_are_relayed() {
    let (executor, step) = executor().run(rooms(vec![room(0, 0)]));
    let executor = listen(executor, step);
    let binary = Reply::Received(Ok(Some(OwnedMessage::Binary(vec![1, 2]))));
    let (_, step) = executor.resume(binary).unwrap();
    match relayed(&step) {
        NetworkEvent::WebsocketParseError { error } => assert_eq!(
            error,
            &ParseError::Other("expected text websocket message, found Binary([1, 2])".to_owned())
        ),
        other => panic!("{:?}", other),
    }
}

#[test]
fn malformed_answers_are_relayed() {
    let (executor, step) = executor().run(rooms(vec![room(0, 0)]));
    let executor = listen(executor, step);
    let (_, step) = executor.resume(received("a[oops")).unwrap();
    match relayed(&step) {
        NetworkEvent::WebsocketParseError { error: ParseError::Malformed(reason) } => {
            assert!(!reason.is_empty())
        }
        other => panic!("{:?}", other),
    }
}

#[test]
fn a_peer_that_closes_is_not_relayed() {
    let (executor, step) = executor().run(rooms(vec![room(0, 0)]));
    let executor = listen(executor, step);
    let (executor, step) = executor.resume(Reply::Received(Ok(None))).unwrap();
    assert!(step.effects.is_empty());
    assert!(matches!(step.action, Action::Done));
    assert!(!executor.is_subscribed(room(0, 0)));
}

#[test]
fn a_connection_that_fails_while_listening_is_relayed() {
    let (executor, step) = executor().run(rooms(vec![room(0, 0)]));
    let executor = listen(executor, step);
    let (_, step) = executor.resume(Reply::Received(Err(lost("reset")))).unwrap();
    assert!(matches!(relayed(&step), NetworkEvent::WebsocketError { .. }));
}

#[test]
fn rooms_that_are_too_far_away_are_relayed_as_malformed() {
    let (executor, step) = executor().run(rooms(vec![room(0, 0)]));
    let executor = listen(executor, step);
    let (executor, step) = executor.resume(received("h-2147483648")).unwrap();
    assert!(matches!(step.action, Action::Receive));
    let far = "m\"[\\\"room:W-2147483648N1\\\",{}]\"";
    let (_, step) = executor.resume(received(far)).unwrap();
    match relayed(&step) {
        NetworkEvent::WebsocketParseError { error } => {
            assert_eq!(error, &ParseError::Malformed("room coordinate out of range".to_owned()))
        }
        other => panic!("{:?}", other),
    }
    assert!(matches!(step.action, Action::Done));
}

#[test]
fn close_and_pong_are_shown_in_errors() {
    for (message, text) in vec![
        (OwnedMessage::Close(None), "Close(None)"),
        (OwnedMessage::Pong(vec![]), "Pong([])"),
        (OwnedMessage::Binary(vec![0, 10, 255]), "Binary([0, 10, 255])"),
        (
            OwnedMessage::Close(Some(CloseData { status_code: 1000, reason: "bye".to_owned() })),
            "Close(Some(CloseData { status_code: 1000, reason: \"bye\" }))",
        ),
    ] {
        let (executor, step) = executor().run(rooms(vec![room(0, 0)]));
        let executor = listen(executor, step);
        let (_, step) = executor.resume(Reply::Received(Ok(Some(message)))).unwrap();
        match relayed(&step) {
            NetworkEvent::WebsocketParseError { error } => assert_eq!(
                error,
                &ParseError::Other(format!("expected text websocket message, found {}", text))
            ),
            other => panic!("{:?}", other),
        }
    }
}

#[test]
fn asking_twice_sends_nothing_even_without_a_connection() {
    let executor = subscribed(vec![room(0, 0), room(1, 1)]);
    let pong = OwnedMessage::Pong(vec![]);
    let (executor, _) = executor.run(WebsocketRequestOrRaw::Raw(1, pong));
    let (executor, _) = executor.resume(Reply::Sent(Err(lost("cut")))).unwrap();
    let (executor, step) = executor.run(rooms(vec![room(0, 0), room(1, 1)]));
    assert!(matches!(step.action, Action::Done));
    assert!(step.effects.is_empty());
    assert!(executor.is_subscribed(room(0, 0)));
    let wanted = vec![room(1, 1), room(0, 0), room(1, 1)];
    let (executor, step) = executor.execute(WebsocketRequest::SetMapSubscribes { rooms: wanted });
    assert!(matches!(step.action, Action::Done));
    assert!(step.effects.is_empty());
    assert!(executor.is_subscribed(room(1, 1)));
}

#[test]
fn a_request_sends_each_message_once_and_in_order() {
    let executor = subscribed(vec![room(0, 0), room(1, 1)]);
    let wanted = vec![room(5, 5), room(1, 1), room(4, 4), room(5, 5)];
    let (mut executor, mut step) = executor.run(rooms(wanted));
    let mut texts = vec![];
    while let Action::Send { message: OwnedMessage::Text(text) } = step.action {
        texts.push(text);
        let next = executor.resume(Reply::Sent(Ok(()))).unwrap();
        executor = next.0;
        step = next.1;
    }
    assert!(matches!(step.action, Action::Done));
    assert_eq!(
        texts,
        vec![
            "[\"subscribe roomMap2:E5N5\"]",
            "[\"subscribe roomMap2:E4N4\"]",
            "[\"unsubscribe roomMap2:E0N0\"]"
        ]
    );
}

#[test]
fn a_handshake_answers_pings_and_is_decided_by_all_frames() {
    let (executor, step) = executor().run(rooms(vec![room(0, 0)]));
    let mut executor = listen(executor, step);
    for data in vec![vec![1], vec![], vec![2, 3]] {
        let (next, _) = executor.resume(received("a[\"time 1\"]")).unwrap();
        let ping = Reply::Received(Ok(Some(OwnedMessage::Ping(data.clone()))));
        let (next, step) = next.resume(ping).unwrap();
        assert_eq!(greets(&step), &OwnedMessage::Pong(data));
        let (next, step) = next.resume(Reply::Sent(Ok(()))).unwrap();
        assert!(matches!(step.action, Action::Receive));
        executor = next;
    }
    let (_, step) = executor.resume(received("a[\"auth ok t\",\"auth failed\"]")).unwrap();
    assert_eq!(sends(&step), "[\"subscribe roomMap2:E0N0\"]");
    assert!(matches!(&step.effects[0], Effect::ReturnToken(token) if token == "t"));
}

#[test]
fn losses_decide_which_rooms_are_left() {
    let executor = subscribed(vec![room(0, 0)]);
    let (executor, step) = executor.run(rooms(vec![room(1, 1), room(2, 2)]));
    assert_eq!(sends(&step), "[\"subscribe roomMap2:E1N1\"]");
    let (executor, step) = executor.resume(Reply::Sent(Err(lost("cut")))).unwrap();
    let (executor, step) = connect(executor, step, 2);
    assert_eq!(sends(&step), "[\"subscribe roomMap2:E2N2\"]");
    let (executor, step) = executor.resume(Reply::Sent(Ok(()))).unwrap();
    assert_eq!(sends(&step), "[\"unsubscribe roomMap2:E0N0\"]");
    let (executor, step) = executor.resume(Reply::Sent(Err(lost("cut")))).unwrap();
    assert!(matches!(step.action, Action::Done));
    assert!(executor.is_subscribed(room(0, 0)));
    assert!(!executor.is_subscribed(room(1, 1)));
    assert!(executor.is_subscribed(room(2, 2)));
}

#[test]
fn raw_messages_go_over_the_kept_connection() {
    let executor = subscribed(vec![room(0, 0)]);
    let pong = OwnedMessage::Pong(vec![7]);
    let (executor, step) = executor.run(WebsocketRequestOrRaw::Raw(1, pong));
    match &step.action {
        Action::Send { message } => assert_eq!(message, &OwnedMessage::Pong(vec![7])),
        other => panic!("{:?}", other),
    }
    let (executor, step) = executor.resume(Reply::Sent(Ok(()))).unwrap();
    assert!(matches!(step.action, Action::Done));
    // The connection is still there.
    let (_, step) = executor.run(rooms(vec![room(0, 0), room(1, 1)]));
    assert_eq!(sends(&step), "[\"subscribe roomMap2:E1N1\"]");
}

#[test]
fn stale_raw_messages_are_dropped() {
    let pong = || OwnedMessage::Pong(vec![7]);
    let (executor, step) = executor().run(WebsocketRequestOrRaw::Raw(0, pong()));
    assert!(matches!(step.action, Action::Done));
    assert!(step.effects.is_empty());
    assert!(!executor.is_subscribed(room(0, 0)));
    let executor = subscribed(vec![room(0, 0)]);
    let (executor, step) = executor.run(WebsocketRequestOrRaw::Raw(0, pong()));
    assert!(matches!(step.action, Action::Done));
    let (executor, step) = executor.run(WebsocketRequestOrRaw::Raw(2, pong()));
    assert!(matches!(step.action, Action::Done));
    assert!(executor.is_subscribed(room(0, 0)));
}

#[test]
fn a_lost_raw_message_ends_the_connection() {
    let executor = subscribed(vec![room(0, 0)]);
    let pong = OwnedMessage::Pong(vec![7]);
    let (executor, _) = executor.run(WebsocketRequestOrRaw::Raw(1, pong));
    let (executor, step) = executor.resume(Reply::Sent(Err(lost("cut")))).unwrap();
    assert!(matches!(relayed(&step), NetworkEvent::WebsocketError { .. }));
    assert!(matches!(step.action, Action::Done));
    let (executor, step) = executor.run(WebsocketRequestOrRaw::Raw(1, OwnedMessage::Pong(vec![])));
    assert!(matches!(step.action, Action::Done));
    // The next message brings up another connection, with the next number.
    let (executor, step) = executor.run(rooms(vec![room(0, 0), room(1, 1)]));
    let (_, step) = connect(executor, step, 2);
    assert_eq!(sends(&step), "[\"subscribe roomMap2:E1N1\"]");
}

#[test]
fn a_room_stays_subscribed_when_unsubscribing_fails() {
    let executor = subscribed(vec![room(0, 0)]);
    let (executor, step) = executor.run(rooms(vec![]));
    assert_eq!(sends(&step), "[\"unsubscribe roomMap2:E0N0\"]");
    let (executor, step) = executor.resume(Reply::Sent(Err(lost("cut")))).unwrap();
    relayed(&step);
    assert!(matches!(step.action, Action::Done));
    assert!(executor.is_subscribed(room(0, 0)));
}

#[test]
fn the_first_message_about_the_token_decides() {
    let ok = |token: &str| ScreepsMessage::AuthOk { new_token: token.to_owned() };
    match read_verdict(&SockjsMessage::Messages(vec![
        ScreepsMessage::Other,
        ok("first"),
        ScreepsMessage::AuthFailed,
    ])) {
        Verdict::Granted(token) => assert_eq!(token, "first"),
        other => panic!("{:?}", other),
    }
    assert!(matches!(
        read_verdict(&SockjsMessage::Messages(vec![ScreepsMessage::AuthFailed, ok("late")])),
        Verdict::Refused
    ));
    assert!(matches!(read_verdict(&SockjsMessage::Message(ok("t"))), Verdict::Granted(_)));
    assert!(matches!(
        read_verdict(&SockjsMessage::Message(ScreepsMessage::AuthFailed)),
        Verdict::Refused
    ));
    assert!(matches!(read_verdict(&SockjsMessage::Messages(vec![])), Verdict::Undecided));
    assert!(matches!(read_verdict(&SockjsMessage::Open), Verdict::Undecided));
}

#[test]
fn frames_can_be_handed_in_parsed() {
    let (executor, step) = executor().run(rooms(vec![room(0, 0)]));
    let executor = listen(executor, step);
    let (executor, step) = executor.login_protocol(Ok(SockjsMessage::Heartbeat));
    assert!(matches!(step.action, Action::Receive));
    let accepted = ScreepsMessage::AuthOk { new_token: "kept".to_owned() };
    let (_, step) = executor.login_protocol(Ok(SockjsMessage::Message(accepted)));
    assert_eq!(sends(&step), "[\"subscribe roomMap2:E0N0\"]");
    assert_eq!(step.effects.len(), 2);
}
