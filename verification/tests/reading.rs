use screeps_network::error::{ApiError, ParseError, WebSocketError};
use screeps_network::far_rooms::readable;
use screeps_network::message::{CloseData, OwnedMessage, ScreepsMessage, SockjsMessage};
use screeps_network::read::{
    event_parsed, event_sockjs_message, ReaderAction, ReaderData, ReaderStep,
};
use screeps_network::request::NetworkEvent;
use screeps_network::room::RoomName;

const MAP_VIEW: &str = "a[\"[\\\"roomMap2:W3S4\\\",{\\\"w\\\":[[1,2]],\\\"r\\\":[],\\\"pb\\\":[],\
     \\\"p\\\":[],\\\"s\\\":[[5,6]],\\\"c\\\":[],\\\"m\\\":[],\\\"k\\\":[]}]\",\
     \"auth failed\",\"auth ok tok-2\",\"time 12\"]";

fn text(text: &str) -> Result<OwnedMessage, WebSocketError> {
    Ok(OwnedMessage::Text(text.to_owned()))
}

fn performed(step: ReaderStep) -> ReaderAction {
    match step {
        ReaderStep::Perform(action) => action,
        other => panic!("{:?}", other),
    }
}

fn sent(action: ReaderAction) -> NetworkEvent {
    match action {
        ReaderAction::Send(event) => event,
        other => panic!("{:?}", other),
    }
}

#[test]
fn ping_is_answered_on_its_own_connection() {
    let mut reader = ReaderData::new(17);
    let step = reader.event(Ok(OwnedMessage::Ping(vec![1, 2, 3])));
    match performed(step) {
        ReaderAction::SendResponse { connection_id, response } => {
            assert_eq!(connection_id, 17);
            assert_eq!(response, OwnedMessage::Pong(vec![1, 2, 3]));
        }
        other => panic!("{:?}", other),
    }
    let (wake, step) = reader.performed(true);
    assert!(!wake);
    assert!(matches!(step, ReaderStep::Read));
}

#[test]
fn pong_binary_and_close_are_ignored() {
    let mut reader = ReaderData::new(1);
    let close = CloseData { status_code: 1000, reason: "bye".to_owned() };
    let messages = vec![
        OwnedMessage::Pong(vec![]),
        OwnedMessage::Binary(vec![9]),
        OwnedMessage::Close(None),
        OwnedMessage::Close(Some(close)),
    ];
    for message in messages {
        assert!(matches!(reader.event(Ok(message)), ReaderStep::Read));
    }
}

#[test]
fn connection_error_is_told_and_reading_goes_on() {
    let mut reader = ReaderData::new(1);
    let error = WebSocketError { description: "reset".to_owned() };
    match sent(performed(reader.event(Err(error)))) {
        NetworkEvent::WebsocketError { error } => assert_eq!(error.description, "reset"),
        other => panic!("{:?}", other),
    }
    let (wake, step) = reader.performed(true);
    assert!(wake);
    assert!(matches!(step, ReaderStep::Read));
}

#[test]
fn messages_of_a_frame_are_handled_in_order() {
    let mut reader = ReaderData::new(1);
    match sent(performed(reader.event(text(MAP_VIEW)))) {
        NetworkEvent::MapView { room_name, result } => {
            assert_eq!(room_name, RoomName { x_coord: -4, y_coord: -5 });
            assert_eq!(result.walls, vec![(1, 2)]);
            assert_eq!(result.sources, vec![(5, 6)]);
        }
        other => panic!("{:?}", other),
    }
    let (wake, step) = reader.performed(true);
    assert!(wake);
    match sent(performed(step)) {
        NetworkEvent::WebsocketHttpError { error } => assert_eq!(error, ApiError::Unauthorized),
        other => panic!("{:?}", other),
    }
    let (wake, step) = reader.performed(true);
    assert!(wake);
    match performed(step) {
        ReaderAction::ReturnToken(token) => assert_eq!(token, "tok-2"),
        other => panic!("{:?}", other),
    }
    let (wake, step) = reader.performed(true);
    assert!(!wake);
    assert!(matches!(step, ReaderStep::Read));
}

#[test]
fn reader_exits_at_the_first_failure() {
    let mut reader = ReaderData::new(1);
    performed(reader.event(text(MAP_VIEW)));
    let (_, step) = reader.performed(true);
    performed(step);
    let (wake, step) = reader.performed(false);
    assert!(!wake);
    assert!(matches!(step, ReaderStep::ExitNow));
}

#[test]
fn reader_exits_when_a_response_cannot_be_passed_on() {
    let mut reader = ReaderData::new(1);
    performed(reader.event(Ok(OwnedMessage::Ping(vec![]))));
    let (wake, step) = reader.performed(false);
    assert!(!wake);
    assert!(matches!(step, ReaderStep::ExitNow));
}

#[test]
fn quiet_frames_are_ignored() {
    let mut reader = ReaderData::new(1);
    for frame in vec!["o", "h", "c[3000,\"Go away!\"]", "", "a[]", "m\"package 4\"", "m\"hello\""] {
        assert!(matches!(reader.event(text(frame)), ReaderStep::Read), "{}", frame);
    }
}

#[test]
fn single_message_frames_are_handled() {
    let mut reader = ReaderData::new(1);
    match performed(reader.event(text("m\"auth ok abc\""))) {
        ReaderAction::ReturnToken(token) => assert_eq!(token, "abc"),
        other => panic!("{:?}", other),
    }
}

#[test]
fn malformed_text_is_told_in_words() {
    let mut reader = ReaderData::new(1);
    match sent(performed(reader.event(text("zzz")))) {
        NetworkEvent::WebsocketParseError { error: ParseError::Malformed(reason) } => {
            assert!(reason.contains("unknown start character: z"), "{}", reason)
        }
        other => panic!("{:?}", other),
    }
}

#[test]
fn parsed_frames_say_what_to_do() {
    let messages = vec![
        ScreepsMessage::Other,
        ScreepsMessage::AuthOk { new_token: "a".to_owned() },
        ScreepsMessage::AuthOk { new_token: "b".to_owned() },
    ];
    let actions = event_sockjs_message(SockjsMessage::Messages(messages));
    let tokens: Vec<String> = actions
        .into_iter()
        .map(|action| match action {
            ReaderAction::ReturnToken(token) => token,
            other => panic!("{:?}", other),
        })
        .collect();
    assert_eq!(tokens, vec!["a", "b"]);
    assert_eq!(event_parsed(Ok(SockjsMessage::Heartbeat)).len(), 0);
    let mut actions = event_parsed(Err("bad".to_owned()));
    assert_eq!(actions.len(), 1);
    match sent(actions.pop_front().unwrap()) {
        NetworkEvent::WebsocketParseError { error } => {
            assert_eq!(error, ParseError::Malformed("bad".to_owned()))
        }
        other => panic!("{:?}", other),
    }
}

fn malformed(reader: &mut ReaderData, frame: &str) -> String {
    let step = reader.event(text(frame));
    let reason = match sent(performed(step)) {
        NetworkEvent::WebsocketParseError { error: ParseError::Malformed(reason) } => reason,
        other => panic!("{:?}", other),
    };
    let (_, step) = reader.performed(true);
    assert!(matches!(step, ReaderStep::Read));
    reason
}

#[test]
fn rooms_that_are_too_far_away_are_malformed() {
    let mut reader = ReaderData::new(1);
    for far in vec![
        "m\"[\\\"roomMap2:W-2147483648N1\\\",{}]\"",
        "m \"[\\\"room:w-2147483648n1\\\"\" ",
        "m\" \\n[ \\\"room:shard0/E5S-2147483648\\\"\"",
        "a[\"time 3\", \"[\\\"err@room:W-0002147483648s+7\\\",1]\"]",
        "a[\"[\\\"room:W-\\u0032147483648N1\\\",1]\"",
        "a[\"[\\\"room:\\u0057\\u002d2147483648N1\\\",1]\" oops",
        "a[\"[\\\"room:\\ud83d\\ude00\\/W-2147483648N1\\\"\"",
    ] {
        assert!(!readable(far), "{}", far);
        assert_eq!(malformed(&mut reader, far), "room coordinate out of range");
    }
}

#[test]
fn quiet_frames_with_far_numbers_are_ignored() {
    let mut reader = ReaderData::new(1);
    for frame in vec![
        "h-2147483648",
        "oW-2147483648",
        "c[3000,\"W-2147483648N1\"]",
        "m\"room:W-2147483648N1\"",
        "m\"[\\\"user:1/console\\\",\\\"room:W-2147483648N1\\\"]\"",
        "m\"[\\\"user:1/console\\\",[\\\"room:W-2147483648N1\\\"]]\"",
        "m\"[\\\"room:E-2147483648N1\\\",{}]\"",
        "m\"[\\\"room:W-2147483649N1\\\",{}]\"",
        "m\"[\\\"room:W-2147483648N\\\",{}]\"",
        "m\"[\\\"room:W-2147483648N1x\\\",{}]\"",
        "m\"[\\\"room:W-2147483648/W1N1\\\",{}]\"",
        "m\"[\\\"room:\\\\u0057-2147483648N1\\\",{}]\"",
        "m\"[\\\"room:W-2147483648N1\"",
        "a[\"\\u0030\",\"\\\\\\u0075\"]",
    ] {
        assert!(readable(frame), "{}", frame);
        assert!(matches!(reader.event(text(frame)), ReaderStep::Read), "{}", frame);
    }
}

#[test]
fn malformed_frames_with_far_numbers_are_told_in_the_usual_words() {
    let mut reader = ReaderData::new(1);
    for frame in vec![
        "zW-2147483648",
        "m\"[\\\"room:W-2147483648N1\\\",1]\" oops",
        "m\"[\\\"room:W-2147483648N1\\\",1]",
        "m[\"room:W-2147483648N1\"]",
        "a[\"\\x\",\"[\\\"room:W-2147483648N1\\\",1]\"]",
        "a[\"\\ud83d\",\"[\\\"room:W-2147483648N1\\\",1]\"]",
        "a[1,\"[\\\"room:W-2147483648N1\\\",1]\"]",
        "a{\"[\\\"room:W-2147483648N1\\\",1]\"}",
    ] {
        assert!(readable(frame), "{}", frame);
        let reason = malformed(&mut reader, frame);
        assert_ne!(reason, "room coordinate out of range", "{}", frame);
    }
}

#[test]
fn near_rooms_are_read() {
    let mut reader = ReaderData::new(1);
    let frame = "m\"[\\\"roomMap2:W2147483647S-2147483647\\\",{\\\"w\\\":[],\\\"r\\\":[],\\\"pb\\\":[],\
         \\\"p\\\":[],\\\"s\\\":[],\\\"c\\\":[],\\\"m\\\":[],\\\"k\\\":[]}]\"";
    match sent(performed(reader.event(text(frame)))) {
        NetworkEvent::MapView { room_name, .. } => {
            assert_eq!(room_name, RoomName { x_coord: i32::MIN, y_coord: 2147483646 })
        }
        other => panic!("{:?}", other),
    }
}
