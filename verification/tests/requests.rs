use screeps_api::MyInfo;
use screeps_network::error::{ApiError, NoToken, ParseError, WebSocketError};
use screeps_network::login::LoginDetails;
use screeps_network::request::{ApiCall, ApiReply, Execution, NetworkEvent, Next, Request};
use screeps_network::room::RoomName;
use screeps_network::terrain::{TerrainGrid, TerrainType};

fn details() -> LoginDetails {
    LoginDetails::new("ada".to_owned(), "engine".to_owned())
}

fn grid(terrain: TerrainType) -> TerrainGrid {
    TerrainGrid { rows: vec![vec![terrain, TerrainType::Plains], vec![TerrainType::Wall, terrain]] }
}

fn my_info(username: &str) -> MyInfo {
    let text = format!(
        "{{\"user_id\":\"1\",\"username\":\"{}\",\"has_password\":true,\"cpu\":10,\
         \"gcl_points\":3,\"credits\":0.5,\"shard_allocations\":null}}",
        username
    );
    serde_json::from_str(&text).unwrap()
}

fn start(request: Request) -> (Execution, ApiCall) {
    request.exec_with(&details())
}

fn is_login(call: &ApiCall, name: &str, secret: &str) -> bool {
    match call {
        ApiCall::Login { username, password } => username == name && password == secret,
        _ => false,
    }
}

#[test]
fn login_details_keep_both_texts() {
    let details = details();
    assert_eq!(details.username(), "ada");
    assert_eq!(details.password(), "engine");
    assert_eq!(details.clone().password(), "engine");
}

#[test]
fn requests_hold_what_they_ask_for() {
    match Request::login("bob".to_owned(), "pw".to_owned()) {
        Request::Login { details } => {
            assert_eq!((details.username(), details.password()), ("bob", "pw"))
        }
        other => panic!("{:?}", other),
    }
    assert!(matches!(Request::login_with_details(details()), Request::Login { .. }));
    assert!(matches!(Request::my_info(), Request::MyInfo));
    let room_name = RoomName { x_coord: 3, y_coord: -4 };
    match Request::room_terrain(room_name) {
        Request::RoomTerrain { room_name: room } => assert_eq!(room, room_name),
        other => panic!("{:?}", other),
    }
}

#[test]
fn login_uses_the_details_of_the_request() {
    let (execution, call) = start(Request::login("bob".to_owned(), "pw".to_owned()));
    assert!(is_login(&call, "bob", "pw"));
    match execution.resume(ApiReply::Login(Ok("token".to_owned()))) {
        Next::Done { return_token, event, store_terrain, .. } => {
            assert_eq!(return_token, Some("token".to_owned()));
            assert!(!store_terrain);
            assert!(event.error().is_none());
            match event {
                NetworkEvent::Login { username, result } => {
                    assert_eq!(username, "bob");
                    assert_eq!(result, Ok(()));
                }
                other => panic!("{:?}", other),
            }
        }
        other => panic!("{:?}", other),
    }
}

#[test]
fn failed_login_is_told_and_keeps_no_token() {
    let (execution, _) = start(Request::login("bob".to_owned(), "pw".to_owned()));
    match execution.resume(ApiReply::Login(Err(ApiError::Unauthorized))) {
        Next::Done { return_token, event, .. } => {
            assert_eq!(return_token, None);
            assert_eq!(event.error(), Some(&ApiError::Unauthorized));
            assert!(matches!(event, NetworkEvent::Login { .. }));
        }
        other => panic!("{:?}", other),
    }
}

#[test]
fn my_info_with_a_token_takes_one_call() {
    let (execution, call) = start(Request::my_info());
    assert!(matches!(call, ApiCall::MyInfo));
    match execution.resume(ApiReply::MyInfo(Ok(Ok(my_info("eve"))))) {
        Next::Done { return_token, event, .. } => {
            assert_eq!(return_token, None);
            match event {
                NetworkEvent::MyInfo { result: Ok(info) } => assert_eq!(info.username, "eve"),
                other => panic!("{:?}", other),
            }
        }
        other => panic!("{:?}", other),
    }
}

#[test]
fn my_info_without_a_token_logs_in_first() {
    let (execution, _) = start(Request::my_info());
    let execution = match execution.resume(ApiReply::MyInfo(Err(NoToken))) {
        Next::Call { execution, return_token, call } => {
            assert_eq!(return_token, None);
            assert!(is_login(&call, "ada", "engine"));
            execution
        }
        other => panic!("{:?}", other),
    };
    let execution = match execution.resume(ApiReply::Login(Ok("fresh".to_owned()))) {
        Next::Call { execution, return_token, call } => {
            assert_eq!(return_token, Some("fresh".to_owned()));
            assert!(matches!(call, ApiCall::MyInfo));
            execution
        }
        other => panic!("{:?}", other),
    };
    match execution.resume(ApiReply::MyInfo(Ok(Err(ApiError::StatusCode(500))))) {
        Next::Done { request, event, .. } => {
            assert!(matches!(request, Request::MyInfo));
            assert_eq!(event.error(), Some(&ApiError::StatusCode(500)));
            assert!(matches!(event, NetworkEvent::MyInfo { .. }));
        }
        other => panic!("{:?}", other),
    }
}

#[test]
fn my_info_answers_with_the_error_of_its_login() {
    let (execution, _) = start(Request::my_info());
    let execution = match execution.resume(ApiReply::MyInfo(Err(NoToken))) {
        Next::Call { execution, .. } => execution,
        other => panic!("{:?}", other),
    };
    match execution.resume(ApiReply::Login(Err(ApiError::Other("down".to_owned())))) {
        Next::Done { return_token, event, .. } => {
            assert_eq!(return_token, None);
            assert_eq!(event.error(), Some(&ApiError::Other("down".to_owned())));
            assert!(matches!(event, NetworkEvent::MyInfo { .. }));
        }
        other => panic!("{:?}", other),
    }
}

#[test]
fn cached_terrain_is_the_answer() {
    let room_name = RoomName { x_coord: -1, y_coord: 0 };
    let (execution, call) = start(Request::room_terrain(room_name));
    match call {
        ApiCall::CachedTerrain { room_name: room } => assert_eq!(room, room_name),
        other => panic!("{:?}", other),
    }
    match execution.resume(ApiReply::CachedTerrain(Ok(Some(grid(TerrainType::Swamp))))) {
        Next::Done { event, store_terrain, .. } => {
            assert!(!store_terrain);
            match event {
                NetworkEvent::RoomTerrain { room_name: room, result } => {
                    assert_eq!(room, room_name);
                    assert_eq!(result, Ok(grid(TerrainType::Swamp)));
                }
                other => panic!("{:?}", other),
            }
        }
        other => panic!("{:?}", other),
    }
}

fn fetch(room_name: RoomName, cached: Result<Option<TerrainGrid>, String>) -> (Execution, String) {
    let (execution, _) = start(Request::room_terrain(room_name));
    match execution.resume(ApiReply::CachedTerrain(cached)) {
        Next::Call { execution, call: ApiCall::RoomTerrain { name }, return_token: None } => {
            (execution, name)
        }
        other => panic!("{:?}", other),
    }
}

#[test]
fn missing_terrain_is_fetched_and_cached() {
    let room_name = RoomName { x_coord: 4, y_coord: -62 };
    let (execution, name) = fetch(room_name, Ok(None));
    assert_eq!(name, "E4S61");
    match execution.resume(ApiReply::RoomTerrain(Ok(grid(TerrainType::SwampyWall)))) {
        Next::Done { event, store_terrain, .. } => {
            assert!(store_terrain);
            match event {
                NetworkEvent::RoomTerrain { room_name: room, result } => {
                    assert_eq!(room, room_name);
                    assert_eq!(result, Ok(grid(TerrainType::SwampyWall)));
                }
                other => panic!("{:?}", other),
            }
        }
        other => panic!("{:?}", other),
    }
}

#[test]
fn unreadable_cache_counts_as_empty() {
    let room_name = RoomName { x_coord: 0, y_coord: 0 };
    let (execution, name) = fetch(room_name, Err("broken".to_owned()));
    assert_eq!(name, "E0N0");
    match execution.resume(ApiReply::RoomTerrain(Err(ApiError::StatusCode(404)))) {
        Next::Done { event, store_terrain, return_token, .. } => {
            assert!(!store_terrain);
            assert_eq!(return_token, None);
            assert_eq!(event.error(), Some(&ApiError::StatusCode(404)));
        }
        other => panic!("{:?}", other),
    }
}

#[test]
fn room_names_are_written_in_decimal() {
    let cases = vec![
        (0, 0, "E0N0"),
        (-1, -1, "W0S0"),
        (9, 10, "E9N10"),
        (-11, 99, "W10N99"),
        (100, -100, "E100S99"),
        (2147483647, -2147483647, "E2147483647S2147483646"),
    ];
    for (x_coord, y_coord, text) in cases {
        let (_, name) = fetch(RoomName { x_coord, y_coord }, Ok(None));
        assert_eq!(name, text);
    }
}

#[test]
fn only_api_calls_have_an_api_error() {
    let error = WebSocketError { description: "gone".to_owned() };
    assert!(NetworkEvent::WebsocketError { error }.error().is_none());
    let error = ParseError::Other("odd".to_owned());
    assert!(NetworkEvent::WebsocketParseError { error }.error().is_none());
    let event = NetworkEvent::WebsocketHttpError { error: ApiError::Unauthorized };
    assert_eq!(event.error(), Some(&ApiError::Unauthorized));
    let room_name = RoomName { x_coord: 0, y_coord: 0 };
    let event = NetworkEvent::MapView { room_name, result: Default::default() };
    assert!(event.error().is_none());
}
