use screeps_network::error::{ApiError, NoToken, NotLoggedIn};
use screeps_network::login::LoginDetails;
use screeps_network::request::{ApiCall, ApiReply, NetworkEvent, Request};
use screeps_network::room::RoomName;
use screeps_network::single_threaded::{Handler, SendReply, SendStep, TryRecvError};
use screeps_network::terrain::TerrainGrid;
use screeps_network::threaded_handler::{HandlerEvent, ThreadedHandler};
use screeps_network::tokio_executor::{ExecuteReply, ExecuteStep, TokioExecutor};

fn details(name: &str) -> LoginDetails {
    LoginDetails::new(name.to_owned(), "pw".to_owned())
}

fn login(name: &str) -> Request {
    Request::login_with_details(details(name))
}

fn told(status: u16) -> NetworkEvent {
    NetworkEvent::WebsocketHttpError { error: ApiError::StatusCode(status) }
}

fn status(event: &NetworkEvent) -> u16 {
    match event.error() {
        Some(ApiError::StatusCode(status)) => *status,
        other => panic!("{:?}", other),
    }
}

/// A handler that has just started its first thread.
fn running() -> Handler {
    let mut handler = Handler::new();
    match handler.send(login("ada")) {
        SendStep::Start { login, queued } => {
            assert_eq!(login.username(), "ada");
            assert!(queued.is_empty());
        }
        other => panic!("{:?}", other),
    }
    assert!(matches!(handler.resume(SendReply::Started), SendStep::Finished(Ok(()))));
    assert!(handler.is_running());
    handler
}

#[test]
fn requests_need_a_login_first() {
    let mut handler = Handler::new();
    assert!(!handler.is_running());
    assert!(matches!(handler.send(Request::my_info()), SendStep::Finished(Err(NotLoggedIn))));
    assert!(!handler.is_running());
    assert!(matches!(handler.send(login("ada")), SendStep::Start { .. }));
}

#[test]
fn requests_are_passed_on_to_the_thread() {
    let mut handler = running();
    assert!(matches!(handler.send(Request::my_info()), SendStep::TrySend(Request::MyInfo)));
    assert!(matches!(handler.resume(SendReply::Tried(Ok(()))), SendStep::Finished(Ok(()))));
    match handler.send(login("bob")) {
        SendStep::TrySend(Request::Login { details }) => assert_eq!(details.username(), "bob"),
        other => panic!("{:?}", other),
    }
    assert!(matches!(handler.resume(SendReply::Tried(Ok(()))), SendStep::Finished(Ok(()))));
}

#[test]
fn a_lost_thread_is_replaced_without_losing_events() {
    let mut handler = running();
    handler.send(Request::my_info());
    let step = handler.resume(SendReply::Tried(Err(Request::my_info())));
    assert!(matches!(step, SendStep::TryReceive));
    for status in vec![1, 2, 3] {
        let step = handler.resume(SendReply::Received(Ok(told(status))));
        assert!(matches!(step, SendStep::TryReceive));
    }
    match handler.resume(SendReply::Received(Err(TryRecvError::Disconnected))) {
        SendStep::Start { login, queued } => {
            assert_eq!(login.username(), "ada");
            assert_eq!(queued.iter().map(status).collect::<Vec<u16>>(), vec![1, 2, 3]);
        }
        other => panic!("{:?}", other),
    }
    let step = handler.resume(SendReply::Started);
    assert!(matches!(step, SendStep::Deliver(Request::MyInfo)));
    assert!(matches!(handler.resume(SendReply::Delivered), SendStep::Finished(Ok(()))));
    assert!(handler.is_running());
}

#[test]
fn a_login_to_a_lost_thread_starts_one_with_its_details() {
    let mut handler = running();
    handler.send(login("eve"));
    handler.resume(SendReply::Tried(Err(login("eve"))));
    match handler.resume(SendReply::Received(Err(TryRecvError::Empty))) {
        SendStep::Start { login, queued } => {
            assert_eq!(login.username(), "eve");
            assert!(queued.is_empty());
        }
        other => panic!("{:?}", other),
    }
    // The login itself is not passed on.
    assert!(matches!(handler.resume(SendReply::Started), SendStep::Finished(Ok(()))));
}

#[test]
fn polling_gives_events_and_notices_lost_threads() {
    let mut handler = running();
    assert_eq!(status(&handler.poll(Some(Ok(told(418)))).unwrap()), 418);
    assert!(handler.poll(Some(Err(TryRecvError::Empty))).is_none());
    assert!(handler.is_running());
    assert!(handler.poll(Some(Err(TryRecvError::Disconnected))).is_none());
    assert!(!handler.is_running());
    assert!(handler.poll(None).is_none());
    // The login is remembered.
    match handler.send(Request::my_info()) {
        SendStep::Start { login, .. } => assert_eq!(login.username(), "ada"),
        other => panic!("{:?}", other),
    }
    assert!(matches!(handler.resume(SendReply::Started), SendStep::Deliver(Request::MyInfo)));
}

#[test]
fn one_login_is_enough() {
    let mut handler = running();
    for _ in 0..3 {
        assert!(handler.poll(Some(Err(TryRecvError::Disconnected))).is_none());
        assert!(matches!(handler.send(Request::my_info()), SendStep::Start { .. }));
        assert!(matches!(handler.resume(SendReply::Started), SendStep::Deliver(_)));
        assert!(matches!(handler.resume(SendReply::Delivered), SendStep::Finished(Ok(()))));
    }
}

fn terrain() -> Request {
    Request::room_terrain(RoomName { x_coord: 1, y_coord: 2 })
}

#[test]
fn an_executor_sends_the_answer_and_is_given_back() {
    let executor = TokioExecutor::new(details("ada"));
    let (executor, step) = executor.execute_request(terrain());
    match step {
        ExecuteStep::Call { return_token: None, call: ApiCall::CachedTerrain { .. } } => {}
        other => panic!("{:?}", other),
    }
    let missing = ExecuteReply::Called(ApiReply::CachedTerrain(Ok(None)));
    let (executor, step) = executor.resume(missing);
    match step {
        ExecuteStep::Call { call: ApiCall::RoomTerrain { name }, .. } => assert_eq!(name, "E1N2"),
        other => panic!("{:?}", other),
    }
    let grid = TerrainGrid { rows: vec![] };
    let (executor, step) = executor.resume(ExecuteReply::Called(ApiReply::RoomTerrain(Ok(grid))));
    match step {
        ExecuteStep::Send { return_token: None, event, store_terrain: true } => {
            assert!(matches!(event, NetworkEvent::RoomTerrain { .. }))
        }
        other => panic!("{:?}", other),
    }
    let (executor, step) = executor.resume(ExecuteReply::Sent(true));
    assert!(matches!(step, ExecuteStep::Return { wake: true }));
    // It is free for the next request.
    let (_, step) = executor.execute_request(Request::my_info());
    assert!(matches!(step, ExecuteStep::Call { call: ApiCall::MyInfo, .. }));
}

#[test]
fn an_executor_keeps_the_token_of_a_login() {
    let (executor, _) = TokioExecutor::new(details("ada")).execute_request(Request::my_info());
    let (executor, step) = executor.resume(ExecuteReply::Called(ApiReply::MyInfo(Err(NoToken))));
    match step {
        ExecuteStep::Call { call: ApiCall::Login { username, password }, .. } => {
            assert_eq!((username.as_str(), password.as_str()), ("ada", "pw"))
        }
        other => panic!("{:?}", other),
    }
    let token = ApiReply::Login(Ok("tok".to_owned()));
    let (_, step) = executor.resume(ExecuteReply::Called(token));
    match step {
        ExecuteStep::Call { return_token, call: ApiCall::MyInfo } => {
            assert_eq!(return_token, Some("tok".to_owned()))
        }
        other => panic!("{:?}", other),
    }
}

fn throttled() -> TokioExecutor {
    let (executor, _) = TokioExecutor::new(details("ada")).execute_request(login("bob"));
    let refusal = ApiReply::Login(Err(ApiError::StatusCode(429)));
    let (executor, step) = executor.resume(ExecuteReply::Called(refusal));
    assert!(matches!(step, ExecuteStep::StartTimer { seconds: 5 }));
    executor
}

#[test]
fn too_many_requests_are_waited_out() {
    let (executor, step) = throttled().resume(ExecuteReply::TimerStarted(true));
    assert!(matches!(step, ExecuteStep::Wait));
    let (executor, step) = executor.resume(ExecuteReply::Waited);
    match step {
        ExecuteStep::Call { call: ApiCall::Login { username, .. }, .. } => {
            assert_eq!(username, "bob")
        }
        other => panic!("{:?}", other),
    }
    let token = ApiReply::Login(Ok("tok".to_owned()));
    let (_, step) = executor.resume(ExecuteReply::Called(token));
    match step {
        ExecuteStep::Send { return_token, event, .. } => {
            assert_eq!(return_token, Some("tok".to_owned()));
            assert!(event.error().is_none());
        }
        other => panic!("{:?}", other),
    }
}

#[test]
fn one_event_is_sent_for_all_tries() {
    let mut executor = throttled();
    for _ in 0..3 {
        let (next, step) = executor.resume(ExecuteReply::TimerStarted(true));
        assert!(matches!(step, ExecuteStep::Wait));
        let (next, step) = next.resume(ExecuteReply::Waited);
        assert!(matches!(step, ExecuteStep::Call { call: ApiCall::Login { .. }, .. }));
        let refusal = ApiReply::Login(Err(ApiError::StatusCode(429)));
        let (next, step) = next.resume(ExecuteReply::Called(refusal));
        assert!(matches!(step, ExecuteStep::StartTimer { seconds: 5 }));
        executor = next;
    }
    let (executor, _) = executor.resume(ExecuteReply::TimerStarted(true));
    let (executor, _) = executor.resume(ExecuteReply::Waited);
    let refusal = ApiReply::Login(Err(ApiError::StatusCode(503)));
    let (executor, step) = executor.resume(ExecuteReply::Called(refusal));
    match step {
        ExecuteStep::Send { event, .. } => assert_eq!(status(&event), 503),
        other => panic!("{:?}", other),
    }
    let (_, step) = executor.resume(ExecuteReply::Sent(true));
    assert!(matches!(step, ExecuteStep::Return { wake: true }));
}

#[test]
fn too_many_requests_are_told_without_a_timer() {
    let (executor, step) = throttled().resume(ExecuteReply::TimerStarted(false));
    match step {
        ExecuteStep::Send { event, .. } => assert_eq!(status(&event), 429),
        other => panic!("{:?}", other),
    }
    let (_, step) = executor.resume(ExecuteReply::Sent(false));
    assert!(matches!(step, ExecuteStep::Return { wake: false }));
}

#[test]
fn other_failures_are_told_at_once() {
    let (executor, _) = TokioExecutor::new(details("ada")).execute_request(login("bob"));
    let refusal = ApiReply::Login(Err(ApiError::StatusCode(430)));
    let (_, step) = executor.resume(ExecuteReply::Called(refusal));
    match step {
        ExecuteStep::Send { event, .. } => assert_eq!(status(&event), 430),
        other => panic!("{:?}", other),
    }
}

fn name_of(request: &Request) -> String {
    match request {
        Request::Login { details } => details.username().to_owned(),
        other => panic!("{:?}", other),
    }
}

#[test]
fn five_requests_run_at_a_time_in_order() {
    let mut handler = ThreadedHandler::new(details("ada"));
    let mut busy = vec![];
    let mut started = vec![];
    for i in 0..8 {
        let step = handler.run(HandlerEvent::Request(login(&format!("{}", i))));
        assert!(!step.exit);
        match step.execute {
            Some((executor, request)) => {
                started.push(name_of(&request));
                busy.push(executor);
            }
            None => assert!(i >= 5),
        }
    }
    assert_eq!(started.len(), 5);
    while let Some(executor) = busy.pop() {
        let step = handler.run(HandlerEvent::ExecutorReturned(executor));
        assert!(!step.exit);
        if let Some((executor, request)) = step.execute {
            started.push(name_of(&request));
            busy.push(executor);
        }
    }
    assert_eq!(started, vec!["0", "1", "2", "3", "4", "5", "6", "7"]);
}

#[test]
fn executors_log_in_with_the_details_of_the_handler() {
    let mut handler = ThreadedHandler::new(details("ada"));
    let step = handler.run(HandlerEvent::Request(Request::my_info()));
    let (executor, request) = step.execute.unwrap();
    let (executor, _) = executor.execute_request(request);
    let (_, step) = executor.resume(ExecuteReply::Called(ApiReply::MyInfo(Err(NoToken))));
    match step {
        ExecuteStep::Call { call: ApiCall::Login { username, .. }, .. } => {
            assert_eq!(username, "ada")
        }
        other => panic!("{:?}", other),
    }
}

#[test]
fn a_closed_handler_exits_once_nothing_waits() {
    let mut idle = ThreadedHandler::new(details("ada"));
    let step = idle.run(HandlerEvent::RequestsClosed);
    assert!(step.exit);
    assert!(step.execute.is_none());

    let mut handler = ThreadedHandler::new(details("ada"));
    let mut busy = vec![];
    for i in 0..7 {
        let step = handler.run(HandlerEvent::Request(login(&format!("{}", i))));
        busy.extend(step.execute.map(|(executor, _)| executor));
    }
    assert_eq!(busy.len(), 5);
    assert!(!handler.run(HandlerEvent::RequestsClosed).exit);
    let step = handler.run(HandlerEvent::ExecutorReturned(busy.pop().unwrap()));
    assert!(!step.exit);
    assert_eq!(name_of(&step.execute.unwrap().1), "5");
    let step = handler.run(HandlerEvent::ExecutorReturned(busy.pop().unwrap()));
    assert!(step.exit);
    assert_eq!(name_of(&step.execute.unwrap().1), "6");
}
