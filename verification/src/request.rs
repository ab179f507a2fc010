//! Requests to the HTTP API, and the events that come of them.

use screeps_api::websocket::RoomMapViewUpdate;
use screeps_api::MyInfo;
use vstd::pervasive::unreached;
use vstd::prelude::*;

use crate::error::{
    ApiError, ApiErrorView, NoToken, ParseError, ParseErrorView, WebSocketError,
};
use crate::login::{LoginDetails, LoginDetailsView};
use crate::room::RoomName;
use crate::terrain::TerrainGrid;

verus! {

/// `screeps_api::MyInfo`: facts about the logged in user. They are only passed on.
#[verifier::external_type_specification]
#[verifier::external_body]
pub struct ExMyInfo(MyInfo);

/// Something to ask the server for.
#[derive(Debug, Hash)]
pub enum Request {
    /// Log in with some details.
    Login { details: LoginDetails },
    /// Facts about the logged in user.
    MyInfo,
    /// The terrain of a room.
    RoomTerrain { room_name: RoomName },
}

/// What a [`Request`] asks for.
pub enum RequestView {
    Login { details: LoginDetailsView },
    MyInfo,
    RoomTerrain { room_name: RoomName },
}

impl View for Request {
    type V = RequestView;

    open spec fn view(&self) -> RequestView {
        match self {
            Request::Login { details } => RequestView::Login { details: details@ },
            Request::MyInfo => RequestView::MyInfo,
            Request::RoomTerrain { room_name } => RequestView::RoomTerrain {
                room_name: *room_name,
            },
        }
    }
}

impl Clone for Request {
    fn clone(&self) -> (res: Request)
        ensures
            res == *self,
    {
        match self {
            Request::Login { details } => Request::Login { details: details.clone() },
            Request::MyInfo => Request::MyInfo,
            Request::RoomTerrain { room_name } => Request::RoomTerrain { room_name: *room_name },
        }
    }
}

/// Something for the user interface to know.
#[allow(inconsistent_fields)]
#[derive(Debug)]
pub enum NetworkEvent {
    /// A login went through or failed.
    Login { username: String, result: Result<(), ApiError> },
    /// Facts about the logged in user.
    MyInfo { result: Result<MyInfo, ApiError> },
    /// The terrain of a room.
    RoomTerrain { room_name: RoomName, result: Result<TerrainGrid, ApiError> },
    /// What a room looks like on the map.
    MapView { room_name: RoomName, result: RoomMapViewUpdate },
    /// Logging in or authenticating for the websocket failed.
    WebsocketHttpError { error: ApiError },
    /// The websocket connection failed.
    WebsocketError { error: WebSocketError },
    /// The websocket brought a message that makes no sense.
    WebsocketParseError { error: ParseError },
}

/// What a [`NetworkEvent`] says.
#[allow(inconsistent_fields)]
pub enum NetworkEventView {
    Login { username: Seq<char>, result: Result<(), ApiErrorView> },
    MyInfo { result: Result<MyInfo, ApiErrorView> },
    RoomTerrain { room_name: RoomName, result: Result<TerrainGrid, ApiErrorView> },
    MapView { room_name: RoomName, result: RoomMapViewUpdate },
    WebsocketHttpError { error: ApiErrorView },
    WebsocketError { error: Seq<char> },
    WebsocketParseError { error: ParseErrorView },
}

/// The outcome of a call, with what its error says.
pub open spec fn outcome<T>(result: Result<T, ApiError>) -> Result<T, ApiErrorView> {
    match result {
        Ok(value) => Ok(value),
        Err(error) => Err(error@),
    }
}

/// The error of an outcome, if it is one.
pub open spec fn failure<T>(result: Result<T, ApiErrorView>) -> Option<ApiErrorView> {
    match result {
        Ok(_) => None,
        Err(error) => Some(error),
    }
}

impl View for NetworkEvent {
    type V = NetworkEventView;

    open spec fn view(&self) -> NetworkEventView {
        match self {
            NetworkEvent::Login { username, result } => NetworkEventView::Login {
                username: username@,
                result: outcome(*result),
            },
            NetworkEvent::MyInfo { result } => NetworkEventView::MyInfo {
                result: outcome(*result),
            },
            NetworkEvent::RoomTerrain { room_name, result } => NetworkEventView::RoomTerrain {
                room_name: *room_name,
                result: outcome(*result),
            },
            NetworkEvent::MapView { room_name, result } => NetworkEventView::MapView {
                room_name: *room_name,
                result: *result,
            },
            NetworkEvent::WebsocketHttpError { error } => NetworkEventView::WebsocketHttpError {
                error: error@,
            },
            NetworkEvent::WebsocketError { error } => NetworkEventView::WebsocketError {
                error: error@,
            },
            NetworkEvent::WebsocketParseError { error } => NetworkEventView::WebsocketParseError {
                error: error@,
            },
        }
    }
}

impl NetworkEventView {
    /// The error of an API call which the event tells of, if any.
    pub open spec fn error(self) -> Option<ApiErrorView> {
        match self {
            NetworkEventView::Login { result, .. } => failure(result),
            NetworkEventView::MyInfo { result } => failure(result),
            NetworkEventView::RoomTerrain { result, .. } => failure(result),
            NetworkEventView::WebsocketHttpError { error } => Some(error),
            _ => None,
        }
    }

    /// Whether the event is what a request is answered with.
    pub open spec fn answers(self, request: RequestView) -> bool {
        match request {
            RequestView::Login { details } => self matches NetworkEventView::Login { username, .. }
                && username == details.username,
            RequestView::MyInfo => self is MyInfo,
            RequestView::RoomTerrain { room_name } =>
                self matches NetworkEventView::RoomTerrain { room_name: room, .. } && room
                    == room_name,
        }
    }
}

impl NetworkEvent {
    /// The error of an API call which the event tells of, if any.
    pub fn error(&self) -> (res: Option<&ApiError>)
        ensures
            match res {
                Some(error) => self@.error() == Some(error@),
                None => self@.error() is None,
            },
    {
        match self {
            NetworkEvent::Login { result, .. } => match result {
                Ok(_) => None,
                Err(error) => Some(error),
            },
            NetworkEvent::MyInfo { result } => match result {
                Ok(_) => None,
                Err(error) => Some(error),
            },
            NetworkEvent::RoomTerrain { result, .. } => match result {
                Ok(_) => None,
                Err(error) => Some(error),
            },
            NetworkEvent::WebsocketHttpError { error } => Some(error),
            _ => None,
        }
    }
}

/// How far a request has come.
#[derive(Clone, Copy, Debug, PartialEq, Eq, Structural)]
pub enum Stage {
    /// The first call is being made.
    First,
    /// There was no token for the first call, so a login is being made.
    Login,
    /// The second call is being made.
    Second,
}

/// A call for the program to make.
#[derive(Debug)]
pub enum ApiCall {
    /// Log in.
    Login { username: String, password: String },
    /// Ask for facts about the logged in user, with a token from the token storage.
    MyInfo,
    /// Look for the terrain of a room in the cache.
    CachedTerrain { room_name: RoomName },
    /// Ask for the terrain of the room with a name.
    RoomTerrain { name: String },
}

/// What an [`ApiCall`] is made with.
pub enum ApiCallView {
    Login { username: Seq<char>, password: Seq<char> },
    MyInfo,
    CachedTerrain { room_name: RoomName },
    RoomTerrain { name: Seq<char> },
}

impl View for ApiCall {
    type V = ApiCallView;

    open spec fn view(&self) -> ApiCallView {
        match self {
            ApiCall::Login { username, password } => ApiCallView::Login {
                username: username@,
                password: password@,
            },
            ApiCall::MyInfo => ApiCallView::MyInfo,
            ApiCall::CachedTerrain { room_name } => ApiCallView::CachedTerrain {
                room_name: *room_name,
            },
            ApiCall::RoomTerrain { name } => ApiCallView::RoomTerrain { name: name@ },
        }
    }
}

/// What came of an [`ApiCall`].
#[derive(Debug)]
pub enum ApiReply {
    /// The token of a login, or its error.
    Login(Result<String, ApiError>),
    /// The outcome of the call, or that there was no token to make it with.
    MyInfo(Result<Result<MyInfo, ApiError>, NoToken>),
    /// The terrain in the cache, that there is none, or why the cache could not be read.
    CachedTerrain(Result<Option<TerrainGrid>, String>),
    /// The terrain from the server, or the error of the call.
    RoomTerrain(Result<TerrainGrid, ApiError>),
}

/// What an [`ApiReply`] says. A call that lacked a token has no outcome. Why a cache could not be
/// read makes no difference.
pub enum ApiReplyView {
    Login(Result<Seq<char>, ApiErrorView>),
    MyInfo(Option<Result<MyInfo, ApiErrorView>>),
    CachedTerrain(Option<TerrainGrid>),
    RoomTerrain(Result<TerrainGrid, ApiErrorView>),
}

impl View for ApiReply {
    type V = ApiReplyView;

    open spec fn view(&self) -> ApiReplyView {
        match self {
            ApiReply::Login(Ok(token)) => ApiReplyView::Login(Ok(token@)),
            ApiReply::Login(Err(error)) => ApiReplyView::Login(Err(error@)),
            ApiReply::MyInfo(Ok(result)) => ApiReplyView::MyInfo(Some(outcome(*result))),
            ApiReply::MyInfo(Err(_)) => ApiReplyView::MyInfo(None),
            ApiReply::CachedTerrain(Ok(terrain)) => ApiReplyView::CachedTerrain(*terrain),
            ApiReply::CachedTerrain(Err(_)) => ApiReplyView::CachedTerrain(None),
            ApiReply::RoomTerrain(result) => ApiReplyView::RoomTerrain(outcome(*result)),
        }
    }
}

impl ApiReplyView {
    /// Whether the reply is one to a call.
    pub open spec fn replies_to(self, call: ApiCallView) -> bool {
        match call {
            ApiCallView::Login { .. } => self is Login,
            ApiCallView::MyInfo => self is MyInfo,
            ApiCallView::CachedTerrain { .. } => self is CachedTerrain,
            ApiCallView::RoomTerrain { .. } => self is RoomTerrain,
        }
    }
}

/// A request that is being carried out.
#[derive(Debug)]
pub struct Execution {
    request: Request,
    login: LoginDetails,
    stage: Stage,
}

/// A request that is being carried out: the request, the details to log in with where there is no
/// token, and how far it has come.
pub struct ExecutionView {
    pub request: RequestView,
    pub login: LoginDetailsView,
    pub stage: Stage,
}

impl View for Execution {
    type V = ExecutionView;

    closed spec fn view(&self) -> ExecutionView {
        ExecutionView { request: self.request@, login: self.login@, stage: self.stage }
    }
}

impl ExecutionView {
    /// Only the stages that a request goes through occur.
    pub open spec fn wf(self) -> bool {
        match self.request {
            RequestView::Login { .. } => self.stage == Stage::First,
            RequestView::MyInfo => true,
            RequestView::RoomTerrain { .. } => self.stage != Stage::Login,
        }
    }

    /// The call that is being made.
    pub open spec fn call(self) -> ApiCallView {
        match (self.request, self.stage) {
            (RequestView::Login { details }, _) => ApiCallView::Login {
                username: details.username,
                password: details.password,
            },
            (RequestView::MyInfo, Stage::Login) => ApiCallView::Login {
                username: self.login.username,
                password: self.login.password,
            },
            (RequestView::MyInfo, _) => ApiCallView::MyInfo,
            (RequestView::RoomTerrain { room_name }, Stage::First) => ApiCallView::CachedTerrain {
                room_name,
            },
            (RequestView::RoomTerrain { room_name }, _) => ApiCallView::RoomTerrain {
                name: room_name.text(),
            },
        }
    }

    /// Whether a reply can be the next one. After a login there is a token. A room whose terrain
    /// has to come from the server has a name.
    pub open spec fn expects(self, reply: ApiReplyView) -> bool {
        &&& reply.replies_to(self.call())
        &&& self.stage == Stage::Second ==> reply != ApiReplyView::MyInfo(None)
        &&& reply == ApiReplyView::CachedTerrain(None) ==> (
        self.request matches RequestView::RoomTerrain { room_name } ==> room_name.displayable())
    }

    /// The same request at another stage.
    pub open spec fn at(self, stage: Stage) -> ExecutionView {
        ExecutionView { stage, ..self }
    }

    /// The request is answered with an event.
    pub open spec fn done(self, event: NetworkEventView) -> NextView {
        NextView::Done { request: self.request, return_token: None, event, store_terrain: false }
    }

    /// What follows a reply.
    pub open spec fn next(self, reply: ApiReplyView) -> NextView {
        match (self.request, reply) {
            // A login is answered with its outcome, and its token is kept.
            (RequestView::Login { details }, ApiReplyView::Login(Ok(token))) => NextView::Done {
                request: self.request,
                return_token: Some(token),
                event: NetworkEventView::Login { username: details.username, result: Ok(()) },
                store_terrain: false,
            },
            (RequestView::Login { details }, ApiReplyView::Login(Err(error))) => self.done(
                NetworkEventView::Login { username: details.username, result: Err(error) },
            ),
            // Without a token there is a login first, whose failure is the answer.
            (RequestView::MyInfo, ApiReplyView::MyInfo(Some(result))) => self.done(
                NetworkEventView::MyInfo { result },
            ),
            (RequestView::MyInfo, ApiReplyView::MyInfo(None)) => NextView::Call {
                execution: self.at(Stage::Login),
                return_token: None,
            },
            (RequestView::MyInfo, ApiReplyView::Login(Ok(token))) => NextView::Call {
                execution: self.at(Stage::Second),
                return_token: Some(token),
            },
            (RequestView::MyInfo, ApiReplyView::Login(Err(error))) => self.done(
                NetworkEventView::MyInfo { result: Err(error) },
            ),
            // Terrain comes from the cache, or else from the server and then goes to the cache.
            (
                RequestView::RoomTerrain { room_name },
                ApiReplyView::CachedTerrain(Some(terrain)),
            ) => self.done(NetworkEventView::RoomTerrain { room_name, result: Ok(terrain) }),
            (RequestView::RoomTerrain { .. }, ApiReplyView::CachedTerrain(None)) => NextView::Call {
                execution: self.at(Stage::Second),
                return_token: None,
            },
            (RequestView::RoomTerrain { room_name }, ApiReplyView::RoomTerrain(result)) =>
                NextView::Done {
                    request: self.request,
                    return_token: None,
                    event: NetworkEventView::RoomTerrain { room_name, result },
                    store_terrain: result is Ok,
                },
            _ => arbitrary(),
        }
    }
}

/// What to do after a reply.
#[derive(Debug)]
pub enum Next {
    /// Give a token to the token storage if there is one, then make a call.
    Call { execution: Execution, return_token: Option<String>, call: ApiCall },
    /// Give a token to the token storage if there is one. Write the terrain of the event to the
    /// cache where `store_terrain` says so. The event is the answer to the request.
    Done {
        request: Request,
        return_token: Option<String>,
        event: NetworkEvent,
        store_terrain: bool,
    },
}

/// What a [`Next`] says. The call is the one that the execution is at.
pub enum NextView {
    Call { execution: ExecutionView, return_token: Option<Seq<char>> },
    Done {
        request: RequestView,
        return_token: Option<Seq<char>>,
        event: NetworkEventView,
        store_terrain: bool,
    },
}

/// The text in an option.
pub open spec fn text_of(text: Option<String>) -> Option<Seq<char>> {
    match text {
        Some(text) => Some(text@),
        None => None,
    }
}

impl View for Next {
    type V = NextView;

    open spec fn view(&self) -> NextView {
        match self {
            Next::Call { execution, return_token, .. } => NextView::Call {
                execution: execution@,
                return_token: text_of(*return_token),
            },
            Next::Done { request, return_token, event, store_terrain } => NextView::Done {
                request: request@,
                return_token: text_of(*return_token),
                event: event@,
                store_terrain: *store_terrain,
            },
        }
    }
}

impl Request {
    /// A request to log in.
    pub fn login(username: String, password: String) -> (res: Request)
        ensures
            res@ == (RequestView::Login {
                details: LoginDetailsView { username: username@, password: password@ },
            }),
    {
        Request::Login { details: LoginDetails::new(username, password) }
    }

    /// A request to log in with details that are at hand.
    pub fn login_with_details(details: LoginDetails) -> (res: Request)
        ensures
            res == (Request::Login { details }),
    {
        Request::Login { details }
    }

    /// A request for facts about the logged in user.
    pub fn my_info() -> (res: Request)
        ensures
            res == Request::MyInfo,
    {
        Request::MyInfo
    }

    /// A request for the terrain of a room.
    pub fn room_terrain(room_name: RoomName) -> (res: Request)
        ensures
            res == (Request::RoomTerrain { room_name }),
    {
        Request::RoomTerrain { room_name }
    }

    /// Starts to carry out the request. Gives the first call to make.
    ///
    /// The login details are used where a token is needed and there is none.
    pub fn exec_with(&self, login: &LoginDetails) -> (res: (Execution, ApiCall))
        ensures
            res.0@ == (ExecutionView { request: self@, login: login@, stage: Stage::First }),
            res.0@.wf(),
            res.1@ == res.0@.call(),
    {
        let call = match self {
            Request::Login { details } => ApiCall::Login {
                username: details.username().to_owned(),
                password: details.password().to_owned(),
            },
            Request::MyInfo => ApiCall::MyInfo,
            Request::RoomTerrain { room_name } => ApiCall::CachedTerrain { room_name: *room_name },
        };
        (Execution { request: self.clone(), login: login.clone(), stage: Stage::First }, call)
    }
}

impl Execution {
    /// Carries on after a reply to the last call.
    pub fn resume(self, reply: ApiReply) -> (res: Next)
        requires
            self@.wf(),
            self@.expects(reply@),
        ensures
            res@ == self@.next(reply@),
            res matches Next::Call { execution, call, .. } ==> execution@.wf() && call@
                == execution@.call(),
    {
        let Execution { request, login, stage } = self;
        match reply {
            ApiReply::Login(result) => match request {
                Request::Login { details } => {
                    let username = details.username().to_owned();
                    let request = Request::Login { details };
                    match result {
                        Ok(token) => Next::Done {
                            request,
                            return_token: Some(token),
                            event: NetworkEvent::Login { username, result: Ok(()) },
                            store_terrain: false,
                        },
                        Err(error) => Next::Done {
                            request,
                            return_token: None,
                            event: NetworkEvent::Login { username, result: Err(error) },
                            store_terrain: false,
                        },
                    }
                },
                Request::MyInfo => match result {
                    Ok(token) => Next::Call {
                        execution: Execution { request, login, stage: Stage::Second },
                        return_token: Some(token),
                        call: ApiCall::MyInfo,
                    },
                    Err(error) => Next::Done {
                        request,
                        return_token: None,
                        event: NetworkEvent::MyInfo { result: Err(error) },
                        store_terrain: false,
                    },
                },
                Request::RoomTerrain { .. } => unreached(),
            },
            ApiReply::MyInfo(Ok(result)) => Next::Done {
                request,
                return_token: None,
                event: NetworkEvent::MyInfo { result },
                store_terrain: false,
            },
            ApiReply::MyInfo(Err(_)) => {
                let call = ApiCall::Login {
                    username: login.username().to_owned(),
                    password: login.password().to_owned(),
                };
                Next::Call {
                    execution: Execution { request, login, stage: Stage::Login },
                    return_token: None,
                    call,
                }
            },
            ApiReply::CachedTerrain(cached) => match request {
                Request::RoomTerrain { room_name } => match cached {
                    Ok(Some(terrain)) => Next::Done {
                        request,
                        return_token: None,
                        event: NetworkEvent::RoomTerrain { room_name, result: Ok(terrain) },
                        store_terrain: false,
                    },
                    _ => Next::Call {
                        execution: Execution { request, login, stage: Stage::Second },
                        return_token: None,
                        call: ApiCall::RoomTerrain { name: room_name.name() },
                    },
                },
                _ => unreached(),
            },
            ApiReply::RoomTerrain(result) => match request {
                Request::RoomTerrain { room_name } => {
                    let store_terrain = result.is_ok();
                    Next::Done {
                        request,
                        return_token: None,
                        event: NetworkEvent::RoomTerrain { room_name, result },
                        store_terrain,
                    }
                },
                _ => unreached(),
            },
        }
    }
}

/// A request is answered with an event of its own kind, for the user or the room it was about. As
/// long as it is not answered, the request and the login details stay the same.
pub proof fn law_event_answers_request(execution: ExecutionView, reply: ApiReplyView)
    requires
        execution.wf(),
        execution.expects(reply),
    ensures
        match execution.next(reply) {
            NextView::Done { request, event, .. } => request == execution.request && event.answers(
                request,
            ),
            NextView::Call { execution: after, .. } => after.request == execution.request
                && after.login == execution.login && after.wf(),
        },
{
}

/// The number of calls that a request can still need, the one being made among them.
pub open spec fn calls_left(stage: Stage) -> nat {
    match stage {
        Stage::First => 3,
        Stage::Login => 2,
        Stage::Second => 1,
    }
}

/// A request is answered after three calls at the most: each reply answers it or leaves fewer calls
/// to make.
pub proof fn law_few_calls(execution: ExecutionView, reply: ApiReplyView)
    requires
        execution.wf(),
        execution.expects(reply),
    ensures
        execution.next(reply) matches NextView::Call { execution: after, .. } ==> calls_left(
            after.stage,
        ) < calls_left(execution.stage),
        calls_left(execution.stage) == 1 ==> execution.next(reply) is Done,
{
}

/// The cache is written exactly where terrain came from the server. Terrain found in the cache is
/// the answer, with no call to the server.
pub proof fn law_terrain_is_cached(execution: ExecutionView, reply: ApiReplyView)
    requires
        execution.wf(),
        execution.expects(reply),
    ensures
        execution.next(reply) matches NextView::Done { store_terrain: true, .. } <==> reply matches
            ApiReplyView::RoomTerrain(Ok(_)),
        reply matches ApiReplyView::CachedTerrain(Some(terrain)) ==> execution.next(
            reply,
        ) matches NextView::Done { event, .. } && event matches NetworkEventView::RoomTerrain {
            result: Ok(answer),
            ..
        } && answer == terrain,
{
}

/// No token is lost: the token of every login goes to the token storage, and nothing else does.
pub proof fn law_login_tokens_are_kept(execution: ExecutionView, reply: ApiReplyView)
    requires
        execution.wf(),
        execution.expects(reply),
    ensures
        ({
            let returned = match execution.next(reply) {
                NextView::Call { return_token, .. } => return_token,
                NextView::Done { return_token, .. } => return_token,
            };
            match reply {
                ApiReplyView::Login(Ok(token)) => returned == Some(token),
                _ => returned is None,
            }
        }),
{
}

/// An event that tells of an error comes alone: there is no token to keep and no terrain to write.
pub proof fn law_failures_come_alone(execution: ExecutionView, reply: ApiReplyView)
    requires
        execution.wf(),
        execution.expects(reply),
    ensures
        execution.next(reply) matches NextView::Done { event, return_token, store_terrain, .. }
            ==> (event.error() is Some ==> return_token is None && !store_terrain),
{
}

/// The error of the server in a reply, if there is one.
pub open spec fn error_in(reply: ApiReplyView) -> Option<ApiErrorView> {
    match reply {
        ApiReplyView::Login(Err(error)) => Some(error),
        ApiReplyView::MyInfo(Some(Err(error))) => Some(error),
        ApiReplyView::RoomTerrain(Err(error)) => Some(error),
        _ => None,
    }
}

/// What the server said is what the user interface hears. An error in a reply answers the request
/// at once, and is the very error that the event tells of. An event tells of no other error.
pub proof fn law_errors_are_passed_on(execution: ExecutionView, reply: ApiReplyView)
    requires
        execution.wf(),
        execution.expects(reply),
    ensures
        error_in(reply) is Some ==> execution.next(reply) is Done,
        execution.next(reply) matches NextView::Done { event, .. } ==> event.error() == error_in(
            reply,
        ),
{
}

/// Facts about the user answer a request for them whatever came before, and just as they came. So
/// does terrain, wherever it came from, for the room that it was asked for. A login that goes
/// through is answered as such, for the user that it was made for.
pub proof fn law_results_are_passed_on(execution: ExecutionView, reply: ApiReplyView)
    requires
        execution.wf(),
        execution.expects(reply),
    ensures
        reply matches ApiReplyView::MyInfo(Some(result)) ==> (execution.next(
            reply,
        ) matches NextView::Done { event, .. } && event == (NetworkEventView::MyInfo { result })),
        reply matches ApiReplyView::RoomTerrain(result) ==> (execution.next(
            reply,
        ) matches NextView::Done { event, .. } && event matches NetworkEventView::RoomTerrain {
            room_name,
            result: answer,
        } && answer == result && execution.request == (RequestView::RoomTerrain { room_name })),
        reply matches ApiReplyView::CachedTerrain(Some(terrain)) ==> (execution.next(
            reply,
        ) matches NextView::Done { event, .. } && event matches NetworkEventView::RoomTerrain {
            room_name,
            result: Ok(answer),
        } && answer == terrain && execution.request == (RequestView::RoomTerrain { room_name })),
        reply matches ApiReplyView::Login(result) ==> (
        execution.request matches RequestView::Login { details } ==> (execution.next(
            reply,
        ) matches NextView::Done { event, .. } && event matches NetworkEventView::Login {
            username,
            result: answer,
        } && username == details.username && failure(answer) == failure(result))),
        reply matches ApiReplyView::Login(Err(error)) ==> (execution.request is MyInfo ==> (
        execution.next(reply) matches NextView::Done { event, .. } && event
            matches NetworkEventView::MyInfo { result: Err(told) } && told == error)),
{
}

/// A request goes on with another call in three places only. Without a token there is a login, with
/// the details that are at hand for that. After this login the facts are asked for again. Terrain
/// that is not in the cache is asked for by the name of its room.
pub proof fn law_calls_follow_replies(execution: ExecutionView, reply: ApiReplyView)
    requires
        execution.wf(),
        execution.expects(reply),
    ensures
        execution.next(reply) is Call <==> reply == ApiReplyView::MyInfo(None) || reply
            == ApiReplyView::CachedTerrain(None) || (reply matches ApiReplyView::Login(Ok(_))
            && execution.request is MyInfo),
        reply == ApiReplyView::MyInfo(None) ==> (execution.next(reply) matches NextView::Call {
            execution: after,
            ..
        } && after.call() == (ApiCallView::Login {
            username: execution.login.username,
            password: execution.login.password,
        })),
        (reply is Login && execution.next(reply) is Call) ==> (execution.next(
            reply,
        ) matches NextView::Call { execution: after, .. } && after.call() == ApiCallView::MyInfo),
        reply == ApiReplyView::CachedTerrain(None) ==> (
        execution.request matches RequestView::RoomTerrain { room_name } && execution.next(
            reply,
        ) matches NextView::Call { execution: after, .. } && after.call()
            == (ApiCallView::RoomTerrain { name: room_name.text() })),
{
}

/// A request starts with the call that fits it: a login with its own details, the facts about the
/// user, or a look for the terrain of its room in the cache.
pub proof fn law_first_calls_fit_requests(
    details: LoginDetailsView,
    room_name: RoomName,
    login: LoginDetailsView,
)
    ensures
        ({
            let request = RequestView::Login { details };
            (ExecutionView { request, login, stage: Stage::First }).call() == (
            ApiCallView::Login { username: details.username, password: details.password })
        }),
        (ExecutionView { request: RequestView::MyInfo, login, stage: Stage::First }).call()
            == ApiCallView::MyInfo,
        ({
            let request = RequestView::RoomTerrain { room_name };
            (ExecutionView { request, login, stage: Stage::First }).call() == (
            ApiCallView::CachedTerrain { room_name })
        }),
{
}

/// Every outcome of a call can be handled. Only two things are ruled out: that there is no token
/// right after a login, and that the terrain of a room without a name has to be asked for.
pub proof fn law_outcomes_can_be_handled(
    execution: ExecutionView,
    login: Result<Seq<char>, ApiErrorView>,
    info: Result<MyInfo, ApiErrorView>,
    cached: TerrainGrid,
    terrain: Result<TerrainGrid, ApiErrorView>,
)
    requires
        execution.wf(),
    ensures
        execution.call() is Login ==> execution.expects(ApiReplyView::Login(login)),
        execution.call() is MyInfo ==> execution.expects(ApiReplyView::MyInfo(Some(info))),
        execution.call() is MyInfo && execution.stage == Stage::First ==> execution.expects(
            ApiReplyView::MyInfo(None),
        ),
        execution.call() is CachedTerrain ==> execution.expects(
            ApiReplyView::CachedTerrain(Some(cached)),
        ),
        execution.call() matches ApiCallView::CachedTerrain { room_name } ==> (
        room_name.displayable() ==> execution.expects(ApiReplyView::CachedTerrain(None))),
        execution.call() is RoomTerrain ==> execution.expects(ApiReplyView::RoomTerrain(terrain)),
{
}

/// An event of an API call tells of the error of that call, and so does an event about logging in
/// for the websocket. No other event tells of one.
pub proof fn law_events_tell_their_errors(
    event: NetworkEventView,
    username: Seq<char>,
    room_name: RoomName,
    error: ApiErrorView,
)
    ensures
        (NetworkEventView::Login { username, result: Err(error) }).error() == Some(error),
        (NetworkEventView::MyInfo { result: Err(error) }).error() == Some(error),
        (NetworkEventView::RoomTerrain { room_name, result: Err(error) }).error() == Some(error),
        (NetworkEventView::WebsocketHttpError { error }).error() == Some(error),
        event matches NetworkEventView::Login { result, .. } ==> (result is Ok ==> event.error()
            is None),
        event matches NetworkEventView::MyInfo { result } ==> (result is Ok ==> event.error()
            is None),
        event matches NetworkEventView::RoomTerrain { result, .. } ==> (result is Ok
            ==> event.error() is None),
        event is MapView || event is WebsocketError || event is WebsocketParseError
            ==> event.error() is None,
{
}

} // verus!
