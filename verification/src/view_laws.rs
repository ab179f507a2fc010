//! What the values that go in and out say.
//!
//! All contracts speak of views. These laws tie the views to the values themselves: nothing that a
//! value holds is lost or changed in its view, but for what makes no difference.

use screeps_api::MyInfo;
use vstd::prelude::*;

use crate::error::{
    ApiError, ApiErrorView, NotLoggedIn, ParseError, ParseErrorView, WebSocketError,
};
use crate::message::{
    parsed_view, OwnedMessage, OwnedMessageView, ScreepsMessage, ScreepsMessageView, SockjsMessage,
    SockjsMessageView,
};
use crate::read::{
    actions_view, item_view, ReaderAction, ReaderActionView, ReaderStep, ReaderStepView,
};
use crate::request::{
    ApiCall, ApiCallView, ApiReply, ApiReplyView, NetworkEvent, NetworkEventView, Next, NextView,
    Request, RequestView,
};
use crate::single_threaded::{SendReply, SendReplyView, SendStep, SendStepView};
use crate::terrain::TerrainGrid;
use crate::threaded_handler::{HandlerEvent, HandlerEventView, HandlerStep};
use crate::tokio_executor::{ExecuteReply, ExecuteReplyView, ExecuteStep, ExecuteStepView};
use crate::ws::{
    Action, ActionView, Effect, EffectView, InputView, Reply, ReplyView, Step, Verdict,
    VerdictView, WebsocketRequest, WebsocketRequestOrRaw,
};

verus! {

/// Errors say what they hold.
pub proof fn law_errors_say_what_they_hold(
    api: ApiError,
    socket: WebSocketError,
    parse: ParseError,
)
    ensures
        api is Unauthorized <==> api@ is Unauthorized,
        api matches ApiError::StatusCode(status) ==> api@ == ApiErrorView::StatusCode(status),
        api matches ApiError::Other(text) ==> api@ == ApiErrorView::Other(text@),
        socket@ == socket.description@,
        parse matches ParseError::Other(text) ==> parse@ == ParseErrorView::Other(text@),
        parse matches ParseError::Malformed(text) ==> parse@ == ParseErrorView::Malformed(text@),
{
}

/// Websocket messages say what they hold.
pub proof fn law_websocket_messages_say_what_they_hold(message: OwnedMessage)
    ensures
        message matches OwnedMessage::Text(text) ==> message@ == OwnedMessageView::Text(text@),
        message matches OwnedMessage::Binary(data) ==> message@ == OwnedMessageView::Binary(data@),
        message matches OwnedMessage::Close(None) ==> message@ == OwnedMessageView::Close(None),
        message matches OwnedMessage::Close(Some(data)) ==> message@ == OwnedMessageView::Close(
            Some((data.status_code, data.reason@)),
        ),
        message matches OwnedMessage::Ping(data) ==> message@ == OwnedMessageView::Ping(data@),
        message matches OwnedMessage::Pong(data) ==> message@ == OwnedMessageView::Pong(data@),
{
}

/// Messages from the game server say what they hold.
pub proof fn law_server_messages_say_what_they_hold(message: ScreepsMessage)
    ensures
        message is AuthFailed <==> message@ is AuthFailed,
        message matches ScreepsMessage::AuthOk { new_token } ==> message@ == (
        ScreepsMessageView::AuthOk { new_token: new_token@ }),
        message matches ScreepsMessage::MapView { room_name, update } ==> message@ == (
        ScreepsMessageView::MapView { room_name, update }),
        message@ is AuthOk ==> message is AuthOk,
        message@ is MapView ==> message is MapView,
{
}

/// Frames say what they hold: every message of theirs, in order.
pub proof fn law_frames_say_what_they_hold(frame: SockjsMessage, reason: String, i: int)
    ensures
        frame is Open <==> frame@ is Open,
        frame is Heartbeat <==> frame@ is Heartbeat,
        frame is Close <==> frame@ is Close,
        frame matches SockjsMessage::Message(message) ==> frame@ == SockjsMessageView::Message(
            message@,
        ),
        frame matches SockjsMessage::Messages(messages) ==> (
        frame@ matches SockjsMessageView::Messages(said) && said.len() == messages@.len() && (0 <= i
            < said.len() ==> said[i] == messages@[i]@)),
        parsed_view(Ok(frame)) == Ok::<SockjsMessageView, Seq<char>>(frame@),
        parsed_view(Err(reason)) == Err::<SockjsMessageView, Seq<char>>(reason@),
{
}

/// Requests say what they hold.
pub proof fn law_requests_say_what_they_hold(request: Request)
    ensures
        request matches Request::Login { details } ==> request@ == (RequestView::Login {
            details: details@,
        }),
        request is MyInfo ==> request@ is MyInfo,
        request matches Request::RoomTerrain { room_name } ==> request@ == (
        RequestView::RoomTerrain { room_name }),
{
}

/// Events say what they hold.
pub proof fn law_events_say_what_they_hold(event: NetworkEvent)
    ensures
        event matches NetworkEvent::Login { username, result } ==> (
        event@ matches NetworkEventView::Login { username: name, result: said } && name
            == username@ && (result is Ok <==> said is Ok) && (result matches Err(error) ==> said
            matches Err(told) && told == error@)),
        event matches NetworkEvent::MyInfo { result } ==> (
        event@ matches NetworkEventView::MyInfo { result: said } && (result matches Ok(info)
            ==> said == Ok::<MyInfo, ApiErrorView>(info)) && (result matches Err(error) ==> said
            == Err::<MyInfo, ApiErrorView>(error@))),
        event matches NetworkEvent::RoomTerrain { room_name, result } ==> (
        event@ matches NetworkEventView::RoomTerrain { room_name: room, result: said } && room
            == room_name && (result matches Ok(terrain) ==> said == Ok::<TerrainGrid, ApiErrorView>(
            terrain,
        )) && (result matches Err(error) ==> said == Err::<TerrainGrid, ApiErrorView>(error@))),
        event matches NetworkEvent::MapView { room_name, result } ==> event@ == (
        NetworkEventView::MapView { room_name, result }),
        event matches NetworkEvent::WebsocketHttpError { error } ==> event@ == (
        NetworkEventView::WebsocketHttpError { error: error@ }),
        event matches NetworkEvent::WebsocketError { error } ==> event@ == (
        NetworkEventView::WebsocketError { error: error@ }),
        event matches NetworkEvent::WebsocketParseError { error } ==> event@ == (
        NetworkEventView::WebsocketParseError { error: error@ }),
{
}

/// Calls and what came of them say what they hold. Why a cache could not be read is left out.
pub proof fn law_calls_say_what_they_hold(call: ApiCall, reply: ApiReply)
    ensures
        call matches ApiCall::Login { username, password } ==> call@ == (ApiCallView::Login {
            username: username@,
            password: password@,
        }),
        call is MyInfo ==> call@ is MyInfo,
        call matches ApiCall::CachedTerrain { room_name } ==> call@ == (
        ApiCallView::CachedTerrain { room_name }),
        call matches ApiCall::RoomTerrain { name } ==> call@ == (ApiCallView::RoomTerrain {
            name: name@,
        }),
        reply matches ApiReply::Login(Ok(token)) ==> reply@ == ApiReplyView::Login(Ok(token@)),
        reply matches ApiReply::Login(Err(error)) ==> reply@ == ApiReplyView::Login(Err(error@)),
        reply matches ApiReply::MyInfo(Ok(Ok(info))) ==> reply@ == ApiReplyView::MyInfo(
            Some(Ok(info)),
        ),
        reply matches ApiReply::MyInfo(Ok(Err(error))) ==> reply@ == ApiReplyView::MyInfo(
            Some(Err(error@)),
        ),
        reply matches ApiReply::MyInfo(Err(_)) ==> reply@ == ApiReplyView::MyInfo(None),
        reply matches ApiReply::CachedTerrain(Ok(terrain)) ==> reply@
            == ApiReplyView::CachedTerrain(terrain),
        reply matches ApiReply::CachedTerrain(Err(_)) ==> reply@ == ApiReplyView::CachedTerrain(
            None,
        ),
        reply matches ApiReply::RoomTerrain(Ok(terrain)) ==> reply@ == ApiReplyView::RoomTerrain(
            Ok(terrain),
        ),
        reply matches ApiReply::RoomTerrain(Err(error)) ==> reply@ == ApiReplyView::RoomTerrain(
            Err(error@),
        ),
{
}

/// Whether an option says what another holds: both hold nothing, or the second the same text.
pub open spec fn same_text(said: Option<Seq<char>>, held: Option<String>) -> bool {
    match held {
        Some(text) => said == Some(text@),
        None => said is None,
    }
}

/// What follows a reply says what it holds.
pub proof fn law_outcomes_say_what_they_hold(next: Next)
    ensures
        next matches Next::Call { execution, return_token: token, .. } ==> (
        next@ matches NextView::Call { execution: said, return_token } && said == execution@
            && same_text(return_token, token)),
        next matches Next::Done { request, return_token: token, event, store_terrain } ==> (
        next@ matches NextView::Done {
            request: asked,
            return_token,
            event: told,
            store_terrain: store,
        } && asked == request@ && same_text(return_token, token) && told == event@ && store
            == store_terrain),
{
}

/// The steps of carrying out a request say what they hold, and so do the replies to them.
pub proof fn law_execution_steps_say_what_they_hold(step: ExecuteStep, reply: ExecuteReply)
    ensures
        step matches ExecuteStep::Call { return_token: token, call } ==> (
        step@ matches ExecuteStepView::Call { return_token, call: made } && same_text(
            return_token,
            token,
        ) && made == call@),
        step matches ExecuteStep::StartTimer { seconds } ==> step@ == (
        ExecuteStepView::StartTimer { seconds }),
        step is Wait ==> step@ is Wait,
        step matches ExecuteStep::Send { return_token: token, event, store_terrain } ==> (
        step@ matches ExecuteStepView::Send {
            return_token,
            event: told,
            store_terrain: store,
        } && same_text(return_token, token) && told == event@ && store == store_terrain),
        step matches ExecuteStep::Return { wake } ==> step@ == (ExecuteStepView::Return { wake }),
        reply matches ExecuteReply::Called(outcome) ==> reply@ == ExecuteReplyView::Called(
            outcome@,
        ),
        reply matches ExecuteReply::TimerStarted(ok) ==> reply@ == ExecuteReplyView::TimerStarted(
            ok,
        ),
        reply is Waited ==> reply@ is Waited,
        reply matches ExecuteReply::Sent(ok) ==> reply@ == ExecuteReplyView::Sent(ok),
{
}

/// The steps of sending a request say what they hold, and so do the replies to them.
pub proof fn law_sending_steps_say_what_they_hold(step: SendStep, reply: SendReply, i: int)
    ensures
        step matches SendStep::TrySend(request) ==> step@ == SendStepView::TrySend(request@),
        step is TryReceive ==> step@ is TryReceive,
        step matches SendStep::Start { login, queued } ==> (step@ matches SendStepView::Start {
            login: details,
            queued: events,
        } && details == login@ && events.len() == queued@.len() && (0 <= i < events.len()
            ==> events[i] == queued@[i]@)),
        step matches SendStep::Deliver(request) ==> step@ == SendStepView::Deliver(request@),
        step matches SendStep::Finished(Ok(_)) ==> step@ == SendStepView::Finished(true),
        step matches SendStep::Finished(Err(NotLoggedIn)) ==> step@ == SendStepView::Finished(
            false,
        ),
        reply matches SendReply::Tried(Ok(_)) ==> reply@ == SendReplyView::Tried(None),
        reply matches SendReply::Tried(Err(request)) ==> reply@ == SendReplyView::Tried(
            Some(request@),
        ),
        reply matches SendReply::Received(Ok(event)) ==> reply@ == SendReplyView::Received(
            Ok(event@),
        ),
        reply matches SendReply::Received(Err(error)) ==> reply@ == SendReplyView::Received(
            Err(error),
        ),
        reply is Started ==> reply@ is Started,
        reply is Delivered ==> reply@ is Delivered,
{
}

/// What happens to the thread and what it does say what they hold.
pub proof fn law_handler_steps_say_what_they_hold(event: HandlerEvent, step: HandlerStep)
    ensures
        event matches HandlerEvent::Request(request) ==> event@ == HandlerEventView::Request(
            request@,
        ),
        event matches HandlerEvent::ExecutorReturned(executor) ==> event@
            == HandlerEventView::ExecutorReturned(executor@),
        event is RequestsClosed ==> event@ is RequestsClosed,
        step.execute matches Some((executor, request)) ==> step@.execute == Some(
            (executor@, request@),
        ),
        step.execute is None ==> step@.execute is None,
        step@.exit == step.exit,
{
}

/// What is read, and what a reader does about it, say what they hold.
pub proof fn law_reader_steps_say_what_they_hold(
    item: Result<OwnedMessage, WebSocketError>,
    action: ReaderAction,
    actions: Seq<ReaderAction>,
    step: ReaderStep,
    i: int,
)
    ensures
        item matches Ok(message) ==> item_view(item) == Ok::<OwnedMessageView, Seq<char>>(message@),
        item matches Err(error) ==> item_view(item) == Err::<OwnedMessageView, Seq<char>>(error@),
        action matches ReaderAction::Send(event) ==> action@ == ReaderActionView::Send(event@),
        action matches ReaderAction::SendResponse { connection_id, response } ==> action@ == (
        ReaderActionView::SendResponse { connection_id, response: response@ }),
        action matches ReaderAction::ReturnToken(token) ==> action@
            == ReaderActionView::ReturnToken(token@),
        actions_view(actions).len() == actions.len(),
        0 <= i < actions.len() ==> actions_view(actions)[i] == actions[i]@,
        step is Read ==> step@ is Read,
        step matches ReaderStep::Perform(action) ==> step@ == ReaderStepView::Perform(action@),
        step is ExitNow ==> step@ is ExitNow,
{
}

/// What is asked of the websocket, and the replies to its actions, say what they hold.
pub proof fn law_websocket_replies_say_what_they_hold(input: WebsocketRequestOrRaw, reply: Reply)
    ensures
        input matches WebsocketRequestOrRaw::Structured(
            WebsocketRequest::SetMapSubscribes { rooms },
        ) ==> input@ == (InputView::SetMapSubscribes { rooms: rooms@ }),
        input matches WebsocketRequestOrRaw::Raw(id, message) ==> input@ == InputView::Raw(
            id,
            message@,
        ),
        reply matches Reply::Sent(Ok(_)) ==> reply@ matches ReplyView::Sent(Ok(_)),
        reply matches Reply::Sent(Err(error)) ==> reply@ == ReplyView::Sent(Err(error@)),
        reply matches Reply::Token(Some(token)) ==> reply@ == ReplyView::Token(Some(token@)),
        reply matches Reply::Token(None) ==> reply@ == ReplyView::Token(None),
        reply matches Reply::LoggedIn(Ok(token)) ==> reply@ == ReplyView::LoggedIn(Ok(token@)),
        reply matches Reply::LoggedIn(Err(error)) ==> reply@ == ReplyView::LoggedIn(Err(error@)),
        reply matches Reply::Connected(Ok(_)) ==> reply@ matches ReplyView::Connected(Ok(_)),
        reply matches Reply::Connected(Err(error)) ==> reply@ == ReplyView::Connected(Err(error@)),
        reply matches Reply::Received(Ok(Some(message))) ==> reply@ == ReplyView::Received(
            Ok(Some(message@)),
        ),
        reply matches Reply::Received(Ok(None)) ==> reply@ == ReplyView::Received(Ok(None)),
        reply matches Reply::Received(Err(error)) ==> reply@ == ReplyView::Received(Err(error@)),
{
}

/// The steps of the websocket say what they hold: every effect, in order, and the action. So does
/// what the server says about a token.
pub proof fn law_websocket_steps_say_what_they_hold(
    action: Action,
    effect: Effect,
    step: Step,
    verdict: Verdict,
    i: int,
)
    ensures
        verdict matches Verdict::Granted(token) ==> verdict@ == VerdictView::Granted(token@),
        verdict is Refused ==> verdict@ is Refused,
        verdict is Undecided ==> verdict@ is Undecided,
        action matches Action::Send { message } ==> action@ == (ActionView::Send {
            message: message@,
        }),
        action is TakeToken ==> action@ is TakeToken,
        action matches Action::Login { username, password } ==> action@ == (ActionView::Login {
            username: username@,
            password: password@,
        }),
        action is Connect ==> action@ is Connect,
        action matches Action::Greet { message } ==> action@ == (ActionView::Greet {
            message: message@,
        }),
        action is Receive ==> action@ is Receive,
        action is Done ==> action@ is Done,
        effect matches Effect::Relay(event) ==> effect@ == EffectView::Relay(event@),
        effect matches Effect::ReturnToken(token) ==> effect@ == EffectView::ReturnToken(token@),
        effect matches Effect::StartReader { connection_id } ==> effect@ == (
        EffectView::StartReader { connection_id }),
        step@.effects.len() == step.effects@.len(),
        0 <= i < step@.effects.len() ==> step@.effects[i] == step.effects@[i]@,
        step@.action == step.action@,
{
}

} // verus!
