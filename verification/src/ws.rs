//! The websocket connection: which rooms it is subscribed to, and how it is brought up.
//!
//! [`Executor`] handles one request at a time. It connects, logs in and authenticates whenever it
//! has something to send and there is no connection.

use vstd::pervasive::unreached;
use vstd::prelude::*;
use vstd::string::StringExecFns;

use crate::command;
use crate::command::{authenticate_text, subscribe_text, unsubscribe_text};
use crate::error::{ApiError, ApiErrorView, ParseError, ParseErrorView, WebSocketError};
use crate::login::{LoginDetails, LoginDetailsView};
use crate::message;
use crate::message::{
    carried, frame_parsed, parsed_view, shown, OwnedMessage, OwnedMessageView, ScreepsMessage,
    ScreepsMessageView, SockjsMessage, SockjsMessageView,
};
use crate::request::{NetworkEvent, NetworkEventView};
use crate::room::RoomName;
use crate::room_set::RoomSet;
use crate::ws_laws::law_nothing_to_ask_for;

verus! {

/// Something to do with the websocket connection.
#[derive(Debug)]
pub enum WebsocketRequest {
    /// Be subscribed to the map views of these rooms, and of no others.
    SetMapSubscribes { rooms: Vec<RoomName> },
}

/// The next thing for an [`Executor`] to do.
#[derive(Debug)]
pub enum WebsocketRequestOrRaw {
    /// A request of the user interface.
    Structured(WebsocketRequest),
    /// A message to send over the connection with a number.
    Raw(u16, OwnedMessage),
}

/// What a [`WebsocketRequestOrRaw`] asks for.
pub enum InputView {
    SetMapSubscribes { rooms: Seq<RoomName> },
    Raw(u16, OwnedMessageView),
}

impl View for WebsocketRequestOrRaw {
    type V = InputView;

    open spec fn view(&self) -> InputView {
        match self {
            WebsocketRequestOrRaw::Structured(WebsocketRequest::SetMapSubscribes { rooms }) =>
                InputView::SetMapSubscribes { rooms: rooms@ },
            WebsocketRequestOrRaw::Raw(id, message) => InputView::Raw(*id, message@),
        }
    }
}

/// Something to do at once, without waiting for it.
#[derive(Debug)]
pub enum Effect {
    /// Tell the user interface.
    Relay(NetworkEvent),
    /// Give a token to the token storage.
    ReturnToken(String),
    /// Keep the connection that was just opened, and start to read from it.
    StartReader { connection_id: u16 },
}

/// What an [`Effect`] is about.
pub enum EffectView {
    Relay(NetworkEventView),
    ReturnToken(Seq<char>),
    StartReader { connection_id: u16 },
}

impl View for Effect {
    type V = EffectView;

    open spec fn view(&self) -> EffectView {
        match self {
            Effect::Relay(event) => EffectView::Relay(event@),
            Effect::ReturnToken(token) => EffectView::ReturnToken(token@),
            Effect::StartReader { connection_id } => EffectView::StartReader {
                connection_id: *connection_id,
            },
        }
    }
}

/// Something to do and to report on.
#[derive(Debug)]
pub enum Action {
    /// Send a message over the connection that is kept.
    Send { message: OwnedMessage },
    /// Take a token from the token storage.
    TakeToken,
    /// Log in.
    Login { username: String, password: String },
    /// Open a connection.
    Connect,
    /// Send a message over the connection that is being opened.
    Greet { message: OwnedMessage },
    /// Receive a message from the connection that is being opened.
    Receive,
    /// Nothing: the request is done with.
    Done,
}

/// What an [`Action`] is about.
pub enum ActionView {
    Send { message: OwnedMessageView },
    TakeToken,
    Login { username: Seq<char>, password: Seq<char> },
    Connect,
    Greet { message: OwnedMessageView },
    Receive,
    Done,
}

impl View for Action {
    type V = ActionView;

    open spec fn view(&self) -> ActionView {
        match self {
            Action::Send { message } => ActionView::Send { message: message@ },
            Action::TakeToken => ActionView::TakeToken,
            Action::Login { username, password } => ActionView::Login {
                username: username@,
                password: password@,
            },
            Action::Connect => ActionView::Connect,
            Action::Greet { message } => ActionView::Greet { message: message@ },
            Action::Receive => ActionView::Receive,
            Action::Done => ActionView::Done,
        }
    }
}

/// How an [`Action`] went.
#[derive(Debug)]
pub enum Reply {
    /// A message was sent, or failed to be.
    Sent(Result<(), WebSocketError>),
    /// The token from the token storage, if it had one.
    Token(Option<String>),
    /// The token of a login, or its error.
    LoggedIn(Result<String, ApiError>),
    /// A connection was opened, or failed to be.
    Connected(Result<(), WebSocketError>),
    /// A message was received, the connection was closed, or it failed.
    Received(Result<Option<OwnedMessage>, WebSocketError>),
}

/// What a [`Reply`] says.
pub enum ReplyView {
    Sent(Result<(), Seq<char>>),
    Token(Option<Seq<char>>),
    LoggedIn(Result<Seq<char>, ApiErrorView>),
    Connected(Result<(), Seq<char>>),
    Received(Result<Option<OwnedMessageView>, Seq<char>>),
}

impl View for Reply {
    type V = ReplyView;

    open spec fn view(&self) -> ReplyView {
        match self {
            Reply::Sent(Ok(())) => ReplyView::Sent(Ok(())),
            Reply::Sent(Err(error)) => ReplyView::Sent(Err(error@)),
            Reply::Token(Some(token)) => ReplyView::Token(Some(token@)),
            Reply::Token(None) => ReplyView::Token(None),
            Reply::LoggedIn(Ok(token)) => ReplyView::LoggedIn(Ok(token@)),
            Reply::LoggedIn(Err(error)) => ReplyView::LoggedIn(Err(error@)),
            Reply::Connected(Ok(())) => ReplyView::Connected(Ok(())),
            Reply::Connected(Err(error)) => ReplyView::Connected(Err(error@)),
            Reply::Received(Ok(Some(message))) => ReplyView::Received(Ok(Some(message@))),
            Reply::Received(Ok(None)) => ReplyView::Received(Ok(None)),
            Reply::Received(Err(error)) => ReplyView::Received(Err(error@)),
        }
    }
}

/// What to do next: the effects, in order, and then the action.
#[derive(Debug)]
pub struct Step {
    pub effects: Vec<Effect>,
    pub action: Action,
}

/// What a [`Step`] is about.
pub struct StepView {
    pub effects: Seq<EffectView>,
    pub action: ActionView,
}

/// What some effects are about.
pub open spec fn effects_view(effects: Seq<Effect>) -> Seq<EffectView> {
    effects.map_values(|effect: Effect| effect@)
}

impl View for Step {
    type V = StepView;

    open spec fn view(&self) -> StepView {
        StepView { effects: effects_view(self.effects@), action: self.action@ }
    }
}

/// What the answers of the server say about a token.
#[derive(Debug)]
pub enum Verdict {
    /// It was accepted, and this one takes its place.
    Granted(String),
    /// It was not accepted.
    Refused,
    /// Nothing yet.
    Undecided,
}

/// What a [`Verdict`] says.
pub enum VerdictView {
    Granted(Seq<char>),
    Refused,
    Undecided,
}

impl View for Verdict {
    type V = VerdictView;

    open spec fn view(&self) -> VerdictView {
        match self {
            Verdict::Granted(token) => VerdictView::Granted(token@),
            Verdict::Refused => VerdictView::Refused,
            Verdict::Undecided => VerdictView::Undecided,
        }
    }
}

/// The first message that speaks of the token decides.
pub open spec fn verdict(messages: Seq<ScreepsMessageView>) -> VerdictView
    decreases messages.len(),
{
    if messages.len() == 0 {
        VerdictView::Undecided
    } else {
        match messages[0] {
            ScreepsMessageView::AuthOk { new_token } => VerdictView::Granted(new_token),
            ScreepsMessageView::AuthFailed => VerdictView::Refused,
            _ => verdict(messages.drop_first()),
        }
    }
}

/// Looks for the first message of a frame that speaks of the token.
pub fn read_verdict(frame: &SockjsMessage) -> (res: Verdict)
    ensures
        res@ == verdict(carried(frame@)),
{
    match frame {
        SockjsMessage::Message(message) => {
            proof {
                assert(carried(frame@).drop_first() =~= seq![]);
                reveal_with_fuel(verdict, 2);
            }
            match message {
                ScreepsMessage::AuthOk { new_token } => Verdict::Granted(new_token.clone()),
                ScreepsMessage::AuthFailed => Verdict::Refused,
                _ => Verdict::Undecided,
            }
        },
        SockjsMessage::Messages(messages) => {
            let ghost all = carried(frame@);
            let mut i: usize = 0;
            proof {
                assert(all.skip(0) =~= all);
            }
            while i < messages.len()
                invariant
                    i <= messages.len(),
                    all == carried(frame@),
                    all == messages@.map_values(|message: ScreepsMessage| message@),
                    verdict(all) == verdict(all.skip(i as int)),
                decreases messages.len() - i,
            {
                proof {
                    assert(all.skip(i as int).drop_first() =~= all.skip(i + 1));
                    assert(all.skip(i as int)[0] == messages@[i as int]@);
                }
                match &messages[i] {
                    ScreepsMessage::AuthOk { new_token } => {
                        return Verdict::Granted(new_token.clone());
                    },
                    ScreepsMessage::AuthFailed => {
                        return Verdict::Refused;
                    },
                    _ => {},
                }
                i += 1;
            }
            Verdict::Undecided
        },
        _ => Verdict::Undecided,
    }
}

/// What the executor is sending messages for.
#[derive(Debug)]
pub enum Task {
    /// Nothing.
    Idle,
    /// To pass on a message.
    Raw,
    /// To subscribe to the room at an index of a list, and then to those after it.
    Subscribe { rooms: Vec<RoomName>, index: usize },
    /// To unsubscribe from the room at an index of a list, and then from those after it.
    Unsubscribe { rooms: Vec<RoomName>, index: usize },
}

/// What a [`Task`] is about.
pub enum TaskView {
    Idle,
    Raw,
    Subscribe { rooms: Seq<RoomName>, index: int },
    Unsubscribe { rooms: Seq<RoomName>, index: int },
}

impl View for Task {
    type V = TaskView;

    open spec fn view(&self) -> TaskView {
        match self {
            Task::Idle => TaskView::Idle,
            Task::Raw => TaskView::Raw,
            Task::Subscribe { rooms, index } => TaskView::Subscribe {
                rooms: rooms@,
                index: *index as int,
            },
            Task::Unsubscribe { rooms, index } => TaskView::Unsubscribe {
                rooms: rooms@,
                index: *index as int,
            },
        }
    }
}

/// How far a message is on its way. Where there is no connection, one is brought up first, and the
/// message waits for it.
#[derive(Debug)]
pub enum Link {
    /// There is no message.
    Idle,
    /// The message is being sent.
    Sending,
    /// A token is being taken from the token storage.
    TakingToken { message: OwnedMessage },
    /// There was no token, so a login is being made.
    LoggingIn { message: OwnedMessage },
    /// After a login, a token is being taken from the token storage.
    RetakingToken { message: OwnedMessage },
    /// A connection is being opened.
    Connecting { message: OwnedMessage, token: String },
    /// The token, or the answer to a ping, is being sent.
    Greeting { message: OwnedMessage },
    /// The server has not said yet whether it accepts the token.
    Listening { message: OwnedMessage },
}

/// What a [`Link`] is about.
pub enum LinkView {
    Idle,
    Sending,
    TakingToken { message: OwnedMessageView },
    LoggingIn { message: OwnedMessageView },
    RetakingToken { message: OwnedMessageView },
    Connecting { message: OwnedMessageView, token: Seq<char> },
    Greeting { message: OwnedMessageView },
    Listening { message: OwnedMessageView },
}

impl View for Link {
    type V = LinkView;

    open spec fn view(&self) -> LinkView {
        match self {
            Link::Idle => LinkView::Idle,
            Link::Sending => LinkView::Sending,
            Link::TakingToken { message } => LinkView::TakingToken { message: message@ },
            Link::LoggingIn { message } => LinkView::LoggingIn { message: message@ },
            Link::RetakingToken { message } => LinkView::RetakingToken { message: message@ },
            Link::Connecting { message, token } => LinkView::Connecting {
                message: message@,
                token: token@,
            },
            Link::Greeting { message } => LinkView::Greeting { message: message@ },
            Link::Listening { message } => LinkView::Listening { message: message@ },
        }
    }
}

impl LinkView {
    /// The message that waits for a connection.
    pub open spec fn waiting(self) -> Option<OwnedMessageView> {
        match self {
            LinkView::Idle => None,
            LinkView::Sending => None,
            LinkView::TakingToken { message } => Some(message),
            LinkView::LoggingIn { message } => Some(message),
            LinkView::RetakingToken { message } => Some(message),
            LinkView::Connecting { message, .. } => Some(message),
            LinkView::Greeting { message } => Some(message),
            LinkView::Listening { message } => Some(message),
        }
    }
}

/// Keeps the websocket connection and its subscriptions.
pub struct Executor {
    subscribed_map_view: RoomSet,
    login: LoginDetails,
    connection_id: u16,
    connected: bool,
    task: Task,
    link: Link,
}

/// The state of an [`Executor`].
pub struct ExecutorView {
    /// The rooms whose map view the server was asked for.
    pub subscribed: Set<RoomName>,
    /// The details to log in with where there is no token.
    pub login: LoginDetailsView,
    /// The number of the last connection, so that messages meant for an older one can be told.
    pub connection_id: u16,
    /// Whether a connection is kept and free to send over.
    pub connected: bool,
    pub task: TaskView,
    pub link: LinkView,
}

impl View for Executor {
    type V = ExecutorView;

    closed spec fn view(&self) -> ExecutorView {
        ExecutorView {
            subscribed: self.subscribed_map_view@,
            login: self.login@,
            connection_id: self.connection_id,
            connected: self.connected,
            task: self.task@,
            link: self.link@,
        }
    }
}

/// Whether a list holds the rooms of a set, each once.
pub open spec fn arranges(rooms: Seq<RoomName>, set: Set<RoomName>) -> bool {
    rooms.no_duplicates() && rooms.to_set() == set
}

/// The first index from a given one on whose room is not in a set, or the length of the list.
pub open spec fn first_missing(rooms: Seq<RoomName>, from: int, set: Set<RoomName>) -> int
    decreases rooms.len() - from,
{
    if 0 <= from < rooms.len() && set.contains(rooms[from]) {
        first_missing(rooms, from + 1, set)
    } else {
        from
    }
}

/// Every room of a list has a name.
pub open spec fn all_displayable(rooms: Seq<RoomName>) -> bool {
    forall|i: int| 0 <= i < rooms.len() ==> (#[trigger] rooms[i]).displayable()
}

impl ExecutorView {
    /// Whether a new request can be handled.
    pub open spec fn idle(self) -> bool {
        self.task is Idle
    }

    /// Every room that is subscribed to has a name.
    ///
    /// A room is subscribed to only if it is not subscribed to yet, and unsubscribed from only if
    /// it is. A message that waits for a connection is the one for the room whose turn it is.
    pub open spec fn in_order(self) -> bool {
        &&& forall|room: RoomName| #[trigger]
            self.subscribed.contains(room) ==> room.displayable()
        &&& match self.task {
            TaskView::Idle => true,
            TaskView::Raw => self.link is Sending,
            TaskView::Subscribe { rooms, index } => {
                &&& 0 <= index < rooms.len()
                &&& all_displayable(rooms)
                &&& !self.subscribed.contains(rooms[index])
                &&& self.link.waiting() matches Some(message) ==> message
                    == OwnedMessageView::Text(subscribe_text(rooms[index]))
            },
            TaskView::Unsubscribe { rooms, index } => {
                &&& 0 <= index < rooms.len()
                &&& rooms.no_duplicates()
                &&& self.link.waiting() matches Some(message) ==> message
                    == OwnedMessageView::Text(unsubscribe_text(rooms[index]))
                &&& forall|i: int|
                    index <= i < rooms.len() ==> self.subscribed.contains(#[trigger] rooms[i])
            },
        }
    }

    /// What holds of every executor between two steps. The connection that is kept is not in use
    /// between two requests.
    pub open spec fn wf(self) -> bool {
        &&& self.in_order()
        &&& self.task is Idle <==> self.link is Idle
        &&& self.connected ==> self.link is Idle
    }

    /// A request is done with.
    pub open spec fn finish(self, effects: Seq<EffectView>) -> (ExecutorView, StepView) {
        (
            ExecutorView { task: TaskView::Idle, link: LinkView::Idle, ..self },
            StepView { effects, action: ActionView::Done },
        )
    }

    /// A message is sent over the connection that is kept. Where there is none, a connection is
    /// brought up for it, which begins with a token.
    pub open spec fn send(self, message: OwnedMessageView, effects: Seq<EffectView>) -> (
        ExecutorView,
        StepView,
    ) {
        if self.connected {
            (
                ExecutorView { connected: false, link: LinkView::Sending, ..self },
                StepView { effects, action: ActionView::Send { message } },
            )
        } else {
            (
                ExecutorView { link: LinkView::TakingToken { message }, ..self },
                StepView { effects, action: ActionView::TakeToken },
            )
        }
    }

    /// The rooms of a list are unsubscribed from, one after the other, from an index on.
    pub open spec fn unsubscribe(
        self,
        rooms: Seq<RoomName>,
        index: int,
        effects: Seq<EffectView>,
    ) -> (ExecutorView, StepView) {
        if index < rooms.len() {
            (ExecutorView { task: TaskView::Unsubscribe { rooms, index }, ..self }).send(
                OwnedMessageView::Text(unsubscribe_text(rooms[index])),
                effects,
            )
        } else {
            self.finish(effects)
        }
    }

    /// The rooms of a list are subscribed to, one after the other, from an index on. Rooms that are
    /// subscribed to already are passed over. Then the rooms that are not in the list are
    /// unsubscribed from, in no fixed order.
    pub open spec fn subscribe(
        self,
        rooms: Seq<RoomName>,
        from: int,
        effects: Seq<EffectView>,
        next: (ExecutorView, StepView),
    ) -> bool {
        let index = first_missing(rooms, from, self.subscribed);
        if index < rooms.len() {
            next == (ExecutorView { task: TaskView::Subscribe { rooms, index }, ..self }).send(
                OwnedMessageView::Text(subscribe_text(rooms[index])),
                effects,
            )
        } else {
            exists|unneeded: Seq<RoomName>| #[trigger]
                arranges(unneeded, self.subscribed.difference(rooms.to_set())) && next
                    == self.unsubscribe(unneeded, 0, effects)
        }
    }

    /// A message was sent, or failed to be. The set of rooms follows the messages that were sent.
    pub open spec fn sent(
        self,
        ok: bool,
        effects: Seq<EffectView>,
        next: (ExecutorView, StepView),
    ) -> bool {
        let free = ExecutorView { link: LinkView::Idle, ..self };
        match self.task {
            TaskView::Idle => false,
            TaskView::Raw => next == free.finish(effects),
            TaskView::Subscribe { rooms, index } => {
                let subscribed = if ok {
                    self.subscribed.insert(rooms[index])
                } else {
                    self.subscribed
                };
                (ExecutorView { subscribed, ..free }).subscribe(rooms, index + 1, effects, next)
            },
            TaskView::Unsubscribe { rooms, index } => {
                let subscribed = if ok {
                    self.subscribed.remove(rooms[index])
                } else {
                    self.subscribed
                };
                next == (ExecutorView { subscribed, ..free }).unsubscribe(
                    rooms,
                    index + 1,
                    effects,
                )
            },
        }
    }

    /// A message failed to be sent, and the user interface is told why.
    pub open spec fn failed(
        self,
        event: NetworkEventView,
        next: (ExecutorView, StepView),
    ) -> bool {
        self.sent(false, seq![EffectView::Relay(event)], next)
    }

    /// The state does not change but for the message, and there is an action.
    pub open spec fn proceed(self, link: LinkView, action: ActionView) -> (
        ExecutorView,
        StepView,
    ) {
        (ExecutorView { link, ..self }, StepView { effects: seq![], action })
    }

    /// What follows a new request.
    ///
    /// A raw message is dropped unless it is meant for the connection that is kept.
    pub open spec fn run(self, input: InputView, next: (ExecutorView, StepView)) -> bool {
        match input {
            InputView::SetMapSubscribes { rooms } => self.subscribe(rooms, 0, seq![], next),
            InputView::Raw(id, message) => if id == self.connection_id && self.connected {
                next == (ExecutorView { task: TaskView::Raw, ..self }).send(message, seq![])
            } else {
                next == self.finish(seq![])
            },
        }
    }

    /// Whether a frame from the server accepts the token.
    pub open spec fn granted(parsed: Result<SockjsMessageView, Seq<char>>) -> bool {
        parsed matches Ok(frame) && verdict(carried(frame)) is Granted
    }

    /// What follows a frame from the server while it has not said yet whether it accepts the token.
    ///
    /// Once it does, the connection gets the next number and is kept, and the message is sent.
    pub open spec fn login_protocol(
        self,
        parsed: Result<SockjsMessageView, Seq<char>>,
        next: (ExecutorView, StepView),
    ) -> bool {
        match parsed {
            Err(reason) => self.failed(
                NetworkEventView::WebsocketParseError { error: ParseErrorView::Malformed(reason) },
                next,
            ),
            Ok(frame) => match verdict(carried(frame)) {
                VerdictView::Granted(token) => {
                    let connection_id = (self.connection_id + 1) as u16;
                    next == (ExecutorView { connection_id, connected: true, ..self }).send(
                        self.link.waiting()->0,
                        seq![
                            EffectView::ReturnToken(token),
                            EffectView::StartReader { connection_id },
                        ],
                    )
                },
                VerdictView::Refused => self.failed(
                    NetworkEventView::WebsocketHttpError { error: ApiErrorView::Unauthorized },
                    next,
                ),
                VerdictView::Undecided => next == self.proceed(self.link, ActionView::Receive),
            },
        }
    }

    /// Whether a reply can be the next one. After a login there is a token.
    pub open spec fn expects(self, reply: ReplyView) -> bool {
        match self.link {
            LinkView::Idle => false,
            LinkView::Sending => reply is Sent,
            LinkView::TakingToken { .. } => reply is Token,
            LinkView::LoggingIn { .. } => reply is LoggedIn,
            LinkView::RetakingToken { .. } => reply matches ReplyView::Token(Some(_)),
            LinkView::Connecting { .. } => reply is Connected,
            LinkView::Greeting { .. } => reply is Sent,
            LinkView::Listening { .. } => reply is Received,
        }
    }

    /// What follows a reply.
    pub open spec fn resume(self, reply: ReplyView, next: (ExecutorView, StepView)) -> bool {
        match (self.link, reply) {
            (LinkView::Sending, ReplyView::Sent(Ok(_))) => (ExecutorView {
                connected: true,
                ..self
            }).sent(true, seq![], next),
            // A login is made where there is no token, and its token is taken from the storage.
            (LinkView::TakingToken { message }, ReplyView::Token(None)) => next == self.proceed(
                LinkView::LoggingIn { message },
                ActionView::Login {
                    username: self.login.username,
                    password: self.login.password,
                },
            ),
            (LinkView::LoggingIn { message }, ReplyView::LoggedIn(Ok(token))) => next == (
                ExecutorView { link: LinkView::RetakingToken { message }, ..self },
                StepView {
                    effects: seq![EffectView::ReturnToken(token)],
                    action: ActionView::TakeToken,
                },
            ),
            (LinkView::LoggingIn { .. }, ReplyView::LoggedIn(Err(error))) => self.failed(
                NetworkEventView::WebsocketHttpError { error },
                next,
            ),
            (LinkView::TakingToken { message }, ReplyView::Token(Some(token))) => next
                == self.proceed(LinkView::Connecting { message, token }, ActionView::Connect),
            (LinkView::RetakingToken { message }, ReplyView::Token(Some(token))) => next
                == self.proceed(LinkView::Connecting { message, token }, ActionView::Connect),
            // The token is the first thing that is sent over a new connection.
            (LinkView::Connecting { message, token }, ReplyView::Connected(Ok(_))) => next
                == self.proceed(
                LinkView::Greeting { message },
                ActionView::Greet { message: OwnedMessageView::Text(authenticate_text(token)) },
            ),
            (LinkView::Greeting { message }, ReplyView::Sent(Ok(_))) => next == self.proceed(
                LinkView::Listening { message },
                ActionView::Receive,
            ),
            // The answer to it is looked for in the messages that come. Pings are answered.
            (LinkView::Listening { message }, ReplyView::Received(Ok(Some(received)))) =>
                match received {
                    OwnedMessageView::Text(text) => self.login_protocol(frame_parsed(text), next),
                    OwnedMessageView::Ping(data) => next == self.proceed(
                        LinkView::Greeting { message },
                        ActionView::Greet { message: OwnedMessageView::Pong(data) },
                    ),
                    _ => self.failed(
                        NetworkEventView::WebsocketParseError {
                            error: ParseErrorView::Other(
                                "expected text websocket message, found "@ + shown(
                                    received,
                                ),
                            ),
                        },
                        next,
                    ),
                },
            (LinkView::Listening { .. }, ReplyView::Received(Ok(None))) => self.sent(
                false,
                seq![],
                next,
            ),
            // The connection is lost.
            (_, ReplyView::Sent(Err(error))) => self.failed(
                NetworkEventView::WebsocketError { error },
                next,
            ),
            (_, ReplyView::Connected(Err(error))) => self.failed(
                NetworkEventView::WebsocketError { error },
                next,
            ),
            (_, ReplyView::Received(Err(error))) => self.failed(
                NetworkEventView::WebsocketError { error },
                next,
            ),
            _ => false,
        }
    }

    /// Whether a reply means that the message on its way is not sent: the connection or the login
    /// fails, the peer closes the connection, or what it answers is not understood or no consent.
    pub open spec fn loses(self, reply: ReplyView) -> bool {
        match reply {
            ReplyView::Sent(result) => result is Err,
            ReplyView::Token(_) => false,
            ReplyView::LoggedIn(result) => result is Err,
            ReplyView::Connected(result) => result is Err,
            ReplyView::Received(Err(_)) => true,
            ReplyView::Received(Ok(None)) => true,
            ReplyView::Received(Ok(Some(OwnedMessageView::Text(text)))) => match frame_parsed(
                text,
            ) {
                Ok(frame) => verdict(carried(frame)) is Refused,
                Err(_) => true,
            },
            ReplyView::Received(Ok(Some(OwnedMessageView::Ping(_)))) => false,
            ReplyView::Received(Ok(Some(_))) => true,
        }
    }

    /// Whether a reply means that the message on its way was sent.
    pub open spec fn delivers(self, reply: ReplyView) -> bool {
        self.link is Sending && reply matches ReplyView::Sent(Ok(_))
    }

    /// Whether a reply brings the answer that a token is accepted.
    pub open spec fn grants(self, reply: ReplyView) -> bool {
        &&& self.link is Listening
        &&& reply matches ReplyView::Received(Ok(Some(OwnedMessageView::Text(text))))
        &&& ExecutorView::granted(frame_parsed(text))
    }

    /// Whether there is no way to go on from a reply: a connection came up, and there is no number
    /// left for it.
    pub open spec fn stuck(self, reply: ReplyView) -> bool {
        self.grants(reply) && self.connection_id == u16::MAX
    }
}

/// One effect.
fn just(effect: Effect) -> (res: Vec<Effect>)
    ensures
        effects_view(res@) == seq![effect@],
{
    let mut effects = Vec::new();
    effects.push(effect);
    proof {
        assert(effects_view(effects@) =~= seq![effect@]);
    }
    effects
}

/// No effects.
fn none() -> (res: Vec<Effect>)
    ensures
        effects_view(res@) == Seq::<EffectView>::empty(),
{
    let effects: Vec<Effect> = Vec::new();
    proof {
        assert(effects_view(effects@) =~= Seq::<EffectView>::empty());
    }
    effects
}

impl Executor {
    /// An executor without a connection and without subscriptions.
    pub fn new(login: LoginDetails) -> (res: Executor)
        ensures
            res@ == (ExecutorView {
                subscribed: Set::empty(),
                login: login@,
                connection_id: 0,
                connected: false,
                task: TaskView::Idle,
                link: LinkView::Idle,
            }),
            res@.wf(),
    {
        Executor {
            subscribed_map_view: RoomSet::new(),
            login,
            connection_id: 0,
            connected: false,
            task: Task::Idle,
            link: Link::Idle,
        }
    }

    /// The details to log in with.
    pub fn login(&self) -> (res: &LoginDetails)
        ensures
            res@ == self@.login,
    {
        &self.login
    }

    /// Whether a room is subscribed to.
    pub fn is_subscribed(&self, room_name: RoomName) -> (res: bool)
        ensures
            res == self@.subscribed.contains(room_name),
    {
        self.subscribed_map_view.contains(room_name)
    }

    /// Starts to handle a request.
    pub fn run(self, request: WebsocketRequestOrRaw) -> (res: (Executor, Step))
        requires
            self@.wf(),
            self@.idle(),
            request@ matches InputView::SetMapSubscribes { rooms } ==> all_displayable(rooms),
        ensures
            res.0@.wf(),
            self@.run(request@, (res.0@, res.1@)),
    {
        match request {
            WebsocketRequestOrRaw::Structured(request) => self.execute(request),
            WebsocketRequestOrRaw::Raw(id, message) => self.send_raw(id, message),
        }
    }

    /// Starts to handle a request of the user interface.
    ///
    /// Where exactly the rooms that are asked for are subscribed to, nothing is done and nothing
    /// changes.
    pub fn execute(self, request: WebsocketRequest) -> (res: (Executor, Step))
        requires
            self@.wf(),
            self@.idle(),
            request matches WebsocketRequest::SetMapSubscribes { rooms } ==> all_displayable(
                rooms@,
            ),
        ensures
            res.0@.wf(),
            self@.run(WebsocketRequestOrRaw::Structured(request)@, (res.0@, res.1@)),
            request matches WebsocketRequest::SetMapSubscribes { rooms } ==> (
            self@.subscribed == rooms@.to_set() ==> (res.0@, res.1@) == (
                self@,
                StepView { effects: seq![], action: ActionView::Done },
            )),
    {
        let ghost before = self@;
        match request {
            WebsocketRequest::SetMapSubscribes { rooms } => {
                let ghost asked = rooms@;
                let res = self.subscribe(rooms, 0, none());
                proof {
                    if before.subscribed == asked.to_set() {
                        law_nothing_to_ask_for(before, asked, (res.0@, res.1@));
                    }
                }
                res
            },
        }
    }

    fn send_raw(self, id: u16, message: OwnedMessage) -> (res: (Executor, Step))
        requires
            self@.wf(),
            self@.idle(),
        ensures
            res.0@.wf(),
            self@.run(InputView::Raw(id, message@), (res.0@, res.1@)),
    {
        // ignore messages from past closed connections.
        if id == self.connection_id && self.connected {
            let executor = Executor { task: Task::Raw, ..self };
            executor.send(message, none())
        } else {
            self.finish(none())
        }
    }

    fn finish(self, effects: Vec<Effect>) -> (res: (Executor, Step))
        ensures
            (res.0@, res.1@) == self@.finish(effects_view(effects@)),
    {
        let executor = Executor { task: Task::Idle, link: Link::Idle, ..self };
        (executor, Step { effects, action: Action::Done })
    }

    fn send(self, message: OwnedMessage, effects: Vec<Effect>) -> (res: (Executor, Step))
        ensures
            (res.0@, res.1@) == self@.send(message@, effects_view(effects@)),
    {
        if self.connected {
            let executor = Executor { connected: false, link: Link::Sending, ..self };
            (executor, Step { effects, action: Action::Send { message } })
        } else {
            let executor = Executor { link: Link::TakingToken { message }, ..self };
            (executor, Step { effects, action: Action::TakeToken })
        }
    }

    fn unsubscribe(self, rooms: Vec<RoomName>, index: usize, effects: Vec<Effect>) -> (res: (
        Executor,
        Step,
    ))
        requires
            index <= rooms.len(),
            rooms@.no_duplicates(),
            forall|i: int|
                index <= i < rooms.len() ==> self@.subscribed.contains(#[trigger] rooms@[i]),
            forall|room: RoomName| #[trigger]
                self@.subscribed.contains(room) ==> room.displayable(),
            self@.link is Idle,
        ensures
            (res.0@, res.1@) == self@.unsubscribe(rooms@, index as int, effects_view(effects@)),
            res.0@.wf(),
    {
        if index < rooms.len() {
            let text = command::unsubscribe(rooms[index]);
            let executor = Executor { task: Task::Unsubscribe { rooms, index }, ..self };
            executor.send(OwnedMessage::Text(text), effects)
        } else {
            self.finish(effects)
        }
    }

    fn subscribe(self, rooms: Vec<RoomName>, from: usize, effects: Vec<Effect>) -> (res: (
        Executor,
        Step,
    ))
        requires
            from <= rooms.len(),
            all_displayable(rooms@),
            forall|room: RoomName| #[trigger]
                self@.subscribed.contains(room) ==> room.displayable(),
            self@.link is Idle,
        ensures
            self@.subscribe(rooms@, from as int, effects_view(effects@), (res.0@, res.1@)),
            res.0@.wf(),
    {
        let mut index: usize = from;
        while index < rooms.len() && self.subscribed_map_view.contains(rooms[index])
            invariant
                from <= index <= rooms.len(),
                first_missing(rooms@, from as int, self@.subscribed) == first_missing(
                    rooms@,
                    index as int,
                    self@.subscribed,
                ),
            decreases rooms.len() - index,
        {
            index += 1;
        }
        if index < rooms.len() {
            let text = command::subscribe(rooms[index]);
            let executor = Executor { task: Task::Subscribe { rooms, index }, ..self };
            executor.send(OwnedMessage::Text(text), effects)
        } else {
            let unneeded = self.subscribed_map_view.missing_from(&rooms);
            proof {
                assert(arranges(unneeded@, self@.subscribed.difference(rooms@.to_set())));
                assert forall|i: int| 0 <= i < unneeded.len() implies self@.subscribed.contains(
                    #[trigger] unneeded@[i],
                ) by {
                    assert(unneeded@.to_set().contains(unneeded@[i]));
                }
            }
            self.unsubscribe(unneeded, 0, effects)
        }
    }

    /// Carries on after the message was sent, or failed to be.
    fn sent(self, ok: bool, effects: Vec<Effect>) -> (res: (Executor, Step))
        requires
            self@.in_order(),
            !self@.idle(),
        ensures
            res.0@.wf(),
            self@.sent(ok, effects_view(effects@), (res.0@, res.1@)),
    {
        let ghost before = self@;
        let Executor { mut subscribed_map_view, login, connection_id, connected, task, link: _ } =
            self;
        assert(before.subscribed == subscribed_map_view@);
        match task {
            Task::Idle => unreached(),
            Task::Raw => {
                let executor = Executor {
                    subscribed_map_view,
                    login,
                    connection_id,
                    connected,
                    task,
                    link: Link::Idle,
                };
                executor.finish(effects)
            },
            Task::Subscribe { rooms, index } => {
                assert(index < rooms.len());
                if ok {
                    subscribed_map_view.insert(rooms[index]);
                }
                let executor = Executor {
                    subscribed_map_view,
                    login,
                    connection_id,
                    connected,
                    task: Task::Idle,
                    link: Link::Idle,
                };
                executor.subscribe(rooms, index + 1, effects)
            },
            Task::Unsubscribe { rooms, index } => {
                assert(index < rooms.len());
                if ok {
                    subscribed_map_view.remove(rooms[index]);
                }
                let executor = Executor {
                    subscribed_map_view,
                    login,
                    connection_id,
                    connected,
                    task: Task::Idle,
                    link: Link::Idle,
                };
                assert(forall|room: RoomName| #[trigger]
                    executor@.subscribed.contains(room) ==> before.subscribed.contains(room));
                executor.unsubscribe(rooms, index + 1, effects)
            },
        }
    }

    /// Carries on after the connection failed, and has the user interface told why.
    fn relay_error(self, error: WebSocketError) -> (res: (Executor, Step))
        requires
            self@.wf(),
            !self@.idle(),
        ensures
            res.0@.wf(),
            self@.failed(
                NetworkEventView::WebsocketError { error: error@ },
                (res.0@, res.1@),
            ),
    {
        self.relay_event(NetworkEvent::WebsocketError { error })
    }

    /// Carries on after a login failed, and has the user interface told why.
    fn relay_http_error(self, error: ApiError) -> (res: (Executor, Step))
        requires
            self@.wf(),
            !self@.idle(),
        ensures
            res.0@.wf(),
            self@.failed(
                NetworkEventView::WebsocketHttpError { error: error@ },
                (res.0@, res.1@),
            ),
    {
        self.relay_event(NetworkEvent::WebsocketHttpError { error })
    }

    /// Carries on after the message failed to be sent, and has the user interface told why.
    fn relay_event(self, event: NetworkEvent) -> (res: (Executor, Step))
        requires
            self@.wf(),
            !self@.idle(),
        ensures
            res.0@.wf(),
            self@.failed(event@, (res.0@, res.1@)),
    {
        self.sent(false, just(Effect::Relay(event)))
    }

    /// Carries on after a frame from the server, while it has not said yet whether it accepts the
    /// token.
    pub fn login_protocol(self, parsed: Result<SockjsMessage, String>) -> (res: (Executor, Step))
        requires
            self@.wf(),
            self@.link is Listening,
            ExecutorView::granted(parsed_view(parsed)) ==> self@.connection_id < u16::MAX,
        ensures
            res.0@.wf(),
            self@.login_protocol(parsed_view(parsed), (res.0@, res.1@)),
    {
        let frame = match parsed {
            Ok(frame) => frame,
            Err(reason) => {
                return self.relay_event(
                    NetworkEvent::WebsocketParseError { error: ParseError::Malformed(reason) },
                );
            },
        };
        match read_verdict(&frame) {
            Verdict::Granted(new_token) => {
                let Executor { subscribed_map_view, login, connection_id, task, link, .. } = self;
                let connection_id: u16 = connection_id + 1;
                let message = match link {
                    Link::Listening { message } => message,
                    _ => unreached(),
                };
                let executor = Executor {
                    subscribed_map_view,
                    login,
                    connection_id,
                    connected: true,
                    task,
                    link: Link::Idle,
                };
                let mut effects: Vec<Effect> = Vec::new();
                effects.push(Effect::ReturnToken(new_token));
                effects.push(Effect::StartReader { connection_id });
                assert(effects_view(effects@) == seq![
                    EffectView::ReturnToken(new_token@),
                    EffectView::StartReader { connection_id },
                ]);
                executor.send(message, effects)
            },
            Verdict::Refused => self.relay_http_error(ApiError::Unauthorized),
            Verdict::Undecided => (self, Step { effects: none(), action: Action::Receive }),
        }
    }

    /// Carries on after a reply to the last action.
    ///
    /// Gives nothing where there is no way to go on: a connection came up, and there is no number
    /// left for it.
    pub fn resume(self, reply: Reply) -> (res: Option<(Executor, Step)>)
        requires
            self@.wf(),
            self@.expects(reply@),
        ensures
            res matches Some((executor, step)) ==> executor@.wf() && self@.resume(
                reply@,
                (executor@, step@),
            ),
            res is None <==> self@.stuck(reply@),
    {
        match reply {
            Reply::Sent(Err(error)) => Some(self.relay_error(error)),
            Reply::Connected(Err(error)) => Some(self.relay_error(error)),
            Reply::Received(Err(error)) => Some(self.relay_error(error)),
            Reply::LoggedIn(Err(error)) => Some(self.relay_http_error(error)),
            Reply::Received(Ok(None)) => Some(self.sent(false, none())),
            Reply::Received(Ok(Some(received))) => self.test_response(received),
            reply => Some(self.proceed(reply)),
        }
    }

    /// Carries on after a message came, while the server has not said yet whether it accepts the
    /// token.
    fn test_response(self, received: OwnedMessage) -> (res: Option<(Executor, Step)>)
        requires
            self@.wf(),
            self@.link is Listening,
        ensures
            res matches Some((executor, step)) ==> executor@.wf() && self@.resume(
                ReplyView::Received(Ok(Some(received@))),
                (executor@, step@),
            ),
            res is None <==> self@.stuck(ReplyView::Received(Ok(Some(received@)))),
    {
        match received {
            OwnedMessage::Text(text) => {
                let parsed = message::read_frame(text.as_str());
                if self.connection_id == u16::MAX {
                    if let Ok(frame) = &parsed {
                        if let Verdict::Granted(_) = read_verdict(frame) {
                            return None;
                        }
                    }
                }
                Some(self.login_protocol(parsed))
            },
            OwnedMessage::Ping(data) => {
                let message = match self.link {
                    Link::Listening { message } => message,
                    _ => unreached(),
                };
                let executor = Executor { link: Link::Greeting { message }, ..self };
                let action = Action::Greet { message: OwnedMessage::Pong(data) };
                Some((executor, Step { effects: none(), action }))
            },
            other => {
                let mut text = "expected text websocket message, found ".to_owned();
                let found = message::debug_text(other);
                text.append(found.as_str());
                Some(
                    self.relay_event(
                        NetworkEvent::WebsocketParseError { error: ParseError::Other(text) },
                    ),
                )
            },
        }
    }

    /// Carries on after something went well.
    fn proceed(self, reply: Reply) -> (res: (Executor, Step))
        requires
            self@.wf(),
            self@.expects(reply@),
            reply matches Reply::Sent(result) ==> result is Ok,
            reply matches Reply::Connected(result) ==> result is Ok,
            reply matches Reply::LoggedIn(result) ==> result is Ok,
            !(reply is Received),
        ensures
            res.0@.wf(),
            self@.resume(reply@, (res.0@, res.1@)),
    {
        let Executor { subscribed_map_view, login, connection_id, connected, task, link } = self;
        let mut effects = none();
        let (link, action) = match (link, reply) {
            (Link::Sending, _) => {
                let executor = Executor {
                    subscribed_map_view,
                    login,
                    connection_id,
                    connected: true,
                    task,
                    link: Link::Sending,
                };
                return executor.sent(true, none());
            },
            (Link::TakingToken { message }, Reply::Token(None)) => (
                Link::LoggingIn { message },
                Action::Login {
                    username: login.username().to_owned(),
                    password: login.password().to_owned(),
                },
            ),
            (Link::LoggingIn { message }, Reply::LoggedIn(Ok(token))) => {
                effects = just(Effect::ReturnToken(token));
                (Link::RetakingToken { message }, Action::TakeToken)
            },
            (Link::TakingToken { message }, Reply::Token(Some(token))) => (
                Link::Connecting { message, token },
                Action::Connect,
            ),
            (Link::RetakingToken { message }, Reply::Token(Some(token))) => (
                Link::Connecting { message, token },
                Action::Connect,
            ),
            (Link::Connecting { message, token }, _) => {
                let text = command::authenticate(token.as_str());
                (Link::Greeting { message }, Action::Greet { message: OwnedMessage::Text(text) })
            },
            (Link::Greeting { message }, _) => (Link::Listening { message }, Action::Receive),
            _ => unreached(),
        };
        let executor = Executor {
            subscribed_map_view,
            login,
            connection_id,
            connected,
            task,
            link,
        };
        (executor, Step { effects, action })
    }
}

} // verus!
