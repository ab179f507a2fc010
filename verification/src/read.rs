//! Reading from the websocket connection.
//!
//! A [`ReaderData`] is told each thing that comes from the connection. It answers with what to do
//! about it, one action at a time, and stops for good as soon as nobody listens any more.

use std::collections::VecDeque;

use screeps_api::websocket::RoomMapViewUpdate;
use vstd::prelude::*;

use crate::error::{ApiError, ApiErrorView, ParseError, ParseErrorView, WebSocketError};
use crate::message;
use crate::message::{
    carried, frame_parsed, parsed_view, OwnedMessage, OwnedMessageView, ScreepsMessage,
    ScreepsMessageView, SockjsMessage, SockjsMessageView,
};
use crate::request::{NetworkEvent, NetworkEventView};
use crate::room::RoomName;

verus! {

/// Something to do about what was read.
#[derive(Debug)]
pub enum ReaderAction {
    /// Tell the user interface.
    Send(NetworkEvent),
    /// Have a message sent over the connection with a number.
    SendResponse { connection_id: u16, response: OwnedMessage },
    /// Give a token to the token storage.
    ReturnToken(String),
}

/// What a [`ReaderAction`] is about.
pub enum ReaderActionView {
    Send(NetworkEventView),
    SendResponse { connection_id: u16, response: OwnedMessageView },
    ReturnToken(Seq<char>),
}

impl View for ReaderAction {
    type V = ReaderActionView;

    open spec fn view(&self) -> ReaderActionView {
        match self {
            ReaderAction::Send(event) => ReaderActionView::Send(event@),
            ReaderAction::SendResponse { connection_id, response } => {
                ReaderActionView::SendResponse {
                    connection_id: *connection_id,
                    response: response@,
                }
            },
            ReaderAction::ReturnToken(token) => ReaderActionView::ReturnToken(token@),
        }
    }
}

/// What some actions are about.
pub open spec fn actions_view(actions: Seq<ReaderAction>) -> Seq<ReaderActionView> {
    actions.map_values(|action: ReaderAction| action@)
}

/// What was read, with what its error says.
pub open spec fn item_view(item: Result<OwnedMessage, WebSocketError>) -> Result<
    OwnedMessageView,
    Seq<char>,
> {
    match item {
        Ok(message) => Ok(message@),
        Err(error) => Err(error@),
    }
}

/// What to do about a message from the game server.
pub open spec fn screeps_actions(message: ScreepsMessageView) -> Seq<ReaderActionView> {
    match message {
        ScreepsMessageView::AuthFailed => seq![
            ReaderActionView::Send(
                NetworkEventView::WebsocketHttpError { error: ApiErrorView::Unauthorized },
            ),
        ],
        ScreepsMessageView::AuthOk { new_token } => seq![
            ReaderActionView::ReturnToken(new_token),
        ],
        ScreepsMessageView::MapView { room_name, update } => seq![
            ReaderActionView::Send(NetworkEventView::MapView { room_name, result: update }),
        ],
        ScreepsMessageView::OtherUpdate => seq![],
        ScreepsMessageView::ServerProtocol => seq![],
        ScreepsMessageView::ServerPackage => seq![],
        ScreepsMessageView::ServerTime => seq![],
        ScreepsMessageView::Other => seq![],
    }
}

/// What to do about messages from the game server: what there is to do about each, in order.
pub open spec fn sockjs_actions(messages: Seq<ScreepsMessageView>) -> Seq<ReaderActionView>
    decreases messages.len(),
{
    if messages.len() == 0 {
        seq![]
    } else {
        sockjs_actions(messages.drop_last()) + screeps_actions(messages.last())
    }
}

/// What to do about a text, by what came of reading it as a frame.
pub open spec fn parsed_actions(parsed: Result<SockjsMessageView, Seq<char>>) -> Seq<
    ReaderActionView,
> {
    match parsed {
        Ok(frame) => sockjs_actions(carried(frame)),
        Err(reason) => seq![
            ReaderActionView::Send(
                NetworkEventView::WebsocketParseError { error: ParseErrorView::Malformed(reason) },
            ),
        ],
    }
}

/// What to do about something that was read from the connection with a number.
pub open spec fn item_actions(
    connection_id: u16,
    item: Result<OwnedMessageView, Seq<char>>,
) -> Seq<ReaderActionView> {
    match item {
        Ok(OwnedMessageView::Text(text)) => parsed_actions(frame_parsed(text)),
        Ok(OwnedMessageView::Ping(data)) => seq![
            ReaderActionView::SendResponse {
                connection_id,
                response: OwnedMessageView::Pong(data),
            },
        ],
        Ok(_) => seq![],
        Err(error) => seq![ReaderActionView::Send(NetworkEventView::WebsocketError { error })],
    }
}

/// What a reader waits for.
#[derive(Clone, Copy, Debug, PartialEq, Eq, Structural)]
pub enum Awaited {
    /// Something from the connection.
    Item,
    /// Whether the user interface was told.
    Sent,
    /// Whether a response was passed on, or a token returned.
    Done,
    /// Nothing any more.
    Nothing,
}

/// What a reader does next.
#[derive(Debug)]
pub enum ReaderStep {
    /// Read from the connection.
    Read,
    /// Perform an action, and report on it.
    Perform(ReaderAction),
    /// Stop, and drop the connection.
    ExitNow,
}

/// What a [`ReaderStep`] is about.
pub enum ReaderStepView {
    Read,
    Perform(ReaderActionView),
    ExitNow,
}

impl View for ReaderStep {
    type V = ReaderStepView;

    open spec fn view(&self) -> ReaderStepView {
        match self {
            ReaderStep::Read => ReaderStepView::Read,
            ReaderStep::Perform(action) => ReaderStepView::Perform(action@),
            ReaderStep::ExitNow => ReaderStepView::ExitNow,
        }
    }
}

/// Reads from a connection.
pub struct ReaderData {
    connection_id: u16,
    queue: VecDeque<ReaderAction>,
    awaited: Awaited,
}

/// The state of a [`ReaderData`].
pub struct ReaderView {
    /// The number of the connection.
    pub connection_id: u16,
    /// What is still to do about the last thing that was read.
    pub queue: Seq<ReaderActionView>,
    pub awaited: Awaited,
}

impl View for ReaderData {
    type V = ReaderView;

    closed spec fn view(&self) -> ReaderView {
        ReaderView {
            connection_id: self.connection_id,
            queue: actions_view(self.queue@),
            awaited: self.awaited,
        }
    }
}

impl ReaderView {
    /// The next action, or the next thing from the connection once there is none.
    pub open spec fn turn(self) -> (ReaderView, ReaderStepView) {
        if self.queue.len() == 0 {
            (ReaderView { awaited: Awaited::Item, ..self }, ReaderStepView::Read)
        } else {
            let awaited = if self.queue[0] is Send {
                Awaited::Sent
            } else {
                Awaited::Done
            };
            (
                ReaderView { queue: self.queue.drop_first(), awaited, ..self },
                ReaderStepView::Perform(self.queue[0]),
            )
        }
    }

    /// Something was read.
    pub open spec fn event(self, item: Result<OwnedMessageView, Seq<char>>) -> (
        ReaderView,
        ReaderStepView,
    ) {
        (ReaderView { queue: item_actions(self.connection_id, item), ..self }).turn()
    }

    /// An action was performed, or could not be because nobody listens any more.
    pub open spec fn performed(self, ok: bool) -> (ReaderView, ReaderStepView) {
        if ok {
            self.turn()
        } else {
            (
                ReaderView { queue: seq![], awaited: Awaited::Nothing, ..self },
                ReaderStepView::ExitNow,
            )
        }
    }
}

/// Adds what to do about a message from the game server.
fn event_screeps_message(message: ScreepsMessage, actions: &mut VecDeque<ReaderAction>)
    ensures
        actions_view(final(actions)@) == actions_view(old(actions)@) + screeps_actions(message@),
{
    let ghost before = actions@;
    match message {
        ScreepsMessage::AuthFailed => {
            let event = NetworkEvent::WebsocketHttpError { error: ApiError::Unauthorized };
            actions.push_back(ReaderAction::Send(event));
        },
        ScreepsMessage::AuthOk { new_token } => {
            actions.push_back(ReaderAction::ReturnToken(new_token));
        },
        ScreepsMessage::MapView { room_name, update } => {
            let event = NetworkEvent::MapView { room_name, result: update };
            actions.push_back(ReaderAction::Send(event));
        },
        ScreepsMessage::OtherUpdate => {},
        ScreepsMessage::ServerProtocol => {},
        ScreepsMessage::ServerPackage => {},
        ScreepsMessage::ServerTime => {},
        ScreepsMessage::Other => {},
    }
    proof {
        assert(actions_view(actions@) =~= actions_view(before) + screeps_actions(message@));
    }
}

/// What to do about a frame.
pub fn event_sockjs_message(frame: SockjsMessage) -> (res: VecDeque<ReaderAction>)
    ensures
        actions_view(res@) == sockjs_actions(carried(frame@)),
{
    let mut actions: VecDeque<ReaderAction> = VecDeque::new();
    let ghost all = carried(frame@);
    proof {
        assert(actions_view(actions@) =~= seq![]);
    }
    match frame {
        SockjsMessage::Message(message) => {
            proof {
                assert(all.drop_last() =~= seq![]);
                reveal_with_fuel(sockjs_actions, 2);
                assert(sockjs_actions(all) =~= screeps_actions(message@));
            }
            event_screeps_message(message, &mut actions);
            proof {
                assert(actions_view(actions@) =~= screeps_actions(message@));
            }
        },
        SockjsMessage::Messages(messages) => {
            let ghost list = messages@;
            proof {
                assert(all.take(0) =~= seq![]);
            }
            for message in walk: messages.into_iter()
                invariant
                    walk.seq() == list,
                    all == list.map_values(|message: ScreepsMessage| message@),
                    actions_view(actions@) == sockjs_actions(all.take(walk.index())),
            {
                proof {
                    let next = all.take(walk.index() + 1);
                    assert(next.drop_last() =~= all.take(walk.index()));
                    assert(next.last() == message@);
                }
                event_screeps_message(message, &mut actions);
            }
            proof {
                assert(all.take(all.len() as int) =~= all);
            }
        },
        _ => {},
    }
    actions
}

/// What to do about a text, by what came of reading it as a frame.
pub fn event_parsed(parsed: Result<SockjsMessage, String>) -> (res: VecDeque<ReaderAction>)
    ensures
        actions_view(res@) == parsed_actions(parsed_view(parsed)),
{
    match parsed {
        Ok(frame) => event_sockjs_message(frame),
        Err(reason) => {
            let error = ParseError::Malformed(reason);
            just(ReaderAction::Send(NetworkEvent::WebsocketParseError { error }))
        },
    }
}

/// One action.
fn just(action: ReaderAction) -> (res: VecDeque<ReaderAction>)
    ensures
        actions_view(res@) == seq![action@],
{
    let mut actions: VecDeque<ReaderAction> = VecDeque::new();
    actions.push_back(action);
    proof {
        assert(actions_view(actions@) =~= seq![action@]);
    }
    actions
}

impl ReaderData {
    /// A reader of the connection with a number.
    pub fn new(connection_id: u16) -> (res: ReaderData)
        ensures
            res@ == (ReaderView { connection_id, queue: seq![], awaited: Awaited::Item }),
    {
        let queue: VecDeque<ReaderAction> = VecDeque::new();
        proof {
            assert(actions_view(queue@) =~= seq![]);
        }
        ReaderData { connection_id, queue, awaited: Awaited::Item }
    }

    /// Handles something that was read: a message, or the error of the connection.
    pub fn event(&mut self, message: Result<OwnedMessage, WebSocketError>) -> (res: ReaderStep)
        requires
            old(self)@.awaited == Awaited::Item,
        ensures
            (final(self)@, res@) == old(self)@.event(item_view(message)),
    {
        self.queue = match message {
            Ok(message) => self.event_websocket_message(message),
            Err(error) => just(ReaderAction::Send(NetworkEvent::WebsocketError { error })),
        };
        self.turn()
    }

    /// What to do about a message.
    fn event_websocket_message(&self, message: OwnedMessage) -> (res: VecDeque<ReaderAction>)
        ensures
            actions_view(res@) == item_actions(self@.connection_id, Ok(message@)),
    {
        match message {
            OwnedMessage::Text(text) => event_parsed(message::read_frame(text.as_str())),
            OwnedMessage::Ping(data) => {
                let response = OwnedMessage::Pong(data);
                just(ReaderAction::SendResponse { connection_id: self.connection_id, response })
            },
            _ => {
                let actions: VecDeque<ReaderAction> = VecDeque::new();
                proof {
                    assert(actions_view(actions@) =~= seq![]);
                }
                actions
            },
        }
    }

    fn turn(&mut self) -> (res: ReaderStep)
        ensures
            (final(self)@, res@) == old(self)@.turn(),
    {
        let ghost before = self.queue@;
        match self.queue.pop_front() {
            Some(action) => {
                proof {
                    assert(actions_view(self.queue@) =~= actions_view(before).drop_first());
                }
                self.awaited = match &action {
                    ReaderAction::Send(_) => Awaited::Sent,
                    _ => Awaited::Done,
                };
                ReaderStep::Perform(action)
            },
            None => {
                self.awaited = Awaited::Item;
                ReaderStep::Read
            },
        }
    }

    /// Carries on after an action was performed, or could not be because nobody listens any more.
    ///
    /// Also says whether to wake up the user interface.
    pub fn performed(&mut self, ok: bool) -> (res: (bool, ReaderStep))
        requires
            old(self)@.awaited == Awaited::Sent || old(self)@.awaited == Awaited::Done,
        ensures
            res.0 == (ok && old(self)@.awaited == Awaited::Sent),
            (final(self)@, res.1@) == old(self)@.performed(ok),
    {
        let wake = ok && self.awaited == Awaited::Sent;
        if ok {
            let step = self.turn();
            (wake, step)
        } else {
            self.queue = VecDeque::new();
            self.awaited = Awaited::Nothing;
            proof {
                assert(actions_view(self.queue@) =~= seq![]);
            }
            (wake, ReaderStep::ExitNow)
        }
    }
}

/// How many actions are begun, out of as many as there are, until one of them is reported to have
/// failed or has no report yet.
pub open spec fn begun(actions: nat, reports: Seq<bool>) -> nat
    decreases actions,
{
    if actions == 0 {
        0
    } else if reports.len() == 0 || !reports[0] {
        1
    } else {
        1 + begun((actions - 1) as nat, reports.drop_first())
    }
}

/// The actions that a reader begins from a step on, given the reports on them.
pub open spec fn performs(next: (ReaderView, ReaderStepView), reports: Seq<bool>) -> Seq<
    ReaderActionView,
>
    decreases reports.len(),
{
    match next.1 {
        ReaderStepView::Perform(action) => if reports.len() == 0 {
            seq![action]
        } else {
            seq![action] + performs(next.0.performed(reports[0]), reports.drop_first())
        },
        _ => seq![],
    }
}

proof fn lemma_turns(reader: ReaderView, reports: Seq<bool>)
    ensures
        begun(reader.queue.len(), reports) <= reader.queue.len(),
        performs(reader.turn(), reports) == reader.queue.take(
            begun(reader.queue.len(), reports) as int,
        ),
    decreases reports.len(),
{
    reveal_with_fuel(performs, 2);
    if reader.queue.len() > 0 {
        let rest = reader.turn().0;
        if reports.len() > 0 && reports[0] {
            lemma_turns(rest, reports.drop_first());
        }
        assert(performs(reader.turn(), reports) =~= reader.queue.take(
            begun(reader.queue.len(), reports) as int,
        ));
    } else {
        assert(reader.queue.take(0) =~= seq![]);
    }
}

/// What there is to do about a thing that was read is done in order, each action once, up to and
/// with the first one that fails. Nothing is done after that.
pub proof fn law_actions_are_performed_in_order(
    reader: ReaderView,
    item: Result<OwnedMessageView, Seq<char>>,
    reports: Seq<bool>,
)
    ensures
        performs(reader.event(item), reports) == item_actions(reader.connection_id, item).take(
            begun(item_actions(reader.connection_id, item).len(), reports) as int,
        ),
{
    lemma_turns(
        ReaderView { queue: item_actions(reader.connection_id, item), ..reader },
        reports,
    );
}

/// While somebody listens, everything there is to do about a thing that was read is done.
pub proof fn law_listeners_hear_everything(
    reader: ReaderView,
    item: Result<OwnedMessageView, Seq<char>>,
    reports: Seq<bool>,
)
    requires
        forall|i: int| 0 <= i < reports.len() ==> #[trigger] reports[i],
        reports.len() == item_actions(reader.connection_id, item).len(),
    ensures
        performs(reader.event(item), reports) == item_actions(reader.connection_id, item),
{
    law_actions_are_performed_in_order(reader, item, reports);
    lemma_all_begun(item_actions(reader.connection_id, item).len(), reports);
    assert(item_actions(reader.connection_id, item).take(reports.len() as int) =~= item_actions(
        reader.connection_id,
        item,
    ));
}

proof fn lemma_all_begun(actions: nat, reports: Seq<bool>)
    requires
        forall|i: int| 0 <= i < reports.len() ==> #[trigger] reports[i],
        reports.len() == actions,
    ensures
        begun(actions, reports) == actions,
    decreases actions,
{
    if actions > 0 {
        lemma_all_begun((actions - 1) as nat, reports.drop_first());
    }
}

/// Where a reader is after some reports.
pub open spec fn reported(next: (ReaderView, ReaderStepView), reports: Seq<bool>) -> (
    ReaderView,
    ReaderStepView,
)
    decreases reports.len(),
{
    if reports.len() == 0 {
        next
    } else {
        reported(next.0.performed(reports[0]), reports.drop_first())
    }
}

proof fn lemma_reported(reader: ReaderView, reports: Seq<bool>)
    requires
        forall|i: int| 0 <= i < reports.len() ==> #[trigger] reports[i],
        reports.len() == reader.queue.len(),
    ensures
        reported(reader.turn(), reports) == (
            ReaderView { queue: seq![], awaited: Awaited::Item, ..reader },
            ReaderStepView::Read,
        ),
    decreases reports.len(),
{
    if reports.len() > 0 {
        lemma_reported(reader.turn().0, reports.drop_first());
    } else {
        assert(reader.queue =~= seq![]);
    }
}

/// Nothing that comes from the connection ends the reading. While somebody listens, the next thing
/// is read once everything was done about the last one.
pub proof fn law_reading_goes_on(
    reader: ReaderView,
    item: Result<OwnedMessageView, Seq<char>>,
    reports: Seq<bool>,
)
    requires
        forall|i: int| 0 <= i < reports.len() ==> #[trigger] reports[i],
        reports.len() == item_actions(reader.connection_id, item).len(),
    ensures
        !(reader.event(item).1 is ExitNow),
        reported(reader.event(item), reports) == (
            ReaderView { queue: seq![], awaited: Awaited::Item, ..reader },
            ReaderStepView::Read,
        ),
{
    lemma_reported(
        ReaderView { queue: item_actions(reader.connection_id, item), ..reader },
        reports,
    );
}

/// A ping is answered with its own data, on the connection that it came from.
pub proof fn law_pings_are_answered(reader: ReaderView, data: Seq<u8>)
    ensures
        reader.event(Ok(OwnedMessageView::Ping(data))).1 == ReaderStepView::Perform(
            ReaderActionView::SendResponse {
                connection_id: reader.connection_id,
                response: OwnedMessageView::Pong(data),
            },
        ),
{
}

/// Messages are handled one by one: what there is to do about a list is what there is to do about
/// its beginning, and then what there is to do about the rest.
pub proof fn law_messages_are_handled_one_by_one(
    first: Seq<ScreepsMessageView>,
    then: Seq<ScreepsMessageView>,
)
    ensures
        sockjs_actions(first + then) == sockjs_actions(first) + sockjs_actions(then),
    decreases then.len(),
{
    if then.len() == 0 {
        assert(first + then =~= first);
        assert(sockjs_actions(first) + sockjs_actions(then) =~= sockjs_actions(first));
    } else {
        law_messages_are_handled_one_by_one(first, then.drop_last());
        assert((first + then).drop_last() =~= first + then.drop_last());
        assert((first + then).last() == then.last());
        assert(sockjs_actions(first + then) =~= sockjs_actions(first) + sockjs_actions(then));
    }
}

/// What there is to do about each message alone. Every map view of every room is passed on as it
/// is, every new token is kept, and the refusal of a token is told. Nothing is done about the rest.
pub proof fn law_each_message_has_its_action(
    room_name: RoomName,
    update: RoomMapViewUpdate,
    token: Seq<char>,
    other: ScreepsMessageView,
)
    requires
        !(other is MapView) && !(other is AuthOk) && !(other is AuthFailed),
    ensures
        sockjs_actions(seq![ScreepsMessageView::MapView { room_name, update }]) == seq![
            ReaderActionView::Send(NetworkEventView::MapView { room_name, result: update }),
        ],
        sockjs_actions(seq![ScreepsMessageView::AuthOk { new_token: token }]) == seq![
            ReaderActionView::ReturnToken(token),
        ],
        sockjs_actions(seq![ScreepsMessageView::AuthFailed]) == seq![
            ReaderActionView::Send(
                NetworkEventView::WebsocketHttpError { error: ApiErrorView::Unauthorized },
            ),
        ],
        sockjs_actions(seq![other]).len() == 0,
{
    lemma_one_message(ScreepsMessageView::MapView { room_name, update });
    lemma_one_message(ScreepsMessageView::AuthOk { new_token: token });
    lemma_one_message(ScreepsMessageView::AuthFailed);
    lemma_one_message(other);
}

proof fn lemma_one_message(message: ScreepsMessageView)
    ensures
        sockjs_actions(seq![message]) == screeps_actions(message),
{
    reveal_with_fuel(sockjs_actions, 2);
    assert(seq![message].drop_last() =~= seq![]);
    assert(sockjs_actions(seq![message]) =~= screeps_actions(message));
}

/// The map views in messages, in order.
pub open spec fn views_received(messages: Seq<ScreepsMessageView>) -> Seq<
    (RoomName, RoomMapViewUpdate),
>
    decreases messages.len(),
{
    if messages.len() == 0 {
        seq![]
    } else {
        views_received(messages.drop_last()) + match messages.last() {
            ScreepsMessageView::MapView { room_name, update } => seq![(room_name, update)],
            _ => seq![],
        }
    }
}

/// The map views that the user interface is told of, in order.
pub open spec fn views_told(actions: Seq<ReaderActionView>) -> Seq<(RoomName, RoomMapViewUpdate)>
    decreases actions.len(),
{
    if actions.len() == 0 {
        seq![]
    } else {
        views_told(actions.drop_last()) + match actions.last() {
            ReaderActionView::Send(NetworkEventView::MapView { room_name, result }) => seq![
                (room_name, result),
            ],
            _ => seq![],
        }
    }
}

proof fn lemma_views_told(first: Seq<ReaderActionView>, then: Seq<ReaderActionView>)
    ensures
        views_told(first + then) == views_told(first) + views_told(then),
    decreases then.len(),
{
    if then.len() == 0 {
        assert(first + then =~= first);
        assert(views_told(first) + views_told(then) =~= views_told(first));
    } else {
        lemma_views_told(first, then.drop_last());
        assert((first + then).drop_last() =~= first + then.drop_last());
        assert((first + then).last() == then.last());
        assert(views_told(first + then) =~= views_told(first) + views_told(then));
    }
}

/// The user interface is told of exactly the map views that came, of all rooms, in order, each with
/// its own room and update.
pub proof fn law_every_map_view_is_told(messages: Seq<ScreepsMessageView>)
    ensures
        views_told(sockjs_actions(messages)) == views_received(messages),
    decreases messages.len(),
{
    if messages.len() > 0 {
        law_every_map_view_is_told(messages.drop_last());
        let last = screeps_actions(messages.last());
        lemma_views_told(sockjs_actions(messages.drop_last()), last);
        reveal_with_fuel(views_told, 2);
        assert(last.len() > 0 ==> last.drop_last() =~= seq![]);
        assert(views_told(sockjs_actions(messages)) =~= views_received(messages));
    }
}

/// What there is to do about anything that is read. A text that is a frame is handled by its
/// messages. One that is none is told with the reason, and an error of the connection as it is.
/// Binary messages, the end of the connection and answers to pings need nothing.
pub proof fn law_each_item_has_its_actions(
    connection_id: u16,
    text: Seq<char>,
    data: Seq<u8>,
    close: Option<(u16, Seq<char>)>,
    error: Seq<char>,
)
    ensures
        frame_parsed(text) matches Ok(frame) ==> item_actions(
            connection_id,
            Ok(OwnedMessageView::Text(text)),
        ) == sockjs_actions(carried(frame)),
        frame_parsed(text) matches Err(reason) ==> item_actions(
            connection_id,
            Ok(OwnedMessageView::Text(text)),
        ) == seq![
            ReaderActionView::Send(
                NetworkEventView::WebsocketParseError { error: ParseErrorView::Malformed(reason) },
            ),
        ],
        item_actions(connection_id, Err(error)) == seq![
            ReaderActionView::Send(NetworkEventView::WebsocketError { error }),
        ],
        item_actions(connection_id, Ok(OwnedMessageView::Ping(data))) == seq![
            ReaderActionView::SendResponse {
                connection_id,
                response: OwnedMessageView::Pong(data),
            },
        ],
        item_actions(connection_id, Ok(OwnedMessageView::Pong(data))).len() == 0,
        item_actions(connection_id, Ok(OwnedMessageView::Binary(data))).len() == 0,
        item_actions(connection_id, Ok(OwnedMessageView::Close(close))).len() == 0,
{
}

/// A reader stops exactly when an action is reported to have failed. It never changes its
/// connection, and after each action it waits for the report on it.
pub proof fn law_readers_stop_when_nobody_listens(
    reader: ReaderView,
    item: Result<OwnedMessageView, Seq<char>>,
    ok: bool,
)
    ensures
        reader.performed(ok).1 is ExitNow <==> !ok,
        reader.performed(ok).0.connection_id == reader.connection_id,
        reader.event(item).0.connection_id == reader.connection_id,
        reader.event(item).1 is Read <==> item_actions(reader.connection_id, item).len() == 0,
        reader.event(item).1 is Read ==> reader.event(item).0.awaited == Awaited::Item,
        reader.event(item).1 matches ReaderStepView::Perform(action) ==> reader.event(item).0.awaited
            == if action is Send {
            Awaited::Sent
        } else {
            Awaited::Done
        },
        reader.performed(ok).1 is Read ==> reader.performed(ok).0.awaited == Awaited::Item,
        reader.performed(ok).1 matches ReaderStepView::Perform(action) ==> reader.performed(
            ok,
        ).0.awaited == if action is Send {
            Awaited::Sent
        } else {
            Awaited::Done
        },
{
}

} // verus!
