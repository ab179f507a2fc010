//! What holds of the websocket connection over many steps.

use vstd::prelude::*;

use crate::command::{authenticate_text, subscribe_text, unsubscribe_text};
use crate::error::{ApiErrorView, ParseErrorView};
use crate::message::{carried, frame_parsed, shown, OwnedMessageView, ScreepsMessageView};
use crate::request::NetworkEventView;
use crate::room::RoomName;
use crate::ws::{
    all_displayable, arranges, first_missing, verdict, ActionView, EffectView, ExecutorView,
    InputView, LinkView, ReplyView, StepView, TaskView, VerdictView,
};

verus! {

proof fn lemma_first_missing(rooms: Seq<RoomName>, from: int, set: Set<RoomName>)
    requires
        0 <= from <= rooms.len(),
    ensures
        from <= first_missing(rooms, from, set) <= rooms.len(),
        forall|i: int|
            from <= i < first_missing(rooms, from, set) ==> set.contains(#[trigger] rooms[i]),
        first_missing(rooms, from, set) < rooms.len() ==> !set.contains(
            rooms[first_missing(rooms, from, set)],
        ),
    decreases rooms.len() - from,
{
    if from < rooms.len() && set.contains(rooms[from]) {
        lemma_first_missing(rooms, from + 1, set);
    }
}

proof fn lemma_subscribe_wf(
    executor: ExecutorView,
    rooms: Seq<RoomName>,
    from: int,
    effects: Seq<EffectView>,
    next: (ExecutorView, StepView),
)
    requires
        0 <= from <= rooms.len(),
        all_displayable(rooms),
        forall|room: RoomName| #[trigger]
            executor.subscribed.contains(room) ==> room.displayable(),
        executor.link is Idle,
        executor.subscribe(rooms, from, effects, next),
    ensures
        next.0.wf(),
{
    lemma_first_missing(rooms, from, executor.subscribed);
    if first_missing(rooms, from, executor.subscribed) >= rooms.len() {
        let unneeded = choose|unneeded: Seq<RoomName>| #[trigger]
            arranges(unneeded, executor.subscribed.difference(rooms.to_set())) && next
                == executor.unsubscribe(unneeded, 0, effects);
        assert forall|i: int| 0 <= i < unneeded.len() implies executor.subscribed.contains(
            #[trigger] unneeded[i],
        ) by {
            assert(unneeded.to_set().contains(unneeded[i]));
        }
    }
}

proof fn lemma_sent_wf(
    executor: ExecutorView,
    ok: bool,
    effects: Seq<EffectView>,
    next: (ExecutorView, StepView),
)
    requires
        executor.in_order(),
        executor.sent(ok, effects, next),
    ensures
        next.0.wf(),
{
    if let TaskView::Subscribe { rooms, index } = executor.task {
        let subscribed = if ok {
            executor.subscribed.insert(rooms[index])
        } else {
            executor.subscribed
        };
        lemma_subscribe_wf(
            ExecutorView { subscribed, link: LinkView::Idle, ..executor },
            rooms,
            index + 1,
            effects,
            next,
        );
    }
    if let TaskView::Unsubscribe { rooms, index } = executor.task {
        let subscribed = if ok {
            executor.subscribed.remove(rooms[index])
        } else {
            executor.subscribed
        };
        assert forall|i: int| index + 1 <= i < rooms.len() implies subscribed.contains(
            #[trigger] rooms[i],
        ) by {
            assert(rooms[i] != rooms[index]);
        }
    }
}

proof fn lemma_sent_effects(
    executor: ExecutorView,
    ok: bool,
    effects: Seq<EffectView>,
    next: (ExecutorView, StepView),
)
    requires
        executor.sent(ok, effects, next),
    ensures
        next.1.effects == effects,
{
}

/// What is told to the user interface about a reply that loses the message.
pub open spec fn complaint(reply: ReplyView) -> Seq<EffectView> {
    match reply {
        ReplyView::Sent(Err(error)) => told(NetworkEventView::WebsocketError { error }),
        ReplyView::Connected(Err(error)) => told(NetworkEventView::WebsocketError { error }),
        ReplyView::Received(Err(error)) => told(NetworkEventView::WebsocketError { error }),
        ReplyView::LoggedIn(Err(error)) => told(NetworkEventView::WebsocketHttpError { error }),
        ReplyView::Received(Ok(Some(OwnedMessageView::Text(text)))) => match frame_parsed(text) {
            Err(reason) => told(
                NetworkEventView::WebsocketParseError { error: ParseErrorView::Malformed(reason) },
            ),
            Ok(_) => told(
                NetworkEventView::WebsocketHttpError { error: ApiErrorView::Unauthorized },
            ),
        },
        ReplyView::Received(Ok(Some(received))) => told(
            NetworkEventView::WebsocketParseError {
                error: ParseErrorView::Other(
                    "expected text websocket message, found "@ + shown(received),
                ),
            },
        ),
        _ => seq![],
    }
}

/// One event for the user interface.
pub open spec fn told(event: NetworkEventView) -> Seq<EffectView> {
    seq![EffectView::Relay(event)]
}

/// A reply ends the way of a message, brings up a connection for it, or moves it one step on.
proof fn lemma_resume(executor: ExecutorView, reply: ReplyView, next: (ExecutorView, StepView))
    requires
        executor.expects(reply),
        executor.resume(reply, next),
    ensures
        executor.delivers(reply) ==> (ExecutorView { connected: true, ..executor }).sent(
            true,
            seq![],
            next,
        ),
        executor.loses(reply) ==> executor.sent(false, complaint(reply), next),
        executor.grants(reply) ==> {
            &&& next.0 == (ExecutorView {
                connection_id: (executor.connection_id + 1) as u16,
                link: LinkView::Sending,
                connected: false,
                ..executor
            })
            &&& executor.link.waiting() matches Some(message) && next.1.action == ActionView::Send {
                message,
            }
        },
        !executor.delivers(reply) && !executor.loses(reply) && !executor.grants(reply) ==> {
            &&& next.0 == (ExecutorView { link: next.0.link, ..executor })
            &&& next.0.link.waiting() is Some
            &&& next.0.link.waiting() == executor.link.waiting()
        },
{
}

/// Between two steps an executor is always in order: it never asks for a room that it is subscribed
/// to, never cancels one that it is not, and a message that waits for a connection is the one for
/// the room whose turn it is. This is how a request starts.
pub proof fn law_requests_keep_order(
    executor: ExecutorView,
    input: InputView,
    next: (ExecutorView, StepView),
)
    requires
        executor.wf(),
        executor.idle(),
        input matches InputView::SetMapSubscribes { rooms } ==> all_displayable(rooms),
        executor.run(input, next),
    ensures
        next.0.wf(),
{
    if let InputView::SetMapSubscribes { rooms } = input {
        lemma_subscribe_wf(executor, rooms, 0, seq![], next);
    }
}

/// Every reply keeps an executor in order.
pub proof fn law_replies_keep_order(
    executor: ExecutorView,
    reply: ReplyView,
    next: (ExecutorView, StepView),
)
    requires
        executor.wf(),
        executor.expects(reply),
        executor.resume(reply, next),
    ensures
        next.0.wf(),
{
    lemma_resume(executor, reply, next);
    if executor.delivers(reply) {
        lemma_sent_wf(ExecutorView { connected: true, ..executor }, true, seq![], next);
    } else if executor.loses(reply) {
        lemma_sent_wf(executor, false, complaint(reply), next);
    }
}

/// A message from a reader whose connection is not the one that is kept goes nowhere, and leaves
/// everything as it was.
pub proof fn law_stale_messages_are_dropped(
    executor: ExecutorView,
    id: u16,
    message: OwnedMessageView,
    next: (ExecutorView, StepView),
)
    requires
        executor.wf(),
        executor.idle(),
        id != executor.connection_id || !executor.connected,
        executor.run(InputView::Raw(id, message), next),
    ensures
        next == (executor, StepView { effects: seq![], action: ActionView::Done }),
{
}

/// When a message is lost the user interface is told why, once, and the connection is not used
/// again: the next message begins with a new one. There is one exception to the telling, which is a
/// peer that closes the connection without an answer. Nothing else is ever told.
pub proof fn law_failures_are_told(
    executor: ExecutorView,
    reply: ReplyView,
    next: (ExecutorView, StepView),
)
    requires
        executor.wf(),
        executor.expects(reply),
        executor.resume(reply, next),
    ensures
        executor.loses(reply) ==> {
            &&& next.1.effects == complaint(reply)
            &&& !next.0.connected
            &&& next.1.action is TakeToken || next.1.action is Done
        },
        executor.loses(reply) ==> (complaint(reply).len() == 1 <==> !(reply matches
            ReplyView::Received(Ok(None)))),
        !executor.loses(reply) ==> forall|i: int|
            0 <= i < next.1.effects.len() ==> !((#[trigger] next.1.effects[i]) is Relay),
{
    lemma_resume(executor, reply, next);
    if executor.loses(reply) {
        lemma_sent_effects(executor, false, complaint(reply), next);
    } else if executor.delivers(reply) {
        lemma_sent_effects(ExecutorView { connected: true, ..executor }, true, seq![], next);
    }
}

/// Connections are numbered in the order in which they come up. A reader is started exactly when
/// the server accepts the token, with the number of the new connection.
pub proof fn law_connections_are_numbered(
    executor: ExecutorView,
    reply: ReplyView,
    next: (ExecutorView, StepView),
)
    requires
        executor.expects(reply),
        executor.grants(reply) ==> executor.connection_id < u16::MAX,
        executor.resume(reply, next),
    ensures
        next.0.connection_id == executor.connection_id + if executor.grants(reply) {
            1int
        } else {
            0int
        },
        forall|id: u16|
            next.1.effects.contains(EffectView::StartReader { connection_id: id })
                <==> executor.grants(reply) && id == next.0.connection_id,
{
    lemma_resume(executor, reply, next);
    if executor.loses(reply) {
        lemma_sent_effects(executor, false, complaint(reply), next);
    } else if executor.delivers(reply) {
        lemma_sent_effects(ExecutorView { connected: true, ..executor }, true, seq![], next);
    } else if executor.grants(reply) {
        assert(next.1.effects[1] == EffectView::StartReader {
            connection_id: next.0.connection_id,
        });
    }
}

/// The set of rooms follows the messages that were sent: it changes by one room, and only when the
/// message for that room was sent.
pub proof fn law_subscriptions_follow_messages(
    executor: ExecutorView,
    reply: ReplyView,
    next: (ExecutorView, StepView),
)
    requires
        executor.expects(reply),
        executor.resume(reply, next),
    ensures
        next.0.subscribed == if executor.delivers(reply) {
            match executor.task {
                TaskView::Subscribe { rooms, index } => executor.subscribed.insert(rooms[index]),
                TaskView::Unsubscribe { rooms, index } => executor.subscribed.remove(rooms[index]),
                _ => executor.subscribed,
            }
        } else {
            executor.subscribed
        },
{
    lemma_resume(executor, reply, next);
}

/// Each message is tried once: whether it was sent or lost, the next room has its turn, until the
/// request is done with. Until then the turn stays where it is.
pub proof fn law_every_room_has_its_turn(
    executor: ExecutorView,
    reply: ReplyView,
    next: (ExecutorView, StepView),
)
    requires
        executor.wf(),
        executor.expects(reply),
        executor.resume(reply, next),
    ensures
        !executor.delivers(reply) && !executor.loses(reply) ==> next.0.task == executor.task,
        executor.delivers(reply) || executor.loses(reply) ==> match (executor.task, next.0.task) {
            (_, TaskView::Idle) => next.1.action is Done,
            (
                TaskView::Subscribe { rooms, index },
                TaskView::Subscribe { rooms: list, index: after },
            ) => list == rooms && index < after,
            (TaskView::Subscribe { .. }, TaskView::Unsubscribe { index, .. }) => index == 0,
            (
                TaskView::Unsubscribe { rooms, index },
                TaskView::Unsubscribe { rooms: list, index: after },
            ) => list == rooms && after == index + 1,
            _ => false,
        },
{
    lemma_resume(executor, reply, next);
    if let TaskView::Subscribe { rooms, index } = executor.task {
        lemma_first_missing(rooms, index + 1, next.0.subscribed);
    }
}

/// The message is the one for the room whose turn it is.
pub open spec fn names_its_room(message: OwnedMessageView, task: TaskView) -> bool {
    match task {
        TaskView::Subscribe { rooms, index } => message == OwnedMessageView::Text(
            subscribe_text(rooms[index]),
        ),
        TaskView::Unsubscribe { rooms, index } => message == OwnedMessageView::Text(
            unsubscribe_text(rooms[index]),
        ),
        _ => false,
    }
}

/// A message that is sent while subscribing or unsubscribing is the one for the room whose turn it
/// is. This holds of the first message of a request.
pub proof fn law_first_message_names_its_room(
    executor: ExecutorView,
    rooms: Seq<RoomName>,
    next: (ExecutorView, StepView),
)
    requires
        executor.wf(),
        executor.idle(),
        executor.run(InputView::SetMapSubscribes { rooms }, next),
    ensures
        next.1.action matches ActionView::Send { message } ==> names_its_room(
            message,
            next.0.task,
        ),
{
}

/// The messages that follow name their rooms too.
pub proof fn law_messages_name_their_rooms(
    executor: ExecutorView,
    reply: ReplyView,
    next: (ExecutorView, StepView),
)
    requires
        executor.wf(),
        executor.expects(reply),
        executor.resume(reply, next),
    ensures
        next.1.action matches ActionView::Send { message } ==> names_its_room(
            message,
            next.0.task,
        ),
{
    lemma_resume(executor, reply, next);
}

/// How a request goes on: each state and step follows from the one before and a reply.
pub open spec fn follows(states: Seq<(ExecutorView, StepView)>, replies: Seq<ReplyView>) -> bool {
    &&& states.len() == replies.len() + 1
    &&& forall|i: int|
        0 <= i < replies.len() ==> (#[trigger] states[i]).0.expects(replies[i])
            && states[i].0.resume(replies[i], states[i + 1])
}

/// No message was lost on the way.
pub open spec fn lossless(states: Seq<(ExecutorView, StepView)>, replies: Seq<ReplyView>) -> bool {
    forall|i: int| 0 <= i < replies.len() ==> !(#[trigger] states[i]).0.loses(replies[i])
}

/// What holds on the way from the rooms `before` to the rooms of a list.
spec fn heading(
    executor: ExecutorView,
    before: Set<RoomName>,
    rooms: Seq<RoomName>,
    lossless: bool,
) -> bool {
    &&& executor.subscribed.subset_of(before.union(rooms.to_set()))
    &&& before.intersect(rooms.to_set()).subset_of(executor.subscribed)
    &&& match executor.task {
        TaskView::Idle => lossless ==> executor.subscribed == rooms.to_set(),
        TaskView::Raw => false,
        TaskView::Subscribe { rooms: list, index } => {
            &&& list == rooms
            &&& 0 <= index < rooms.len()
            &&& lossless ==> forall|i: int|
                0 <= i < index ==> executor.subscribed.contains(#[trigger] rooms[i])
        },
        TaskView::Unsubscribe { rooms: list, index } => {
            &&& 0 <= index < list.len()
            &&& forall|i: int| 0 <= i < list.len() ==> !rooms.contains(#[trigger] list[i])
            &&& lossless ==> executor.subscribed == rooms.to_set().union(
                list.skip(index).to_set(),
            )
            &&& list.no_duplicates()
        },
    }
}

proof fn lemma_heading_unsubscribe(
    executor: ExecutorView,
    list: Seq<RoomName>,
    index: int,
    effects: Seq<EffectView>,
    before: Set<RoomName>,
    rooms: Seq<RoomName>,
    lossless: bool,
)
    requires
        0 <= index <= list.len(),
        list.no_duplicates(),
        forall|i: int| 0 <= i < list.len() ==> !rooms.contains(#[trigger] list[i]),
        executor.subscribed.subset_of(before.union(rooms.to_set())),
        before.intersect(rooms.to_set()).subset_of(executor.subscribed),
        lossless ==> executor.subscribed == rooms.to_set().union(list.skip(index).to_set()),
    ensures
        heading(executor.unsubscribe(list, index, effects).0, before, rooms, lossless),
{
    if index == list.len() && lossless {
        assert(list.skip(index) =~= seq![]);
        assert(executor.subscribed =~= rooms.to_set());
    }
}

proof fn lemma_heading_subscribe(
    executor: ExecutorView,
    from: int,
    effects: Seq<EffectView>,
    next: (ExecutorView, StepView),
    before: Set<RoomName>,
    rooms: Seq<RoomName>,
    lossless: bool,
)
    requires
        0 <= from <= rooms.len(),
        executor.subscribed.subset_of(before.union(rooms.to_set())),
        before.intersect(rooms.to_set()).subset_of(executor.subscribed),
        lossless ==> forall|i: int|
            0 <= i < from ==> executor.subscribed.contains(#[trigger] rooms[i]),
        executor.subscribe(rooms, from, effects, next),
    ensures
        heading(next.0, before, rooms, lossless),
{
    lemma_first_missing(rooms, from, executor.subscribed);
    if first_missing(rooms, from, executor.subscribed) >= rooms.len() {
        let unneeded = choose|unneeded: Seq<RoomName>| #[trigger]
            arranges(unneeded, executor.subscribed.difference(rooms.to_set())) && next
                == executor.unsubscribe(unneeded, 0, effects);
        assert forall|i: int| 0 <= i < unneeded.len() implies !rooms.contains(
            #[trigger] unneeded[i],
        ) by {
            assert(unneeded.to_set().contains(unneeded[i]));
        }
        assert(unneeded.skip(0) =~= unneeded);
        if lossless {
            assert(executor.subscribed =~= rooms.to_set().union(unneeded.to_set()));
        }
        lemma_heading_unsubscribe(executor, unneeded, 0, effects, before, rooms, lossless);
    }
}

proof fn lemma_heading_sent(
    executor: ExecutorView,
    ok: bool,
    effects: Seq<EffectView>,
    next: (ExecutorView, StepView),
    before: Set<RoomName>,
    rooms: Seq<RoomName>,
    lossless: bool,
)
    requires
        heading(executor, before, rooms, lossless),
        lossless ==> ok,
        executor.sent(ok, effects, next),
    ensures
        heading(next.0, before, rooms, lossless),
{
    let free = ExecutorView { link: LinkView::Idle, ..executor };
    match executor.task {
        TaskView::Subscribe { rooms: list, index } => {
            let subscribed = if ok {
                executor.subscribed.insert(rooms[index])
            } else {
                executor.subscribed
            };
            lemma_heading_subscribe(
                ExecutorView { subscribed, ..free },
                index + 1,
                effects,
                next,
                before,
                rooms,
                lossless,
            );
        },
        TaskView::Unsubscribe { rooms: list, index } => {
            let subscribed = if ok {
                executor.subscribed.remove(list[index])
            } else {
                executor.subscribed
            };
            if lossless {
                let rest = list.skip(index);
                let less = list.skip(index + 1);
                assert forall|room: RoomName| rest.contains(room) && room != list[index]
                    <==> #[trigger] less.contains(room) by {
                    if less.contains(room) {
                        let i = less.index_of(room);
                        assert(rest[i + 1] == room);
                        assert(list[index + 1 + i] == room);
                    }
                    if rest.contains(room) && room != list[index] {
                        let i = rest.index_of(room);
                        assert(less[i - 1] == room);
                    }
                }
                assert(subscribed =~= rooms.to_set().union(list.skip(index + 1).to_set()));
            }
            assert(!rooms.contains(list[index]));
            lemma_heading_unsubscribe(
                ExecutorView { subscribed, ..free },
                list,
                index + 1,
                effects,
                before,
                rooms,
                lossless,
            );
        },
        _ => {},
    }
}

proof fn lemma_heading(
    before: Set<RoomName>,
    rooms: Seq<RoomName>,
    states: Seq<(ExecutorView, StepView)>,
    replies: Seq<ReplyView>,
    at: int,
)
    requires
        0 <= at < states.len(),
        follows(states, replies),
        heading(states[0].0, before, rooms, lossless(states, replies)),
    ensures
        heading(states[at].0, before, rooms, lossless(states, replies)),
    decreases at,
{
    if at > 0 {
        lemma_heading(before, rooms, states, replies, at - 1);
        let executor = states[at - 1].0;
        let reply = replies[at - 1];
        let next = states[at];
        let all = lossless(states, replies);
        assert(executor.expects(reply));
        lemma_resume(executor, reply, next);
        if executor.delivers(reply) {
            let sender = ExecutorView { connected: true, ..executor };
            lemma_heading_sent(sender, true, seq![], next, before, rooms, all);
        } else if executor.loses(reply) {
            let effects = complaint(reply);
            lemma_heading_sent(executor, false, effects, next, before, rooms, all);
        }
    }
}

/// Asking for rooms works: unless a message is lost on the way, the rooms that are subscribed to at
/// the end are those that were asked for, whatever they were before.
pub proof fn law_subscriptions_converge(
    executor: ExecutorView,
    rooms: Seq<RoomName>,
    states: Seq<(ExecutorView, StepView)>,
    replies: Seq<ReplyView>,
)
    requires
        executor.wf(),
        executor.idle(),
        follows(states, replies),
        executor.run(InputView::SetMapSubscribes { rooms }, states[0]),
        lossless(states, replies),
        states.last().0.idle(),
    ensures
        states.last().0.subscribed == rooms.to_set(),
{
    lemma_heading_subscribe(executor, 0, seq![], states[0], executor.subscribed, rooms, true);
    lemma_heading(executor.subscribed, rooms, states, replies, states.len() - 1);
}

/// At every moment of a request, whatever is lost, the rooms that are subscribed to were subscribed
/// to before or are asked for, and those that were and still are asked for stay.
pub proof fn law_wanted_rooms_stay(
    executor: ExecutorView,
    rooms: Seq<RoomName>,
    states: Seq<(ExecutorView, StepView)>,
    replies: Seq<ReplyView>,
    at: int,
)
    requires
        executor.wf(),
        executor.idle(),
        follows(states, replies),
        executor.run(InputView::SetMapSubscribes { rooms }, states[0]),
        0 <= at < states.len(),
    ensures
        states[at].0.subscribed.subset_of(executor.subscribed.union(rooms.to_set())),
        executor.subscribed.intersect(rooms.to_set()).subset_of(states[at].0.subscribed),
{
    let all = lossless(states, replies);
    lemma_heading_subscribe(executor, 0, seq![], states[0], executor.subscribed, rooms, all);
    lemma_heading(executor.subscribed, rooms, states, replies, at);
}

/// Asking for rooms that are all subscribed to, and no others, changes nothing and sends nothing,
/// whether there is a connection or not.
pub proof fn law_nothing_to_ask_for(
    executor: ExecutorView,
    rooms: Seq<RoomName>,
    next: (ExecutorView, StepView),
)
    requires
        executor.wf(),
        executor.idle(),
        executor.subscribed == rooms.to_set(),
        executor.run(InputView::SetMapSubscribes { rooms }, next),
    ensures
        next == (executor, StepView { effects: seq![], action: ActionView::Done }),
{
    lemma_first_missing(rooms, 0, executor.subscribed);
    let index = first_missing(rooms, 0, executor.subscribed);
    if index < rooms.len() {
        assert(rooms.to_set().contains(rooms[index]));
    }
    let unneeded = choose|unneeded: Seq<RoomName>| #[trigger]
        arranges(unneeded, executor.subscribed.difference(rooms.to_set())) && next
            == executor.unsubscribe(unneeded, 0, seq![]);
    if unneeded.len() > 0 {
        assert(unneeded.to_set().contains(unneeded[0]));
    }
}

/// Asking a second time for the same rooms, after nothing was lost the first time, changes nothing
/// and sends nothing.
pub proof fn law_asking_twice_is_asking_once(
    executor: ExecutorView,
    rooms: Seq<RoomName>,
    states: Seq<(ExecutorView, StepView)>,
    replies: Seq<ReplyView>,
    next: (ExecutorView, StepView),
)
    requires
        executor.wf(),
        executor.idle(),
        all_displayable(rooms),
        follows(states, replies),
        executor.run(InputView::SetMapSubscribes { rooms }, states[0]),
        lossless(states, replies),
        states.last().0.idle(),
        states.last().0.run(InputView::SetMapSubscribes { rooms }, next),
    ensures
        next == (states.last().0, StepView { effects: seq![], action: ActionView::Done }),
{
    law_subscriptions_converge(executor, rooms, states, replies);
    law_requests_keep_order(executor, InputView::SetMapSubscribes { rooms }, states[0]);
    lemma_follows_in_order(states, replies, states.len() - 1);
    law_nothing_to_ask_for(states.last().0, rooms, next);
}

proof fn lemma_follows_in_order(
    states: Seq<(ExecutorView, StepView)>,
    replies: Seq<ReplyView>,
    at: int,
)
    requires
        0 <= at < states.len(),
        follows(states, replies),
        states[0].0.wf(),
    ensures
        states[at].0.wf(),
    decreases at,
{
    if at > 0 {
        lemma_follows_in_order(states, replies, at - 1);
        assert(states[at - 1].0.expects(replies[at - 1]));
        law_replies_keep_order(states[at - 1].0, replies[at - 1], states[at]);
    }
}

/// Whether the turn is to subscribe to a room.
pub open spec fn subscribes_to(task: TaskView, room: RoomName) -> bool {
    task matches TaskView::Subscribe { rooms, index } && 0 <= index < rooms.len() && rooms[index]
        == room
}

/// Whether the turn is to unsubscribe from a room.
pub open spec fn unsubscribes_from(task: TaskView, room: RoomName) -> bool {
    task matches TaskView::Unsubscribe { rooms, index } && 0 <= index < rooms.len()
        && rooms[index] == room
}

/// Whether the message that subscribes to a room was sent, among the first replies.
pub open spec fn subscribe_sent(
    states: Seq<(ExecutorView, StepView)>,
    replies: Seq<ReplyView>,
    at: int,
    room: RoomName,
) -> bool {
    exists|i: int|
        0 <= i < at && (#[trigger] states[i]).0.delivers(replies[i]) && subscribes_to(
            states[i].0.task,
            room,
        )
}

/// Whether the message that unsubscribes from a room was sent, among the first replies.
pub open spec fn unsubscribe_sent(
    states: Seq<(ExecutorView, StepView)>,
    replies: Seq<ReplyView>,
    at: int,
    room: RoomName,
) -> bool {
    exists|i: int|
        0 <= i < at && (#[trigger] states[i]).0.delivers(replies[i]) && unsubscribes_from(
            states[i].0.task,
            room,
        )
}

/// Whether the message that unsubscribes from a room was lost, among the first replies.
pub open spec fn unsubscribe_lost(
    states: Seq<(ExecutorView, StepView)>,
    replies: Seq<ReplyView>,
    at: int,
    room: RoomName,
) -> bool {
    exists|i: int|
        0 <= i < at && (#[trigger] states[i]).0.loses(replies[i]) && unsubscribes_from(
            states[i].0.task,
            room,
        )
}

proof fn lemma_first_state(
    executor: ExecutorView,
    rooms: Seq<RoomName>,
    next: (ExecutorView, StepView),
)
    requires
        executor.run(InputView::SetMapSubscribes { rooms }, next),
    ensures
        next.0.subscribed == executor.subscribed,
{
}

proof fn lemma_new_room(
    executor: ExecutorView,
    rooms: Seq<RoomName>,
    states: Seq<(ExecutorView, StepView)>,
    replies: Seq<ReplyView>,
    at: int,
    room: RoomName,
)
    requires
        executor.wf(),
        executor.idle(),
        follows(states, replies),
        executor.run(InputView::SetMapSubscribes { rooms }, states[0]),
        0 <= at < states.len(),
        rooms.contains(room),
        !executor.subscribed.contains(room),
    ensures
        states[at].0.subscribed.contains(room) <==> subscribe_sent(states, replies, at, room),
    decreases at,
{
    if at == 0 {
        lemma_first_state(executor, rooms, states[0]);
    } else {
        lemma_new_room(executor, rooms, states, replies, at - 1, room);
        let before = states[at - 1].0;
        let reply = replies[at - 1];
        assert(before.expects(reply));
        law_subscriptions_follow_messages(before, reply, states[at]);
        lemma_heading_subscribe(
            executor,
            0,
            seq![],
            states[0],
            executor.subscribed,
            rooms,
            lossless(states, replies),
        );
        lemma_heading(executor.subscribed, rooms, states, replies, at - 1);
        if subscribe_sent(states, replies, at - 1, room) {
            let i = choose|i: int|
                0 <= i < at - 1 && (#[trigger] states[i]).0.delivers(replies[i]) && subscribes_to(
                    states[i].0.task,
                    room,
                );
            assert(states[i].0.delivers(replies[i]));
        }
        if before.delivers(reply) && subscribes_to(before.task, room) {
            assert(states[at - 1].0.delivers(replies[at - 1]));
        }
    }
}

/// What holds of a room that was subscribed to and is not asked for: it is tried once, and it is
/// left exactly when the message was sent.
spec fn leaving(
    states: Seq<(ExecutorView, StepView)>,
    replies: Seq<ReplyView>,
    at: int,
    room: RoomName,
) -> bool {
    let sent = unsubscribe_sent(states, replies, at, room);
    let lost = unsubscribe_lost(states, replies, at, room);
    &&& states[at].0.subscribed.contains(room) <==> !sent
    &&& !(sent && lost)
    &&& match states[at].0.task {
        TaskView::Idle => sent || lost,
        TaskView::Raw => false,
        TaskView::Subscribe { .. } => !sent && !lost,
        TaskView::Unsubscribe { rooms, index } => {
            &&& rooms.contains(room)
            &&& sent || lost <==> rooms.index_of(room) < index
        },
    }
}

proof fn lemma_leaving_starts(
    executor: ExecutorView,
    rooms: Seq<RoomName>,
    from: int,
    effects: Seq<EffectView>,
    next: (ExecutorView, StepView),
    room: RoomName,
)
    requires
        executor.subscribe(rooms, from, effects, next),
        executor.subscribed.contains(room),
        !rooms.contains(room),
    ensures
        next.0.subscribed == executor.subscribed,
        match next.0.task {
            TaskView::Subscribe { .. } => true,
            TaskView::Unsubscribe { rooms, index } => rooms.contains(room) && index == 0,
            _ => false,
        },
{
    if first_missing(rooms, from, executor.subscribed) >= rooms.len() {
        let unneeded = choose|unneeded: Seq<RoomName>| #[trigger]
            arranges(unneeded, executor.subscribed.difference(rooms.to_set())) && next
                == executor.unsubscribe(unneeded, 0, effects);
        assert(unneeded.to_set().contains(room));
        assert(unneeded.contains(room));
    }
}

proof fn lemma_leaving(
    executor: ExecutorView,
    rooms: Seq<RoomName>,
    states: Seq<(ExecutorView, StepView)>,
    replies: Seq<ReplyView>,
    at: int,
    room: RoomName,
)
    requires
        executor.wf(),
        executor.idle(),
        follows(states, replies),
        executor.run(InputView::SetMapSubscribes { rooms }, states[0]),
        0 <= at < states.len(),
        !rooms.contains(room),
        executor.subscribed.contains(room),
    ensures
        leaving(states, replies, at, room),
    decreases at,
{
    if at == 0 {
        lemma_leaving_starts(executor, rooms, 0, seq![], states[0], room);
    } else {
        lemma_leaving(executor, rooms, states, replies, at - 1, room);
        let before = states[at - 1].0;
        let reply = replies[at - 1];
        let next = states[at];
        assert(before.expects(reply));
        lemma_resume(before, reply, next);
        law_subscriptions_follow_messages(before, reply, next);
        let all = lossless(states, replies);
        lemma_heading_subscribe(executor, 0, seq![], states[0], executor.subscribed, rooms, all);
        lemma_heading(executor.subscribed, rooms, states, replies, at - 1);
        lemma_more_replies(states, replies, at, room);
        if before.delivers(reply) || before.loses(reply) {
            let ok = before.delivers(reply);
            if let TaskView::Subscribe { rooms: list, index } = before.task {
                let subscribed = if ok {
                    before.subscribed.insert(list[index])
                } else {
                    before.subscribed
                };
                let free = ExecutorView {
                    subscribed,
                    link: LinkView::Idle,
                    connected: ok || before.connected,
                    ..before
                };
                let effects = if ok {
                    seq![]
                } else {
                    complaint(reply)
                };
                assert(free.subscribe(list, index + 1, effects, next));
                lemma_leaving_starts(free, list, index + 1, effects, next, room);
            }
        }
    }
}

/// What one more reply adds to what was sent and lost.
proof fn lemma_more_replies(
    states: Seq<(ExecutorView, StepView)>,
    replies: Seq<ReplyView>,
    at: int,
    room: RoomName,
)
    requires
        0 < at < states.len(),
    ensures
        unsubscribe_sent(states, replies, at, room) <==> unsubscribe_sent(
            states,
            replies,
            at - 1,
            room,
        ) || states[at - 1].0.delivers(replies[at - 1]) && unsubscribes_from(
            states[at - 1].0.task,
            room,
        ),
        unsubscribe_lost(states, replies, at, room) <==> unsubscribe_lost(
            states,
            replies,
            at - 1,
            room,
        ) || states[at - 1].0.loses(replies[at - 1]) && unsubscribes_from(
            states[at - 1].0.task,
            room,
        ),
{
    if unsubscribe_sent(states, replies, at - 1, room) {
        let i = choose|i: int|
            0 <= i < at - 1 && (#[trigger] states[i]).0.delivers(replies[i]) && unsubscribes_from(
                states[i].0.task,
                room,
            );
        assert(states[i].0.delivers(replies[i]));
    }
    if unsubscribe_lost(states, replies, at - 1, room) {
        let i = choose|i: int|
            0 <= i < at - 1 && (#[trigger] states[i]).0.loses(replies[i]) && unsubscribes_from(
                states[i].0.task,
                room,
            );
        assert(states[i].0.loses(replies[i]));
    }
}

/// What a request comes to where messages are lost. A room that is asked for and was not subscribed
/// to is subscribed to exactly if a message for it was sent. A room that was subscribed to and is
/// not asked for stays exactly if the message for it was lost, and exactly if none was sent.
pub proof fn law_losses_decide(
    executor: ExecutorView,
    rooms: Seq<RoomName>,
    states: Seq<(ExecutorView, StepView)>,
    replies: Seq<ReplyView>,
    room: RoomName,
)
    requires
        executor.wf(),
        executor.idle(),
        follows(states, replies),
        executor.run(InputView::SetMapSubscribes { rooms }, states[0]),
        states.last().0.idle(),
    ensures
        rooms.contains(room) && !executor.subscribed.contains(room) ==> (
        states.last().0.subscribed.contains(room) <==> subscribe_sent(
            states,
            replies,
            replies.len() as int,
            room,
        )),
        !rooms.contains(room) && executor.subscribed.contains(room) ==> {
            &&& states.last().0.subscribed.contains(room) <==> unsubscribe_lost(
                states,
                replies,
                replies.len() as int,
                room,
            )
            &&& states.last().0.subscribed.contains(room) <==> !unsubscribe_sent(
                states,
                replies,
                replies.len() as int,
                room,
            )
        },
{
    if rooms.contains(room) && !executor.subscribed.contains(room) {
        lemma_new_room(executor, rooms, states, replies, replies.len() as int, room);
    }
    if !rooms.contains(room) && executor.subscribed.contains(room) {
        lemma_leaving(executor, rooms, states, replies, replies.len() as int, room);
    }
}

/// Something that an executor is told: a new request, or a reply to its last action.
pub enum Moment {
    Run(InputView),
    Resume(ReplyView),
}

/// One step in the life of an executor.
pub open spec fn steps(
    executor: ExecutorView,
    moment: Moment,
    next: (ExecutorView, StepView),
) -> bool {
    match moment {
        Moment::Run(input) => executor.idle() && executor.run(input, next),
        Moment::Resume(reply) => executor.expects(reply) && !executor.stuck(reply)
            && executor.resume(reply, next),
    }
}

/// How an executor lives, over any number of requests: each state and step follows from the one
/// before.
pub open spec fn lives(states: Seq<(ExecutorView, StepView)>, moments: Seq<Moment>) -> bool {
    &&& states.len() == moments.len() + 1
    &&& forall|i: int|
        0 <= i < moments.len() ==> steps((#[trigger] states[i]).0, moments[i], states[i + 1])
}

/// Connection numbers never go down, and a reader that is started later has a higher number, over
/// the whole life of an executor: a message that is meant for an older connection can be told by
/// its number.
pub proof fn law_numbers_tell_connections(
    states: Seq<(ExecutorView, StepView)>,
    moments: Seq<Moment>,
    early: int,
    late: int,
    id: u16,
)
    requires
        lives(states, moments),
        0 <= early <= late < states.len(),
    ensures
        states[early].0.connection_id <= states[late].0.connection_id,
        early < late && states[late].1.effects.contains(
            EffectView::StartReader { connection_id: id },
        ) ==> states[early].0.connection_id < id == states[late].0.connection_id,
    decreases late,
{
    if early < late {
        law_numbers_tell_connections(states, moments, early, late - 1, id);
        assert(steps(states[late - 1].0, moments[late - 1], states[late]));
        match moments[late - 1] {
            Moment::Resume(reply) => {
                law_connections_are_numbered(states[late - 1].0, reply, states[late]);
            },
            Moment::Run(input) => {},
        }
    }
}

/// The messages from the game server that a reply carries.
pub open spec fn carried_by(reply: ReplyView) -> Seq<ScreepsMessageView> {
    match reply {
        ReplyView::Received(Ok(Some(OwnedMessageView::Text(text)))) => match frame_parsed(text) {
            Ok(frame) => carried(frame),
            Err(_) => seq![],
        },
        _ => seq![],
    }
}

/// The messages from the game server that replies carry, joined in order.
pub open spec fn heard(replies: Seq<ReplyView>) -> Seq<ScreepsMessageView>
    decreases replies.len(),
{
    if replies.len() == 0 {
        seq![]
    } else {
        heard(replies.drop_last()) + carried_by(replies.last())
    }
}

/// The answers to the pings among replies, in order.
pub open spec fn pongs(replies: Seq<ReplyView>) -> Seq<OwnedMessageView>
    decreases replies.len(),
{
    if replies.len() == 0 {
        seq![]
    } else {
        pongs(replies.drop_last()) + match replies.last() {
            ReplyView::Received(Ok(Some(OwnedMessageView::Ping(data)))) => seq![
                OwnedMessageView::Pong(data),
            ],
            _ => seq![],
        }
    }
}

/// The messages that are written to a connection which is being opened, in order.
pub open spec fn written(states: Seq<(ExecutorView, StepView)>) -> Seq<OwnedMessageView>
    decreases states.len(),
{
    if states.len() == 0 {
        seq![]
    } else {
        written(states.drop_last()) + match states.last().1.action {
            ActionView::Greet { message } => seq![message],
            _ => seq![],
        }
    }
}

/// Whether the token is being sent, or its acceptance is being waited for.
pub open spec fn shaking_hands(executor: ExecutorView) -> bool {
    executor.link is Greeting || executor.link is Listening
}

proof fn lemma_verdict(first: Seq<ScreepsMessageView>, then: Seq<ScreepsMessageView>)
    ensures
        verdict(first + then) == if verdict(first) is Undecided {
            verdict(then)
        } else {
            verdict(first)
        },
    decreases first.len(),
{
    if first.len() == 0 {
        assert(first + then =~= then);
    } else {
        lemma_verdict(first.drop_first(), then);
        assert((first + then).drop_first() =~= first.drop_first() + then);
        assert((first + then)[0] == first[0]);
    }
}

/// What holds of a handshake up to a state.
spec fn handshake(
    states: Seq<(ExecutorView, StepView)>,
    replies: Seq<ReplyView>,
    at: int,
    token: Seq<char>,
) -> bool {
    &&& written(states.subrange(1, at + 1)) == seq![
        OwnedMessageView::Text(authenticate_text(token)),
    ] + pongs(replies.take(at))
    &&& shaking_hands(states[at].0) ==> {
        &&& verdict(heard(replies.take(at))) is Undecided
        &&& states[at].0.link.waiting() == states[0].0.link.waiting()
    }
}

proof fn lemma_handshake(
    states: Seq<(ExecutorView, StepView)>,
    replies: Seq<ReplyView>,
    at: int,
    token: Seq<char>,
)
    requires
        follows(states, replies),
        states[0].0.wf(),
        states[0].0.link matches LinkView::Connecting { token: first, .. } && first == token,
        0 < at <= replies.len(),
        replies[0] matches ReplyView::Connected(Ok(_)),
        forall|i: int| 0 < i < replies.len() ==> shaking_hands((#[trigger] states[i]).0),
    ensures
        handshake(states, replies, at, token),
    decreases at,
{
    let before = states[at - 1].0;
    let reply = replies[at - 1];
    let next = states[at];
    assert(before.expects(reply));
    lemma_follows_in_order(states, replies, at - 1);
    lemma_resume(before, reply, next);
    law_failures_are_told(before, reply, next);
    assert(replies.take(at).drop_last() =~= replies.take(at - 1));
    assert(states.subrange(1, at + 1).drop_last() =~= states.subrange(1, at));
    assert(replies.take(at).last() == reply);
    assert(states.subrange(1, at + 1).last() == next);
    if at == 1 {
        reveal_with_fuel(written, 2);
        reveal_with_fuel(heard, 2);
        reveal_with_fuel(pongs, 2);
        assert(replies.take(0) =~= seq![]);
        assert(states.subrange(1, 1) =~= seq![]);
        assert(heard(replies.take(1)) =~= seq![]);
        assert(pongs(replies.take(1)) =~= seq![]);
        assert(written(states.subrange(1, 2)) =~= seq![
            OwnedMessageView::Text(authenticate_text(token)),
        ]);
        assert(written(states.subrange(1, 2)) =~= seq![
            OwnedMessageView::Text(authenticate_text(token)),
        ] + pongs(replies.take(1)));
    } else {
        lemma_handshake(states, replies, at - 1, token);
        lemma_verdict(heard(replies.take(at - 1)), carried_by(reply));
        assert(written(states.subrange(1, at + 1)) =~= seq![
            OwnedMessageView::Text(authenticate_text(token)),
        ] + pongs(replies.take(at)));
    }
}

proof fn lemma_decision(executor: ExecutorView, reply: ReplyView, next: (ExecutorView, StepView))
    requires
        executor.wf(),
        executor.expects(reply),
        executor.resume(reply, next),
        shaking_hands(executor) || executor.link is Connecting,
    ensures
        verdict(carried_by(reply)) is Granted <==> executor.grants(reply),
        verdict(carried_by(reply)) matches VerdictView::Granted(new_token) ==> {
            &&& next.1.effects == seq![
                EffectView::ReturnToken(new_token),
                EffectView::StartReader { connection_id: next.0.connection_id },
            ]
            &&& executor.link.waiting() matches Some(message) && next.1.action
                == ActionView::Send { message }
        },
        verdict(carried_by(reply)) is Refused ==> next.1.effects == told(
            NetworkEventView::WebsocketHttpError { error: ApiErrorView::Unauthorized },
        ),
{
    lemma_resume(executor, reply, next);
    if executor.loses(reply) {
        lemma_sent_effects(executor, false, complaint(reply), next);
    }
}

/// A handshake as a whole, from the connection that was opened to the state that ends it. What is
/// written is the token, and then an answer to each ping, in order. The token is accepted exactly
/// if the messages that the server sent, taken together, accept it. Then the new token is kept, a
/// reader is started, and the message that waited is sent. Where they refuse it, the user interface
/// is told so.
pub proof fn law_handshakes_are_decided_by_all_that_is_heard(
    states: Seq<(ExecutorView, StepView)>,
    replies: Seq<ReplyView>,
    token: Seq<char>,
)
    requires
        follows(states, replies),
        states[0].0.wf(),
        states[0].0.link matches LinkView::Connecting { token: first, .. } && first == token,
        replies.len() > 0,
        replies[0] matches ReplyView::Connected(Ok(_)),
        forall|i: int| 0 < i < replies.len() ==> shaking_hands((#[trigger] states[i]).0),
    ensures
        written(states.drop_first()) == seq![OwnedMessageView::Text(authenticate_text(token))]
            + pongs(replies),
        verdict(heard(replies)) is Granted <==> states[replies.len() - 1].0.grants(replies.last()),
        verdict(heard(replies)) matches VerdictView::Granted(new_token) ==> {
            &&& states.last().1.effects == seq![
                EffectView::ReturnToken(new_token),
                EffectView::StartReader { connection_id: states.last().0.connection_id },
            ]
            &&& states[0].0.link.waiting() matches Some(message) && states.last().1.action
                == ActionView::Send { message }
        },
        verdict(heard(replies)) is Refused ==> states.last().1.effects == told(
            NetworkEventView::WebsocketHttpError { error: ApiErrorView::Unauthorized },
        ),
        shaking_hands(states.last().0) ==> verdict(heard(replies)) is Undecided,
{
    let n = replies.len() as int;
    lemma_handshake(states, replies, n, token);
    assert(states.subrange(1, n + 1) =~= states.drop_first());
    assert(replies.take(n) =~= replies);
    assert(states[n - 1].0.expects(replies[n - 1]));
    lemma_follows_in_order(states, replies, n - 1);
    lemma_decision(states[n - 1].0, replies[n - 1], states[n]);
    assert(replies.drop_last() =~= replies.take(n - 1));
    if n == 1 {
        reveal_with_fuel(heard, 2);
        assert(heard(replies) =~= carried_by(replies[0]));
    } else {
        lemma_handshake(states, replies, n - 1, token);
        lemma_verdict(heard(replies.take(n - 1)), carried_by(replies[n - 1]));
    }
}

/// The rooms of a list that are not in a set, each once, in the order in which they first occur in
/// the list.
pub open spec fn missing(rooms: Seq<RoomName>, set: Set<RoomName>) -> Seq<RoomName>
    decreases rooms.len(),
{
    if rooms.len() == 0 {
        seq![]
    } else if set.contains(rooms.last()) || rooms.drop_last().contains(rooms.last()) {
        missing(rooms.drop_last(), set)
    } else {
        missing(rooms.drop_last(), set).push(rooms.last())
    }
}

/// The messages that subscribe to rooms.
pub open spec fn subscribe_messages(rooms: Seq<RoomName>) -> Seq<OwnedMessageView> {
    rooms.map_values(|room: RoomName| OwnedMessageView::Text(subscribe_text(room)))
}

/// The messages that unsubscribe from rooms.
pub open spec fn unsubscribe_messages(rooms: Seq<RoomName>) -> Seq<OwnedMessageView> {
    rooms.map_values(|room: RoomName| OwnedMessageView::Text(unsubscribe_text(room)))
}

/// The messages that were sent over the connection that is kept, in order, up to a state.
pub open spec fn messages_sent(
    states: Seq<(ExecutorView, StepView)>,
    replies: Seq<ReplyView>,
    at: int,
) -> Seq<OwnedMessageView>
    decreases at,
{
    if at <= 0 {
        seq![]
    } else {
        messages_sent(states, replies, at - 1) + match states[at - 1].1.action {
            ActionView::Send { message } => if states[at - 1].0.delivers(replies[at - 1]) {
                seq![message]
            } else {
                seq![]
            },
            _ => seq![],
        }
    }
}

/// Whether messages are those that subscribe to the missing rooms of a list, and then those that
/// unsubscribe from some other rooms.
pub open spec fn says(
    messages: Seq<OwnedMessageView>,
    rooms: Seq<RoomName>,
    before: Set<RoomName>,
    unneeded: Seq<RoomName>,
) -> bool {
    messages == subscribe_messages(missing(rooms, before)) + unsubscribe_messages(unneeded)
}

/// What holds of the messages that were sent on the way from the rooms `before` to those of a list.
spec fn speaks(
    state: (ExecutorView, StepView),
    sent: Seq<OwnedMessageView>,
    before: Set<RoomName>,
    rooms: Seq<RoomName>,
) -> bool {
    let subscribed = state.0.subscribed;
    &&& state.0.link is Sending ==> (state.1.action matches ActionView::Send { message }
        && names_its_room(message, state.0.task))
    &&& match state.0.task {
        TaskView::Idle => exists|unneeded: Seq<RoomName>| #[trigger]
            arranges(unneeded, before.difference(rooms.to_set())) && says(
                sent,
                rooms,
                before,
                unneeded,
            ),
        TaskView::Raw => false,
        TaskView::Subscribe { rooms: list, index } => {
            &&& list == rooms
            &&& 0 <= index < rooms.len()
            &&& !subscribed.contains(rooms[index])
            &&& spoken(subscribed, index, sent, before, rooms)
        },
        TaskView::Unsubscribe { rooms: list, index } => {
            &&& arranges(list, before.difference(rooms.to_set()))
            &&& 0 <= index < list.len()
            &&& says(sent, rooms, before, list.take(index))
        },
    }
}

/// What holds while the rooms of a list are subscribed to, before the turn of the one at an index.
spec fn spoken(
    subscribed: Set<RoomName>,
    index: int,
    sent: Seq<OwnedMessageView>,
    before: Set<RoomName>,
    rooms: Seq<RoomName>,
) -> bool {
    &&& sent == subscribe_messages(missing(rooms.take(index), before))
    &&& before.subset_of(subscribed)
    &&& subscribed.subset_of(before.union(rooms.to_set()))
    &&& forall|i: int| 0 <= i < index ==> subscribed.contains(#[trigger] rooms[i])
    &&& forall|i: int|
        index <= i < rooms.len() && subscribed.contains(#[trigger] rooms[i]) ==> before.contains(
            rooms[i],
        ) || rooms.take(index).contains(rooms[i])
}

proof fn lemma_missing(rooms: Seq<RoomName>, from: int, to: int, set: Set<RoomName>)
    requires
        0 <= from <= to <= rooms.len(),
        forall|i: int|
            from <= i < to ==> set.contains(#[trigger] rooms[i]) || rooms.take(from).contains(
                rooms[i],
            ),
    ensures
        missing(rooms.take(to), set) == missing(rooms.take(from), set),
    decreases to - from,
{
    if from < to {
        lemma_missing(rooms, from, to - 1, set);
        assert(rooms.take(to).drop_last() =~= rooms.take(to - 1));
        assert(rooms.take(to).last() == rooms[to - 1]);
        if rooms.take(from).contains(rooms[to - 1]) {
            let i = rooms.take(from).index_of(rooms[to - 1]);
            assert(rooms.take(to - 1)[i] == rooms[to - 1]);
        }
    }
}

proof fn lemma_speaks_unsubscribe(
    executor: ExecutorView,
    list: Seq<RoomName>,
    index: int,
    effects: Seq<EffectView>,
    sent: Seq<OwnedMessageView>,
    before: Set<RoomName>,
    rooms: Seq<RoomName>,
)
    requires
        0 <= index <= list.len(),
        arranges(list, before.difference(rooms.to_set())),
        says(sent, rooms, before, list.take(index)),
        executor.link is Idle,
    ensures
        speaks(executor.unsubscribe(list, index, effects), sent, before, rooms),
{
    if index == list.len() {
        assert(list.take(index) =~= list);
    }
}

proof fn lemma_speaks_subscribe(
    executor: ExecutorView,
    from: int,
    effects: Seq<EffectView>,
    next: (ExecutorView, StepView),
    sent: Seq<OwnedMessageView>,
    before: Set<RoomName>,
    rooms: Seq<RoomName>,
)
    requires
        0 <= from <= rooms.len(),
        executor.link is Idle,
        spoken(executor.subscribed, from, sent, before, rooms),
        executor.subscribe(rooms, from, effects, next),
    ensures
        speaks(next, sent, before, rooms),
{
    let index = first_missing(rooms, from, executor.subscribed);
    lemma_first_missing(rooms, from, executor.subscribed);
    assert forall|i: int| from <= i < index implies before.contains(#[trigger] rooms[i])
        || rooms.take(from).contains(rooms[i]) by {
        assert(executor.subscribed.contains(rooms[i]));
    }
    lemma_missing(rooms, from, index, before);
    if index >= rooms.len() {
        assert(rooms.take(index) =~= rooms);
        let unneeded = choose|unneeded: Seq<RoomName>| #[trigger]
            arranges(unneeded, executor.subscribed.difference(rooms.to_set())) && next
                == executor.unsubscribe(unneeded, 0, effects);
        assert(executor.subscribed.difference(rooms.to_set()) =~= before.difference(
            rooms.to_set(),
        ));
        assert(unsubscribe_messages(unneeded.take(0)) =~= seq![]);
        assert(sent =~= subscribe_messages(missing(rooms, before)) + unsubscribe_messages(
            unneeded.take(0),
        ));
        lemma_speaks_unsubscribe(executor, unneeded, 0, effects, sent, before, rooms);
    }
}

proof fn lemma_speaks_sent(
    executor: ExecutorView,
    effects: Seq<EffectView>,
    next: (ExecutorView, StepView),
    sent: Seq<OwnedMessageView>,
    message: OwnedMessageView,
    before: Set<RoomName>,
    rooms: Seq<RoomName>,
    action: StepView,
)
    requires
        speaks((executor, action), sent, before, rooms),
        names_its_room(message, executor.task),
        executor.sent(true, effects, next),
    ensures
        speaks(next, sent.push(message), before, rooms),
{
    let free = ExecutorView { link: LinkView::Idle, ..executor };
    match executor.task {
        TaskView::Subscribe { rooms: list, index } => {
            let subscribed = executor.subscribed.insert(rooms[index]);
            assert(rooms.take(index + 1).drop_last() =~= rooms.take(index));
            assert(rooms.take(index + 1).last() == rooms[index]);
            assert(!before.contains(rooms[index]));
            if rooms.take(index).contains(rooms[index]) {
                let i = rooms.take(index).index_of(rooms[index]);
                assert(executor.subscribed.contains(rooms[i]));
            }
            assert(sent.push(message) =~= subscribe_messages(
                missing(rooms.take(index + 1), before),
            ));
            assert forall|i: int|
                index + 1 <= i < rooms.len() && subscribed.contains(
                    #[trigger] rooms[i],
                ) implies before.contains(rooms[i]) || rooms.take(index + 1).contains(
                rooms[i],
            ) by {
                if rooms[i] == rooms[index] {
                    assert(rooms.take(index + 1)[index] == rooms[i]);
                } else if rooms.take(index).contains(rooms[i]) {
                    let j = rooms.take(index).index_of(rooms[i]);
                    assert(rooms.take(index + 1)[j] == rooms[i]);
                }
            }
            assert(rooms.to_set().contains(rooms[index]));
            assert(spoken(subscribed, index + 1, sent.push(message), before, rooms));
            lemma_speaks_subscribe(
                ExecutorView { subscribed, ..free },
                index + 1,
                effects,
                next,
                sent.push(message),
                before,
                rooms,
            );
        },
        TaskView::Unsubscribe { rooms: list, index } => {
            assert(unsubscribe_messages(list.take(index + 1)) =~= unsubscribe_messages(
                list.take(index),
            ).push(message));
            assert(sent.push(message) =~= subscribe_messages(missing(rooms, before))
                + unsubscribe_messages(list.take(index + 1)));
            lemma_speaks_unsubscribe(
                ExecutorView { subscribed: executor.subscribed.remove(list[index]), ..free },
                list,
                index + 1,
                effects,
                sent.push(message),
                before,
                rooms,
            );
        },
        _ => {},
    }
}

proof fn lemma_speaks(
    executor: ExecutorView,
    rooms: Seq<RoomName>,
    states: Seq<(ExecutorView, StepView)>,
    replies: Seq<ReplyView>,
    at: int,
)
    requires
        executor.wf(),
        executor.idle(),
        all_displayable(rooms),
        follows(states, replies),
        executor.run(InputView::SetMapSubscribes { rooms }, states[0]),
        lossless(states, replies),
        0 <= at < states.len(),
    ensures
        speaks(states[at], messages_sent(states, replies, at), executor.subscribed, rooms),
    decreases at,
{
    let before = executor.subscribed;
    if at == 0 {
        assert(rooms.take(0) =~= seq![]);
        assert(subscribe_messages(missing(rooms.take(0), before)) =~= seq![]);
        lemma_speaks_subscribe(executor, 0, seq![], states[0], seq![], before, rooms);
    } else {
        lemma_speaks(executor, rooms, states, replies, at - 1);
        law_requests_keep_order(executor, InputView::SetMapSubscribes { rooms }, states[0]);
        lemma_follows_in_order(states, replies, at - 1);
        let last = states[at - 1].0;
        let reply = replies[at - 1];
        let sent = messages_sent(states, replies, at - 1);
        assert(last.expects(reply));
        assert(!last.loses(reply));
        lemma_resume(last, reply, states[at]);
        law_messages_name_their_rooms(last, reply, states[at]);
        if last.delivers(reply) {
            let message = states[at - 1].1.action->Send_message;
            assert(messages_sent(states, replies, at) =~= sent.push(message));
            lemma_speaks_sent(
                ExecutorView { connected: true, ..last },
                seq![],
                states[at],
                sent,
                message,
                before,
                rooms,
                states[at - 1].1,
            );
        } else {
            assert(messages_sent(states, replies, at) =~= sent);
            lemma_sending(last, reply, states[at]);
        }
    }
}

proof fn lemma_sending(executor: ExecutorView, reply: ReplyView, next: (ExecutorView, StepView))
    requires
        executor.wf(),
        executor.expects(reply),
        executor.resume(reply, next),
        !executor.delivers(reply),
        !executor.loses(reply),
    ensures
        next.0.link is Sending ==> next.1.action is Send,
        next.0.task == executor.task,
        next.0.subscribed == executor.subscribed,
{
    lemma_resume(executor, reply, next);
}

/// The messages of a request. Where nothing is lost, they subscribe once to each missing room, in
/// the order of the list, and after that unsubscribe once from each room that was subscribed to and
/// is not in the list. Nothing else is sent.
pub proof fn law_requests_send_what_is_needed(
    executor: ExecutorView,
    rooms: Seq<RoomName>,
    states: Seq<(ExecutorView, StepView)>,
    replies: Seq<ReplyView>,
)
    requires
        executor.wf(),
        executor.idle(),
        all_displayable(rooms),
        follows(states, replies),
        executor.run(InputView::SetMapSubscribes { rooms }, states[0]),
        lossless(states, replies),
        states.last().0.idle(),
    ensures
        exists|unneeded: Seq<RoomName>| #[trigger]
            arranges(unneeded, executor.subscribed.difference(rooms.to_set())) && says(
                messages_sent(states, replies, replies.len() as int),
                rooms,
                executor.subscribed,
                unneeded,
            ),
{
    lemma_speaks(executor, rooms, states, replies, replies.len() as int);
}

/// The token that is taken from the storage, before or after a login, is the one that a connection
/// is opened for. The message goes on waiting, and nothing else changes.
pub proof fn law_connections_use_the_token_that_was_taken(
    executor: ExecutorView,
    token: Seq<char>,
    next: (ExecutorView, StepView),
)
    requires
        executor.link is TakingToken || executor.link is RetakingToken,
        executor.resume(ReplyView::Token(Some(token)), next),
    ensures
        executor.link.waiting() matches Some(message) && next.0 == (ExecutorView {
            link: LinkView::Connecting { message, token },
            ..executor
        }),
        next.1 == (StepView { effects: seq![], action: ActionView::Connect }),
{
}

/// The first thing that is written to a new connection is the authentication with the token that
/// was taken last: every connection that is opened follows a token, and no other token comes
/// between. This holds all over a request, however many connections it needs.
pub proof fn law_the_last_token_authenticates(
    states: Seq<(ExecutorView, StepView)>,
    replies: Seq<ReplyView>,
    at: int,
)
    requires
        follows(states, replies),
        !(states[0].0.link is Connecting),
        0 <= at < replies.len(),
        replies[at] matches ReplyView::Connected(Ok(_)),
    ensures
        at > 0,
        replies[at - 1] matches ReplyView::Token(Some(token)) && states[at + 1].1 == (StepView {
            effects: seq![],
            action: ActionView::Greet { message: OwnedMessageView::Text(authenticate_text(token)) },
        }),
{
    assert(states[at].0.expects(replies[at]));
    assert(states[at].0.resume(replies[at], states[at + 1]));
    assert(states[at].0.link is Connecting);
    assert(states[at - 1].0.expects(replies[at - 1]));
    assert(states[at - 1].0.resume(replies[at - 1], states[at]));
    lemma_resume(states[at - 1].0, replies[at - 1], states[at]);
}

/// Where there is no token, a login is made with the details of the executor. The token that it
/// gives is kept, and then a token is taken. Nothing else changes.
pub proof fn law_logins_are_made_without_a_token(
    executor: ExecutorView,
    token: Seq<char>,
    next: (ExecutorView, StepView),
)
    ensures
        executor.link matches LinkView::TakingToken { message } ==> (executor.resume(
            ReplyView::Token(None),
            next,
        ) <==> next == (
            ExecutorView { link: LinkView::LoggingIn { message }, ..executor },
            StepView {
                effects: seq![],
                action: ActionView::Login {
                    username: executor.login.username,
                    password: executor.login.password,
                },
            },
        )),
        executor.link matches LinkView::LoggingIn { message } ==> (executor.resume(
            ReplyView::LoggedIn(Ok(token)),
            next,
        ) <==> next == (
            ExecutorView { link: LinkView::RetakingToken { message }, ..executor },
            StepView {
                effects: seq![EffectView::ReturnToken(token)],
                action: ActionView::TakeToken,
            },
        )),
{
}

/// Over a connection that is being opened the token is sent, then an answer is waited for, and each
/// ping in between is answered with its data. The message goes on waiting, and nothing else changes.
pub proof fn law_connections_are_opened_step_by_step(
    executor: ExecutorView,
    data: Seq<u8>,
    text: Seq<char>,
    next: (ExecutorView, StepView),
)
    requires
        executor.link.waiting() is Some,
    ensures
        executor.link matches LinkView::Connecting { message, token } ==> (executor.resume(
            ReplyView::Connected(Ok(())),
            next,
        ) ==> next == (
            ExecutorView { link: LinkView::Greeting { message }, ..executor },
            StepView {
                effects: seq![],
                action: ActionView::Greet {
                    message: OwnedMessageView::Text(authenticate_text(token)),
                },
            },
        )),
        executor.link matches LinkView::Greeting { message } ==> (executor.resume(
            ReplyView::Sent(Ok(())),
            next,
        ) ==> next == (
            ExecutorView { link: LinkView::Listening { message }, ..executor },
            StepView { effects: seq![], action: ActionView::Receive },
        )),
        executor.link matches LinkView::Listening { message } ==> (executor.resume(
            ReplyView::Received(Ok(Some(OwnedMessageView::Ping(data)))),
            next,
        ) ==> next == (
            ExecutorView { link: LinkView::Greeting { message }, ..executor },
            StepView {
                effects: seq![],
                action: ActionView::Greet { message: OwnedMessageView::Pong(data) },
            },
        )),
        executor.link is Listening ==> (frame_parsed(text) matches Ok(frame) && verdict(
            carried(frame),
        ) is Undecided ==> (executor.resume(
            ReplyView::Received(Ok(Some(OwnedMessageView::Text(text)))),
            next,
        ) ==> next == (executor, StepView { effects: seq![], action: ActionView::Receive }))),
{
}

/// Once the server accepts the token, the new one is kept, a reader is started with the next number,
/// and the message that waited is sent. Nothing else changes.
pub proof fn law_accepted_tokens_bring_up_a_connection(
    executor: ExecutorView,
    text: Seq<char>,
    new_token: Seq<char>,
    next: (ExecutorView, StepView),
)
    requires
        executor.link is Listening,
        executor.connection_id < u16::MAX,
        frame_parsed(text) matches Ok(frame) && verdict(carried(frame)) == VerdictView::Granted(
            new_token,
        ),
        executor.resume(ReplyView::Received(Ok(Some(OwnedMessageView::Text(text)))), next),
    ensures
        next.0 == (ExecutorView {
            link: LinkView::Sending,
            connected: false,
            connection_id: next.0.connection_id,
            ..executor
        }),
        next.0.connection_id == executor.connection_id + 1,
        executor.link.waiting() matches Some(message) && next.1 == (StepView {
            effects: seq![
                EffectView::ReturnToken(new_token),
                EffectView::StartReader { connection_id: next.0.connection_id },
            ],
            action: ActionView::Send { message },
        }),
{
}

/// Whether a message says nothing about the token.
pub open spec fn silent(message: ScreepsMessageView) -> bool {
    !(message is AuthOk) && !(message is AuthFailed)
}

/// The first message that speaks of the token decides, wherever it stands and whatever comes after
/// it. Without such a message nothing is decided.
pub proof fn law_the_first_word_decides(
    before: Seq<ScreepsMessageView>,
    token: Seq<char>,
    after: Seq<ScreepsMessageView>,
)
    requires
        forall|i: int| 0 <= i < before.len() ==> silent(#[trigger] before[i]),
    ensures
        verdict(before) is Undecided,
        verdict(before.push(ScreepsMessageView::AuthOk { new_token: token }) + after)
            == VerdictView::Granted(token),
        verdict(before.push(ScreepsMessageView::AuthFailed) + after) is Refused,
    decreases before.len(),
{
    let ok = ScreepsMessageView::AuthOk { new_token: token };
    let failed = ScreepsMessageView::AuthFailed;
    if before.len() == 0 {
        assert((before.push(ok) + after)[0] == ok);
        assert((before.push(failed) + after)[0] == failed);
    } else {
        assert(silent(before[0]));
        law_the_first_word_decides(before.drop_first(), token, after);
        assert((before.push(ok) + after).drop_first() =~= before.drop_first().push(ok) + after);
        assert((before.push(ok) + after)[0] == before[0]);
        assert((before.push(failed) + after).drop_first() =~= before.drop_first().push(failed)
            + after);
        assert((before.push(failed) + after)[0] == before[0]);
    }
}

/// What the user interface hears of each failure: the very error that came, or what was wrong with
/// the answer of the server.
pub proof fn law_failures_are_told_as_they_are(
    executor: ExecutorView,
    reply: ReplyView,
    next: (ExecutorView, StepView),
)
    requires
        executor.wf(),
        executor.expects(reply),
        executor.resume(reply, next),
    ensures
        reply matches ReplyView::Sent(Err(error)) ==> next.1.effects == seq![
            EffectView::Relay(NetworkEventView::WebsocketError { error }),
        ],
        reply matches ReplyView::Connected(Err(error)) ==> next.1.effects == seq![
            EffectView::Relay(NetworkEventView::WebsocketError { error }),
        ],
        reply matches ReplyView::Received(Err(error)) ==> next.1.effects == seq![
            EffectView::Relay(NetworkEventView::WebsocketError { error }),
        ],
        reply matches ReplyView::LoggedIn(Err(error)) ==> next.1.effects == seq![
            EffectView::Relay(NetworkEventView::WebsocketHttpError { error }),
        ],
        reply matches ReplyView::Received(Ok(Some(received))) ==> match received {
            OwnedMessageView::Ping(_) => true,
            OwnedMessageView::Text(text) => match frame_parsed(text) {
                Err(reason) => next.1.effects == seq![
                    EffectView::Relay(
                        NetworkEventView::WebsocketParseError {
                            error: ParseErrorView::Malformed(reason),
                        },
                    ),
                ],
                Ok(frame) => verdict(carried(frame)) is Refused ==> next.1.effects == seq![
                    EffectView::Relay(
                        NetworkEventView::WebsocketHttpError { error: ApiErrorView::Unauthorized },
                    ),
                ],
            },
            _ => next.1.effects == seq![
                EffectView::Relay(
                    NetworkEventView::WebsocketParseError {
                        error: ParseErrorView::Other(
                            "expected text websocket message, found "@ + shown(received),
                        ),
                    },
                ),
            ],
        },
        reply matches ReplyView::Received(Ok(None)) ==> next.1.effects.len() == 0,
{
    lemma_resume(executor, reply, next);
    if executor.loses(reply) {
        lemma_sent_effects(executor, false, complaint(reply), next);
    }
}

/// A message is lost exactly when a reply brings an error, when the connection is closed before the
/// server answered, or when its answer is no frame, no text or ping, or a refusal. It was sent
/// exactly when the reply to its sending says so.
pub proof fn law_what_becomes_of_a_message(
    executor: ExecutorView,
    reply: ReplyView,
    next: (ExecutorView, StepView),
)
    requires
        executor.wf(),
        executor.expects(reply),
        executor.resume(reply, next),
    ensures
        reply matches ReplyView::Sent(Err(_)) ==> executor.loses(reply),
        reply matches ReplyView::Connected(Err(_)) ==> executor.loses(reply),
        reply matches ReplyView::Received(Err(_)) ==> executor.loses(reply),
        reply matches ReplyView::LoggedIn(Err(_)) ==> executor.loses(reply),
        reply matches ReplyView::Received(Ok(None)) ==> executor.loses(reply),
        reply is Token ==> !executor.loses(reply),
        reply matches ReplyView::Sent(Ok(_)) ==> !executor.loses(reply) && (executor.delivers(reply)
            <==> executor.link is Sending),
        !(reply is Sent) ==> !executor.delivers(reply),
        executor.loses(reply) || executor.delivers(reply) ==> next.0.task != executor.task
            || executor.task is Idle,
        executor.loses(reply) ==> next.0.subscribed == executor.subscribed
            && next.0.connection_id == executor.connection_id,
{
    lemma_resume(executor, reply, next);
    if let TaskView::Subscribe { rooms, index } = executor.task {
        lemma_first_missing(rooms, index + 1, next.0.subscribed);
    }
}

/// A connection that a message was sent over is kept: the next message goes over it at once, or it
/// is there for the next request. Nobody is told anything.
pub proof fn law_working_connections_are_kept(
    executor: ExecutorView,
    reply: ReplyView,
    next: (ExecutorView, StepView),
)
    requires
        executor.wf(),
        executor.link is Sending,
        reply matches ReplyView::Sent(Ok(_)),
        executor.resume(reply, next),
    ensures
        next.1.effects.len() == 0,
        next.1.action is Send || (next.1.action is Done && next.0.connected),
        next.0.connection_id == executor.connection_id,
{
}

/// The details of an executor never change.
pub proof fn law_details_stay(
    executor: ExecutorView,
    moment: Moment,
    next: (ExecutorView, StepView),
)
    requires
        steps(executor, moment, next),
    ensures
        next.0.login == executor.login,
{
    if let Moment::Resume(reply) = moment {
        lemma_resume(executor, reply, next);
    }
}

/// Whether it is right what an executor turns to, with the rooms of a list before an index behind
/// it: the first room from there on that is not subscribed to. Where there is none, all rooms that
/// are subscribed to and not in the list are unsubscribed from. Where there are none of those either
/// the request is done with.
pub open spec fn turns_right(
    next: (ExecutorView, StepView),
    rooms: Seq<RoomName>,
    from: int,
) -> bool {
    let subscribed = next.0.subscribed;
    match next.0.task {
        TaskView::Idle => {
            &&& next.1.action is Done
            &&& forall|i: int| from <= i < rooms.len() ==> subscribed.contains(#[trigger] rooms[i])
            &&& subscribed.subset_of(rooms.to_set())
        },
        TaskView::Raw => false,
        TaskView::Subscribe { rooms: list, index } => {
            &&& list == rooms
            &&& from <= index < rooms.len()
            &&& !subscribed.contains(rooms[index])
            &&& forall|i: int| from <= i < index ==> subscribed.contains(#[trigger] rooms[i])
        },
        TaskView::Unsubscribe { rooms: list, index } => {
            &&& index == 0
            &&& list.len() > 0
            &&& list.no_duplicates()
            &&& list.to_set() == subscribed.difference(rooms.to_set())
            &&& forall|i: int| from <= i < rooms.len() ==> subscribed.contains(#[trigger] rooms[i])
        },
    }
}

proof fn lemma_turns_right(
    executor: ExecutorView,
    rooms: Seq<RoomName>,
    from: int,
    effects: Seq<EffectView>,
    next: (ExecutorView, StepView),
)
    requires
        0 <= from <= rooms.len(),
        executor.subscribe(rooms, from, effects, next),
    ensures
        turns_right(next, rooms, from),
        next.0.subscribed == executor.subscribed,
        !(next.1.action is Done) ==> (next.1.action is Send <==> executor.connected) && (
        next.1.action is TakeToken <==> !executor.connected),
{
    lemma_first_missing(rooms, from, executor.subscribed);
    if first_missing(rooms, from, executor.subscribed) >= rooms.len() {
        let unneeded = choose|unneeded: Seq<RoomName>| #[trigger]
            arranges(unneeded, executor.subscribed.difference(rooms.to_set())) && next
                == executor.unsubscribe(unneeded, 0, effects);
        if unneeded.len() == 0 {
            assert forall|room: RoomName| executor.subscribed.contains(
                room,
            ) implies #[trigger] rooms.to_set().contains(room) by {
                if !rooms.to_set().contains(room) {
                    assert(unneeded.to_set().contains(room));
                    assert(unneeded.contains(room));
                }
            }
        }
    }
}

/// A request begins where it should. A connection that is kept is used, and without one a token is
/// taken first. Nobody is told anything, and nothing is subscribed to yet.
pub proof fn law_requests_begin_right(
    executor: ExecutorView,
    rooms: Seq<RoomName>,
    next: (ExecutorView, StepView),
)
    requires
        executor.wf(),
        executor.idle(),
        executor.run(InputView::SetMapSubscribes { rooms }, next),
    ensures
        turns_right(next, rooms, 0),
        next.0.subscribed == executor.subscribed,
        next.0.connection_id == executor.connection_id,
        next.1.effects.len() == 0,
        !(next.1.action is Done) ==> (next.1.action is Send <==> executor.connected) && (
        next.1.action is TakeToken <==> !executor.connected),
        next.1.action is Done ==> next.0 == executor,
{
    lemma_turns_right(executor, rooms, 0, seq![], next);
}

/// A request goes on where it should: whether the message for a room was sent or lost, the turn goes
/// to the first room after it that needs a message.
pub proof fn law_requests_go_on_right(
    executor: ExecutorView,
    reply: ReplyView,
    next: (ExecutorView, StepView),
)
    requires
        executor.wf(),
        executor.expects(reply),
        executor.resume(reply, next),
        executor.delivers(reply) || executor.loses(reply),
    ensures
        executor.task matches TaskView::Subscribe { rooms, index } ==> turns_right(
            next,
            rooms,
            index + 1,
        ),
        executor.task matches TaskView::Unsubscribe { rooms, index } ==> if index + 1 < rooms.len() {
            next.0.task == (TaskView::Unsubscribe { rooms, index: index + 1 })
        } else {
            next.0.idle() && next.1.action is Done
        },
        executor.task is Raw ==> next.0.idle() && next.1.action is Done,
{
    lemma_resume(executor, reply, next);
    if let TaskView::Subscribe { rooms, index } = executor.task {
        let ok = executor.delivers(reply);
        let free = ExecutorView {
            subscribed: next.0.subscribed,
            link: LinkView::Idle,
            connected: ok || executor.connected,
            ..executor
        };
        let effects = if ok {
            seq![]
        } else {
            complaint(reply)
        };
        law_subscriptions_follow_messages(executor, reply, next);
        assert(free.subscribe(rooms, index + 1, effects, next));
        lemma_turns_right(free, rooms, index + 1, effects, next);
    }
}

/// A message for the connection that is kept is sent over it as it is. Afterwards all is as it was
/// before, but for a connection that failed meanwhile.
pub proof fn law_messages_for_the_connection_are_sent(
    executor: ExecutorView,
    message: OwnedMessageView,
    sending: (ExecutorView, StepView),
    reply: ReplyView,
    next: (ExecutorView, StepView),
)
    requires
        executor.wf(),
        executor.idle(),
        executor.connected,
        executor.run(InputView::Raw(executor.connection_id, message), sending),
    ensures
        sending.1 == (StepView { effects: seq![], action: ActionView::Send { message } }),
        sending.0.expects(reply) <==> reply is Sent,
        sending.0.resume(reply, next) ==> (reply matches ReplyView::Sent(Ok(_)) ==> next == (
            executor,
            StepView { effects: seq![], action: ActionView::Done },
        )),
        sending.0.resume(reply, next) ==> (reply matches ReplyView::Sent(Err(error)) ==> next == (
            ExecutorView { connected: false, ..executor },
            StepView {
                effects: seq![EffectView::Relay(NetworkEventView::WebsocketError { error })],
                action: ActionView::Done,
            },
        )),
{
}

/// Every outcome of an action can be handled: after each step the reply to its action is the one
/// that is waited for. Only right after a login there has to be a token.
pub proof fn law_step_outcomes_can_be_handled(
    executor: ExecutorView,
    moment: Moment,
    next: (ExecutorView, StepView),
    reply: ReplyView,
)
    requires
        executor.wf(),
        next.0.wf(),
        steps(executor, moment, next),
    ensures
        next.1.action is Send && reply is Sent ==> next.0.expects(reply),
        next.1.action is TakeToken ==> (reply matches ReplyView::Token(Some(_))
            ==> next.0.expects(reply)),
        next.1.action is TakeToken && !(executor.link is LoggingIn) && reply is Token
            ==> next.0.expects(reply),
        next.1.action is Login && reply is LoggedIn ==> next.0.expects(reply),
        next.1.action is Connect && reply is Connected ==> next.0.expects(reply),
        next.1.action is Greet && reply is Sent ==> next.0.expects(reply),
        next.1.action is Receive && reply is Received ==> next.0.expects(reply),
        next.1.action is Done <==> next.0.idle(),
{
    if let Moment::Resume(reply) = moment {
        lemma_resume(executor, reply, next);
    }
}

/// There is a way to go on from every reply but one: the server accepts a token, and the number of
/// the last connection is the greatest there is.
pub proof fn law_only_numbers_run_out(executor: ExecutorView, reply: ReplyView)
    ensures
        executor.connection_id < 65535 ==> !executor.stuck(reply),
        executor.stuck(reply) <==> {
            &&& executor.connection_id == 65535
            &&& executor.link is Listening
            &&& reply matches ReplyView::Received(Ok(Some(OwnedMessageView::Text(text))))
            &&& frame_parsed(text) matches Ok(frame)
            &&& verdict(carried(frame)) is Granted
        },
{
}

} // verus!
