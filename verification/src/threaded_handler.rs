//! Sharing a few executors among many requests.
//!
//! A [`ThreadedHandler`] starts requests in the order in which they come, each with an executor of
//! its own, and lets them wait while all executors are busy.

use std::collections::VecDeque;

use vstd::pervasive::unreached;
use vstd::prelude::*;

use crate::login::{LoginDetails, LoginDetailsView};
use crate::request::{Request, RequestView};
use crate::tokio_executor::{ExecutePhaseView, TokioExecutor, TokioExecutorView};

verus! {

/// The number of executors, and so of requests that are carried out at the same time.
pub const EXECUTORS: usize = 5;

/// Something that happened.
pub enum HandlerEvent {
    /// A request came.
    Request(Request),
    /// An executor is done with its request.
    ExecutorReturned(TokioExecutor),
    /// No more requests will come.
    RequestsClosed,
}

/// What a [`HandlerEvent`] tells.
pub enum HandlerEventView {
    Request(RequestView),
    ExecutorReturned(TokioExecutorView),
    RequestsClosed,
}

impl View for HandlerEvent {
    type V = HandlerEventView;

    open spec fn view(&self) -> HandlerEventView {
        match self {
            HandlerEvent::Request(request) => HandlerEventView::Request(request@),
            HandlerEvent::ExecutorReturned(executor) => HandlerEventView::ExecutorReturned(
                executor@,
            ),
            HandlerEvent::RequestsClosed => HandlerEventView::RequestsClosed,
        }
    }
}

/// What to do next: have an executor carry out a request if there is one to start. Then either wait
/// for something to happen, or stop and wake up the user interface.
pub struct HandlerStep {
    pub execute: Option<(TokioExecutor, Request)>,
    pub exit: bool,
}

/// What a [`HandlerStep`] is about.
pub struct HandlerStepView {
    pub execute: Option<(TokioExecutorView, RequestView)>,
    pub exit: bool,
}

impl View for HandlerStep {
    type V = HandlerStepView;

    open spec fn view(&self) -> HandlerStepView {
        HandlerStepView {
            execute: match self.execute {
                Some((executor, request)) => Some((executor@, request@)),
                None => None,
            },
            exit: self.exit,
        }
    }
}

/// Shares executors among requests.
pub struct ThreadedHandler {
    login: LoginDetails,
    free: VecDeque<TokioExecutor>,
    busy: usize,
    pending: VecDeque<Request>,
    closed: bool,
}

/// The state of a [`ThreadedHandler`].
pub struct ThreadedHandlerView {
    /// The details that all executors log in with.
    pub login: LoginDetailsView,
    /// The executors without a request.
    pub free: Seq<TokioExecutorView>,
    /// The number of executors with a request.
    pub busy: int,
    /// The requests that wait, in the order in which they came.
    pub pending: Seq<RequestView>,
    /// Whether no more requests will come.
    pub closed: bool,
}

/// The states of some executors.
pub open spec fn executors_view(executors: Seq<TokioExecutor>) -> Seq<TokioExecutorView> {
    executors.map_values(|executor: TokioExecutor| executor@)
}

/// What some requests ask for.
pub open spec fn requests_view(requests: Seq<Request>) -> Seq<RequestView> {
    requests.map_values(|request: Request| request@)
}

impl View for ThreadedHandler {
    type V = ThreadedHandlerView;

    closed spec fn view(&self) -> ThreadedHandlerView {
        ThreadedHandlerView {
            login: self.login@,
            free: executors_view(self.free@),
            busy: self.busy as int,
            pending: requests_view(self.pending@),
            closed: self.closed,
        }
    }
}

/// An executor without a request.
pub open spec fn free_executor(login: LoginDetailsView) -> TokioExecutorView {
    TokioExecutorView { login, phase: ExecutePhaseView::Idle }
}

impl ThreadedHandlerView {
    /// What holds of every handler between two steps.
    ///
    /// No executor is ever lost or made up, and no request waits while an executor is free.
    pub open spec fn wf(self) -> bool {
        &&& self.free.len() + self.busy == EXECUTORS
        &&& self.busy >= 0
        &&& forall|i: int|
            0 <= i < self.free.len() ==> #[trigger] self.free[i] == free_executor(self.login)
        &&& self.pending.len() > 0 ==> self.free.len() == 0
    }

    /// Whether something can be the next thing to happen. Only an executor that has a request can
    /// come back.
    pub open spec fn expects(self, event: HandlerEventView) -> bool {
        match event {
            HandlerEventView::Request(_) => !self.closed,
            HandlerEventView::ExecutorReturned(executor) => self.busy > 0 && executor
                == free_executor(self.login),
            HandlerEventView::RequestsClosed => !self.closed,
        }
    }

    /// What happened is taken down.
    pub open spec fn noted(self, event: HandlerEventView) -> ThreadedHandlerView {
        match event {
            HandlerEventView::Request(request) => ThreadedHandlerView {
                pending: self.pending.push(request),
                ..self
            },
            HandlerEventView::ExecutorReturned(executor) => ThreadedHandlerView {
                free: self.free.push(executor),
                busy: self.busy - 1,
                ..self
            },
            HandlerEventView::RequestsClosed => ThreadedHandlerView { closed: true, ..self },
        }
    }

    /// Whether it is over: there is no request left, and none will come. Executors may still be
    /// busy.
    pub open spec fn over(self) -> bool {
        self.closed && self.pending.len() == 0
    }

    /// The request that came first goes with the executor that is free for longest.
    pub open spec fn turn(self) -> (ThreadedHandlerView, HandlerStepView) {
        if self.pending.len() > 0 && self.free.len() > 0 {
            let after = ThreadedHandlerView {
                free: self.free.drop_first(),
                busy: self.busy + 1,
                pending: self.pending.drop_first(),
                ..self
            };
            let execute = Some((self.free[0], self.pending[0]));
            (after, HandlerStepView { execute, exit: after.over() })
        } else {
            (self, HandlerStepView { execute: None, exit: self.over() })
        }
    }

    /// What follows something that happened.
    pub open spec fn run(self, event: HandlerEventView) -> (ThreadedHandlerView, HandlerStepView) {
        self.noted(event).turn()
    }
}

impl ThreadedHandler {
    /// A handler with all executors free.
    pub fn new(login: LoginDetails) -> (res: ThreadedHandler)
        ensures
            res@.wf(),
            res@.login == login@,
            res@.free.len() == EXECUTORS,
            res@.pending == Seq::<RequestView>::empty(),
            !res@.closed,
    {
        let mut free: VecDeque<TokioExecutor> = VecDeque::new();
        let mut i: usize = 0;
        while i < EXECUTORS
            invariant
                i <= EXECUTORS,
                free@.len() == i,
                forall|j: int| 0 <= j < i ==> (#[trigger] free@[j])@ == free_executor(login@),
            decreases EXECUTORS - i,
        {
            free.push_back(TokioExecutor::new(login.clone()));
            i += 1;
        }
        let pending: VecDeque<Request> = VecDeque::new();
        proof {
            assert(requests_view(pending@) =~= seq![]);
        }
        ThreadedHandler { login, free, busy: 0, pending, closed: false }
    }

    /// Handles something that happened.
    pub fn run(&mut self, event: HandlerEvent) -> (res: HandlerStep)
        requires
            old(self)@.wf(),
            old(self)@.expects(event@),
        ensures
            final(self)@.wf(),
            (final(self)@, res@) == old(self)@.run(event@),
    {
        let ghost before = self@;
        let ghost pending = self.pending@;
        let ghost free = self.free@;
        match event {
            HandlerEvent::Request(request) => {
                self.pending.push_back(request);
                proof {
                    assert(requests_view(self.pending@) =~= requests_view(pending).push(request@));
                }
            },
            HandlerEvent::ExecutorReturned(executor) => {
                self.free.push_back(executor);
                self.busy = self.busy - 1;
                proof {
                    assert(executors_view(self.free@) =~= executors_view(free).push(executor@));
                }
            },
            HandlerEvent::RequestsClosed => {
                self.closed = true;
            },
        }
        assert(self@ == before.noted(event@));
        self.turn()
    }

    fn turn(&mut self) -> (res: HandlerStep)
        requires
            old(self)@.busy < usize::MAX,
        ensures
            (final(self)@, res@) == old(self)@.turn(),
    {
        let ghost pending = self.pending@;
        let ghost free = self.free@;
        let mut execute: Option<(TokioExecutor, Request)> = None;
        if self.pending.len() > 0 && self.free.len() > 0 {
            execute = match (self.free.pop_front(), self.pending.pop_front()) {
                (Some(executor), Some(request)) => Some((executor, request)),
                _ => unreached(),
            };
            self.busy = self.busy + 1;
            proof {
                assert(executors_view(self.free@) =~= executors_view(free).drop_first());
                assert(requests_view(self.pending@) =~= requests_view(pending).drop_first());
            }
        }
        HandlerStep { execute, exit: self.closed && self.pending.len() == 0 }
    }
}

/// The handler after some things happened.
pub open spec fn after(
    handler: ThreadedHandlerView,
    events: Seq<HandlerEventView>,
) -> ThreadedHandlerView
    decreases events.len(),
{
    if events.len() == 0 {
        handler
    } else {
        after(handler, events.drop_last()).run(events.last()).0
    }
}

/// Each thing that happened could happen when it did.
pub open spec fn possible(handler: ThreadedHandlerView, events: Seq<HandlerEventView>) -> bool
    decreases events.len(),
{
    events.len() > 0 ==> possible(handler, events.drop_last()) && after(
        handler,
        events.drop_last(),
    ).expects(events.last())
}

/// The requests that came, in order.
pub open spec fn arrived(events: Seq<HandlerEventView>) -> Seq<RequestView>
    decreases events.len(),
{
    if events.len() == 0 {
        seq![]
    } else {
        match events.last() {
            HandlerEventView::Request(request) => arrived(events.drop_last()).push(request),
            _ => arrived(events.drop_last()),
        }
    }
}

/// The requests that were given to executors, in order.
pub open spec fn executed(
    handler: ThreadedHandlerView,
    events: Seq<HandlerEventView>,
) -> Seq<RequestView>
    decreases events.len(),
{
    if events.len() == 0 {
        seq![]
    } else {
        let before = executed(handler, events.drop_last());
        match after(handler, events.drop_last()).run(events.last()).1.execute {
            Some((_, request)) => before.push(request),
            None => before,
        }
    }
}

/// However things happen, there are never more requests under way than there are executors, and no
/// request waits while an executor is free.
pub proof fn law_few_requests_at_a_time(
    handler: ThreadedHandlerView,
    events: Seq<HandlerEventView>,
)
    requires
        handler.wf(),
        possible(handler, events),
    ensures
        after(handler, events).wf(),
        0 <= after(handler, events).busy <= EXECUTORS,
        after(handler, events).pending.len() > 0 ==> after(handler, events).busy == EXECUTORS,
        after(handler, events).login == handler.login,
    decreases events.len(),
{
    if events.len() > 0 {
        law_few_requests_at_a_time(handler, events.drop_last());
    }
}

/// Requests are started in the order in which they came, each once: those that were started and
/// those that wait are together those that came.
pub proof fn law_first_come_first_served(
    handler: ThreadedHandlerView,
    events: Seq<HandlerEventView>,
)
    requires
        handler.wf(),
        possible(handler, events),
    ensures
        executed(handler, events) + after(handler, events).pending == handler.pending + arrived(
            events,
        ),
    decreases events.len(),
{
    if events.len() > 0 {
        law_first_come_first_served(handler, events.drop_last());
        law_few_requests_at_a_time(handler, events.drop_last());
        let before = after(handler, events.drop_last());
        let noted = before.noted(events.last());
        let started = executed(handler, events.drop_last());
        let came = arrived(events.drop_last());
        if let HandlerEventView::Request(request) = events.last() {
            assert(started + noted.pending =~= (started + before.pending).push(request));
            assert(handler.pending + came.push(request) =~= (handler.pending + came).push(request));
        }
        assert(started + noted.pending == handler.pending + arrived(events));
        if noted.pending.len() > 0 && noted.free.len() > 0 {
            assert(noted.pending =~= seq![noted.pending[0]] + noted.pending.drop_first());
        }
    }
    assert(executed(handler, events) + after(handler, events).pending =~= handler.pending
        + arrived(events));
}

/// A handler stops only when no more requests will come and every one that came was started.
pub proof fn law_every_request_is_started(
    handler: ThreadedHandlerView,
    events: Seq<HandlerEventView>,
)
    requires
        handler.wf(),
        possible(handler, events),
        events.len() > 0,
        after(handler, events.drop_last()).run(events.last()).1.exit,
    ensures
        after(handler, events).closed,
        executed(handler, events) == handler.pending + arrived(events),
{
    law_first_come_first_served(handler, events);
    assert(executed(handler, events) + after(handler, events).pending =~= executed(
        handler,
        events,
    ));
}

/// What one event does, told by counting. A request that comes makes one more to start, an executor
/// that comes back makes one more that is free, and each start takes one of both. A start is made
/// whenever both are there.
pub proof fn law_events_are_counted(handler: ThreadedHandlerView, event: HandlerEventView)
    requires
        handler.wf(),
        handler.expects(event),
    ensures
        ({
            let (after, step) = handler.run(event);
            let came: int = if event is Request {
                1
            } else {
                0
            };
            let returned: int = if event is ExecutorReturned {
                1
            } else {
                0
            };
            let started: int = if step.execute is Some {
                1
            } else {
                0
            };
            &&& after.pending.len() == handler.pending.len() + came - started
            &&& after.free.len() == handler.free.len() + returned - started
            &&& after.busy == handler.busy - returned + started
            &&& after.busy + after.free.len() == 5
            &&& started == 1 <==> handler.pending.len() + came > 0 && handler.free.len() + returned
                > 0
        }),
{
}

/// The request that is started is the one that came first of those that wait, and the executor that
/// it gets is free and logs in with the details of the handler.
pub proof fn law_the_oldest_request_is_started(
    handler: ThreadedHandlerView,
    event: HandlerEventView,
)
    requires
        handler.wf(),
        handler.expects(event),
    ensures
        handler.run(event).1.execute matches Some((executor, request)) ==> {
            &&& executor.idle()
            &&& executor.login == handler.login
            &&& if handler.pending.len() > 0 {
                request == handler.pending[0]
            } else {
                event == HandlerEventView::Request(request)
            }
        },
{
}

/// It is over exactly when no more requests will come and none waits. That no more will come is
/// known once it was said, and not before.
pub proof fn law_the_end_comes_when_said(handler: ThreadedHandlerView, event: HandlerEventView)
    requires
        handler.wf(),
        handler.expects(event),
    ensures
        handler.run(event).0.closed <==> handler.closed || event is RequestsClosed,
        handler.run(event).1.exit <==> handler.run(event).0.closed && handler.run(
            event,
        ).0.pending.len() == 0,
        handler.run(event).0.login == handler.login,
{
}

/// Requests can come until it is said that no more will, and busy executors can come back at any
/// time.
pub proof fn law_events_can_happen(handler: ThreadedHandlerView, request: RequestView)
    requires
        handler.wf(),
    ensures
        !handler.closed ==> handler.expects(HandlerEventView::Request(request)),
        !handler.closed ==> handler.expects(HandlerEventView::RequestsClosed),
        handler.busy > 0 ==> handler.expects(
            HandlerEventView::ExecutorReturned(
                TokioExecutorView { login: handler.login, phase: ExecutePhaseView::Idle },
            ),
        ),
{
}

} // verus!
