//! Carrying out one request at a time, with patience.
//!
//! A [`TokioExecutor`] makes the calls that a request needs and sends the answer to the user
//! interface. Where the server says that there were too many requests, it waits and starts over.

use vstd::pervasive::unreached;
use vstd::prelude::*;

use crate::error::{ApiError, ApiErrorView, TOO_MANY_REQUESTS};
use crate::login::{LoginDetails, LoginDetailsView};
use crate::request::{
    error_in, law_errors_are_passed_on, law_event_answers_request, text_of, ApiCall, ApiCallView,
    ApiReply, ApiReplyView, Execution, ExecutionView, NetworkEvent, NetworkEventView, Next,
    NextView, Request, RequestView, Stage,
};

verus! {

/// How long to wait after too many requests, in seconds.
pub const RETRY_SECONDS: u64 = 5;

/// How far an executor is with its request.
#[derive(Debug)]
pub enum ExecutePhase {
    /// There is no request.
    Idle,
    /// Calls are being made.
    Executing(Execution),
    /// There were too many requests. The event says so.
    Throttled { request: Request, event: NetworkEvent },
    /// Time has to pass before the request is started again.
    Waiting { request: Request },
    /// The event is being sent to the user interface.
    Sending,
}

/// What an [`ExecutePhase`] is about.
pub enum ExecutePhaseView {
    Idle,
    Executing(ExecutionView),
    Throttled { request: RequestView, event: NetworkEventView },
    Waiting { request: RequestView },
    Sending,
}

impl View for ExecutePhase {
    type V = ExecutePhaseView;

    open spec fn view(&self) -> ExecutePhaseView {
        match self {
            ExecutePhase::Idle => ExecutePhaseView::Idle,
            ExecutePhase::Executing(execution) => ExecutePhaseView::Executing(execution@),
            ExecutePhase::Throttled { request, event } => ExecutePhaseView::Throttled {
                request: request@,
                event: event@,
            },
            ExecutePhase::Waiting { request } => ExecutePhaseView::Waiting { request: request@ },
            ExecutePhase::Sending => ExecutePhaseView::Sending,
        }
    }
}

/// What an executor wants done next.
#[derive(Debug)]
pub enum ExecuteStep {
    /// Give a token to the token storage if there is one, then make a call.
    Call { return_token: Option<String>, call: ApiCall },
    /// Start a timer.
    StartTimer { seconds: u64 },
    /// Wait for the timer.
    Wait,
    /// Give a token to the token storage if there is one. Write the terrain of the event to the
    /// cache where `store_terrain` says so. Then send the event to the user interface.
    Send { return_token: Option<String>, event: NetworkEvent, store_terrain: bool },
    /// Wake up the user interface where `wake` says so, then give the executor back.
    Return { wake: bool },
}

/// What an [`ExecuteStep`] is about.
pub enum ExecuteStepView {
    Call { return_token: Option<Seq<char>>, call: ApiCallView },
    StartTimer { seconds: u64 },
    Wait,
    Send { return_token: Option<Seq<char>>, event: NetworkEventView, store_terrain: bool },
    Return { wake: bool },
}

impl View for ExecuteStep {
    type V = ExecuteStepView;

    open spec fn view(&self) -> ExecuteStepView {
        match self {
            ExecuteStep::Call { return_token, call } => ExecuteStepView::Call {
                return_token: text_of(*return_token),
                call: call@,
            },
            ExecuteStep::StartTimer { seconds } => ExecuteStepView::StartTimer {
                seconds: *seconds,
            },
            ExecuteStep::Wait => ExecuteStepView::Wait,
            ExecuteStep::Send { return_token, event, store_terrain } => ExecuteStepView::Send {
                return_token: text_of(*return_token),
                event: event@,
                store_terrain: *store_terrain,
            },
            ExecuteStep::Return { wake } => ExecuteStepView::Return { wake: *wake },
        }
    }
}

/// How an [`ExecuteStep`] went.
#[derive(Debug)]
pub enum ExecuteReply {
    /// What came of a call.
    Called(ApiReply),
    /// Whether a timer could be started.
    TimerStarted(bool),
    /// The timer ran out, or failed.
    Waited,
    /// Whether the user interface got the event.
    Sent(bool),
}

/// What an [`ExecuteReply`] says.
pub enum ExecuteReplyView {
    Called(ApiReplyView),
    TimerStarted(bool),
    Waited,
    Sent(bool),
}

impl View for ExecuteReply {
    type V = ExecuteReplyView;

    open spec fn view(&self) -> ExecuteReplyView {
        match self {
            ExecuteReply::Called(reply) => ExecuteReplyView::Called(reply@),
            ExecuteReply::TimerStarted(ok) => ExecuteReplyView::TimerStarted(*ok),
            ExecuteReply::Waited => ExecuteReplyView::Waited,
            ExecuteReply::Sent(ok) => ExecuteReplyView::Sent(*ok),
        }
    }
}

/// Carries out one request at a time.
pub struct TokioExecutor {
    login: LoginDetails,
    phase: ExecutePhase,
}

/// The state of a [`TokioExecutor`].
pub struct TokioExecutorView {
    /// The details to log in with where there is no token.
    pub login: LoginDetailsView,
    pub phase: ExecutePhaseView,
}

impl View for TokioExecutor {
    type V = TokioExecutorView;

    closed spec fn view(&self) -> TokioExecutorView {
        TokioExecutorView { login: self.login@, phase: self.phase@ }
    }
}

/// The event says that there were too many requests.
pub open spec fn too_many(event: NetworkEventView) -> bool {
    event.error() == Some(ApiErrorView::StatusCode(TOO_MANY_REQUESTS))
}

impl TokioExecutorView {
    /// Whether a new request can be carried out.
    pub open spec fn idle(self) -> bool {
        self.phase is Idle
    }

    /// What holds of every executor between two steps.
    pub open spec fn wf(self) -> bool {
        match self.phase {
            ExecutePhaseView::Executing(execution) => execution.wf() && execution.login
                == self.login,
            ExecutePhaseView::Throttled { request, event } => too_many(event) && event.answers(
                request,
            ),
            _ => true,
        }
    }

    /// The same executor in another phase, and what it wants done.
    pub open spec fn goes(self, phase: ExecutePhaseView, step: ExecuteStepView) -> (
        TokioExecutorView,
        ExecuteStepView,
    ) {
        (TokioExecutorView { phase, ..self }, step)
    }

    /// A request is started with its first call.
    pub open spec fn execute_request(self, request: RequestView) -> (
        TokioExecutorView,
        ExecuteStepView,
    ) {
        let execution = ExecutionView { request, login: self.login, stage: Stage::First };
        self.goes(
            ExecutePhaseView::Executing(execution),
            ExecuteStepView::Call { return_token: None, call: execution.call() },
        )
    }

    /// The calls go on, or they are over. Then the event is sent, unless there were too many
    /// requests.
    pub open spec fn called(self, next: NextView) -> (TokioExecutorView, ExecuteStepView) {
        match next {
            NextView::Call { execution, return_token } => self.goes(
                ExecutePhaseView::Executing(execution),
                ExecuteStepView::Call { return_token, call: execution.call() },
            ),
            NextView::Done { request, return_token, event, store_terrain } => if too_many(event) {
                self.goes(
                    ExecutePhaseView::Throttled { request, event },
                    ExecuteStepView::StartTimer { seconds: RETRY_SECONDS },
                )
            } else {
                self.goes(
                    ExecutePhaseView::Sending,
                    ExecuteStepView::Send { return_token, event, store_terrain },
                )
            },
        }
    }

    /// Whether a reply can be the next one.
    pub open spec fn expects(self, reply: ExecuteReplyView) -> bool {
        match self.phase {
            ExecutePhaseView::Idle => false,
            ExecutePhaseView::Executing(execution) => reply matches ExecuteReplyView::Called(
                reply,
            ) && execution.expects(reply),
            ExecutePhaseView::Throttled { .. } => reply is TimerStarted,
            ExecutePhaseView::Waiting { .. } => reply is Waited,
            ExecutePhaseView::Sending => reply is Sent,
        }
    }

    /// What follows a reply.
    pub open spec fn resume(self, reply: ExecuteReplyView) -> (TokioExecutorView, ExecuteStepView) {
        match (self.phase, reply) {
            (ExecutePhaseView::Executing(execution), ExecuteReplyView::Called(reply)) =>
                self.called(execution.next(reply)),
            (ExecutePhaseView::Throttled { request, .. }, ExecuteReplyView::TimerStarted(true)) =>
                self.goes(ExecutePhaseView::Waiting { request }, ExecuteStepView::Wait),
            // Without a timer the user interface is told that there were too many requests.
            (ExecutePhaseView::Throttled { event, .. }, ExecuteReplyView::TimerStarted(false)) =>
                self.goes(
                    ExecutePhaseView::Sending,
                    ExecuteStepView::Send { return_token: None, event, store_terrain: false },
                ),
            (ExecutePhaseView::Waiting { request }, _) => self.execute_request(request),
            (ExecutePhaseView::Sending, ExecuteReplyView::Sent(ok)) => self.goes(
                ExecutePhaseView::Idle,
                ExecuteStepView::Return { wake: ok },
            ),
            _ => arbitrary(),
        }
    }
}

impl TokioExecutor {
    /// An executor without a request.
    pub fn new(login: LoginDetails) -> (res: TokioExecutor)
        ensures
            res@ == (TokioExecutorView { login: login@, phase: ExecutePhaseView::Idle }),
    {
        TokioExecutor { login, phase: ExecutePhase::Idle }
    }

    /// Starts to carry out a request.
    pub fn execute_request(self, request: Request) -> (res: (TokioExecutor, ExecuteStep))
        requires
            self@.idle(),
        ensures
            res.0@.wf(),
            (res.0@, res.1@) == self@.execute_request(request@),
    {
        let (execution, call) = request.exec_with(&self.login);
        (
            TokioExecutor { login: self.login, phase: ExecutePhase::Executing(execution) },
            ExecuteStep::Call { return_token: None, call },
        )
    }

    /// Carries on after a reply to the last step.
    pub fn resume(self, reply: ExecuteReply) -> (res: (TokioExecutor, ExecuteStep))
        requires
            self@.wf(),
            self@.expects(reply@),
        ensures
            res.0@.wf(),
            (res.0@, res.1@) == self@.resume(reply@),
    {
        let TokioExecutor { login, phase } = self;
        match (phase, reply) {
            (ExecutePhase::Executing(execution), ExecuteReply::Called(reply)) => {
                match execution.resume(reply) {
                    Next::Call { execution, return_token, call } => (
                        TokioExecutor { login, phase: ExecutePhase::Executing(execution) },
                        ExecuteStep::Call { return_token, call },
                    ),
                    Next::Done { request, return_token, event, store_terrain } => {
                        let throttled = match event.error() {
                            Some(ApiError::StatusCode(status)) => *status == TOO_MANY_REQUESTS,
                            _ => false,
                        };
                        if throttled {
                            (
                                TokioExecutor {
                                    login,
                                    phase: ExecutePhase::Throttled { request, event },
                                },
                                ExecuteStep::StartTimer { seconds: RETRY_SECONDS },
                            )
                        } else {
                            (
                                TokioExecutor { login, phase: ExecutePhase::Sending },
                                ExecuteStep::Send { return_token, event, store_terrain },
                            )
                        }
                    },
                }
            },
            (ExecutePhase::Throttled { request, event }, ExecuteReply::TimerStarted(ok)) => {
                if ok {
                    (
                        TokioExecutor { login, phase: ExecutePhase::Waiting { request } },
                        ExecuteStep::Wait,
                    )
                } else {
                    (
                        TokioExecutor { login, phase: ExecutePhase::Sending },
                        ExecuteStep::Send { return_token: None, event, store_terrain: false },
                    )
                }
            },
            (ExecutePhase::Waiting { request }, _) => {
                let executor = TokioExecutor { login, phase: ExecutePhase::Idle };
                executor.execute_request(request)
            },
            (ExecutePhase::Sending, ExecuteReply::Sent(ok)) => (
                TokioExecutor { login, phase: ExecutePhase::Idle },
                ExecuteStep::Return { wake: ok },
            ),
            _ => unreached(),
        }
    }
}

/// The request that an executor is at, as long as it is not answered.
pub open spec fn request_of(executor: TokioExecutorView) -> Option<RequestView> {
    match executor.phase {
        ExecutePhaseView::Executing(execution) => Some(execution.request),
        ExecutePhaseView::Throttled { request, .. } => Some(request),
        ExecutePhaseView::Waiting { request } => Some(request),
        _ => None,
    }
}

/// A request stays the same, however often it is started over, until an event is sent. That event
/// is one that answers it.
pub proof fn law_requests_are_answered(executor: TokioExecutorView, reply: ExecuteReplyView)
    requires
        executor.wf(),
        executor.expects(reply),
    ensures
        request_of(executor) matches Some(request) ==> match executor.resume(reply).1 {
            ExecuteStepView::Send { event, .. } => event.answers(request),
            ExecuteStepView::Return { .. } => false,
            _ => request_of(executor.resume(reply).0) == Some(request),
        },
        executor.resume(reply).0.login == executor.login,
        executor.resume(reply).0.wf(),
{
}

/// The user interface hears of too many requests only where no timer could be started. Wherever the
/// server speaks of too many requests, a timer is asked for, and once it ran out the request starts
/// over.
pub proof fn law_throttled_requests_wait(executor: TokioExecutorView, reply: ExecuteReplyView)
    requires
        executor.wf(),
        executor.expects(reply),
    ensures
        executor.resume(reply).1 matches ExecuteStepView::Send { event, .. } ==> (too_many(event)
            <==> executor.phase is Throttled),
        executor.resume(reply).1 is Send && executor.phase is Throttled ==> reply
            == ExecuteReplyView::TimerStarted(false),
        executor.resume(reply).0.phase is Throttled <==> executor.resume(reply).1
            == (ExecuteStepView::StartTimer { seconds: RETRY_SECONDS }),
        executor.phase matches ExecutePhaseView::Waiting { request } ==> executor.resume(reply)
            == executor.execute_request(request),
{
}

/// An executor is given back exactly when it is free again, which is after its event was sent or
/// could not be. The user interface is woken up exactly when it got the event.
pub proof fn law_executors_are_given_back(executor: TokioExecutorView, reply: ExecuteReplyView)
    requires
        executor.wf(),
        executor.expects(reply),
    ensures
        executor.resume(reply).0.idle() <==> executor.resume(reply).1 is Return,
        executor.resume(reply).1 is Return <==> executor.phase is Sending,
        executor.resume(reply).1 matches ExecuteStepView::Return { wake } ==> reply
            == ExecuteReplyView::Sent(wake),
        executor.resume(reply).1 is Send <==> executor.resume(reply).0.phase is Sending,
{
}

/// How a request is carried out: each state and step follows from the one before and a reply.
pub open spec fn follows(
    states: Seq<(TokioExecutorView, ExecuteStepView)>,
    replies: Seq<ExecuteReplyView>,
) -> bool {
    &&& states.len() == replies.len() + 1
    &&& forall|i: int|
        0 <= i < replies.len() ==> (#[trigger] states[i]).0.expects(replies[i]) && states[i + 1]
            == states[i].0.resume(replies[i])
}

/// The event that a reply ends a try with, if it does.
pub open spec fn outcome_of(executor: TokioExecutorView, reply: ExecuteReplyView) -> Seq<
    NetworkEventView,
> {
    match (executor.phase, reply) {
        (ExecutePhaseView::Executing(execution), ExecuteReplyView::Called(reply)) =>
            match execution.next(reply) {
                NextView::Done { event, .. } => seq![event],
                NextView::Call { .. } => seq![],
            },
        _ => seq![],
    }
}

/// The events that the tries ended with, in order, up to a state.
pub open spec fn outcomes(
    states: Seq<(TokioExecutorView, ExecuteStepView)>,
    replies: Seq<ExecuteReplyView>,
    at: int,
) -> Seq<NetworkEventView>
    decreases at,
{
    if at <= 0 {
        seq![]
    } else {
        outcomes(states, replies, at - 1) + outcome_of(states[at - 1].0, replies[at - 1])
    }
}

/// The events that were sent to the user interface, in order, up to a step and with it.
pub open spec fn events_sent(
    states: Seq<(TokioExecutorView, ExecuteStepView)>,
    at: int,
) -> Seq<NetworkEventView>
    decreases at + 1,
{
    if at < 0 {
        seq![]
    } else {
        events_sent(states, at - 1) + match states[at].1 {
            ExecuteStepView::Send { event, .. } => seq![event],
            _ => seq![],
        }
    }
}

/// What holds of the tries of a request up to a state.
spec fn trying(
    states: Seq<(TokioExecutorView, ExecuteStepView)>,
    replies: Seq<ExecuteReplyView>,
    at: int,
    request: RequestView,
) -> bool {
    let ended = outcomes(states, replies, at);
    let sent = events_sent(states, at);
    &&& states[at].0.wf()
    &&& forall|i: int| 0 <= i < ended.len() - 1 ==> too_many(#[trigger] ended[i])
    &&& match states[at].0.phase {
        ExecutePhaseView::Idle => {
            &&& ended.len() > 0
            &&& sent == seq![ended.last()]
            &&& ended.last().answers(request)
            &&& states[at].1 is Return
        },
        ExecutePhaseView::Executing(execution) => {
            &&& execution.request == request
            &&& sent.len() == 0
            &&& ended.len() > 0 ==> too_many(ended.last())
        },
        ExecutePhaseView::Throttled { request: again, event } => {
            &&& again == request
            &&& sent.len() == 0
            &&& ended.len() > 0
            &&& ended.last() == event
        },
        ExecutePhaseView::Waiting { request: again } => {
            &&& again == request
            &&& sent.len() == 0
            &&& ended.len() > 0
            &&& too_many(ended.last())
        },
        ExecutePhaseView::Sending => {
            &&& ended.len() > 0
            &&& sent == seq![ended.last()]
            &&& ended.last().answers(request)
        },
    }
}

proof fn lemma_trying(
    executor: TokioExecutorView,
    request: RequestView,
    states: Seq<(TokioExecutorView, ExecuteStepView)>,
    replies: Seq<ExecuteReplyView>,
    at: int,
)
    requires
        executor.idle(),
        follows(states, replies),
        states[0] == executor.execute_request(request),
        0 <= at < states.len(),
    ensures
        trying(states, replies, at, request),
    decreases at,
{
    reveal_with_fuel(outcomes, 2);
    reveal_with_fuel(events_sent, 2);
    if at > 0 {
        lemma_trying(executor, request, states, replies, at - 1);
        let before = states[at - 1].0;
        let reply = replies[at - 1];
        assert(before.expects(reply));
        law_requests_are_answered(before, reply);
        let ended = outcomes(states, replies, at - 1);
        let new = outcome_of(before, reply);
        if new.len() == 0 {
            assert(outcomes(states, replies, at) =~= ended);
        } else {
            assert(outcomes(states, replies, at) =~= ended.push(new[0]));
        }
        let sent = events_sent(states, at - 1);
        if let ExecuteStepView::Send { event, .. } = states[at].1 {
            assert(events_sent(states, at) =~= sent.push(event));
            assert(sent =~= seq![]);
        } else {
            assert(events_sent(states, at) =~= sent);
        }
    }
}

/// A request over any number of tries. Every try but the last ended with too many requests. Exactly
/// one event is sent, which is that of the last try and answers the request. Then the executor is
/// free again and is given back, once, and the user interface is woken up if it got the event.
pub proof fn law_one_event_for_all_tries(
    executor: TokioExecutorView,
    request: RequestView,
    states: Seq<(TokioExecutorView, ExecuteStepView)>,
    replies: Seq<ExecuteReplyView>,
)
    requires
        executor.idle(),
        follows(states, replies),
        states[0] == executor.execute_request(request),
        states.last().0.idle(),
    ensures
        ({
            let ended = outcomes(states, replies, replies.len() as int);
            &&& ended.len() > 0
            &&& forall|i: int| 0 <= i < ended.len() - 1 ==> too_many(#[trigger] ended[i])
            &&& events_sent(states, replies.len() as int) == seq![ended.last()]
            &&& ended.last().answers(request)
        }),
        states.last().1 matches ExecuteStepView::Return { wake } && replies.last()
            == ExecuteReplyView::Sent(wake),
        forall|i: int|
            0 <= i < replies.len() ==> !((#[trigger] states[i]).1 is Return) && !states[i].0.idle(),
        states.last().0 == (TokioExecutorView { phase: ExecutePhaseView::Idle, ..executor }),
{
    let n = replies.len() as int;
    lemma_trying(executor, request, states, replies, n);
    assert(n > 0);
    lemma_trying(executor, request, states, replies, n - 1);
    assert(states[n - 1].0.expects(replies[n - 1]));
    law_executors_are_given_back(states[n - 1].0, replies[n - 1]);
    lemma_login_stays(executor, request, states, replies, n);
    assert forall|i: int| 0 <= i < replies.len() implies !((#[trigger] states[i]).1 is Return)
        && !states[i].0.idle() by {
        assert(states[i].0.expects(replies[i]));
        if i > 0 {
            lemma_trying(executor, request, states, replies, i - 1);
            assert(states[i - 1].0.expects(replies[i - 1]));
            law_executors_are_given_back(states[i - 1].0, replies[i - 1]);
        }
    }
}

proof fn lemma_login_stays(
    executor: TokioExecutorView,
    request: RequestView,
    states: Seq<(TokioExecutorView, ExecuteStepView)>,
    replies: Seq<ExecuteReplyView>,
    at: int,
)
    requires
        executor.idle(),
        follows(states, replies),
        states[0] == executor.execute_request(request),
        0 <= at < states.len(),
    ensures
        states[at].0.login == executor.login,
    decreases at,
{
    if at > 0 {
        lemma_login_stays(executor, request, states, replies, at - 1);
        lemma_trying(executor, request, states, replies, at - 1);
        assert(states[at - 1].0.expects(replies[at - 1]));
        law_requests_are_answered(states[at - 1].0, replies[at - 1]);
    }
}

/// A new request is started with its first call, with the login details of the executor for where
/// there is no token.
pub proof fn law_requests_are_started_as_they_are(
    executor: TokioExecutorView,
    request: RequestView,
)
    requires
        executor.idle(),
    ensures
        request_of(executor.execute_request(request).0) == Some(request),
        executor.execute_request(request).0.login == executor.login,
        executor.execute_request(request).0.phase matches ExecutePhaseView::Executing(execution)
            && execution.request == request && execution.login == executor.login && execution.stage
            == Stage::First && execution.wf() && executor.execute_request(request).1 == (
        ExecuteStepView::Call { return_token: None, call: execution.call() }),
{
}

/// Whenever the server says that there were too many requests, to whatever call, nobody is told.
/// Instead a timer of five seconds is asked for, and the request is kept.
pub proof fn law_too_many_requests_are_waited_out(
    executor: TokioExecutorView,
    execution: ExecutionView,
    reply: ApiReplyView,
)
    requires
        executor.wf(),
        executor.phase == ExecutePhaseView::Executing(execution),
        execution.expects(reply),
        error_in(reply) == Some(ApiErrorView::StatusCode(429)),
    ensures
        executor.resume(ExecuteReplyView::Called(reply)).1 == (ExecuteStepView::StartTimer {
            seconds: 5,
        }),
        executor.resume(ExecuteReplyView::Called(reply)).0.phase
            matches ExecutePhaseView::Throttled { request, event } && request == execution.request
            && event.error() == error_in(reply) && event.answers(execution.request),
{
    law_errors_are_passed_on(execution, reply);
    law_event_answers_request(execution, reply);
}

/// Anything else that the server says is acted upon at once: the next call is made, or the event
/// that answers the request is sent, with the token to keep and the terrain to write if there are
/// any.
pub proof fn law_other_replies_are_acted_upon(
    executor: TokioExecutorView,
    execution: ExecutionView,
    reply: ApiReplyView,
)
    requires
        executor.wf(),
        executor.phase == ExecutePhaseView::Executing(execution),
        execution.expects(reply),
        error_in(reply) != Some(ApiErrorView::StatusCode(429)),
    ensures
        execution.next(reply) matches NextView::Call { execution: after, return_token: token } ==> {
            &&& executor.resume(ExecuteReplyView::Called(reply)).0.phase
                == ExecutePhaseView::Executing(after)
            &&& executor.resume(ExecuteReplyView::Called(reply)).1 == (ExecuteStepView::Call {
                return_token: token,
                call: after.call(),
            })
        },
        execution.next(reply) matches NextView::Done {
            event: answer,
            return_token: token,
            store_terrain: store,
            ..
        } ==> {
            &&& executor.resume(ExecuteReplyView::Called(reply)).0.phase is Sending
            &&& executor.resume(ExecuteReplyView::Called(reply)).1 == (ExecuteStepView::Send {
                return_token: token,
                event: answer,
                store_terrain: store,
            })
        },
{
    law_errors_are_passed_on(execution, reply);
}

/// A timer that was started is waited for, and then the request starts over just as it was. Where no
/// timer can be started, the event that was held back is sent after all.
pub proof fn law_waiting_ends(executor: TokioExecutorView, started: bool)
    requires
        executor.wf(),
    ensures
        executor.phase matches ExecutePhaseView::Throttled { request: held, event: told } ==> {
            let next = executor.resume(ExecuteReplyView::TimerStarted(started));
            if started {
                next.1 == ExecuteStepView::Wait && next.0.phase == (ExecutePhaseView::Waiting {
                    request: held,
                })
            } else {
                next.1 == (ExecuteStepView::Send {
                    return_token: None,
                    event: told,
                    store_terrain: false,
                }) && next.0.phase is Sending
            }
        },
        executor.phase matches ExecutePhaseView::Waiting { request: held } ==> {
            let next = executor.resume(ExecuteReplyView::Waited);
            &&& next.0.phase matches ExecutePhaseView::Executing(execution) && execution.request
                == held && execution.login == executor.login && execution.stage == Stage::First
            &&& next.1 matches ExecuteStepView::Call { return_token: None, call } && next.0.phase
                matches ExecutePhaseView::Executing(execution) && call == execution.call()
        },
        executor.phase is Sending ==> executor.resume(ExecuteReplyView::Sent(started)).1 == (
        ExecuteStepView::Return { wake: started }) && executor.resume(
            ExecuteReplyView::Sent(started),
        ).0.idle(),
{
}

/// Every outcome of a step can be handled.
pub proof fn law_step_outcomes_can_be_handled(executor: TokioExecutorView, ok: bool)
    ensures
        executor.phase is Throttled ==> executor.expects(ExecuteReplyView::TimerStarted(ok)),
        executor.phase is Waiting ==> executor.expects(ExecuteReplyView::Waited),
        executor.phase is Sending ==> executor.expects(ExecuteReplyView::Sent(ok)),
        executor.phase matches ExecutePhaseView::Executing(execution) ==> forall|
            reply: ApiReplyView,
        | #[trigger]
            execution.expects(reply) ==> executor.expects(ExecuteReplyView::Called(reply)),
{
}

} // verus!
