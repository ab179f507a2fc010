//! The user interface's side of the network thread.
//!
//! A [`Handler`] passes requests on to a thread, and starts that thread when there is none or when
//! it turns out to be gone. What the old thread had still to tell is told first by the new one.

use vstd::pervasive::unreached;
use vstd::prelude::*;

use crate::error::NotLoggedIn;
use crate::login::{LoginDetails, LoginDetailsView};
use crate::request::{NetworkEvent, NetworkEventView, Request, RequestView};

verus! {

/// Why nothing was received from the thread.
#[derive(Clone, Copy, Debug, PartialEq, Eq, Structural)]
pub enum TryRecvError {
    /// There is nothing at the moment.
    Empty,
    /// The thread is gone.
    Disconnected,
}

/// What some events tell.
pub open spec fn events_view(events: Seq<NetworkEvent>) -> Seq<NetworkEventView> {
    events.map_values(|event: NetworkEvent| event@)
}

/// The request in an option.
pub open spec fn request_view(request: Option<Request>) -> Option<RequestView> {
    match request {
        Some(request) => Some(request@),
        None => None,
    }
}

/// What was received, if anything.
pub open spec fn received_view(
    received: Result<NetworkEvent, TryRecvError>,
) -> Result<NetworkEventView, TryRecvError> {
    match received {
        Ok(event) => Ok(event@),
        Err(error) => Err(error),
    }
}

/// How far the sending of a request is.
#[derive(Debug)]
pub enum SendPhase {
    /// There is no request.
    Idle,
    /// The request is being passed on to a thread that may be gone.
    Trying,
    /// What an old thread had still to tell is being collected. A request may wait.
    Draining { request: Option<Request>, queued: Vec<NetworkEvent> },
    /// A thread is being started. A request may wait.
    Starting { request: Option<Request> },
    /// The request is being passed on to a thread that was just started.
    Delivering,
}

/// What a [`SendPhase`] is about.
pub enum SendPhaseView {
    Idle,
    Trying,
    Draining { request: Option<RequestView>, queued: Seq<NetworkEventView> },
    Starting { request: Option<RequestView> },
    Delivering,
}

impl View for SendPhase {
    type V = SendPhaseView;

    open spec fn view(&self) -> SendPhaseView {
        match self {
            SendPhase::Idle => SendPhaseView::Idle,
            SendPhase::Trying => SendPhaseView::Trying,
            SendPhase::Draining { request, queued } => SendPhaseView::Draining {
                request: request_view(*request),
                queued: events_view(queued@),
            },
            SendPhase::Starting { request } => SendPhaseView::Starting {
                request: request_view(*request),
            },
            SendPhase::Delivering => SendPhaseView::Delivering,
        }
    }
}

/// What to do in order to send a request.
#[derive(Debug)]
pub enum SendStep {
    /// Try to pass a request on to the thread.
    TrySend(Request),
    /// Try to receive an event from the old thread.
    TryReceive,
    /// Let go of the old thread if there is one, and start another with these login details. These
    /// events are the first that it seems to send.
    Start { login: LoginDetails, queued: Vec<NetworkEvent> },
    /// Pass a request on to the thread that was just started.
    Deliver(Request),
    /// Nothing: this is the outcome.
    Finished(Result<(), NotLoggedIn>),
}

/// What a [`SendStep`] is about. The outcome is whether somebody has logged in.
pub enum SendStepView {
    TrySend(RequestView),
    TryReceive,
    Start { login: LoginDetailsView, queued: Seq<NetworkEventView> },
    Deliver(RequestView),
    Finished(bool),
}

impl View for SendStep {
    type V = SendStepView;

    open spec fn view(&self) -> SendStepView {
        match self {
            SendStep::TrySend(request) => SendStepView::TrySend(request@),
            SendStep::TryReceive => SendStepView::TryReceive,
            SendStep::Start { login, queued } => SendStepView::Start {
                login: login@,
                queued: events_view(queued@),
            },
            SendStep::Deliver(request) => SendStepView::Deliver(request@),
            SendStep::Finished(result) => SendStepView::Finished(result is Ok),
        }
    }
}

/// How a [`SendStep`] went.
#[derive(Debug)]
pub enum SendReply {
    /// The request was passed on, or comes back because the thread is gone.
    Tried(Result<(), Request>),
    /// What was received from the old thread.
    Received(Result<NetworkEvent, TryRecvError>),
    /// A thread was started.
    Started,
    /// The request was passed on.
    Delivered,
}

/// What a [`SendReply`] says. A request that comes back was not passed on.
pub enum SendReplyView {
    Tried(Option<RequestView>),
    Received(Result<NetworkEventView, TryRecvError>),
    Started,
    Delivered,
}

impl View for SendReply {
    type V = SendReplyView;

    open spec fn view(&self) -> SendReplyView {
        match self {
            SendReply::Tried(Ok(())) => SendReplyView::Tried(None),
            SendReply::Tried(Err(request)) => SendReplyView::Tried(Some(request@)),
            SendReply::Received(received) => SendReplyView::Received(received_view(*received)),
            SendReply::Started => SendReplyView::Started,
            SendReply::Delivered => SendReplyView::Delivered,
        }
    }
}

/// Passes requests on to a thread.
#[derive(Debug)]
pub struct Handler {
    running: bool,
    login_info: Option<LoginDetails>,
    phase: SendPhase,
}

/// The state of a [`Handler`].
pub struct HandlerView {
    /// Whether there is a thread, as far as is known.
    pub running: bool,
    /// The details of the last login, for the next thread to log in with.
    pub login_info: Option<LoginDetailsView>,
    pub phase: SendPhaseView,
}

impl View for Handler {
    type V = HandlerView;

    closed spec fn view(&self) -> HandlerView {
        HandlerView {
            running: self.running,
            login_info: match self.login_info {
                Some(details) => Some(details@),
                None => None,
            },
            phase: self.phase@,
        }
    }
}

impl HandlerView {
    /// Whether no request is being sent.
    pub open spec fn idle(self) -> bool {
        self.phase is Idle
    }

    /// What holds of every handler between two steps: there is a thread only after a login.
    pub open spec fn wf(self) -> bool {
        &&& self.running ==> self.login_info is Some
        &&& match self.phase {
            SendPhaseView::Idle => true,
            SendPhaseView::Trying => self.running,
            SendPhaseView::Draining { .. } => !self.running && self.login_info is Some,
            SendPhaseView::Starting { .. } => !self.running && self.login_info is Some,
            SendPhaseView::Delivering => self.running,
        }
    }

    /// The same handler in another phase, and what to do.
    pub open spec fn goes(self, phase: SendPhaseView, step: SendStepView) -> (
        HandlerView,
        SendStepView,
    ) {
        (HandlerView { phase, ..self }, step)
    }

    /// The sending of a request is over.
    pub open spec fn finish(self, ok: bool) -> (HandlerView, SendStepView) {
        self.goes(SendPhaseView::Idle, SendStepView::Finished(ok))
    }

    /// A thread is started, for which there must be login details. What an old thread had still to
    /// tell is collected first.
    pub open spec fn start_handler(self, request: Option<RequestView>) -> (
        HandlerView,
        SendStepView,
    ) {
        match self.login_info {
            None => self.finish(false),
            Some(login) => if self.running {
                (HandlerView { running: false, ..self }).goes(
                    SendPhaseView::Draining { request, queued: seq![] },
                    SendStepView::TryReceive,
                )
            } else {
                self.goes(
                    SendPhaseView::Starting { request },
                    SendStepView::Start { login, queued: seq![] },
                )
            },
        }
    }

    /// A request that could not be passed on makes a thread start. A login is not passed on to that
    /// thread: it is started with the details.
    pub open spec fn retry(self, request: RequestView) -> (HandlerView, SendStepView) {
        match request {
            RequestView::Login { details } => (HandlerView {
                login_info: Some(details),
                ..self
            }).start_handler(None),
            _ => self.start_handler(Some(request)),
        }
    }

    /// What follows a new request.
    pub open spec fn send(self, request: RequestView) -> (HandlerView, SendStepView) {
        if self.running {
            self.goes(SendPhaseView::Trying, SendStepView::TrySend(request))
        } else {
            self.retry(request)
        }
    }

    /// Whether a reply can be the next one.
    pub open spec fn expects(self, reply: SendReplyView) -> bool {
        match self.phase {
            SendPhaseView::Idle => false,
            SendPhaseView::Trying => reply is Tried,
            SendPhaseView::Draining { .. } => reply is Received,
            SendPhaseView::Starting { .. } => reply is Started,
            SendPhaseView::Delivering => reply is Delivered,
        }
    }

    /// What follows a reply.
    pub open spec fn resume(self, reply: SendReplyView) -> (HandlerView, SendStepView) {
        match (self.phase, reply) {
            (SendPhaseView::Trying, SendReplyView::Tried(None)) => self.finish(true),
            (SendPhaseView::Trying, SendReplyView::Tried(Some(request))) => self.retry(request),
            (SendPhaseView::Draining { request, queued }, SendReplyView::Received(Ok(event))) =>
                self.goes(
                    SendPhaseView::Draining { request, queued: queued.push(event) },
                    SendStepView::TryReceive,
                ),
            (SendPhaseView::Draining { request, queued }, SendReplyView::Received(Err(_))) =>
                self.goes(
                    SendPhaseView::Starting { request },
                    SendStepView::Start { login: self.login_info->0, queued },
                ),
            (SendPhaseView::Starting { request: Some(request) }, _) => (HandlerView {
                running: true,
                ..self
            }).goes(SendPhaseView::Delivering, SendStepView::Deliver(request)),
            (SendPhaseView::Starting { request: None }, _) => (HandlerView {
                running: true,
                ..self
            }).finish(true),
            (SendPhaseView::Delivering, _) => self.finish(true),
            _ => arbitrary(),
        }
    }

    /// What follows an attempt to receive an event from the thread, made where there is one.
    pub open spec fn poll(self, received: Option<Result<NetworkEventView, TryRecvError>>) -> (
        HandlerView,
        Option<NetworkEventView>,
    ) {
        match received {
            Some(Ok(event)) => (self, Some(event)),
            Some(Err(TryRecvError::Disconnected)) => (
                HandlerView { running: false, ..self },
                None,
            ),
            _ => (self, None),
        }
    }
}

impl Handler {
    /// A handler without a thread, before any login.
    pub fn new() -> (res: Handler)
        ensures
            res@ == (HandlerView { running: false, login_info: None, phase: SendPhaseView::Idle }),
            res@.wf(),
    {
        Handler { running: false, login_info: None, phase: SendPhase::Idle }
    }

    /// Whether there is a thread, as far as is known.
    pub fn is_running(&self) -> (res: bool)
        ensures
            res == self@.running,
    {
        self.running
    }

    fn start_handler(&mut self, request: Option<Request>) -> (res: SendStep)
        ensures
            (final(self)@, res@) == old(self)@.start_handler(request_view(request)),
    {
        let login = match &self.login_info {
            Some(details) => details.clone(),
            None => {
                self.phase = SendPhase::Idle;
                return SendStep::Finished(Err(NotLoggedIn));
            },
        };
        let queued: Vec<NetworkEvent> = Vec::new();
        proof {
            assert(events_view(queued@) =~= seq![]);
        }
        if self.running {
            self.running = false;
            self.phase = SendPhase::Draining { request, queued };
            SendStep::TryReceive
        } else {
            self.phase = SendPhase::Starting { request };
            SendStep::Start { login, queued }
        }
    }

    fn retry(&mut self, request: Request) -> (res: SendStep)
        ensures
            (final(self)@, res@) == old(self)@.retry(request@),
    {
        match request {
            Request::Login { details } => {
                self.login_info = Some(details);
                self.start_handler(None)
            },
            request => self.start_handler(Some(request)),
        }
    }

    /// Starts to send a request.
    pub fn send(&mut self, request: Request) -> (res: SendStep)
        requires
            old(self)@.wf(),
            old(self)@.idle(),
        ensures
            final(self)@.wf(),
            (final(self)@, res@) == old(self)@.send(request@),
    {
        if self.running {
            self.phase = SendPhase::Trying;
            SendStep::TrySend(request)
        } else {
            self.retry(request)
        }
    }

    /// Carries on after a reply to the last step.
    pub fn resume(&mut self, reply: SendReply) -> (res: SendStep)
        requires
            old(self)@.wf(),
            old(self)@.expects(reply@),
        ensures
            final(self)@.wf(),
            (final(self)@, res@) == old(self)@.resume(reply@),
    {
        let mut phase = SendPhase::Idle;
        std::mem::swap(&mut phase, &mut self.phase);
        match (phase, reply) {
            (SendPhase::Trying, SendReply::Tried(Ok(()))) => SendStep::Finished(Ok(())),
            (SendPhase::Trying, SendReply::Tried(Err(request))) => self.retry(request),
            (
                SendPhase::Draining { request, mut queued },
                SendReply::Received(Ok(event)),
            ) => {
                let ghost before = queued@;
                queued.push(event);
                proof {
                    assert(events_view(queued@) =~= events_view(before).push(event@));
                }
                self.phase = SendPhase::Draining { request, queued };
                SendStep::TryReceive
            },
            (SendPhase::Draining { request, queued }, SendReply::Received(Err(_))) => {
                self.phase = SendPhase::Starting { request };
                match &self.login_info {
                    Some(details) => SendStep::Start { login: details.clone(), queued },
                    None => unreached(),
                }
            },
            (SendPhase::Starting { request }, _) => {
                self.running = true;
                match request {
                    Some(request) => {
                        self.phase = SendPhase::Delivering;
                        SendStep::Deliver(request)
                    },
                    None => SendStep::Finished(Ok(())),
                }
            },
            (SendPhase::Delivering, _) => SendStep::Finished(Ok(())),
            _ => unreached(),
        }
    }

    /// Takes what was received from the thread, if there is one, and gives the event to handle.
    /// After this there is no thread if it turned out to be gone.
    pub fn poll(&mut self, received: Option<Result<NetworkEvent, TryRecvError>>) -> (res: Option<
        NetworkEvent,
    >)
        requires
            old(self)@.wf(),
            old(self)@.idle(),
            received is Some <==> old(self)@.running,
        ensures
            final(self)@.wf(),
            ({
                let received = match received {
                    Some(received) => Some(received_view(received)),
                    None => None,
                };
                let event = match res {
                    Some(event) => Some(event@),
                    None => None,
                };
                (final(self)@, event) == old(self)@.poll(received)
            }),
    {
        match received {
            Some(Ok(event)) => Some(event),
            Some(Err(TryRecvError::Disconnected)) => {
                self.running = false;
                None
            },
            _ => None,
        }
    }
}

/// Sending fails exactly where there is no thread, nobody has logged in, and the request is no
/// login.
pub proof fn law_login_comes_first(handler: HandlerView, request: RequestView)
    requires
        handler.wf(),
        handler.idle(),
    ensures
        handler.send(request).1 == SendStepView::Finished(false) <==> !handler.running
            && handler.login_info is None && !(request is Login),
        handler.send(request).1 == SendStepView::Finished(false) ==> handler.send(request).0
            == handler,
{
}

/// Once the sending of a request has not failed at once, it does not fail any more.
pub proof fn law_sending_goes_through(handler: HandlerView, reply: SendReplyView)
    requires
        handler.wf(),
        handler.expects(reply),
    ensures
        handler.resume(reply).0.wf(),
        handler.resume(reply).1 != SendStepView::Finished(false),
        handler.resume(reply).1 is Finished <==> handler.resume(reply).0.idle(),
        handler.resume(reply).1 is Finished ==> handler.resume(reply).0.running,
{
}

/// The handler after some events came from the old thread.
pub open spec fn drained(handler: HandlerView, events: Seq<NetworkEventView>) -> HandlerView
    decreases events.len(),
{
    if events.len() == 0 {
        handler
    } else {
        drained(handler, events.drop_last()).resume(
            SendReplyView::Received(Ok(events.last())),
        ).0
    }
}

proof fn lemma_drained(
    handler: HandlerView,
    request: Option<RequestView>,
    events: Seq<NetworkEventView>,
)
    requires
        handler.phase == (SendPhaseView::Draining { request, queued: seq![] }),
    ensures
        drained(handler, events) == (HandlerView {
            phase: SendPhaseView::Draining { request, queued: events },
            ..handler
        }),
    decreases events.len(),
{
    if events.len() > 0 {
        lemma_drained(handler, request, events.drop_last());
        assert(events.drop_last().push(events.last()) =~= events);
    } else {
        assert(events =~= seq![]);
    }
}

/// The login details that a thread is started with on account of a request: those of the request if
/// it is a login, or else those of the last login.
pub open spec fn details_for(handler: HandlerView, request: RequestView) -> LoginDetailsView {
    match request {
        RequestView::Login { details } => details,
        _ => handler.login_info->0,
    }
}

/// What is left to do for a request once a thread was started on account of it: to pass it on,
/// unless it is a login.
pub open spec fn last_step(request: RequestView) -> SendStepView {
    match request {
        RequestView::Login { .. } => SendStepView::Finished(true),
        _ => SendStepView::Deliver(request),
    }
}

/// When a thread is gone, nothing gets lost: all that it had still to tell is handed to the next
/// thread in the same order, and the request that could not be passed on is passed on after all.
pub proof fn law_restart_loses_nothing(
    handler: HandlerView,
    request: RequestView,
    events: Seq<NetworkEventView>,
    error: TryRecvError,
)
    requires
        handler.wf(),
        handler.phase is Trying,
    ensures
        ({
            let first = handler.resume(SendReplyView::Tried(Some(request)));
            let start = drained(first.0, events).resume(SendReplyView::Received(Err(error)));
            let last = start.0.resume(SendReplyView::Started);
            &&& first.1 == SendStepView::TryReceive
            &&& start.1 == SendStepView::Start {
                login: details_for(handler, request),
                queued: events,
            }
            &&& last.1 == last_step(request)
            &&& last.0.running
            &&& last.0.login_info == Some(details_for(handler, request))
        }),
{
    let first = handler.resume(SendReplyView::Tried(Some(request)));
    let waiting = if request is Login {
        None
    } else {
        Some(request)
    };
    lemma_drained(first.0, waiting, events);
}

/// Where there is no thread, one is started on account of a request, with nothing to tell yet.
pub proof fn law_requests_start_a_thread(handler: HandlerView, request: RequestView)
    requires
        handler.wf(),
        handler.idle(),
        !handler.running,
        handler.login_info is Some || request is Login,
    ensures
        ({
            let start = handler.send(request);
            let last = start.0.resume(SendReplyView::Started);
            &&& start.1 == SendStepView::Start {
                login: details_for(handler, request),
                queued: seq![],
            }
            &&& last.1 == last_step(request)
            &&& last.0.running
            &&& last.0.login_info == Some(details_for(handler, request))
        }),
{
}

/// Polling passes every event on as it is. It only ever forgets a thread, and only one that is
/// gone.
pub proof fn law_polling_forgets_lost_threads(
    handler: HandlerView,
    received: Option<Result<NetworkEventView, TryRecvError>>,
)
    requires
        handler.wf(),
        handler.idle(),
        received is Some <==> handler.running,
    ensures
        handler.poll(received).0.running <==> handler.running && received != Some(
            Err::<NetworkEventView, TryRecvError>(TryRecvError::Disconnected),
        ),
        handler.poll(received).0.login_info == handler.login_info,
        forall|event: NetworkEventView|
            handler.poll(received).1 == Some(event) <==> received == Some(
                Ok::<NetworkEventView, TryRecvError>(event),
            ),
{
}

/// Something that a handler is told: a new request, a reply to its last step, or what was received
/// from the thread.
pub enum Moment {
    Send(RequestView),
    Resume(SendReplyView),
    Poll(Option<Result<NetworkEventView, TryRecvError>>),
}

/// One step in the life of a handler. Polling asks for nothing to be done.
pub open spec fn steps(
    handler: HandlerView,
    moment: Moment,
    next: (HandlerView, Option<SendStepView>),
) -> bool {
    match moment {
        Moment::Send(request) => handler.idle() && next == (
            handler.send(request).0,
            Some(handler.send(request).1),
        ),
        Moment::Resume(reply) => handler.expects(reply) && next == (
            handler.resume(reply).0,
            Some(handler.resume(reply).1),
        ),
        Moment::Poll(received) => handler.idle() && (received is Some <==> handler.running)
            && next == (handler.poll(received).0, None::<SendStepView>),
    }
}

/// How a handler lives: each state and step follows from the one before.
pub open spec fn lives(
    states: Seq<(HandlerView, Option<SendStepView>)>,
    moments: Seq<Moment>,
) -> bool {
    &&& states.len() == moments.len() + 1
    &&& forall|i: int|
        0 <= i < moments.len() ==> steps((#[trigger] states[i]).0, moments[i], states[i + 1])
}

proof fn lemma_logins_last(
    states: Seq<(HandlerView, Option<SendStepView>)>,
    moments: Seq<Moment>,
    early: int,
    late: int,
)
    requires
        lives(states, moments),
        states[0].0.wf(),
        0 <= early <= late < states.len(),
    ensures
        states[late].0.wf(),
        states[early].0.login_info is Some ==> states[late].0.login_info is Some,
    decreases late,
{
    if late > 0 {
        lemma_logins_last(
            states,
            moments,
            if early < late {
                early
            } else {
                late - 1
            },
            late - 1,
        );
        assert(steps(states[late - 1].0, moments[late - 1], states[late]));
    }
}

/// Once a request went through, no later one fails for want of a login, whatever happens in
/// between.
pub proof fn law_one_login_is_enough(
    states: Seq<(HandlerView, Option<SendStepView>)>,
    moments: Seq<Moment>,
    early: int,
    late: int,
)
    requires
        lives(states, moments),
        states[0].0.wf(),
        0 < early < late < states.len(),
        states[early].1 == Some(SendStepView::Finished(true)),
    ensures
        states[late].1 != Some(SendStepView::Finished(false)),
{
    lemma_logins_last(states, moments, 0, early - 1);
    assert(steps(states[early - 1].0, moments[early - 1], states[early]));
    lemma_logins_last(states, moments, early, late - 1);
    assert(steps(states[late - 1].0, moments[late - 1], states[late]));
}

/// Where there is a thread, every request is passed on to it as it is, whatever it asks for, and
/// nothing else changes. Once that went through, the sending is over.
pub proof fn law_requests_are_passed_on(handler: HandlerView, request: RequestView)
    requires
        handler.wf(),
        handler.idle(),
        handler.running,
    ensures
        handler.send(request).1 == SendStepView::TrySend(request),
        handler.send(request).0.running,
        handler.send(request).0.login_info == handler.login_info,
        handler.send(request).0.resume(SendReplyView::Tried(None)) == (
            handler,
            SendStepView::Finished(true),
        ),
{
}

/// A request that was passed on to a new thread is done with, and nothing else changes.
pub proof fn law_delivering_is_the_end(handler: HandlerView)
    requires
        handler.wf(),
        handler.phase is Delivering,
    ensures
        handler.resume(SendReplyView::Delivered).1 == SendStepView::Finished(true),
        handler.resume(SendReplyView::Delivered).0.running,
        handler.resume(SendReplyView::Delivered).0.login_info == handler.login_info,
        handler.resume(SendReplyView::Delivered).0.idle(),
{
}

/// Every outcome of a step can be handled: after each step the reply to it is the one that is
/// waited for.
pub proof fn law_step_outcomes_can_be_handled(
    handler: HandlerView,
    moment: Moment,
    next: (HandlerView, Option<SendStepView>),
    back: Option<RequestView>,
    received: Result<NetworkEventView, TryRecvError>,
)
    requires
        handler.wf(),
        steps(handler, moment, next),
    ensures
        next.1 matches Some(SendStepView::TrySend(_)) ==> next.0.expects(
            SendReplyView::Tried(back),
        ),
        next.1 == Some(SendStepView::TryReceive) ==> next.0.expects(
            SendReplyView::Received(received),
        ),
        next.1 matches Some(SendStepView::Start { .. }) ==> next.0.expects(SendReplyView::Started),
        next.1 matches Some(SendStepView::Deliver(_)) ==> next.0.expects(SendReplyView::Delivered),
        next.1 matches Some(SendStepView::Finished(_)) ==> next.0.idle(),
{
}

/// How a request is sent: each state and step follows from the one before and a reply. A request
/// that comes back is the one that was to be passed on.
pub open spec fn sends(
    request: RequestView,
    states: Seq<(HandlerView, SendStepView)>,
    replies: Seq<SendReplyView>,
) -> bool {
    &&& states.len() == replies.len() + 1
    &&& forall|i: int|
        0 <= i < replies.len() ==> (#[trigger] states[i]).0.expects(replies[i]) && states[i + 1]
            == states[i].0.resume(replies[i])
    &&& forall|i: int|
        0 <= i < replies.len() ==> ((#[trigger] replies[i]) matches SendReplyView::Tried(Some(back))
            ==> back == request)
}

/// Whether a request reached a thread by a step and the reply to it: it was passed on, or it was a
/// login and a thread was started with its details.
pub open spec fn reaches(request: RequestView, step: SendStepView, reply: SendReplyView) -> bool {
    ||| step == SendStepView::TrySend(request) && reply == SendReplyView::Tried(None)
    ||| step == SendStepView::Deliver(request) && reply is Delivered
    ||| request matches RequestView::Login { details } && step matches SendStepView::Start {
        login,
        ..
    } && login == details && reply is Started
}

/// What holds on the way of a request to a thread.
spec fn on_the_way(request: RequestView, state: (HandlerView, SendStepView), arrived: bool) -> bool {
    let waiting = if request is Login {
        None
    } else {
        Some(request)
    };
    &&& state.0.wf()
    &&& match state.0.phase {
        SendPhaseView::Idle => state.1 == SendStepView::Finished(true) ==> arrived,
        SendPhaseView::Trying => state.1 == SendStepView::TrySend(request),
        SendPhaseView::Draining { request: pending, .. } => {
            &&& pending == waiting
            &&& state.1 is TryReceive
            &&& request matches RequestView::Login { details } ==> state.0.login_info == Some(
                details,
            )
        },
        SendPhaseView::Starting { request: pending } => {
            &&& pending == waiting
            &&& state.1 matches SendStepView::Start { login, .. } && Some(login)
                == state.0.login_info
            &&& request matches RequestView::Login { details } ==> state.0.login_info == Some(
                details,
            )
        },
        SendPhaseView::Delivering => state.1 == SendStepView::Deliver(request),
    }
}

/// Whether a request reached a thread by one of the first steps.
pub open spec fn reached(
    request: RequestView,
    states: Seq<(HandlerView, SendStepView)>,
    replies: Seq<SendReplyView>,
    at: int,
) -> bool {
    exists|i: int|
        0 <= i < at && reaches(request, (#[trigger] states[i]).1, replies[i])
}

proof fn lemma_on_the_way(
    handler: HandlerView,
    request: RequestView,
    states: Seq<(HandlerView, SendStepView)>,
    replies: Seq<SendReplyView>,
    at: int,
)
    requires
        handler.wf(),
        handler.idle(),
        sends(request, states, replies),
        states[0] == handler.send(request),
        0 <= at < states.len(),
    ensures
        on_the_way(request, states[at], reached(request, states, replies, at)),
    decreases at,
{
    if at > 0 {
        lemma_on_the_way(handler, request, states, replies, at - 1);
        let before = states[at - 1].0;
        let reply = replies[at - 1];
        assert(before.expects(reply));
        assert(reply matches SendReplyView::Tried(Some(back)) ==> back == request);
        if reaches(request, states[at - 1].1, reply) {
            assert(reaches(request, states[at - 1].1, replies[at - 1]));
            assert(reached(request, states, replies, at));
        }
        law_sending_goes_through(before, reply);
    }
}

/// Sending is reported to have gone through only if it did: the request was passed on to a thread as
/// it is, or it was a login and a thread was started with its details.
pub proof fn law_finished_requests_reached_a_thread(
    handler: HandlerView,
    request: RequestView,
    states: Seq<(HandlerView, SendStepView)>,
    replies: Seq<SendReplyView>,
)
    requires
        handler.wf(),
        handler.idle(),
        sends(request, states, replies),
        states[0] == handler.send(request),
        states.last().1 == SendStepView::Finished(true),
    ensures
        reached(request, states, replies, replies.len() as int),
{
    let n = replies.len() as int;
    lemma_on_the_way(handler, request, states, replies, n);
    if n > 0 {
        lemma_on_the_way(handler, request, states, replies, n - 1);
        assert(states[n - 1].0.expects(replies[n - 1]));
        law_sending_goes_through(states[n - 1].0, replies[n - 1]);
    }
}

/// Polling changes nothing but whether there is a thread.
pub proof fn law_polling_keeps_the_rest(
    handler: HandlerView,
    received: Option<Result<NetworkEventView, TryRecvError>>,
)
    ensures
        handler.poll(received).0 == (HandlerView {
            running: handler.poll(received).0.running,
            ..handler
        }),
        received is None ==> handler.poll(received).1 is None,
        received == Some(Err::<NetworkEventView, TryRecvError>(TryRecvError::Empty))
            ==> handler.poll(received) == (handler, None::<NetworkEventView>),
{
}

} // verus!
