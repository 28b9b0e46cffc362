//! The transition protocol as a state machine.
//!
//! A machine starts at `Stage::Start` and answers every event with the next
//! request (`TransitionAction`) and the events to report.  In a dry run no
//! write is ever requested; in live mode every write follows a check that
//! the attachment generation is still current.

use vstd::prelude::*;
use crate::daemon::{
    EXIT_TIMEOUT, EventView, OperationStage, ReconcileEvent, WaitCondition, events_view,
};
use crate::error::{Error, ErrorView, error_message};
use crate::policy::Candidate;
use crate::state::{RETRY_DELAYS, TRANSITION_TIMEOUT};
use crate::sysfs::{
    OperationView, Request, SysfsControl, exit_refusal, request_matches, spec_enter_request,
    spec_exit_request,
};
use crate::topology::{ActiveMode, PortSnapshot};

verus! {

#[derive(Clone, Copy, Debug, PartialEq, Eq, Structural)]
pub enum Stage {
    Start,
    ExitValidity,
    ExitWrite,
    ExitWait,
    ExitTimeoutValidity,
    DryRunRead,
    AttemptValidity,
    AttemptRead,
    AttemptWrite,
    AttemptWait,
    AttemptPause,
    FallbackRead,
    FallbackValidity,
    FallbackWrite,
    FallbackWait,
    Done,
}

/// The outcome of the request that the machine made last.
#[derive(Debug)]
pub enum TransitionEvent {
    Start,
    /// Whether the attachment generation is still current (after pending
    /// udev events were taken into account).
    Validity(bool),
    /// A fresh read of the port.
    Snapshot(Result<PortSnapshot, Error>),
    /// The attribute write.
    Written(Result<(), Error>),
    /// The wait: `true` when the condition held before the timeout.
    Waited(Result<bool, Error>),
    /// The pause between attempts.
    Paused(Result<(), Error>),
}

/// The next request of the machine.
#[derive(Debug)]
pub enum TransitionAction {
    CheckValidity,
    ReadPort,
    Write(Request),
    WaitFor { condition: WaitCondition, timeout: u64 },
    Pause { delay: u64 },
    /// The transition is over; `Err` aborts the reconciliation.
    Finished(Result<(), Error>),
}

pub enum ActionView {
    CheckValidity,
    ReadPort,
    Write(OperationView, Seq<char>),
    WaitFor(WaitCondition, u64),
    Pause(u64),
    Finished(Option<ErrorView>),
}

impl View for TransitionAction {
    type V = ActionView;

    open spec fn view(&self) -> ActionView {
        match self {
            TransitionAction::CheckValidity => ActionView::CheckValidity,
            TransitionAction::ReadPort => ActionView::ReadPort,
            TransitionAction::Write(r) => ActionView::Write(r.operation@, r.value@),
            TransitionAction::WaitFor { condition, timeout } => ActionView::WaitFor(*condition, *timeout),
            TransitionAction::Pause { delay } => ActionView::Pause(*delay),
            TransitionAction::Finished(r) => ActionView::Finished(
                match r {
                    Ok(_) => None,
                    Err(e) => Some(e@),
                },
            ),
        }
    }
}

/// One step: the next request and the events to report.
#[derive(Debug)]
pub struct Step {
    pub action: TransitionAction,
    pub events: Vec<ReconcileEvent>,
}

/// The machine that carries out a transition of one port.
#[derive(Debug)]
pub struct TransitionMachine {
    port: String,
    initial: PortSnapshot,
    generation: u64,
    from: ActiveMode,
    targets: Vec<Candidate>,
    dry_run: bool,
    usb4_domain: Option<String>,
    stage: Stage,
    index: usize,
    attempt: usize,
    pending: Option<Request>,
    fresh: Option<PortSnapshot>,
    failed: bool,
    outcome: Option<Error>,
}

pub struct MachineState {
    pub port: Seq<char>,
    pub initial: PortSnapshot,
    pub generation: u64,
    pub from: ActiveMode,
    pub targets: Seq<Candidate>,
    pub dry_run: bool,
    pub usb4_domain: Option<Seq<char>>,
    pub stage: Stage,
    pub index: int,
    pub attempt: int,
    pub pending: Option<(OperationView, Seq<char>)>,
    pub fresh: Option<PortSnapshot>,
    pub failed: bool,
    pub outcome: Option<ErrorView>,
}

pub struct Transit {
    pub next: MachineState,
    pub events: Seq<EventView>,
    pub action: ActionView,
}

impl View for TransitionMachine {
    type V = MachineState;

    closed spec fn view(&self) -> MachineState {
        MachineState {
            port: self.port@,
            initial: self.initial,
            generation: self.generation,
            from: self.from,
            targets: self.targets@,
            dry_run: self.dry_run,
            usb4_domain: match self.usb4_domain {
                Some(d) => Some(d@),
                None => None,
            },
            stage: self.stage,
            index: self.index as int,
            attempt: self.attempt as int,
            pending: match self.pending {
                Some(r) => Some((r.operation@, r.value@)),
                None => None,
            },
            fresh: self.fresh,
            failed: self.failed,
            outcome: match self.outcome {
                Some(e) => Some(e@),
                None => None,
            },
        }
    }
}

// ---------------------------------------------------------------- model

pub open spec fn targets_stage(stage: Stage) -> bool {
    match stage {
        Stage::DryRunRead | Stage::AttemptValidity | Stage::AttemptRead | Stage::AttemptWrite
        | Stage::AttemptWait | Stage::AttemptPause | Stage::FallbackRead | Stage::FallbackValidity
        | Stage::FallbackWrite | Stage::FallbackWait => true,
        _ => false,
    }
}

pub open spec fn attempt_stage(stage: Stage) -> bool {
    match stage {
        Stage::AttemptValidity | Stage::AttemptRead | Stage::AttemptWrite | Stage::AttemptWait
        | Stage::AttemptPause => true,
        _ => false,
    }
}

pub open spec fn write_stage(stage: Stage) -> bool {
    match stage {
        Stage::ExitWrite | Stage::AttemptWrite | Stage::FallbackWrite => true,
        _ => false,
    }
}

/// Stages that only a live transition reaches.
pub open spec fn live_stage(stage: Stage) -> bool {
    match stage {
        Stage::ExitWrite | Stage::ExitWait | Stage::ExitTimeoutValidity => true,
        _ => attempt_stage(stage) || (targets_stage(stage) && stage != Stage::DryRunRead),
    }
}

/// Bounds that hold in every stage.
pub open spec fn base_inv(s: MachineState) -> bool {
    &&& 0 <= s.index <= s.targets.len()
    &&& s.targets.len() < usize::MAX
}

/// The invariant of a machine.
pub open spec fn inv(s: MachineState) -> bool {
    &&& base_inv(s)
    &&& targets_stage(s.stage) ==> s.index < s.targets.len()
    &&& attempt_stage(s.stage) ==> 1 <= s.attempt <= RETRY_DELAYS@.len()
    &&& write_stage(s.stage) ==> s.pending is Some
    &&& s.stage == Stage::FallbackValidity ==> s.fresh is Some
    &&& s.dry_run ==> !live_stage(s.stage)
}

pub open spec fn stage_to(s: MachineState, stage: Stage) -> MachineState {
    MachineState { stage, ..s }
}

pub open spec fn finish(s: MachineState, evs: Seq<EventView>, err: Option<ErrorView>) -> Transit {
    Transit {
        next: MachineState { stage: Stage::Done, outcome: err, ..s },
        events: evs,
        action: ActionView::Finished(err),
    }
}

pub open spec fn goes(s: MachineState, evs: Seq<EventView>, action: ActionView) -> Transit {
    Transit { next: s, events: evs, action }
}

/// On to the target at `s.index`.
pub open spec fn advance(s: MachineState, evs: Seq<EventView>) -> Transit {
    if s.index >= s.targets.len() {
        finish(
            MachineState { failed: true, ..s },
            evs.push(EventView::FailedCandidates { port: s.port }),
            None,
        )
    } else if s.targets[s.index] is OrdinaryUsb {
        finish(s, evs.push(EventView::OrdinaryUsb { port: s.port }), None)
    } else if s.dry_run {
        goes(stage_to(s, Stage::DryRunRead), evs, ActionView::ReadPort)
    } else {
        goes(
            MachineState { stage: Stage::AttemptValidity, attempt: 1, ..s },
            evs,
            ActionView::CheckValidity,
        )
    }
}

pub open spec fn candidate_failed(s: MachineState, evs: Seq<EventView>) -> Transit {
    goes(
        MachineState { failed: true, stage: Stage::FallbackRead, ..s },
        evs.push(EventView::CandidateFailed { port: s.port, target: s.targets[s.index] }),
        ActionView::ReadPort,
    )
}

pub open spec fn retry_pause(s: MachineState, evs: Seq<EventView>, message: Seq<char>) -> Transit {
    goes(
        stage_to(s, Stage::AttemptPause),
        evs.push(
            EventView::RequestError { port: s.port, attempt: s.attempt as usize, error: message },
        ),
        ActionView::Pause(RETRY_DELAYS@[s.attempt - 1]),
    )
}

pub open spec fn pending_op(s: MachineState) -> OperationView {
    s.pending.unwrap().0
}

/// The request that a stage repeats when it receives an event it does not expect.
pub open spec fn current_action(s: MachineState) -> ActionView {
    match s.stage {
        Stage::ExitWrite | Stage::AttemptWrite | Stage::FallbackWrite => ActionView::Write(
            s.pending.unwrap().0,
            s.pending.unwrap().1,
        ),
        Stage::ExitWait | Stage::FallbackWait => ActionView::WaitFor(
            WaitCondition::NoActiveMode,
            EXIT_TIMEOUT,
        ),
        Stage::AttemptWait => ActionView::WaitFor(
            WaitCondition::TargetActive(s.targets[s.index]),
            TRANSITION_TIMEOUT,
        ),
        Stage::AttemptPause => ActionView::Pause(RETRY_DELAYS@[s.attempt - 1]),
        Stage::DryRunRead | Stage::AttemptRead | Stage::FallbackRead => ActionView::ReadPort,
        Stage::Done => ActionView::Finished(s.outcome),
        _ => ActionView::CheckValidity,
    }
}

pub open spec fn repeat(s: MachineState) -> Transit {
    goes(s, seq![], current_action(s))
}

pub open spec fn cancelled(s: MachineState, stage: Seq<char>) -> Transit {
    finish(s, seq![EventView::Cancelled { port: s.port, stage }], None)
}

pub open spec fn spec_step(s: MachineState, e: TransitionEvent) -> Transit {
    match s.stage {
        Stage::Start => if !(s.from is Inactive) {
            goes(stage_to(s, Stage::ExitValidity), seq![], ActionView::CheckValidity)
        } else {
            advance(s, seq![])
        },
        Stage::ExitValidity => match e {
            TransitionEvent::Validity(false) => cancelled(s, "before-exit"@),
            TransitionEvent::Validity(true) => match spec_exit_request(s.initial) {
                None => finish(s, seq![], Some(ErrorView::Unsupported(exit_refusal(s.initial)))),
                Some(req) => if s.dry_run {
                    advance(
                        s,
                        seq![
                            EventView::Operation {
                                port: s.port,
                                stage: OperationStage::Exit,
                                attempt: None,
                                operation: req.0,
                            },
                            EventView::WaitForNone { port: s.port },
                        ],
                    )
                } else {
                    goes(
                        MachineState { stage: Stage::ExitWrite, pending: Some(req), ..s },
                        seq![],
                        ActionView::Write(req.0, req.1),
                    )
                },
            },
            _ => repeat(s),
        },
        Stage::ExitWrite => match e {
            TransitionEvent::Written(Err(err)) => finish(s, seq![], Some(err@)),
            TransitionEvent::Written(Ok(_)) => goes(
                stage_to(s, Stage::ExitWait),
                seq![
                    EventView::Operation {
                        port: s.port,
                        stage: OperationStage::Exit,
                        attempt: None,
                        operation: pending_op(s),
                    },
                ],
                ActionView::WaitFor(WaitCondition::NoActiveMode, EXIT_TIMEOUT),
            ),
            _ => repeat(s),
        },
        Stage::ExitWait => match e {
            TransitionEvent::Waited(Err(err)) => finish(s, seq![], Some(err@)),
            TransitionEvent::Waited(Ok(true)) => advance(s, seq![]),
            TransitionEvent::Waited(Ok(false)) => goes(
                stage_to(s, Stage::ExitTimeoutValidity),
                seq![],
                ActionView::CheckValidity,
            ),
            _ => repeat(s),
        },
        Stage::ExitTimeoutValidity => match e {
            TransitionEvent::Validity(true) => finish(
                MachineState { failed: true, ..s },
                seq![EventView::ExitTimeout { port: s.port }],
                None,
            ),
            TransitionEvent::Validity(false) => cancelled(s, "exit"@),
            _ => repeat(s),
        },
        Stage::DryRunRead => match e {
            TransitionEvent::Snapshot(r) => {
                let fresh = match r {
                    Ok(p) => p,
                    Err(_) => s.initial,
                };
                match spec_enter_request(fresh, s.targets[s.index]) {
                    Err(m) => finish(s, seq![], Some(ErrorView::Unsupported(m))),
                    Ok(req) => finish(
                        s,
                        seq![
                            EventView::Operation {
                                port: s.port,
                                stage: OperationStage::Enter,
                                attempt: None,
                                operation: req.0,
                            },
                        ],
                        None,
                    ),
                }
            },
            _ => repeat(s),
        },
        Stage::AttemptValidity => match e {
            TransitionEvent::Validity(false) => cancelled(s, "before-enter"@),
            TransitionEvent::Validity(true) => goes(
                stage_to(s, Stage::AttemptRead),
                seq![],
                ActionView::ReadPort,
            ),
            _ => repeat(s),
        },
        Stage::AttemptRead => match e {
            TransitionEvent::Snapshot(Err(err)) => finish(s, seq![], Some(err@)),
            TransitionEvent::Snapshot(Ok(fresh)) => match spec_enter_request(
                fresh,
                s.targets[s.index],
            ) {
                Err(m) => retry_pause(s, seq![], m),
                Ok(req) => goes(
                    MachineState { stage: Stage::AttemptWrite, pending: Some(req), ..s },
                    seq![],
                    ActionView::Write(req.0, req.1),
                ),
            },
            _ => repeat(s),
        },
        Stage::AttemptWrite => match e {
            TransitionEvent::Written(Err(err)) => retry_pause(s, seq![], error_message(err@)),
            TransitionEvent::Written(Ok(_)) => goes(
                stage_to(s, Stage::AttemptWait),
                seq![
                    EventView::Operation {
                        port: s.port,
                        stage: OperationStage::Enter,
                        attempt: Some(s.attempt as usize),
                        operation: pending_op(s),
                    },
                ],
                ActionView::WaitFor(
                    WaitCondition::TargetActive(s.targets[s.index]),
                    TRANSITION_TIMEOUT,
                ),
            ),
            _ => repeat(s),
        },
        Stage::AttemptWait => match e {
            TransitionEvent::Waited(Err(err)) => finish(s, seq![], Some(err@)),
            TransitionEvent::Waited(Ok(true)) => finish(
                s,
                seq![EventView::Active { port: s.port, target: s.targets[s.index] }],
                None,
            ),
            TransitionEvent::Waited(Ok(false)) => candidate_failed(
                s,
                seq![EventView::CompletionTimeout { port: s.port, target: s.targets[s.index] }],
            ),
            _ => repeat(s),
        },
        Stage::AttemptPause => match e {
            TransitionEvent::Paused(Err(err)) => finish(s, seq![], Some(err@)),
            TransitionEvent::Paused(Ok(_)) => if s.attempt < RETRY_DELAYS@.len() {
                goes(
                    MachineState { stage: Stage::AttemptValidity, attempt: s.attempt + 1, ..s },
                    seq![],
                    ActionView::CheckValidity,
                )
            } else {
                candidate_failed(s, seq![])
            },
            _ => repeat(s),
        },
        Stage::FallbackRead => match e {
            TransitionEvent::Snapshot(Err(_)) => finish(s, seq![], None),
            TransitionEvent::Snapshot(Ok(fresh)) => if fresh.active_mode is Inactive {
                advance(MachineState { index: s.index + 1, ..s }, seq![])
            } else {
                goes(
                    MachineState { stage: Stage::FallbackValidity, fresh: Some(fresh), ..s },
                    seq![],
                    ActionView::CheckValidity,
                )
            },
            _ => repeat(s),
        },
        Stage::FallbackValidity => match e {
            TransitionEvent::Validity(false) => cancelled(s, "before-fallback-exit"@),
            TransitionEvent::Validity(true) => match spec_exit_request(s.fresh.unwrap()) {
                None => finish(
                    s,
                    seq![],
                    Some(ErrorView::Unsupported(exit_refusal(s.fresh.unwrap()))),
                ),
                Some(req) => goes(
                    MachineState { stage: Stage::FallbackWrite, pending: Some(req), ..s },
                    seq![],
                    ActionView::Write(req.0, req.1),
                ),
            },
            _ => repeat(s),
        },
        Stage::FallbackWrite => match e {
            TransitionEvent::Written(Err(err)) => finish(s, seq![], Some(err@)),
            TransitionEvent::Written(Ok(_)) => goes(
                stage_to(s, Stage::FallbackWait),
                seq![
                    EventView::Operation {
                        port: s.port,
                        stage: OperationStage::FallbackExit,
                        attempt: None,
                        operation: pending_op(s),
                    },
                ],
                ActionView::WaitFor(WaitCondition::NoActiveMode, EXIT_TIMEOUT),
            ),
            _ => repeat(s),
        },
        Stage::FallbackWait => match e {
            TransitionEvent::Waited(Err(err)) => finish(s, seq![], Some(err@)),
            TransitionEvent::Waited(Ok(false)) => finish(s, seq![], None),
            TransitionEvent::Waited(Ok(true)) => advance(
                MachineState { index: s.index + 1, ..s },
                seq![],
            ),
            _ => repeat(s),
        },
        Stage::Done => repeat(s),
    }
}

// ---------------------------------------------------------------- code

pub open spec fn error_view(e: Option<Error>) -> Option<ErrorView> {
    match e {
        Some(x) => Some(x@),
        None => None,
    }
}

pub open spec fn step_matches(out: Step, t: Transit) -> bool {
    &&& events_view(out.events@) == t.events
    &&& out.action@ == t.action
}

fn duplicate_error(e: &Option<Error>) -> (r: Option<Error>)
    ensures
        r == *e,
{
    match e {
        Some(x) => Some(x.duplicate()),
        None => None,
    }
}

fn duplicate_request(r: &Request) -> (c: Request)
    ensures
        c == *r,
{
    Request { operation: r.operation.duplicate(), value: r.value.clone() }
}

fn one_event(e: ReconcileEvent) -> (v: Vec<ReconcileEvent>)
    ensures
        events_view(v@) == seq![e@],
{
    let mut v: Vec<ReconcileEvent> = Vec::new();
    v.push(e);
    assert(events_view(v@) =~= seq![e@]);
    v
}

fn push_event(v: &mut Vec<ReconcileEvent>, e: ReconcileEvent)
    ensures
        events_view(final(v)@) == events_view(old(v)@).push(e@),
{
    v.push(e);
    assert(events_view(v@) =~= events_view(old(v)@).push(e@));
}

impl TransitionMachine {
    pub closed spec fn wf(&self) -> bool {
        inv(self@)
    }

    /// A machine that moves `initial` (as last read) from the active mode
    /// `from` to the first of `targets` that can be reached.
    pub fn new(initial: PortSnapshot, generation: u64, from: ActiveMode, targets: Vec<Candidate>, dry_run: bool) -> (m: Self)
        requires
            targets@.len() < usize::MAX,
        ensures
            m.wf(),
            m@ == (MachineState {
                port: initial.name@,
                initial,
                generation,
                from,
                targets: targets@,
                dry_run,
                usb4_domain: match initial.usb4_link {
                    Some(l) => match l.domain_syspath {
                        Some(d) => Some(d@),
                        None => None,
                    },
                    None => None,
                },
                stage: Stage::Start,
                index: 0,
                attempt: 0,
                pending: None,
                fresh: None,
                failed: false,
                outcome: None,
            }),
    {
        let usb4_domain = match &initial.usb4_link {
            Some(l) => match &l.domain_syspath {
                Some(d) => Some(d.clone()),
                None => None,
            },
            None => None,
        };
        TransitionMachine {
            port: initial.name.clone(),
            initial,
            generation,
            from,
            targets,
            dry_run,
            usb4_domain,
            stage: Stage::Start,
            index: 0,
            attempt: 0,
            pending: None,
            fresh: None,
            failed: false,
            outcome: None,
        }
    }

    pub fn port_name(&self) -> (p: &str)
        ensures
            p@ == self@.port,
    {
        self.port.as_str()
    }

    pub fn generation(&self) -> (g: u64)
        ensures
            g == self@.generation,
    {
        self.generation
    }

    /// The USB4 domain of the host port, where a downstream router signals
    /// that USB4 entry completed.
    pub fn usb4_domain(&self) -> (d: Option<&str>)
        ensures
            match d {
                Some(x) => self@.usb4_domain == Some(x@),
                None => self@.usb4_domain is None,
            },
    {
        match &self.usb4_domain {
            Some(x) => Some(x.as_str()),
            None => None,
        }
    }

    /// Whether some candidate or exit failed within its bounds.
    pub fn failed(&self) -> (f: bool)
        ensures
            f == self@.failed,
    {
        self.failed
    }

    pub fn stage(&self) -> (s: Stage)
        ensures
            s == self@.stage,
    {
        self.stage
    }

    fn finish(&mut self, events: Vec<ReconcileEvent>, err: Option<Error>) -> (out: Step)
        requires
            base_inv(old(self)@),
        ensures
            final(self).wf(),
            final(self)@ == finish(old(self)@, events_view(events@), error_view(err)).next,
            step_matches(out, finish(old(self)@, events_view(events@), error_view(err))),
    {
        let copy = duplicate_error(&err);
        self.stage = Stage::Done;
        self.outcome = err;
        let result = match copy {
            Some(e) => Err(e),
            None => Ok(()),
        };
        Step { action: TransitionAction::Finished(result), events }
    }

    fn goes(&mut self, events: Vec<ReconcileEvent>, action: TransitionAction) -> (out: Step)
        ensures
            *final(self) == *old(self),
            step_matches(out, goes(old(self)@, events_view(events@), action@)),
    {
        Step { action, events }
    }

    fn advance(&mut self, events: Vec<ReconcileEvent>) -> (out: Step)
        requires
            base_inv(old(self)@),
        ensures
            final(self).wf(),
            final(self)@ == advance(old(self)@, events_view(events@)).next,
            step_matches(out, advance(old(self)@, events_view(events@))),
    {
        let mut events = events;
        if self.index >= self.targets.len() {
            self.failed = true;
            push_event(&mut events, ReconcileEvent::FailedCandidates { port: self.port.clone() });
            return self.finish(events, None);
        }
        let target = self.targets[self.index];
        if let Candidate::OrdinaryUsb = target {
            push_event(&mut events, ReconcileEvent::OrdinaryUsb { port: self.port.clone() });
            return self.finish(events, None);
        }
        if self.dry_run {
            self.stage = Stage::DryRunRead;
            Step { action: TransitionAction::ReadPort, events }
        } else {
            self.stage = Stage::AttemptValidity;
            self.attempt = 1;
            Step { action: TransitionAction::CheckValidity, events }
        }
    }
    fn candidate_failed(&mut self, events: Vec<ReconcileEvent>) -> (out: Step)
        requires
            inv(old(self)@),
            attempt_stage(old(self)@.stage),
        ensures
            final(self).wf(),
            final(self)@ == candidate_failed(old(self)@, events_view(events@)).next,
            step_matches(out, candidate_failed(old(self)@, events_view(events@))),
    {
        let mut events = events;
        self.failed = true;
        self.stage = Stage::FallbackRead;
        let target = self.targets[self.index];
        push_event(&mut events, ReconcileEvent::CandidateFailed { port: self.port.clone(), target });
        Step { action: TransitionAction::ReadPort, events }
    }

    fn retry_pause(&mut self, events: Vec<ReconcileEvent>, message: String) -> (out: Step)
        requires
            inv(old(self)@),
            attempt_stage(old(self)@.stage),
        ensures
            final(self).wf(),
            final(self)@ == retry_pause(old(self)@, events_view(events@), message@).next,
            step_matches(out, retry_pause(old(self)@, events_view(events@), message@)),
    {
        let mut events = events;
        self.stage = Stage::AttemptPause;
        push_event(
            &mut events,
            ReconcileEvent::RequestError { port: self.port.clone(), attempt: self.attempt, error: message },
        );
        let delay = RETRY_DELAYS[self.attempt - 1];
        Step { action: TransitionAction::Pause { delay }, events }
    }

    fn repeat(&mut self) -> (out: Step)
        requires
            old(self).wf(),
        ensures
            *final(self) == *old(self),
            step_matches(out, repeat(old(self)@)),
    {
        let action = match self.stage {
            Stage::ExitWrite | Stage::AttemptWrite | Stage::FallbackWrite => {
                let r = match &self.pending {
                    Some(r) => duplicate_request(r),
                    None => {
                        proof {
                            assert(false);
                        }
                        return Step { action: TransitionAction::CheckValidity, events: Vec::new() };
                    },
                };
                TransitionAction::Write(r)
            },
            Stage::ExitWait | Stage::FallbackWait => TransitionAction::WaitFor {
                condition: WaitCondition::NoActiveMode,
                timeout: EXIT_TIMEOUT,
            },
            Stage::AttemptWait => TransitionAction::WaitFor {
                condition: WaitCondition::TargetActive(self.targets[self.index]),
                timeout: TRANSITION_TIMEOUT,
            },
            Stage::AttemptPause => TransitionAction::Pause { delay: RETRY_DELAYS[self.attempt - 1] },
            Stage::DryRunRead | Stage::AttemptRead | Stage::FallbackRead => TransitionAction::ReadPort,
            Stage::Done => TransitionAction::Finished(
                match duplicate_error(&self.outcome) {
                    Some(e) => Err(e),
                    None => Ok(()),
                },
            ),
            _ => TransitionAction::CheckValidity,
        };
        let events: Vec<ReconcileEvent> = Vec::new();
        assert(events_view(events@) =~= Seq::<EventView>::empty());
        Step { action, events }
    }

    fn cancelled(&mut self, stage: &str) -> (out: Step)
        requires
            base_inv(old(self)@),
        ensures
            final(self).wf(),
            final(self)@ == cancelled(old(self)@, stage@).next,
            step_matches(out, cancelled(old(self)@, stage@)),
    {
        let events = one_event(ReconcileEvent::Cancelled { port: self.port.clone(), stage: stage.to_owned() });
        self.finish(events, None)
    }

    /// Answers the outcome of the previous request with the next one.
    pub fn step(&mut self, event: TransitionEvent) -> (out: Step)
        requires
            old(self).wf(),
        ensures
            final(self).wf(),
            final(self)@ == spec_step(old(self)@, event).next,
            step_matches(out, spec_step(old(self)@, event)),
    {
        let no_events: Vec<ReconcileEvent> = Vec::new();
        assert(events_view(no_events@) =~= Seq::<EventView>::empty());
        match self.stage {
            Stage::Start => {
                if !self.from.is_none() {
                    self.stage = Stage::ExitValidity;
                    Step { action: TransitionAction::CheckValidity, events: no_events }
                } else {
                    self.advance(no_events)
                }
            },
            Stage::ExitValidity => match event {
                TransitionEvent::Validity(false) => self.cancelled("before-exit"),
                TransitionEvent::Validity(true) => {
                    let control = SysfsControl::new(self.dry_run);
                    match control.exit_request(&self.initial) {
                        Err(e) => self.finish(no_events, Some(e)),
                        Ok(req) => if self.dry_run {
                            let mut events = no_events;
                            push_event(
                                &mut events,
                                ReconcileEvent::Operation {
                                    port: self.port.clone(),
                                    stage: OperationStage::Exit,
                                    attempt: None,
                                    operation: req.operation,
                                },
                            );
                            push_event(&mut events, ReconcileEvent::WaitForNone { port: self.port.clone() });
                            proof {
                                let req_spec = spec_exit_request(self@.initial).unwrap();
                                assert(events_view(events@) =~= seq![
                                    EventView::Operation {
                                        port: self@.port,
                                        stage: OperationStage::Exit,
                                        attempt: None,
                                        operation: req_spec.0,
                                    },
                                    EventView::WaitForNone { port: self@.port },
                                ]);
                            }
                            self.advance(events)
                        } else {
                            let copy = duplicate_request(&req);
                            self.stage = Stage::ExitWrite;
                            self.pending = Some(req);
                            Step { action: TransitionAction::Write(copy), events: no_events }
                        },
                    }
                },
                _ => self.repeat(),
            },
            Stage::ExitWrite => match event {
                TransitionEvent::Written(Err(e)) => self.finish(no_events, Some(e)),
                TransitionEvent::Written(Ok(_)) => {
                    let op = match &self.pending {
                        Some(r) => r.operation.duplicate(),
                        None => {
                            proof {
                                assert(false);
                            }
                            return self.repeat();
                        },
                    };
                    self.stage = Stage::ExitWait;
                    let events = one_event(
                        ReconcileEvent::Operation {
                            port: self.port.clone(),
                            stage: OperationStage::Exit,
                            attempt: None,
                            operation: op,
                        },
                    );
                    Step {
                        action: TransitionAction::WaitFor {
                            condition: WaitCondition::NoActiveMode,
                            timeout: EXIT_TIMEOUT,
                        },
                        events,
                    }
                },
                _ => self.repeat(),
            },
            Stage::ExitWait => match event {
                TransitionEvent::Waited(Err(e)) => self.finish(no_events, Some(e)),
                TransitionEvent::Waited(Ok(true)) => self.advance(no_events),
                TransitionEvent::Waited(Ok(false)) => {
                    self.stage = Stage::ExitTimeoutValidity;
                    Step { action: TransitionAction::CheckValidity, events: no_events }
                },
                _ => self.repeat(),
            },
            Stage::ExitTimeoutValidity => match event {
                TransitionEvent::Validity(true) => {
                    self.failed = true;
                    let events = one_event(ReconcileEvent::ExitTimeout { port: self.port.clone() });
                    self.finish(events, None)
                },
                TransitionEvent::Validity(false) => self.cancelled("exit"),
                _ => self.repeat(),
            },
            Stage::DryRunRead => match event {
                TransitionEvent::Snapshot(r) => {
                    let target = self.targets[self.index];
                    let control = SysfsControl::new(self.dry_run);
                    let planned = match &r {
                        Ok(p) => control.enter_request(p, &target),
                        Err(_) => control.enter_request(&self.initial, &target),
                    };
                    match planned {
                        Err(e) => self.finish(no_events, Some(e)),
                        Ok(req) => {
                            let events = one_event(
                                ReconcileEvent::Operation {
                                    port: self.port.clone(),
                                    stage: OperationStage::Enter,
                                    attempt: None,
                                    operation: req.operation,
                                },
                            );
                            self.finish(events, None)
                        },
                    }
                },
                _ => self.repeat(),
            },
            Stage::AttemptValidity => match event {
                TransitionEvent::Validity(false) => self.cancelled("before-enter"),
                TransitionEvent::Validity(true) => {
                    self.stage = Stage::AttemptRead;
                    Step { action: TransitionAction::ReadPort, events: no_events }
                },
                _ => self.repeat(),
            },
            Stage::AttemptRead => match event {
                TransitionEvent::Snapshot(Err(e)) => self.finish(no_events, Some(e)),
                TransitionEvent::Snapshot(Ok(fresh)) => {
                    let target = self.targets[self.index];
                    let control = SysfsControl::new(self.dry_run);
                    match control.enter_request(&fresh, &target) {
                        Err(e) => {
                            let message = e.message();
                            self.retry_pause(no_events, message)
                        },
                        Ok(req) => {
                            let copy = duplicate_request(&req);
                            self.stage = Stage::AttemptWrite;
                            self.pending = Some(req);
                            Step { action: TransitionAction::Write(copy), events: no_events }
                        },
                    }
                },
                _ => self.repeat(),
            },
            Stage::AttemptWrite => match event {
                TransitionEvent::Written(Err(e)) => {
                    let message = e.message();
                    self.retry_pause(no_events, message)
                },
                TransitionEvent::Written(Ok(_)) => {
                    let op = match &self.pending {
                        Some(r) => r.operation.duplicate(),
                        None => {
                            proof {
                                assert(false);
                            }
                            return self.repeat();
                        },
                    };
                    self.stage = Stage::AttemptWait;
                    let events = one_event(
                        ReconcileEvent::Operation {
                            port: self.port.clone(),
                            stage: OperationStage::Enter,
                            attempt: Some(self.attempt),
                            operation: op,
                        },
                    );
                    let target = self.targets[self.index];
                    Step {
                        action: TransitionAction::WaitFor {
                            condition: WaitCondition::TargetActive(target),
                            timeout: TRANSITION_TIMEOUT,
                        },
                        events,
                    }
                },
                _ => self.repeat(),
            },
            Stage::AttemptWait => match event {
                TransitionEvent::Waited(Err(e)) => self.finish(no_events, Some(e)),
                TransitionEvent::Waited(Ok(true)) => {
                    let target = self.targets[self.index];
                    let events = one_event(ReconcileEvent::Active { port: self.port.clone(), target });
                    self.finish(events, None)
                },
                TransitionEvent::Waited(Ok(false)) => {
                    let target = self.targets[self.index];
                    let events = one_event(
                        ReconcileEvent::CompletionTimeout { port: self.port.clone(), target },
                    );
                    self.candidate_failed(events)
                },
                _ => self.repeat(),
            },
            Stage::AttemptPause => match event {
                TransitionEvent::Paused(Err(e)) => self.finish(no_events, Some(e)),
                TransitionEvent::Paused(Ok(_)) => {
                    if self.attempt < RETRY_DELAYS.len() {
                        self.stage = Stage::AttemptValidity;
                        self.attempt = self.attempt + 1;
                        Step { action: TransitionAction::CheckValidity, events: no_events }
                    } else {
                        self.candidate_failed(no_events)
                    }
                },
                _ => self.repeat(),
            },
            Stage::FallbackRead => match event {
                TransitionEvent::Snapshot(Err(_)) => self.finish(no_events, None),
                TransitionEvent::Snapshot(Ok(fresh)) => {
                    if fresh.active_mode.is_none() {
                        self.index = self.index + 1;
                        self.advance(no_events)
                    } else {
                        self.stage = Stage::FallbackValidity;
                        self.fresh = Some(fresh);
                        Step { action: TransitionAction::CheckValidity, events: no_events }
                    }
                },
                _ => self.repeat(),
            },
            Stage::FallbackValidity => match event {
                TransitionEvent::Validity(false) => self.cancelled("before-fallback-exit"),
                TransitionEvent::Validity(true) => {
                    let control = SysfsControl::new(self.dry_run);
                    let planned = match &self.fresh {
                        Some(f) => control.exit_request(f),
                        None => {
                            proof {
                                assert(false);
                            }
                            return self.repeat();
                        },
                    };
                    match planned {
                        Err(e) => self.finish(no_events, Some(e)),
                        Ok(req) => {
                            let copy = duplicate_request(&req);
                            self.stage = Stage::FallbackWrite;
                            self.pending = Some(req);
                            Step { action: TransitionAction::Write(copy), events: no_events }
                        },
                    }
                },
                _ => self.repeat(),
            },
            Stage::FallbackWrite => match event {
                TransitionEvent::Written(Err(e)) => self.finish(no_events, Some(e)),
                TransitionEvent::Written(Ok(_)) => {
                    let op = match &self.pending {
                        Some(r) => r.operation.duplicate(),
                        None => {
                            proof {
                                assert(false);
                            }
                            return self.repeat();
                        },
                    };
                    self.stage = Stage::FallbackWait;
                    let events = one_event(
                        ReconcileEvent::Operation {
                            port: self.port.clone(),
                            stage: OperationStage::FallbackExit,
                            attempt: None,
                            operation: op,
                        },
                    );
                    Step {
                        action: TransitionAction::WaitFor {
                            condition: WaitCondition::NoActiveMode,
                            timeout: EXIT_TIMEOUT,
                        },
                        events,
                    }
                },
                _ => self.repeat(),
            },
            Stage::FallbackWait => match event {
                TransitionEvent::Waited(Err(e)) => self.finish(no_events, Some(e)),
                TransitionEvent::Waited(Ok(false)) => self.finish(no_events, None),
                TransitionEvent::Waited(Ok(true)) => {
                    self.index = self.index + 1;
                    self.advance(no_events)
                },
                _ => self.repeat(),
            },
            Stage::Done => self.repeat(),
        }
    }
}

// ---------------------------------------------------------------- laws

/// The requests that a machine makes are exit and entry requests of the
/// connector class (or nothing yet).
pub open spec fn requests_are_mode_requests(s: MachineState) -> bool {
    s.pending matches Some(r) ==> !crate::daemon::spec_is_authorization(r.0)
}

proof fn lemma_mode_attributes_are_not_authorization(base: Seq<char>)
    ensures
        !crate::daemon::spec_is_authorization(OperationView::Exit(crate::paths::spec_join(base, "usb_mode"@))),
        !crate::daemon::spec_is_authorization(OperationView::Exit(crate::paths::spec_join(base, "active"@))),
        crate::paths::spec_file_name(crate::paths::spec_join(base, "usb_mode"@)) == Some("usb_mode"@),
        crate::paths::spec_file_name(crate::paths::spec_join(base, "active"@)) == Some("active"@),
{
    reveal_strlit("usb_mode");
    reveal_strlit("active");
    reveal_strlit("authorized");
    crate::paths::lemma_file_name_of_join(base, "usb_mode"@);
    crate::paths::lemma_file_name_of_join(base, "active"@);
}

/// Every exit or entry request writes a `usb_mode` or `active` attribute,
/// never a Thunderbolt `authorized` attribute.
pub proof fn law_requests_never_authorize(port: PortSnapshot, target: Candidate)
    ensures
        spec_exit_request(port) matches Some(r) ==> !crate::daemon::spec_is_authorization(r.0),
        spec_enter_request(port, target) matches Ok(r) ==> !crate::daemon::spec_is_authorization(r.0),
        spec_exit_request(port) matches Some(r) ==> {
            let name = crate::paths::spec_file_name(crate::sysfs::operation_path(r.0));
            name == Some("usb_mode"@) || name == Some("active"@)
        },
        spec_enter_request(port, target) matches Ok(r) ==> {
            let name = crate::paths::spec_file_name(crate::sysfs::operation_path(r.0));
            name == Some("usb_mode"@) || name == Some("active"@)
        },
{
    reveal_strlit("usb_mode");
    reveal_strlit("active");
    reveal_strlit("authorized");
    match port.active_mode {
        ActiveMode::Usb4 => if let Some(p) = port.partner {
            lemma_mode_attributes_are_not_authorization(p.syspath@);
        },
        ActiveMode::Thunderbolt { syspath } => lemma_mode_attributes_are_not_authorization(syspath@),
        ActiveMode::DisplayPort { syspath } => lemma_mode_attributes_are_not_authorization(syspath@),
        ActiveMode::Other { syspath, .. } => lemma_mode_attributes_are_not_authorization(syspath@),
        ActiveMode::Inactive => {},
    }
    if let Some(p) = port.partner {
        lemma_mode_attributes_are_not_authorization(p.syspath@);
        match target {
            Candidate::Thunderbolt { svid, mode } => if let Some(m) = crate::sysfs::find_mode(
                p.alt_modes@,
                svid,
                mode,
            ) {
                lemma_mode_attributes_are_not_authorization(m.syspath@);
            },
            Candidate::DisplayPort { svid, mode } => if let Some(m) = crate::sysfs::find_mode(
                p.alt_modes@,
                svid,
                mode,
            ) {
                lemma_mode_attributes_are_not_authorization(m.syspath@);
            },
            _ => {},
        }
    }
}

/// A machine never asks for a write that would authorize a Thunderbolt
/// router, and keeps holding only mode requests.
pub proof fn law_machine_never_authorizes(s: MachineState, e: TransitionEvent)
    requires
        inv(s),
        requests_are_mode_requests(s),
    ensures
        requests_are_mode_requests(spec_step(s, e).next),
        spec_step(s, e).action matches ActionView::Write(op, _) ==> !crate::daemon::spec_is_authorization(op),
{
    law_requests_never_authorize(s.initial, s.targets[s.index]);
    if let TransitionEvent::Snapshot(Ok(fresh)) = e {
        law_requests_never_authorize(fresh, s.targets[s.index]);
    }
    if let Some(f) = s.fresh {
        law_requests_never_authorize(f, s.targets[s.index]);
    }
}

/// Every step keeps the machine's invariant.
pub proof fn law_step_keeps_invariant(s: MachineState, e: TransitionEvent)
    requires
        inv(s),
    ensures
        inv(spec_step(s, e).next),
{
}

/// A dry run never writes.
pub proof fn law_dry_run_never_writes(s: MachineState, e: TransitionEvent)
    requires
        inv(s),
        s.dry_run,
    ensures
        !(spec_step(s, e).action is Write),
{
}

/// A write is asked for only right after the attachment generation was
/// confirmed: either by this very event, or (for an entry) by the event that
/// led to the fresh read which this write answers.
pub proof fn law_writes_follow_generation_checks(s: MachineState, e: TransitionEvent)
    requires
        inv(s),
    ensures
        spec_step(s, e).action is Write && !write_stage(s.stage) ==> (e == TransitionEvent::Validity(
            true,
        ) && (s.stage == Stage::ExitValidity || s.stage == Stage::FallbackValidity))
            || s.stage == Stage::AttemptRead,
        spec_step(s, e).next.stage == Stage::AttemptRead && s.stage != Stage::AttemptRead ==> e
            == TransitionEvent::Validity(true),
{
}

/// Entry into a candidate is attempted at most `RETRY_DELAYS.len()` times:
/// after the last pause the candidate is given up.
pub proof fn law_attempts_are_bounded(s: MachineState, e: TransitionEvent)
    requires
        inv(s),
    ensures
        attempt_stage(spec_step(s, e).next.stage) ==> 1 <= spec_step(s, e).next.attempt
            <= RETRY_DELAYS@.len(),
        (s.stage == Stage::AttemptPause && s.attempt == RETRY_DELAYS@.len() && (e matches TransitionEvent::Paused(
            Ok(_),
        ))) ==> spec_step(s, e).next.stage == Stage::FallbackRead && spec_step(s, e).next.failed,
{
}

/// Every exit or entry request writes one of the connector-class mode
/// values: `usb4` or `usb2` (to `usb_mode`), `1` or `0` (to `active`).
pub proof fn law_requests_write_mode_values(port: PortSnapshot, target: Candidate)
    ensures
        spec_exit_request(port) matches Some(r) ==> r.1 == "usb2\n"@ || r.1 == "0\n"@,
        spec_enter_request(port, target) matches Ok(r) ==> r.1 == "usb4\n"@ || r.1 == "1\n"@,
{
}

} // verus!
