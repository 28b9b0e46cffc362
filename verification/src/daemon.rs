//! Reconciliation: from a fresh connector snapshot to the policy decision, and
//! the transition protocol that carries a decision out (exit the active mode,
//! wait until no mode is active, enter the best candidate with bounded
//! retries, fall back to the next candidate).
//!
//! The protocol is a state machine: each step takes the outcome of the
//! previous request (a generation check, a snapshot read, an attribute
//! write, a wait, a pause) and names the next request.  The caller performs
//! the requests.

use vstd::prelude::*;
use crate::error::{Error, ErrorView, IoErrorKind, error_message};
use crate::policy::{Candidate, Decision, WaitReason};
use crate::state::{PortState, RETRY_DELAYS, TRANSITION_TIMEOUT};
use crate::sysfs::{
    Operation, OperationView, Request, SysfsControl, spec_enter_request, spec_exit_request,
    exit_refusal, request_matches,
};
use crate::topology::{ActiveMode, PortSnapshot};
use crate::policy::{Context, candidates, candidates_view, decide, spec_candidates, spec_decide};
use crate::state::{Phase, detached_state, spec_apply_decision, spec_attach, spec_detach};
use crate::sysfs::{PortShape, RawPort, Sysfs, port_matches, spec_port};
use crate::transition::{MachineState, Stage, TransitionMachine};
use crate::udev::{EventAction, EventHint};

verus! {

/// How long an exit may take to leave no mode active, in milliseconds.
pub const EXIT_TIMEOUT: u64 = 5000;

#[derive(Clone, Copy, Debug, PartialEq, Eq, Structural)]
pub enum Mode {
    DryRun,
    Live,
}

#[derive(Clone, Copy, Debug, PartialEq, Eq, Structural)]
pub enum OperationStage {
    Exit,
    Enter,
    FallbackExit,
}

#[derive(Debug)]
pub enum ReconcileEvent {
    Snapshot {
        port: String,
        generation: u64,
        candidates: Result<Vec<Candidate>, WaitReason>,
        decision: Decision,
    },
    Detached { port: String, generation: u64 },
    FailedTerminal { port: String, generation: u64, active: ActiveMode, reason: String },
    CoordinationRequired { port: String, keeping: ActiveMode },
    Operation { port: String, stage: OperationStage, attempt: Option<usize>, operation: Operation },
    WaitForNone { port: String },
    RequestError { port: String, attempt: usize, error: String },
    CompletionTimeout { port: String, target: Candidate },
    CandidateFailed { port: String, target: Candidate },
    Active { port: String, target: Candidate },
    OrdinaryUsb { port: String },
    Cancelled { port: String, stage: String },
    ExitTimeout { port: String },
    FailedCandidates { port: String },
    TopologyError { port: String, error: String },
    ReconcileError { port: String, error: String },
}

/// `ReconcileEvent` with its texts as character sequences.
pub enum EventView {
    Snapshot {
        port: Seq<char>,
        generation: u64,
        candidates: Result<Seq<Candidate>, WaitReason>,
        decision: Decision,
    },
    Detached { port: Seq<char>, generation: u64 },
    FailedTerminal { port: Seq<char>, generation: u64, active: ActiveMode, reason: Seq<char> },
    CoordinationRequired { port: Seq<char>, keeping: ActiveMode },
    Operation { port: Seq<char>, stage: OperationStage, attempt: Option<usize>, operation: OperationView },
    WaitForNone { port: Seq<char> },
    RequestError { port: Seq<char>, attempt: usize, error: Seq<char> },
    CompletionTimeout { port: Seq<char>, target: Candidate },
    CandidateFailed { port: Seq<char>, target: Candidate },
    Active { port: Seq<char>, target: Candidate },
    OrdinaryUsb { port: Seq<char> },
    Cancelled { port: Seq<char>, stage: Seq<char> },
    ExitTimeout { port: Seq<char> },
    FailedCandidates { port: Seq<char> },
    TopologyError { port: Seq<char>, error: Seq<char> },
    ReconcileError { port: Seq<char>, error: Seq<char> },
}

impl View for ReconcileEvent {
    type V = EventView;

    open spec fn view(&self) -> EventView {
        match self {
            ReconcileEvent::Snapshot { port, generation, candidates, decision } => EventView::Snapshot {
                port: port@,
                generation: *generation,
                candidates: crate::policy::candidates_view(*candidates),
                decision: *decision,
            },
            ReconcileEvent::Detached { port, generation } => EventView::Detached {
                port: port@,
                generation: *generation,
            },
            ReconcileEvent::FailedTerminal { port, generation, active, reason } => EventView::FailedTerminal {
                port: port@,
                generation: *generation,
                active: *active,
                reason: reason@,
            },
            ReconcileEvent::CoordinationRequired { port, keeping } => EventView::CoordinationRequired {
                port: port@,
                keeping: *keeping,
            },
            ReconcileEvent::Operation { port, stage, attempt, operation } => EventView::Operation {
                port: port@,
                stage: *stage,
                attempt: *attempt,
                operation: operation@,
            },
            ReconcileEvent::WaitForNone { port } => EventView::WaitForNone { port: port@ },
            ReconcileEvent::RequestError { port, attempt, error } => EventView::RequestError {
                port: port@,
                attempt: *attempt,
                error: error@,
            },
            ReconcileEvent::CompletionTimeout { port, target } => EventView::CompletionTimeout {
                port: port@,
                target: *target,
            },
            ReconcileEvent::CandidateFailed { port, target } => EventView::CandidateFailed {
                port: port@,
                target: *target,
            },
            ReconcileEvent::Active { port, target } => EventView::Active { port: port@, target: *target },
            ReconcileEvent::OrdinaryUsb { port } => EventView::OrdinaryUsb { port: port@ },
            ReconcileEvent::Cancelled { port, stage } => EventView::Cancelled {
                port: port@,
                stage: stage@,
            },
            ReconcileEvent::ExitTimeout { port } => EventView::ExitTimeout { port: port@ },
            ReconcileEvent::FailedCandidates { port } => EventView::FailedCandidates { port: port@ },
            ReconcileEvent::TopologyError { port, error } => EventView::TopologyError {
                port: port@,
                error: error@,
            },
            ReconcileEvent::ReconcileError { port, error } => EventView::ReconcileError {
                port: port@,
                error: error@,
            },
        }
    }
}

pub open spec fn events_view(v: Seq<ReconcileEvent>) -> Seq<EventView> {
    v.map_values(|e: ReconcileEvent| e@)
}

/// Live mode keeps an alternate mode that some other agent entered, rather
/// than replacing it.
pub open spec fn spec_requires_coordination(mode: Mode, active: ActiveMode) -> bool {
    mode == Mode::Live && (active is DisplayPort || active is Thunderbolt || active is Other)
}

pub fn requires_coordination(mode: Mode, active: &ActiveMode) -> (r: bool)
    ensures
        r == spec_requires_coordination(mode, *active),
{
    mode == Mode::Live && match active {
        ActiveMode::DisplayPort { .. } | ActiveMode::Thunderbolt { .. } | ActiveMode::Other {
            ..
        } => true,
        _ => false,
    }
}

/// Whether a port has reached `target`; for USB4 that also needs a
/// downstream router in the host's USB4 domain (`router_present`).
pub open spec fn spec_target_active(port: PortSnapshot, target: Candidate, router_present: bool) -> bool {
    match target {
        Candidate::Usb4 => port.active_mode is Usb4 && router_present,
        Candidate::Thunderbolt { .. } => port.active_mode is Thunderbolt,
        Candidate::DisplayPort { .. } => port.active_mode is DisplayPort,
        Candidate::OrdinaryUsb => port.active_mode is Inactive,
    }
}

pub fn target_active(port: &PortSnapshot, target: &Candidate, router_present: bool) -> (r: bool)
    ensures
        r == spec_target_active(*port, *target, router_present),
{
    match target {
        Candidate::Usb4 => match port.active_mode {
            ActiveMode::Usb4 => router_present,
            _ => false,
        },
        Candidate::Thunderbolt { .. } => match port.active_mode {
            ActiveMode::Thunderbolt { .. } => true,
            _ => false,
        },
        Candidate::DisplayPort { .. } => match port.active_mode {
            ActiveMode::DisplayPort { .. } => true,
            _ => false,
        },
        Candidate::OrdinaryUsb => port.active_mode.is_none(),
    }
}

/// Whether an operation would write a Thunderbolt `authorized` attribute.
pub open spec fn spec_is_authorization(op: OperationView) -> bool {
    crate::paths::spec_file_name(crate::sysfs::operation_path(op)) == Some("authorized"@)
}

pub fn operation_is_authorization(operation: &Operation) -> (r: bool)
    ensures
        r == spec_is_authorization(operation@),
{
    match crate::paths::file_name(operation.path()) {
        Some(name) => name == "authorized".to_owned(),
        None => false,
    }
}

/// What a wait for a port condition waits for.
#[derive(Clone, Copy, Debug, PartialEq, Eq, Structural)]
pub enum WaitCondition {
    NoActiveMode,
    TargetActive(Candidate),
}

pub open spec fn spec_condition_holds(condition: WaitCondition, port: PortSnapshot, router_present: bool) -> bool {
    match condition {
        WaitCondition::NoActiveMode => port.active_mode is Inactive,
        WaitCondition::TargetActive(target) => spec_target_active(port, target, router_present),
    }
}

/// One poll of a wait.
#[derive(Debug)]
pub enum WaitOutcome {
    Satisfied,
    KeepWaiting,
    /// The port or its attachment is gone: the wait ends unsatisfied.
    Abandoned,
    Failed(Error),
}

/// The outcome of one poll of a wait for `condition`, given a fresh read of
/// the port (a vanished port ends the wait; other read errors are errors).
pub fn wait_step(condition: WaitCondition, read: Result<PortSnapshot, Error>, router_present: bool) -> (o: WaitOutcome)
    ensures
        match read {
            Ok(port) => if spec_condition_holds(condition, port, router_present) {
                o is Satisfied
            } else {
                o is KeepWaiting
            },
            Err(e) => match e {
                Error::InvalidPort(_) => o is Abandoned,
                Error::Io { kind: IoErrorKind::NotFound, .. } => o is Abandoned,
                _ => o == WaitOutcome::Failed(e),
            },
        },
{
    match read {
        Ok(port) => {
            let holds = match condition {
                WaitCondition::NoActiveMode => port.active_mode.is_none(),
                WaitCondition::TargetActive(target) => target_active(&port, &target, router_present),
            };
            if holds {
                WaitOutcome::Satisfied
            } else {
                WaitOutcome::KeepWaiting
            }
        },
        Err(e) => match e {
            Error::InvalidPort(_) => WaitOutcome::Abandoned,
            Error::Io { kind: IoErrorKind::NotFound, .. } => WaitOutcome::Abandoned,
            _ => WaitOutcome::Failed(e),
        },
    }
}

// ---------------------------------------------------------------- port states

/// The state of one port, by port name.
#[derive(Debug)]
pub struct PortEntry {
    pub name: String,
    pub state: PortState,
}

pub open spec fn unique_names(s: Seq<PortEntry>) -> bool {
    forall|i: int, j: int| 0 <= i < j < s.len() ==> s[i].name@ != s[j].name@
}

pub open spec fn has_name(s: Seq<PortEntry>, k: Seq<char>) -> bool {
    exists|i: int| 0 <= i < s.len() && s[i].name@ == k
}

/// The port states by name.
pub open spec fn state_map(s: Seq<PortEntry>) -> Map<Seq<char>, PortState> {
    Map::new(
        |k: Seq<char>| has_name(s, k),
        |k: Seq<char>| s[choose|i: int| 0 <= i < s.len() && s[i].name@ == k].state,
    )
}

proof fn lemma_map_at(s: Seq<PortEntry>, i: int)
    requires
        unique_names(s),
        0 <= i < s.len(),
    ensures
        state_map(s).contains_key(s[i].name@),
        state_map(s)[s[i].name@] == s[i].state,
{
    let k = s[i].name@;
    assert(has_name(s, k));
    let j = choose|j: int| 0 <= j < s.len() && s[j].name@ == k;
    if j != i {
        if j < i {
            assert(s[j].name@ != s[i].name@);
        } else {
            assert(s[i].name@ != s[j].name@);
        }
    }
}

proof fn lemma_map_update(s: Seq<PortEntry>, i: int, e: PortEntry)
    requires
        unique_names(s),
        0 <= i < s.len(),
        e.name@ == s[i].name@,
    ensures
        unique_names(s.update(i, e)),
        state_map(s.update(i, e)) == state_map(s).insert(e.name@, e.state),
{
    let t = s.update(i, e);
    assert(unique_names(t)) by {
        assert forall|a: int, b: int| 0 <= a < b < t.len() implies t[a].name@ != t[b].name@ by {
            assert(t[a].name@ == s[a].name@);
            assert(t[b].name@ == s[b].name@);
        }
    }
    let m = state_map(s).insert(e.name@, e.state);
    assert forall|k: Seq<char>| state_map(t).contains_key(k) <==> m.contains_key(k) by {
        if has_name(s, k) {
            let j = choose|j: int| 0 <= j < s.len() && s[j].name@ == k;
            assert(t[j].name@ == k);
        }
        if has_name(t, k) {
            let j = choose|j: int| 0 <= j < t.len() && t[j].name@ == k;
            assert(s[j].name@ == k);
        }
    }
    assert forall|k: Seq<char>| #[trigger] state_map(t).contains_key(k) implies state_map(t)[k]
        == m[k] by {
        let j = choose|j: int| 0 <= j < t.len() && t[j].name@ == k;
        lemma_map_at(t, j);
        if j != i {
            lemma_map_at(s, j);
        }
    }
    assert(state_map(t) =~= m);
}

proof fn lemma_map_push(s: Seq<PortEntry>, e: PortEntry)
    requires
        unique_names(s),
        !state_map(s).contains_key(e.name@),
    ensures
        unique_names(s.push(e)),
        state_map(s.push(e)) == state_map(s).insert(e.name@, e.state),
{
    let t = s.push(e);
    assert(unique_names(t)) by {
        assert forall|a: int, b: int| 0 <= a < b < t.len() implies t[a].name@ != t[b].name@ by {
            if b == s.len() {
                assert(t[a] == s[a]);
                if s[a].name@ == e.name@ {
                    assert(has_name(s, e.name@));
                }
            } else {
                assert(t[a] == s[a]);
                assert(t[b] == s[b]);
            }
        }
    }
    let m = state_map(s).insert(e.name@, e.state);
    assert forall|k: Seq<char>| state_map(t).contains_key(k) <==> m.contains_key(k) by {
        if has_name(s, k) {
            let j = choose|j: int| 0 <= j < s.len() && s[j].name@ == k;
            assert(t[j].name@ == k);
        }
        if k == e.name@ {
            assert(t[s.len() as int].name@ == k);
        }
        if has_name(t, k) {
            let j = choose|j: int| 0 <= j < t.len() && t[j].name@ == k;
            if j < s.len() {
                assert(s[j].name@ == k);
            }
        }
    }
    assert forall|k: Seq<char>| #[trigger] state_map(t).contains_key(k) implies state_map(t)[k]
        == m[k] by {
        let j = choose|j: int| 0 <= j < t.len() && t[j].name@ == k;
        lemma_map_at(t, j);
        if j < s.len() {
            assert(t[j] == s[j]);
            lemma_map_at(s, j);
        }
    }
    assert(state_map(t) =~= m);
}

/// The selector's state: where sysfs is, whether it writes, and the state
/// of every port it has seen.
pub struct Daemon {
    sysfs: Sysfs,
    mode: Mode,
    states: Vec<PortEntry>,
}

/// The state a port has before it is reconciled: the recorded one (or a
/// detached one for a new port), attached anew when a partner appears on a
/// detached port.
pub open spec fn state_on_snapshot(states: Map<Seq<char>, PortState>, port: PortSnapshot, now: u64) -> PortState {
    let s0 = if states.contains_key(port.name@) {
        states[port.name@]
    } else {
        detached_state()
    };
    if port.partner is Some && s0.phase is Detached {
        spec_attach(s0, now)
    } else {
        s0
    }
}

pub open spec fn discovery_expired(s: PortState, now: u64) -> bool {
    s.deadline matches Some(d) && now >= d
}

/// The decision after the USB4 check: an active USB4 connection whose domain
/// shows no router is not kept; it is waited for until discovery expires, and
/// then replaced by the best candidate (or given up).
pub open spec fn checked_decision(
    decision: Decision,
    list: Result<Seq<Candidate>, WaitReason>,
    expired: bool,
    router_ok: bool,
) -> Decision {
    if (decision matches Decision::Keep(m) && m is Usb4) && !router_ok {
        if expired {
            match list {
                Ok(c) => if c.len() > 0 {
                    Decision::Transition { from: ActiveMode::Usb4, to: c[0] }
                } else {
                    Decision::NoMode
                },
                Err(_) => Decision::NoMode,
            }
        } else {
            Decision::Wait(WaitReason::Usb4Router)
        }
    } else {
        decision
    }
}

/// What reconciling a fresh snapshot does before any request is made.
pub struct ReconcilePlan {
    /// The port's new state.
    pub state: PortState,
    /// The events reported so far.
    pub events: Seq<EventView>,
    /// For a transition: the active mode and the ordered targets.
    pub transition: Option<(ActiveMode, Seq<Candidate>)>,
}

pub open spec fn spec_reconcile(
    states: Map<Seq<char>, PortState>,
    mode: Mode,
    port: PortSnapshot,
    now: u64,
    usb4_router_present: bool,
) -> ReconcilePlan {
    let s1 = state_on_snapshot(states, port, now);
    if port.partner is None {
        let s2 = if s1.phase is Detached {
            s1
        } else {
            spec_detach(s1)
        };
        ReconcilePlan {
            state: s2,
            events: seq![EventView::Detached { port: port.name@, generation: s2.generation }],
            transition: None,
        }
    } else if s1.phase is Failed {
        ReconcilePlan {
            state: s1,
            events: seq![
                EventView::FailedTerminal {
                    port: port.name@,
                    generation: s1.generation,
                    active: port.active_mode,
                    reason: s1.phase->Failed_0@,
                },
            ],
            transition: None,
        }
    } else {
        let expired = discovery_expired(s1, now);
        let ctx = Context { discovery_expired: expired };
        let list = spec_candidates(port, ctx);
        let router_ok = port.usb4_link is Some && usb4_router_present;
        let decision = checked_decision(spec_decide(port, ctx), list, expired, router_ok);
        let s2 = spec_apply_decision(s1, decision);
        let snapshot = EventView::Snapshot {
            port: port.name@,
            generation: s2.generation,
            candidates: list,
            decision,
        };
        match decision {
            Decision::Transition { from, .. } => if spec_requires_coordination(mode, from) {
                ReconcilePlan {
                    state: PortState { phase: Phase::Active(from), ..s2 },
                    events: seq![
                        snapshot,
                        EventView::CoordinationRequired { port: port.name@, keeping: from },
                    ],
                    transition: None,
                }
            } else {
                ReconcilePlan {
                    state: s2,
                    events: seq![snapshot],
                    transition: Some(
                        (
                            from,
                            match list {
                                Ok(c) => c,
                                Err(_) => seq![],
                            },
                        ),
                    ),
                }
            },
            _ => ReconcilePlan { state: s2, events: seq![snapshot], transition: None },
        }
    }
}

/// The first part of a reconciliation: either finished, or a transition to
/// carry out.
#[derive(Debug)]
pub enum ReconcileStart {
    Finished(Vec<ReconcileEvent>),
    Transition { events: Vec<ReconcileEvent>, machine: TransitionMachine },
}

pub open spec fn start_matches(r: ReconcileStart, plan: ReconcilePlan, port: PortSnapshot, mode: Mode) -> bool {
    match r {
        ReconcileStart::Finished(ev) => plan.transition is None && events_view(ev@) == plan.events,
        ReconcileStart::Transition { events, machine } => {
            &&& events_view(events@) == plan.events
            &&& machine.wf()
            &&& plan.transition matches Some(t) && machine@ == (MachineState {
                port: port.name@,
                initial: port,
                generation: plan.state.generation,
                from: t.0,
                targets: t.1,
                dry_run: mode == Mode::DryRun,
                usb4_domain: match port.usb4_link {
                    Some(l) => match l.domain_syspath {
                        Some(d) => Some(d@),
                        None => None,
                    },
                    None => None,
                },
                stage: Stage::Start,
                index: 0,
                attempt: 0,
                pending: None,
                fresh: None,
                failed: false,
                outcome: None,
            })
        },
    }
}

/// The effect of a udev hint: the removal of a partner object detaches its port.
pub open spec fn spec_event(states: Map<Seq<char>, PortState>, hint: EventHint) -> Map<Seq<char>, PortState> {
    if hint.partner && (hint.action is Remove || hint.action is Unbind) && hint.port is Some {
        let k = hint.port.unwrap()@;
        let s0 = if states.contains_key(k) {
            states[k]
        } else {
            detached_state()
        };
        states.insert(
            k,
            if s0.phase is Detached {
                s0
            } else {
                spec_detach(s0)
            },
        )
    } else {
        states
    }
}

/// Ports that are no longer present are detached.
pub open spec fn spec_detach_absent(states: Map<Seq<char>, PortState>, present: Seq<Seq<char>>) -> Map<Seq<char>, PortState> {
    Map::new(
        |k: Seq<char>| states.contains_key(k),
        |k: Seq<char>|
            if !present.contains(k) && !(states[k].phase is Detached) {
                spec_detach(states[k])
            } else {
                states[k]
            },
    )
}

/// The time left until `deadline`, or zero when it has passed.
pub open spec fn time_left(deadline: u64, now: u64) -> u64 {
    if deadline > now {
        (deadline - now) as u64
    } else {
        0
    }
}

pub open spec fn discovering_with_deadline(s: PortState) -> bool {
    s.phase is Discovering && s.deadline is Some
}

impl Daemon {
    pub closed spec fn wf(&self) -> bool {
        unique_names(self.states@)
    }

    /// The port states by name.
    pub closed spec fn spec_states(&self) -> Map<Seq<char>, PortState> {
        state_map(self.states@)
    }

    pub closed spec fn spec_mode(&self) -> Mode {
        self.mode
    }

    pub closed spec fn spec_sysfs(&self) -> Sysfs {
        self.sysfs
    }

    /// A selector that has seen no port yet.
    pub fn new(sysfs: Sysfs, mode: Mode) -> (d: Self)
        ensures
            d.wf(),
            d.spec_states() == Map::<Seq<char>, PortState>::empty(),
            d.spec_mode() == mode,
            d.spec_sysfs() == sysfs,
    {
        let d = Daemon { sysfs, mode, states: Vec::new() };
        assert(d.spec_states() =~= Map::<Seq<char>, PortState>::empty());
        d
    }

    pub fn mode(&self) -> (m: Mode)
        ensures
            m == self.spec_mode(),
    {
        self.mode
    }

    pub fn sysfs(&self) -> (s: &Sysfs)
        ensures
            *s == self.spec_sysfs(),
    {
        &self.sysfs
    }

    fn find(&self, name: &str) -> (i: Option<usize>)
        requires
            self.wf(),
        ensures
            match i {
                Some(i) => i < self.states@.len() && self.states@[i as int].name@ == name@,
                None => !self.spec_states().contains_key(name@),
            },
    {
        let key = name.to_owned();
        let mut i: usize = 0;
        while i < self.states.len()
            invariant
                i <= self.states@.len(),
                key@ == name@,
                forall|j: int| 0 <= j < i ==> self.states@[j].name@ != name@,
            decreases self.states@.len() - i,
        {
            if self.states[i].name == key {
                return Some(i);
            }
            i = i + 1;
        }
        None
    }

    /// The recorded state of a port.
    pub fn state(&self, name: &str) -> (s: Option<&PortState>)
        requires
            self.wf(),
        ensures
            match s {
                Some(st) => self.spec_states().contains_key(name@) && self.spec_states()[name@] == *st,
                None => !self.spec_states().contains_key(name@),
            },
    {
        match self.find(name) {
            Some(i) => {
                proof {
                    lemma_map_at(self.states@, i as int);
                }
                Some(&self.states[i].state)
            },
            None => None,
        }
    }

    /// Whether the port still has the attachment `generation`.
    pub fn generation_matches(&self, name: &str, generation: u64) -> (same: bool)
        requires
            self.wf(),
        ensures
            same == (self.spec_states().contains_key(name@) && self.spec_states()[name@].generation
                == generation),
    {
        match self.state(name) {
            Some(st) => st.generation_is(generation),
            None => false,
        }
    }

    fn entry_or_default(&mut self, name: &str) -> (i: usize)
        requires
            old(self).wf(),
        ensures
            final(self).wf(),
            i < final(self).states@.len(),
            final(self).states@[i as int].name@ == name@,
            final(self).spec_states() == if old(self).spec_states().contains_key(name@) {
                old(self).spec_states()
            } else {
                old(self).spec_states().insert(name@, detached_state())
            },
            final(self).mode == old(self).mode,
            final(self).sysfs == old(self).sysfs,
    {
        match self.find(name) {
            Some(i) => {
                proof {
                    lemma_map_at(self.states@, i as int);
                    assert(self.spec_states().contains_key(name@));
                }
                i
            },
            None => {
                let entry = PortEntry { name: name.to_owned(), state: PortState::default() };
                proof {
                    lemma_map_push(self.states@, entry);
                }
                self.states.push(entry);
                self.states.len() - 1
            },
        }
    }

    fn set_state(&mut self, i: usize, state: PortState)
        requires
            old(self).wf(),
            i < old(self).states@.len(),
        ensures
            final(self).wf(),
            final(self).states@.len() == old(self).states@.len(),
            final(self).states@[i as int].name@ == old(self).states@[i as int].name@,
            final(self).spec_states() == old(self).spec_states().insert(
                old(self).states@[i as int].name@,
                state,
            ),
            final(self).mode == old(self).mode,
            final(self).sysfs == old(self).sysfs,
    {
        let name = self.states[i].name.clone();
        let entry = PortEntry { name, state };
        proof {
            lemma_map_update(self.states@, i as int, entry);
        }
        self.states.set(i, entry);
    }

    /// Takes a udev hint into account: the removal of a partner object
    /// detaches its port (a new generation), so delayed actions for the old
    /// attachment are cancelled.
    pub fn event(&mut self, event: &EventHint)
        requires
            old(self).wf(),
        ensures
            final(self).wf(),
            final(self).spec_states() == spec_event(old(self).spec_states(), *event),
            final(self).spec_mode() == old(self).spec_mode(),
            final(self).spec_sysfs() == old(self).spec_sysfs(),
    {
        let removal = match event.action {
            EventAction::Remove | EventAction::Unbind => true,
            _ => false,
        };
        if event.partner && removal {
            if let Some(port) = &event.port {
                let i = self.entry_or_default(port.as_str());
                proof {
                    lemma_map_at(self.states@, i as int);
                }
                let mut st = self.states[i].state.duplicate();
                if !st.phase.is_detached() {
                    st.detach();
                }
                self.set_state(i, st);
            }
        }
    }
}

fn contains_name(names: &Vec<String>, name: &String) -> (found: bool)
    ensures
        found == crate::paths::views(names@).contains(name@),
{
    let mut i: usize = 0;
    while i < names.len()
        invariant
            i <= names@.len(),
            forall|j: int| 0 <= j < i ==> names@[j]@ != name@,
        decreases names@.len() - i,
    {
        if names[i] == *name {
            assert(crate::paths::views(names@)[i as int] == name@);
            return true;
        }
        i = i + 1;
    }
    assert forall|j: int| 0 <= j < names@.len() implies crate::paths::views(names@)[j] != name@ by {
        assert(crate::paths::views(names@)[j] == names@[j]@);
    }
    false
}

fn copy_candidates(list: &Result<Vec<Candidate>, WaitReason>) -> (c: Result<Vec<Candidate>, WaitReason>)
    ensures
        candidates_view(c) == candidates_view(*list),
{
    match list {
        Ok(v) => {
            let mut out: Vec<Candidate> = Vec::new();
            let mut i: usize = 0;
            while i < v.len()
                invariant
                    i <= v@.len(),
                    out@ == v@.subrange(0, i as int),
                decreases v@.len() - i,
            {
                out.push(v[i]);
                i = i + 1;
                assert(out@ =~= v@.subrange(0, i as int));
            }
            assert(v@.subrange(0, v@.len() as int) =~= v@);
            Ok(out)
        },
        Err(r) => Err(*r),
    }
}

impl Daemon {
    /// Detaches every recorded port that is not among `present` (and is not
    /// detached already).
    pub fn detach_absent(&mut self, present: &Vec<String>)
        requires
            old(self).wf(),
        ensures
            final(self).wf(),
            final(self).spec_states() == spec_detach_absent(
                old(self).spec_states(),
                crate::paths::views(present@),
            ),
            final(self).spec_mode() == old(self).spec_mode(),
            final(self).spec_sysfs() == old(self).spec_sysfs(),
    {
        let ghost old_states = self.states@;
        let ghost pv = crate::paths::views(present@);
        let mut i: usize = 0;
        while i < self.states.len()
            invariant
                self.wf(),
                self.states@.len() == old_states.len(),
                unique_names(old_states),
                pv == crate::paths::views(present@),
                i <= self.states@.len(),
                self.mode == old(self).mode,
                self.sysfs == old(self).sysfs,
                old_states == old(self).states@,
                forall|j: int| 0 <= j < self.states@.len() ==> #[trigger] self.states@[j].name@ == old_states[j].name@,
                forall|j: int|
                    0 <= j < i ==> #[trigger] self.states@[j].state == (if !pv.contains(
                        old_states[j].name@,
                    ) && !(old_states[j].state.phase is Detached) {
                        spec_detach(old_states[j].state)
                    } else {
                        old_states[j].state
                    }),
                forall|j: int| i <= j < self.states@.len() ==> #[trigger] self.states@[j].state == old_states[j].state,
            decreases self.states@.len() - i,
        {
            let absent = !contains_name(present, &self.states[i].name);
            if absent && !self.states[i].state.phase.is_detached() {
                let mut st = self.states[i].state.duplicate();
                st.detach();
                let name = self.states[i].name.clone();
                let entry = PortEntry { name, state: st };
                proof {
                    lemma_map_update(self.states@, i as int, entry);
                }
                self.states.set(i, entry);
            }
            i = i + 1;
        }
        proof {
            let m = spec_detach_absent(state_map(old_states), pv);
            let t = self.states@;
            assert forall|k: Seq<char>| state_map(t).contains_key(k) <==> m.contains_key(k) by {
                if has_name(old_states, k) {
                    let j = choose|j: int| 0 <= j < old_states.len() && old_states[j].name@ == k;
                    assert(t[j].name@ == k);
                }
                if has_name(t, k) {
                    let j = choose|j: int| 0 <= j < t.len() && t[j].name@ == k;
                    assert(old_states[j].name@ == k);
                }
            }
            assert forall|k: Seq<char>| #[trigger] state_map(t).contains_key(k) implies state_map(t)[k]
                == m[k] by {
                let j = choose|j: int| 0 <= j < t.len() && t[j].name@ == k;
                lemma_map_at(t, j);
                assert(old_states[j].name@ == k);
                lemma_map_at(old_states, j);
            }
            assert(state_map(t) =~= m);
        }
    }

    /// Records that a transition of the attachment `generation` of `name`
    /// ended; a failed one is terminal for that attachment, unless the port
    /// has been detached or re-attached meanwhile.
    pub fn conclude(&mut self, name: &str, generation: u64, failed: bool)
        requires
            old(self).wf(),
        ensures
            final(self).wf(),
            final(self).spec_mode() == old(self).spec_mode(),
            final(self).spec_sysfs() == old(self).spec_sysfs(),
            final(self).spec_states().dom() == old(self).spec_states().dom(),
            forall|k: Seq<char>|
                k != name@ && old(self).spec_states().contains_key(k) ==> final(self).spec_states()[k] == old(self).spec_states()[k],
            !(failed && old(self).spec_states().contains_key(name@) && old(self).spec_states()[name@].generation == generation) ==> final(self).spec_states() == old(self).spec_states(),
            (failed && old(self).spec_states().contains_key(name@) && old(self).spec_states()[name@].generation == generation) ==> {
                let before = old(self).spec_states()[name@];
                let after = final(self).spec_states()[name@];
                &&& after.generation == before.generation
                &&& after.deadline == before.deadline
                &&& after.attached_at == before.attached_at
                &&& after.phase matches Phase::Failed(reason) && reason@
                    == "bounded transition failure"@
            },
    {
        if !failed {
            return;
        }
        match self.find(name) {
            Some(i) => {
                proof {
                    lemma_map_at(self.states@, i as int);
                }
                if self.states[i].state.generation_is(generation) {
                    let mut st = self.states[i].state.duplicate();
                    st.phase = Phase::Failed("bounded transition failure".to_owned());
                    self.set_state(i, st);
                }
            },
            None => {},
        }
    }

    /// The time until the earliest discovery deadline of a port that is
    /// still discovering, if any.
    pub fn next_discovery_timeout(&self, now: u64) -> (t: Option<u64>)
        requires
            self.wf(),
        ensures
            match t {
                None => forall|k: Seq<char>|
                    #[trigger] self.spec_states().contains_key(k) ==> !discovering_with_deadline(
                        self.spec_states()[k],
                    ),
                Some(m) => {
                    &&& exists|k: Seq<char>|
                        #[trigger] self.spec_states().contains_key(k) && discovering_with_deadline(
                            self.spec_states()[k],
                        ) && m == time_left(self.spec_states()[k].deadline.unwrap(), now)
                    &&& forall|k: Seq<char>|
                        #[trigger] self.spec_states().contains_key(k) && discovering_with_deadline(
                            self.spec_states()[k],
                        ) ==> m <= time_left(self.spec_states()[k].deadline.unwrap(), now)
                },
            },
    {
        let ghost s = self.states@;
        let mut best: Option<u64> = None;
        let mut i: usize = 0;
        while i < self.states.len()
            invariant
                s == self.states@,
                unique_names(s),
                i <= s.len(),
                match best {
                    None => forall|j: int| 0 <= j < i ==> !discovering_with_deadline(#[trigger] s[j].state),
                    Some(m) => {
                        &&& exists|j: int|
                            0 <= j < i && discovering_with_deadline(#[trigger] s[j].state) && m
                                == time_left(s[j].state.deadline.unwrap(), now)
                        &&& forall|j: int|
                            0 <= j < i && discovering_with_deadline(#[trigger] s[j].state) ==> m
                                <= time_left(s[j].state.deadline.unwrap(), now)
                    },
                },
            decreases s.len() - i,
        {
            let st = &self.states[i].state;
            let discovering = match st.phase {
                Phase::Discovering { .. } => true,
                _ => false,
            };
            if discovering {
                if let Some(deadline) = st.deadline {
                    let left = deadline.saturating_sub(now);
                    best = match best {
                        None => Some(left),
                        Some(m) => if left < m {
                            Some(left)
                        } else {
                            Some(m)
                        },
                    };
                }
            }
            i = i + 1;
        }
        proof {
            let map = state_map(s);
            match best {
                None => {
                    assert forall|k: Seq<char>| #[trigger] map.contains_key(k) implies !discovering_with_deadline(
                        map[k],
                    ) by {
                        let j = choose|j: int| 0 <= j < s.len() && s[j].name@ == k;
                        lemma_map_at(s, j);
                    }
                },
                Some(m) => {
                    let j = choose|j: int|
                        0 <= j < s.len() && discovering_with_deadline(#[trigger] s[j].state) && m
                            == time_left(s[j].state.deadline.unwrap(), now);
                    lemma_map_at(s, j);
                    assert(map.contains_key(s[j].name@));
                    assert forall|k: Seq<char>|
                        #[trigger] map.contains_key(k) && discovering_with_deadline(
                            map[k],
                        ) implies m <= time_left(map[k].deadline.unwrap(), now) by {
                        let jj = choose|jj: int| 0 <= jj < s.len() && s[jj].name@ == k;
                        lemma_map_at(s, jj);
                    }
                },
            }
        }
        best
    }
}

impl Daemon {
    /// Reconciles a fresh snapshot of a port up to the first request: updates
    /// the port's attachment state, reports the decision, and hands back the
    /// transition to carry out, if there is one.
    pub fn begin_reconcile(&mut self, port: PortSnapshot, now: u64, usb4_router_present: bool) -> (r: ReconcileStart)
        requires
            old(self).wf(),
            now + crate::state::DISCOVERY_TIMEOUT <= u64::MAX,
        ensures
            final(self).wf(),
            final(self).spec_mode() == old(self).spec_mode(),
            final(self).spec_sysfs() == old(self).spec_sysfs(),
            final(self).spec_states() == old(self).spec_states().insert(
                port.name@,
                spec_reconcile(old(self).spec_states(), old(self).spec_mode(), port, now, usb4_router_present).state,
            ),
            start_matches(
                r,
                spec_reconcile(old(self).spec_states(), old(self).spec_mode(), port, now, usb4_router_present),
                port,
                old(self).spec_mode(),
            ),
    {
        let ghost old_states = self.spec_states();
        let ghost plan = spec_reconcile(old_states, self.mode, port, now, usb4_router_present);
        let i = self.entry_or_default(port.name.as_str());
        proof {
            lemma_map_at(self.states@, i as int);
        }
        let mut st = self.states[i].state.duplicate();
        assert(st == if old_states.contains_key(port.name@) {
            old_states[port.name@]
        } else {
            detached_state()
        });
        if port.partner.is_some() && st.phase.is_detached() {
            st.attach(now);
        }
        assert(st == state_on_snapshot(old_states, port, now));
        if port.partner.is_none() {
            if !st.phase.is_detached() {
                st.detach();
            }
            let generation = st.generation;
            self.set_state(i, st);
            let events = one_event(ReconcileEvent::Detached { port: port.name.clone(), generation });
            return ReconcileStart::Finished(events);
        }
        if let Phase::Failed(reason) = &st.phase {
            let event = ReconcileEvent::FailedTerminal {
                port: port.name.clone(),
                generation: st.generation,
                active: port.active_mode.duplicate(),
                reason: reason.clone(),
            };
            self.set_state(i, st);
            return ReconcileStart::Finished(one_event(event));
        }
        let expired = match st.deadline {
            Some(deadline) => now >= deadline,
            None => false,
        };
        let context = Context { discovery_expired: expired };
        let ordered = candidates(&port, context);
        let mut decision = decide(&port, context);
        let keeps_usb4 = match &decision {
            Decision::Keep(ActiveMode::Usb4) => true,
            _ => false,
        };
        let router_ok = port.usb4_link.is_some() && usb4_router_present;
        if keeps_usb4 && !router_ok {
            decision = if expired {
                match &ordered {
                    Ok(values) => if values.len() > 0 {
                        Decision::Transition { from: ActiveMode::Usb4, to: values[0] }
                    } else {
                        Decision::NoMode
                    },
                    Err(_) => Decision::NoMode,
                }
            } else {
                Decision::Wait(WaitReason::Usb4Router)
            };
        }
        assert(decision == checked_decision(
            spec_decide(port, context),
            spec_candidates(port, context),
            expired,
            router_ok,
        ));
        st.apply_decision(&decision);
        let generation = st.generation;
        let snapshot = ReconcileEvent::Snapshot {
            port: port.name.clone(),
            generation,
            candidates: copy_candidates(&ordered),
            decision: decision.duplicate(),
        };
        let mut events = one_event(snapshot);
        match decision {
            Decision::Transition { from, .. } => {
                if requires_coordination(self.mode, &from) {
                    st.phase = Phase::Active(from.duplicate());
                    self.set_state(i, st);
                    push_event_view(
                        &mut events,
                        ReconcileEvent::CoordinationRequired { port: port.name.clone(), keeping: from },
                    );
                    assert(events_view(events@) =~= plan.events);
                    ReconcileStart::Finished(events)
                } else {
                    self.set_state(i, st);
                    let targets = match ordered {
                        Ok(values) => values,
                        Err(_) => Vec::new(),
                    };
                    proof {
                        crate::policy::lemma_candidates_are_few(port, context);
                        assert(targets@ == plan.transition.unwrap().1);
                    }
                    let dry_run = match self.mode {
                        Mode::DryRun => true,
                        Mode::Live => false,
                    };
                    let machine = TransitionMachine::new(port, generation, from, targets, dry_run);
                    ReconcileStart::Transition { events, machine }
                }
            },
            _ => {
                self.set_state(i, st);
                ReconcileStart::Finished(events)
            },
        }
    }
}

fn one_event(e: ReconcileEvent) -> (v: Vec<ReconcileEvent>)
    ensures
        events_view(v@) == seq![e@],
{
    let mut v: Vec<ReconcileEvent> = Vec::new();
    v.push(e);
    assert(events_view(v@) =~= seq![e@]);
    v
}

fn push_event_view(v: &mut Vec<ReconcileEvent>, e: ReconcileEvent)
    ensures
        events_view(final(v)@) == events_view(old(v)@).push(e@),
{
    v.push(e);
    assert(events_view(v@) =~= events_view(old(v)@).push(e@));
}

// ---------------------------------------------------------------- laws

impl Daemon {
    /// Reconciles one port from what was read of it (see `Sysfs::port`): a
    /// port that cannot be read is an error and changes nothing; otherwise
    /// as `begin_reconcile` on its snapshot.
    pub fn reconcile_port(&mut self, raw: &RawPort, now: u64, usb4_router_present: bool) -> (r: Result<ReconcileStart, Error>)
        requires
            old(self).wf(),
            now + crate::state::DISCOVERY_TIMEOUT <= u64::MAX,
        ensures
            final(self).wf(),
            final(self).spec_mode() == old(self).spec_mode(),
            final(self).spec_sysfs() == old(self).spec_sysfs(),
            match r {
                Err(e) => {
                    &&& spec_port(old(self).spec_sysfs().spec_root(), *raw) == Err::<PortShape, ErrorView>(e@)
                    &&& final(self).spec_states() == old(self).spec_states()
                },
                Ok(start) => spec_port(old(self).spec_sysfs().spec_root(), *raw) matches Ok(shape)
                    && exists|p: PortSnapshot| #[trigger] port_matches(p, old(self).spec_sysfs().spec_root(), *raw, shape)
                        && final(self).spec_states() == old(self).spec_states().insert(
                            p.name@,
                            spec_reconcile(old(self).spec_states(), old(self).spec_mode(), p, now, usb4_router_present).state,
                        )
                        && start_matches(
                            start,
                            spec_reconcile(old(self).spec_states(), old(self).spec_mode(), p, now, usb4_router_present),
                            p,
                            old(self).spec_mode(),
                        ),
            },
    {
        match self.sysfs.port(raw) {
            Err(e) => Err(e),
            Ok(port) => {
                let ghost p = port;
                let start = self.begin_reconcile(port, now, usb4_router_present);
                Ok(start)
            },
        }
    }

    /// The first part of reconciling every port: the port names as listed
    /// (a failed listing is the error), with every recorded port that is no
    /// longer listed detached. Each listed port is then reconciled in turn.
    pub fn reconcile_all(&mut self, listing: &Result<Vec<String>, Error>) -> (r: Result<Vec<String>, Error>)
        requires
            old(self).wf(),
        ensures
            final(self).wf(),
            final(self).spec_mode() == old(self).spec_mode(),
            final(self).spec_sysfs() == old(self).spec_sysfs(),
            match r {
                Err(e) => {
                    &&& *listing matches Err(le) && e@ == le@
                    &&& final(self).spec_states() == old(self).spec_states()
                },
                Ok(names) => {
                    &&& *listing matches Ok(ln) && crate::paths::views(names@) == crate::paths::views(ln@)
                    &&& final(self).spec_states() == spec_detach_absent(old(self).spec_states(), crate::paths::views(names@))
                },
            },
    {
        match listing {
            Err(e) => Err(e.duplicate()),
            Ok(names) => {
                let names = clone_names(names);
                self.detach_absent(&names);
                Ok(names)
            },
        }
    }
}

/// How reconciling one listed port ended.
#[derive(Debug)]
pub enum PortOutcome {
    /// The port was reconciled; these are its events.
    Reconciled(Vec<ReconcileEvent>),
    /// The port could not be read.
    Unreadable(Error),
    /// The port was read, but reconciling it failed (a transition request
    /// or read failed).
    Failed(Error),
}

/// The events that one port contributes to a reconciliation of every port:
/// its own events, or a single error event naming it.
pub open spec fn spec_outcome_events(port: Seq<char>, outcome: PortOutcome) -> Seq<EventView> {
    match outcome {
        PortOutcome::Reconciled(events) => events_view(events@),
        PortOutcome::Unreadable(e) => seq![EventView::TopologyError { port, error: error_message(e@) }],
        PortOutcome::Failed(e) => seq![EventView::ReconcileError { port, error: error_message(e@) }],
    }
}

/// The events of a reconciliation of every port: the events of each listed
/// port, in listing order.
pub open spec fn spec_collect_events(outcomes: Seq<(String, PortOutcome)>) -> Seq<EventView>
    decreases outcomes.len(),
{
    if outcomes.len() == 0 {
        seq![]
    } else {
        spec_collect_events(outcomes.drop_last()) + spec_outcome_events(
            outcomes.last().0@,
            outcomes.last().1,
        )
    }
}

/// The events of one port's outcome.
pub fn outcome_events(port: String, outcome: PortOutcome) -> (events: Vec<ReconcileEvent>)
    ensures
        events_view(events@) == spec_outcome_events(port@, outcome),
{
    match outcome {
        PortOutcome::Reconciled(events) => events,
        PortOutcome::Unreadable(e) => one_event(ReconcileEvent::TopologyError { port, error: e.message() }),
        PortOutcome::Failed(e) => one_event(ReconcileEvent::ReconcileError { port, error: e.message() }),
    }
}

/// The events of a reconciliation of every port, from the outcome of each
/// listed port in listing order. A port that failed contributes its error
/// event; it does not fail the whole reconciliation.
pub fn collect_events(outcomes: Vec<(String, PortOutcome)>) -> (events: Vec<ReconcileEvent>)
    ensures
        events_view(events@) == spec_collect_events(outcomes@),
{
    let ghost all = outcomes@;
    let total = outcomes.len();
    let mut rest = outcomes;
    let mut events: Vec<ReconcileEvent> = Vec::new();
    let mut k: usize = 0;
    assert(events_view(events@) =~= spec_collect_events(all.take(0)));
    assert(all.skip(0) =~= all);
    while rest.len() > 0
        invariant
            k <= all.len(),
            all.len() == total,
            rest@ == all.skip(k as int),
            events_view(events@) == spec_collect_events(all.take(k as int)),
        decreases rest@.len(),
    {
        let (port, outcome) = rest.remove(0);
        assert(all[k as int] == (port, outcome));
        let ghost before = events_view(events@);
        let mut more = outcome_events(port, outcome);
        let ghost added = events_view(more@);
        events.append(&mut more);
        proof {
            assert(events_view(events@) =~= before + added);
            assert(all.take(k + 1).drop_last() =~= all.take(k as int));
            assert(all.take(k + 1).last() == all[k as int]);
            assert(all.skip(k as int).drop_first() =~= all.skip(k + 1));
        }
        k = k + 1;
    }
    assert(all.take(k as int) =~= all);
    events
}

/// A reconciliation of every port never fails because of one port: the
/// events of the listed ports follow the listing order, each port's events
/// forming one contiguous run, and a port that could not be read or
/// reconciled contributes exactly one error event naming it.
pub proof fn law_port_failures_stay_local(outcomes: Seq<(String, PortOutcome)>, i: int)
    requires
        0 <= i <= outcomes.len(),
    ensures
        spec_collect_events(outcomes) == spec_collect_events(outcomes.take(i)) + spec_collect_events(
            outcomes.skip(i),
        ),
        i < outcomes.len() ==> spec_collect_events(outcomes.skip(i)) == spec_outcome_events(
            outcomes[i].0@,
            outcomes[i].1,
        ) + spec_collect_events(outcomes.skip(i + 1)),
        i < outcomes.len() ==> (outcomes[i].1 matches PortOutcome::Unreadable(e) ==> spec_outcome_events(
            outcomes[i].0@,
            outcomes[i].1,
        ) == seq![EventView::TopologyError { port: outcomes[i].0@, error: error_message(e@) }]),
        i < outcomes.len() ==> (outcomes[i].1 matches PortOutcome::Failed(e) ==> spec_outcome_events(
            outcomes[i].0@,
            outcomes[i].1,
        ) == seq![EventView::ReconcileError { port: outcomes[i].0@, error: error_message(e@) }]),
    decreases outcomes.len(),
{
    lemma_collect_split(outcomes, i);
    if i < outcomes.len() {
        lemma_collect_first(outcomes.skip(i));
        assert(outcomes.skip(i).drop_first() =~= outcomes.skip(i + 1));
    }
}

proof fn lemma_collect_split(outcomes: Seq<(String, PortOutcome)>, i: int)
    requires
        0 <= i <= outcomes.len(),
    ensures
        spec_collect_events(outcomes) == spec_collect_events(outcomes.take(i)) + spec_collect_events(
            outcomes.skip(i),
        ),
    decreases outcomes.len(),
{
    if i == outcomes.len() {
        assert(outcomes.take(i) =~= outcomes);
        assert(outcomes.skip(i) =~= Seq::<(String, PortOutcome)>::empty());
        assert(spec_collect_events(outcomes.skip(i)) =~= Seq::<EventView>::empty());
        assert(spec_collect_events(outcomes) + Seq::<EventView>::empty() =~= spec_collect_events(outcomes));
    } else {
        let d = outcomes.drop_last();
        lemma_collect_split(d, i);
        assert(d.take(i) =~= outcomes.take(i));
        let tail = outcomes.skip(i);
        assert(tail.drop_last() =~= d.skip(i));
        assert(tail.last() == outcomes.last());
        assert(spec_collect_events(outcomes) =~= spec_collect_events(outcomes.take(i)) + spec_collect_events(tail));
    }
}

proof fn lemma_collect_first(outcomes: Seq<(String, PortOutcome)>)
    requires
        outcomes.len() > 0,
    ensures
        spec_collect_events(outcomes) == spec_outcome_events(outcomes[0].0@, outcomes[0].1)
            + spec_collect_events(outcomes.drop_first()),
{
    lemma_collect_split(outcomes, 1);
    let one = outcomes.take(1);
    assert(one.drop_last() =~= Seq::<(String, PortOutcome)>::empty());
    assert(one.last() == outcomes[0]);
    assert(spec_collect_events(one.drop_last()) =~= Seq::<EventView>::empty());
    assert(outcomes.skip(1) =~= outcomes.drop_first());
    assert(spec_collect_events(outcomes.take(1)) =~= spec_outcome_events(outcomes[0].0@, outcomes[0].1));
}

fn clone_names(v: &Vec<String>) -> (out: Vec<String>)
    ensures
        crate::paths::views(out@) == crate::paths::views(v@),
{
    let mut out: Vec<String> = Vec::new();
    let mut i: usize = 0;
    while i < v.len()
        invariant
            i <= v@.len(),
            crate::paths::views(out@) == crate::paths::views(v@).take(i as int),
        decreases v@.len() - i,
    {
        let ghost before = crate::paths::views(out@);
        let x = v[i].clone();
        out.push(x);
        proof {
            let vv = crate::paths::views(v@);
            assert(vv[i as int] == v@[i as int]@);
            assert(crate::paths::views(out@) =~= before.push(x@));
            assert(vv.take(i + 1) =~= vv.take(i as int).push(vv[i as int]));
        }
        i = i + 1;
    }
    assert(crate::paths::views(v@).take(v@.len() as int) =~= crate::paths::views(v@));
    out
}

/// The decision that a reconciliation reports (when it reports one).
pub open spec fn reported_decision(plan: ReconcilePlan) -> Option<Decision> {
    if plan.events.len() > 0 && plan.events[0] is Snapshot {
        Some(plan.events[0]->decision)
    } else {
        None
    }
}

/// A port whose partner is gone ends up detached, with a new generation if
/// it was attached; nothing is requested.
pub proof fn law_missing_partner_detaches(
    states: Map<Seq<char>, PortState>,
    mode: Mode,
    port: PortSnapshot,
    now: u64,
    router: bool,
)
    requires
        port.partner is None,
    ensures
        spec_reconcile(states, mode, port, now, router).state.phase is Detached,
        spec_reconcile(states, mode, port, now, router).transition is None,
        states.contains_key(port.name@) && !(states[port.name@].phase is Detached) ==> spec_reconcile(
            states,
            mode,
            port,
            now,
            router,
        ).state.generation != states[port.name@].generation,
{
    let g = states[port.name@].generation;
    assert(vstd::wrapping::u64_specs::wrapping_add(g, 1) != g);
}

/// A partner that appears on a detached port starts a new attachment whose
/// discovery deadline lies `DISCOVERY_TIMEOUT` ahead.
pub proof fn law_attachment_starts_discovery(
    states: Map<Seq<char>, PortState>,
    mode: Mode,
    port: PortSnapshot,
    now: u64,
    router: bool,
)
    requires
        port.partner is Some,
        !states.contains_key(port.name@) || states[port.name@].phase is Detached,
        now + crate::state::DISCOVERY_TIMEOUT <= u64::MAX,
    ensures
        spec_reconcile(states, mode, port, now, router).state.deadline == Some(
            (now + crate::state::DISCOVERY_TIMEOUT) as u64,
        ),
        spec_reconcile(states, mode, port, now, router).state.attached_at == Some(now),
        states.contains_key(port.name@) ==> spec_reconcile(states, mode, port, now, router).state.generation
            != states[port.name@].generation,
{
    let g = if states.contains_key(port.name@) {
        states[port.name@].generation
    } else {
        0
    };
    assert(vstd::wrapping::u64_specs::wrapping_add(g, 1) != g);
}

/// A failed attachment stays failed: until the partner goes away, the port is
/// only reported, never changed.
pub proof fn law_failure_is_terminal_until_detach(
    states: Map<Seq<char>, PortState>,
    mode: Mode,
    port: PortSnapshot,
    now: u64,
    router: bool,
)
    requires
        port.partner is Some,
        states.contains_key(port.name@),
        states[port.name@].phase is Failed,
    ensures
        spec_reconcile(states, mode, port, now, router).state == states[port.name@],
        spec_reconcile(states, mode, port, now, router).transition is None,
        spec_reconcile(states, mode, port, now, router).events.len() == 1,
        spec_reconcile(states, mode, port, now, router).events[0] is FailedTerminal,
{
}

/// Discovery is waited for only until its deadline: once it has expired the
/// reported decision is never a wait.
pub proof fn law_no_wait_after_discovery_deadline(
    states: Map<Seq<char>, PortState>,
    mode: Mode,
    port: PortSnapshot,
    now: u64,
    router: bool,
)
    requires
        port.partner is Some,
        discovery_expired(state_on_snapshot(states, port, now), now),
    ensures
        reported_decision(spec_reconcile(states, mode, port, now, router)) matches Some(d) ==> !(d is Wait),
{
    crate::policy::law_expired_discovery_never_waits(
        port,
        Context { discovery_expired: true },
    );
}

/// A port whose active mode already is the best candidate (for USB4: with a
/// router present in its domain) is kept: no request is made, which makes a
/// restart of the selector harmless.
pub proof fn law_settled_port_is_kept(
    states: Map<Seq<char>, PortState>,
    mode: Mode,
    port: PortSnapshot,
    now: u64,
    router: bool,
)
    requires
        port.partner is Some,
        !(state_on_snapshot(states, port, now).phase is Failed),
        spec_decide(
            port,
            Context { discovery_expired: discovery_expired(state_on_snapshot(states, port, now), now) },
        ) is Keep,
        port.active_mode is Usb4 ==> port.usb4_link is Some && router,
    ensures
        spec_reconcile(states, mode, port, now, router).transition is None,
        spec_reconcile(states, mode, port, now, router).state.phase == Phase::Active(port.active_mode),
        reported_decision(spec_reconcile(states, mode, port, now, router)) == Some(
            Decision::Keep(port.active_mode),
        ),
{
}

/// In live mode an alternate mode that is already active is kept rather
/// than replaced: the port is reported as needing coordination and no
/// request is made.
pub proof fn law_live_mode_keeps_active_alt_mode(
    states: Map<Seq<char>, PortState>,
    port: PortSnapshot,
    now: u64,
    router: bool,
)
    requires
        port.partner is Some,
        port.active_mode is DisplayPort || port.active_mode is Thunderbolt || port.active_mode is Other,
    ensures
        spec_reconcile(states, Mode::Live, port, now, router).transition is None,
        reported_decision(spec_reconcile(states, Mode::Live, port, now, router)) matches Some(
            Decision::Transition { .. },
        ) ==> spec_reconcile(states, Mode::Live, port, now, router).state.phase == Phase::Active(
            port.active_mode,
        ),
{
    let s1 = state_on_snapshot(states, port, now);
    let ctx = Context { discovery_expired: discovery_expired(s1, now) };
    crate::policy::law_decision_follows_candidates(port, ctx);
}

/// The removal of a partner object detaches its port: the attachment gets a
/// new generation, so every pending request of the old one is cancelled.
pub proof fn law_partner_removal_detaches(states: Map<Seq<char>, PortState>, hint: EventHint)
    requires
        hint.partner,
        hint.action is Remove || hint.action is Unbind,
        hint.port is Some,
    ensures
        spec_event(states, hint)[hint.port.unwrap()@].phase is Detached,
        states.contains_key(hint.port.unwrap()@) && !(states[hint.port.unwrap()@].phase is Detached)
            ==> spec_event(states, hint)[hint.port.unwrap()@].generation
            != states[hint.port.unwrap()@].generation,
        forall|k: Seq<char>|
            k != hint.port.unwrap()@ && #[trigger] states.contains_key(k) ==> spec_event(
                states,
                hint,
            )[k] == states[k],
{
    let k = hint.port.unwrap()@;
    let g = states[k].generation;
    assert(vstd::wrapping::u64_specs::wrapping_add(g, 1) != g);
}

/// Other udev events change nothing: they only prompt a fresh read.
pub proof fn law_other_events_change_nothing(states: Map<Seq<char>, PortState>, hint: EventHint)
    requires
        !hint.partner || !(hint.action is Remove || hint.action is Unbind),
    ensures
        spec_event(states, hint) == states,
{
}

/// Ports that disappeared are detached, and present ports are untouched.
pub proof fn law_absent_ports_are_detached(states: Map<Seq<char>, PortState>, present: Seq<Seq<char>>)
    ensures
        spec_detach_absent(states, present).dom() == states.dom(),
        forall|k: Seq<char>|
            #[trigger] states.contains_key(k) ==> (if present.contains(k) {
                spec_detach_absent(states, present)[k] == states[k]
            } else {
                spec_detach_absent(states, present)[k].phase is Detached
            }),
{
    assert(spec_detach_absent(states, present).dom() =~= states.dom());
}

/// An active USB4 connection is kept only once a router has appeared in its
/// domain. Before the discovery deadline, a port whose policy would keep
/// USB4 but which has no USB4 link or no router yet is reported as waiting
/// for the router; after the deadline it is moved to the best candidate (or
/// given up when there is none); with a router present it is kept.
pub proof fn law_active_usb4_waits_for_router(
    states: Map<Seq<char>, PortState>,
    mode: Mode,
    port: PortSnapshot,
    now: u64,
    router: bool,
)
    ensures
        ({
            let s1 = state_on_snapshot(states, port, now);
            let expired = s1.deadline matches Some(d) && now >= d;
            &&& port.partner is Some
            &&& !(s1.phase is Failed)
            &&& spec_decide(port, Context { discovery_expired: expired }) == Decision::Keep(ActiveMode::Usb4)
        }) ==> {
            let s1 = state_on_snapshot(states, port, now);
            let expired = s1.deadline matches Some(d) && now >= d;
            let plan = spec_reconcile(states, mode, port, now, router);
            let has_router = port.usb4_link is Some && router;
            &&& (!has_router && !expired) ==> reported_decision(plan) == Some(Decision::Wait(WaitReason::Usb4Router))
                && plan.state.phase == Phase::Discovering { reason: WaitReason::Usb4Router }
            &&& (!has_router && expired) ==> (match spec_candidates(port, Context { discovery_expired: true }) {
                Ok(list) => if list.len() > 0 {
                    reported_decision(plan) == Some(Decision::Transition { from: ActiveMode::Usb4, to: list[0] })
                } else {
                    reported_decision(plan) == Some(Decision::NoMode)
                },
                Err(_) => reported_decision(plan) == Some(Decision::NoMode),
            })
            &&& has_router ==> reported_decision(plan) == Some(Decision::Keep(ActiveMode::Usb4))
                && plan.state.phase == Phase::Active(ActiveMode::Usb4)
        },
{
}

} // verus!
