//! Per-port attachment state: the attachment generation, the phase of the
//! mode-selection protocol and the discovery deadline; and the ordered steps
//! of a mode transition.
//!
//! Times are milliseconds on a monotonic clock chosen by the caller.

use vstd::prelude::*;
use crate::policy::{Candidate, Decision, WaitReason, spec_active_matches};
use crate::topology::ActiveMode;

verus! {

/// How long discovery may stay incomplete after attachment, in milliseconds.
pub const DISCOVERY_TIMEOUT: u64 = 5000;

/// How long a requested mode may take to become active, in milliseconds.
pub const TRANSITION_TIMEOUT: u64 = 5000;

/// Delays between entry attempts, in milliseconds; one attempt per delay.
pub const RETRY_DELAYS: [u64; 3] = [100, 300, 900];

#[derive(Clone, Debug, PartialEq, Eq)]
pub enum Phase {
    Detached,
    Discovering { reason: WaitReason },
    Selecting,
    Exiting { target: Candidate },
    Entering { target: Candidate, attempt: u8 },
    Active(ActiveMode),
    Idle,
    Failed(String),
}

#[derive(Clone, Copy, Debug, PartialEq, Eq, Structural)]
pub enum TransitionStep {
    Exit,
    WaitForNone,
    Enter(Candidate),
}

pub open spec fn spec_transition_steps(from: ActiveMode, target: Candidate) -> Seq<TransitionStep> {
    if spec_active_matches(from, target) {
        seq![]
    } else if from is Inactive {
        seq![TransitionStep::Enter(target)]
    } else if target is OrdinaryUsb {
        seq![TransitionStep::Exit, TransitionStep::WaitForNone]
    } else {
        seq![TransitionStep::Exit, TransitionStep::WaitForNone, TransitionStep::Enter(target)]
    }
}

/// The steps that take a connector from the active mode `from` to `target`:
/// nothing when the mode already is right; otherwise exit the active mode and
/// wait until no mode is active before entering the target.
pub fn transition_steps(from: &ActiveMode, target: &Candidate) -> (steps: Vec<TransitionStep>)
    ensures
        steps@ == spec_transition_steps(*from, *target),
{
    let already_active = match (from, target) {
        (ActiveMode::Usb4, Candidate::Usb4) => true,
        (ActiveMode::Thunderbolt { .. }, Candidate::Thunderbolt { .. }) => true,
        (ActiveMode::DisplayPort { .. }, Candidate::DisplayPort { .. }) => true,
        _ => false,
    };
    let from_none = from.is_none();
    let to_ordinary = match target {
        Candidate::OrdinaryUsb => true,
        _ => false,
    };
    let mut steps: Vec<TransitionStep> = Vec::new();
    if already_active || (from_none && to_ordinary) {
    } else if from_none {
        steps.push(TransitionStep::Enter(*target));
    } else if to_ordinary {
        steps.push(TransitionStep::Exit);
        steps.push(TransitionStep::WaitForNone);
    } else {
        steps.push(TransitionStep::Exit);
        steps.push(TransitionStep::WaitForNone);
        steps.push(TransitionStep::Enter(*target));
    }
    assert(steps@ =~= spec_transition_steps(*from, *target));
    steps
}

/// The mode-selection state of one connector.
#[derive(Clone, Debug)]
pub struct PortState {
    pub generation: u64,
    pub phase: Phase,
    pub attached_at: Option<u64>,
    pub deadline: Option<u64>,
}

pub open spec fn detached_state() -> PortState {
    PortState { generation: 0, phase: Phase::Detached, attached_at: None, deadline: None }
}

pub open spec fn spec_attach(s: PortState, now: u64) -> PortState {
    PortState {
        generation: vstd::wrapping::u64_specs::wrapping_add(s.generation, 1),
        phase: Phase::Discovering { reason: WaitReason::PartnerIdentity },
        attached_at: Some(now),
        deadline: Some((now + DISCOVERY_TIMEOUT) as u64),
    }
}

pub open spec fn spec_detach(s: PortState) -> PortState {
    PortState {
        generation: vstd::wrapping::u64_specs::wrapping_add(s.generation, 1),
        phase: Phase::Detached,
        attached_at: None,
        deadline: None,
    }
}

pub open spec fn phase_for(decision: Decision) -> Phase {
    match decision {
        Decision::Wait(reason) => Phase::Discovering { reason },
        Decision::Keep(mode) => Phase::Active(mode),
        Decision::Transition { from, to } => if from is Inactive {
            Phase::Entering { target: to, attempt: 0 }
        } else {
            Phase::Exiting { target: to }
        },
        Decision::NoMode => Phase::Idle,
    }
}

pub open spec fn spec_apply_decision(s: PortState, decision: Decision) -> PortState {
    PortState { phase: phase_for(decision), ..s }
}

impl Default for PortState {
    fn default() -> (s: Self)
        ensures
            s == detached_state(),
    {
        PortState { generation: 0, phase: Phase::Detached, attached_at: None, deadline: None }
    }
}

impl PortState {
    /// A new attachment at time `now`: a fresh generation, discovery of the
    /// partner identity, and a discovery deadline `DISCOVERY_TIMEOUT` later.
    pub fn attach(&mut self, now: u64)
        requires
            now + DISCOVERY_TIMEOUT <= u64::MAX,
        ensures
            *final(self) == spec_attach(*old(self), now),
    {
        self.generation = self.generation.wrapping_add(1);
        self.phase = Phase::Discovering { reason: WaitReason::PartnerIdentity };
        self.attached_at = Some(now);
        self.deadline = Some(now + DISCOVERY_TIMEOUT);
    }

    /// The partner left: a fresh generation and no deadline.
    pub fn detach(&mut self)
        ensures
            *final(self) == spec_detach(*old(self)),
    {
        self.generation = self.generation.wrapping_add(1);
        self.phase = Phase::Detached;
        self.attached_at = None;
        self.deadline = None;
    }

    /// Records the phase that a policy decision leads to.
    pub fn apply_decision(&mut self, decision: &Decision)
        ensures
            *final(self) == spec_apply_decision(*old(self), *decision),
    {
        self.phase = match decision {
            Decision::Wait(reason) => Phase::Discovering { reason: *reason },
            Decision::Keep(mode) => Phase::Active(mode.duplicate()),
            Decision::Transition { from, to } => if from.is_none() {
                Phase::Entering { target: *to, attempt: 0 }
            } else {
                Phase::Exiting { target: *to }
            },
            Decision::NoMode => Phase::Idle,
        };
    }

    /// Whether the state still belongs to the attachment of `generation`.
    pub fn generation_is(&self, generation: u64) -> (same: bool)
        ensures
            same == (self.generation == generation),
    {
        self.generation == generation
    }
}

// ---------------------------------------------------------------- laws

/// Attaching and detaching each begin a new generation, so a delayed action
/// that holds the old generation can tell that it is stale.
pub proof fn law_attach_and_detach_invalidate_generation(s: PortState, now: u64)
    ensures
        spec_detach(s).generation != s.generation,
        spec_attach(s, now).generation != s.generation,
        spec_detach(spec_attach(s, now)).generation != s.generation,
        spec_detach(spec_attach(s, now)).generation != spec_attach(s, now).generation,
{
    let g = s.generation;
    assert(vstd::wrapping::u64_specs::wrapping_add(g, 1) != g);
    let g1 = vstd::wrapping::u64_specs::wrapping_add(g, 1);
    assert(vstd::wrapping::u64_specs::wrapping_add(g1, 1) != g);
}

/// Applying a decision only sets the phase, and applying the same decision
/// again changes nothing.
pub proof fn law_apply_decision_is_idempotent(s: PortState, decision: Decision)
    ensures
        spec_apply_decision(spec_apply_decision(s, decision), decision) == spec_apply_decision(
            s,
            decision,
        ),
        spec_apply_decision(s, decision).generation == s.generation,
        spec_apply_decision(s, decision).deadline == s.deadline,
        spec_apply_decision(s, decision).attached_at == s.attached_at,
{
}

/// A transition needs no steps exactly when the active mode already is the
/// target; a mode is entered only after the previously active mode has been
/// exited and no mode was seen active; ordinary USB is never entered; and the
/// target, when entered, is entered last.
pub proof fn law_transition_steps_are_safely_ordered(from: ActiveMode, target: Candidate)
    ensures
        (spec_transition_steps(from, target).len() == 0) <==> spec_active_matches(from, target),
        forall|k: int|
            0 <= k < spec_transition_steps(from, target).len()
                && #[trigger] spec_transition_steps(from, target)[k] is Enter ==> {
                &&& k == spec_transition_steps(from, target).len() - 1
                &&& spec_transition_steps(from, target)[k] == TransitionStep::Enter(target)
                &&& !(target is OrdinaryUsb)
                &&& !(from is Inactive) ==> k == 2 && spec_transition_steps(from, target)[0]
                    == TransitionStep::Exit && spec_transition_steps(from, target)[1]
                    == TransitionStep::WaitForNone
            },
        !(from is Inactive) && !spec_active_matches(from, target) ==> spec_transition_steps(
            from,
            target,
        )[0] == TransitionStep::Exit,
{
}

impl Phase {
    pub fn duplicate(&self) -> (p: Phase)
        ensures
            p == *self,
    {
        match self {
            Phase::Detached => Phase::Detached,
            Phase::Discovering { reason } => Phase::Discovering { reason: *reason },
            Phase::Selecting => Phase::Selecting,
            Phase::Exiting { target } => Phase::Exiting { target: *target },
            Phase::Entering { target, attempt } => Phase::Entering { target: *target, attempt: *attempt },
            Phase::Active(mode) => Phase::Active(mode.duplicate()),
            Phase::Idle => Phase::Idle,
            Phase::Failed(reason) => Phase::Failed(reason.clone()),
        }
    }

    /// Whether the phase is `Detached`.
    pub fn is_detached(&self) -> (d: bool)
        ensures
            d == (*self is Detached),
    {
        match self {
            Phase::Detached => true,
            _ => false,
        }
    }
}

impl PortState {
    pub fn duplicate(&self) -> (s: PortState)
        ensures
            s == *self,
    {
        PortState {
            generation: self.generation,
            phase: self.phase.duplicate(),
            attached_at: self.attached_at,
            deadline: self.deadline,
        }
    }
}

/// With no mode active, a mode is entered directly: the only step is the
/// entry, and an exit is planned only when some mode is active.
pub proof fn law_entry_without_active_mode_is_direct(from: ActiveMode, target: Candidate)
    ensures
        from is Inactive && !(target is OrdinaryUsb) ==> spec_transition_steps(from, target) == seq![
            TransitionStep::Enter(target),
        ],
        from is Inactive && target is OrdinaryUsb ==> spec_transition_steps(from, target).len() == 0,
        spec_transition_steps(from, target).contains(TransitionStep::Exit) ==> !(from is Inactive),
{
    if spec_transition_steps(from, target).contains(TransitionStep::Exit) && from is Inactive {
        let k = choose|k: int| 0 <= k < spec_transition_steps(from, target).len()
            && spec_transition_steps(from, target)[k] == TransitionStep::Exit;
        assert(spec_transition_steps(from, target)[k] == TransitionStep::Exit);
    }
}

} // verus!
