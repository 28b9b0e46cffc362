//! Candidate policy: which modes a connector may enter, in priority order
//! (USB4, Thunderbolt compatibility, DisplayPort, ordinary USB), and the
//! decision that follows from the currently active mode.

use vstd::prelude::*;
use crate::topology::{ActiveMode, AltMode, PartnerSnapshot, PortSnapshot, UsbMode};
use crate::vdo::{
    self, DISPLAYPORT_SVID, THUNDERBOLT_SVID, spec_cable_supports_dp, spec_cable_supports_tbt,
    spec_cable_supports_usb4, spec_dp_partner_receptacle, spec_modal, spec_partner_supports_usb4,
    spec_supports_dp, spec_supports_tbt,
};

verus! {

#[derive(Clone, Copy, Debug, PartialEq, Eq, Structural)]
pub enum Candidate {
    Usb4,
    Thunderbolt { svid: u16, mode: u8 },
    DisplayPort { svid: u16, mode: u8 },
    OrdinaryUsb,
}

#[derive(Clone, Copy, Debug, PartialEq, Eq, Structural)]
pub enum WaitReason {
    PartnerIdentity,
    PartnerModes,
    CableDiscovery,
    CableIdentity,
    Usb4Router,
}

#[derive(Clone, Debug, PartialEq, Eq)]
pub enum Decision {
    Wait(WaitReason),
    Keep(ActiveMode),
    Transition { from: ActiveMode, to: Candidate },
    NoMode,
}

#[derive(Clone, Copy, Debug, Default, PartialEq, Eq, Structural)]
pub struct Context {
    pub discovery_expired: bool,
}

// ---------------------------------------------------------------- model

/// The first alternate mode with the given SVID.
pub open spec fn find_svid(modes: Seq<AltMode>, svid: u16) -> Option<AltMode>
    decreases modes.len(),
{
    if modes.len() == 0 {
        None
    } else if modes[0].svid == svid {
        Some(modes[0])
    } else {
        find_svid(modes.drop_first(), svid)
    }
}

pub open spec fn spec_mode_candidate(mode: AltMode) -> Candidate {
    if mode.svid == THUNDERBOLT_SVID {
        Candidate::Thunderbolt { svid: mode.svid, mode: mode.mode }
    } else {
        Candidate::DisplayPort { svid: mode.svid, mode: mode.mode }
    }
}

pub open spec fn revision_view(rev: Option<String>) -> Option<Seq<char>> {
    match rev {
        Some(r) => Some(r@),
        None => None,
    }
}

/// Whether USB4 is a candidate; `Err` while the cable is still undiscovered.
pub open spec fn usb4_step(port: PortSnapshot, partner: PartnerSnapshot, ctx: Context) -> Result<bool, WaitReason> {
    let id = partner.identity.unwrap();
    if port.supports_usb4 && spec_partner_supports_usb4(id)
        && partner.usb_modes.available@.contains(UsbMode::Usb4) {
        match port.cable {
            Some(cable) => match cable.identity {
                Some(cable_id) => Ok(spec_cable_supports_usb4(cable_id, cable.plug_modes@)),
                None => if !ctx.discovery_expired {
                    Err(WaitReason::CableIdentity)
                } else {
                    Ok(false)
                },
            },
            None => if !ctx.discovery_expired {
                Err(WaitReason::CableDiscovery)
            } else {
                Ok(false)
            },
        }
    } else {
        Ok(false)
    }
}

/// The Thunderbolt candidate, if any; `Err` while the cable is still undiscovered.
pub open spec fn tbt_step(port: PortSnapshot, partner: PartnerSnapshot, ctx: Context) -> Result<Option<Candidate>, WaitReason> {
    let id = partner.identity.unwrap();
    if port.supports_usb4 && spec_modal(id) && spec_supports_tbt(partner.alt_modes@) {
        match port.cable {
            Some(cable) => match cable.identity {
                Some(cable_id) => if spec_cable_supports_tbt(
                    cable_id,
                    cable.plug_modes@,
                    revision_view(cable.pd_revision),
                ) {
                    match find_svid(partner.alt_modes@, THUNDERBOLT_SVID) {
                        Some(m) => Ok(Some(spec_mode_candidate(m))),
                        None => Ok(None),
                    }
                } else {
                    Ok(None)
                },
                None => if !ctx.discovery_expired {
                    Err(WaitReason::CableIdentity)
                } else {
                    Ok(None)
                },
            },
            None => if !ctx.discovery_expired {
                Err(WaitReason::CableDiscovery)
            } else {
                Ok(None)
            },
        }
    } else {
        Ok(None)
    }
}

/// Whether the cable is fit for DisplayPort (always, unless the partner is a
/// receptacle and an identified cable is not DisplayPort-capable).
pub open spec fn dp_cable_valid(port: PortSnapshot, partner: PartnerSnapshot) -> bool {
    !spec_dp_partner_receptacle(partner.alt_modes@) || match port.cable {
        Some(c) => match c.identity {
            Some(id) => spec_cable_supports_dp(id, c.plug_modes@),
            None => true,
        },
        None => true,
    }
}

/// The DisplayPort candidate, if any.
pub open spec fn dp_step(port: PortSnapshot, partner: PartnerSnapshot) -> Option<Candidate> {
    if spec_supports_dp(partner.alt_modes@) && dp_cable_valid(port, partner) {
        match find_svid(partner.alt_modes@, DISPLAYPORT_SVID) {
            Some(m) => Some(spec_mode_candidate(m)),
            None => None,
        }
    } else {
        None
    }
}

pub open spec fn opt_seq(c: Option<Candidate>) -> Seq<Candidate> {
    match c {
        Some(x) => seq![x],
        None => seq![],
    }
}

/// Candidates of an identified PD partner.
pub open spec fn identified_candidates(port: PortSnapshot, partner: PartnerSnapshot, ctx: Context) -> Result<Seq<Candidate>, WaitReason> {
    match usb4_step(port, partner, ctx) {
        Err(r) => Err(r),
        Ok(usb4) => match tbt_step(port, partner, ctx) {
            Err(r) => Err(r),
            Ok(tbt) => {
                let list = (if usb4 {
                    seq![Candidate::Usb4]
                } else {
                    seq![]
                }) + opt_seq(tbt) + opt_seq(dp_step(port, partner));
                if list.len() == 0 {
                    Ok(seq![Candidate::OrdinaryUsb])
                } else {
                    Ok(list)
                }
            },
        },
    }
}

/// Ordered candidates of a port, or the discovery step still awaited.
pub open spec fn spec_candidates(port: PortSnapshot, ctx: Context) -> Result<Seq<Candidate>, WaitReason> {
    match port.partner {
        None => Ok(seq![]),
        Some(partner) => if !partner.supports_pd {
            Ok(seq![Candidate::OrdinaryUsb])
        } else {
            match partner.identity {
                None => if ctx.discovery_expired {
                    Ok(seq![Candidate::OrdinaryUsb])
                } else {
                    Err(WaitReason::PartnerIdentity)
                },
                Some(id) => if id.id_header == 0 {
                    if ctx.discovery_expired {
                        Ok(seq![Candidate::OrdinaryUsb])
                    } else {
                        Err(WaitReason::PartnerIdentity)
                    }
                } else {
                    identified_candidates(port, partner, ctx)
                },
            }
        },
    }
}

/// The active mode already is the mode that the candidate asks for.
pub open spec fn spec_active_matches(active: ActiveMode, candidate: Candidate) -> bool {
    ||| active is Usb4 && candidate is Usb4
    ||| active is Thunderbolt && candidate is Thunderbolt
    ||| active is DisplayPort && candidate is DisplayPort
    ||| active is Inactive && candidate is OrdinaryUsb
}

pub open spec fn spec_decide(port: PortSnapshot, ctx: Context) -> Decision {
    match spec_candidates(port, ctx) {
        Err(reason) => Decision::Wait(reason),
        Ok(list) => if list.len() == 0 {
            if port.active_mode is Inactive {
                Decision::NoMode
            } else {
                Decision::Transition { from: port.active_mode, to: Candidate::OrdinaryUsb }
            }
        } else if spec_active_matches(port.active_mode, list[0]) {
            Decision::Keep(port.active_mode)
        } else {
            Decision::Transition { from: port.active_mode, to: list[0] }
        },
    }
}

pub open spec fn candidates_view(r: Result<Vec<Candidate>, WaitReason>) -> Result<Seq<Candidate>, WaitReason> {
    match r {
        Ok(v) => Ok(v@),
        Err(e) => Err(e),
    }
}

// ---------------------------------------------------------------- code

fn mode_candidate(mode: &AltMode) -> (c: Candidate)
    ensures
        c == spec_mode_candidate(*mode),
{
    if mode.svid == THUNDERBOLT_SVID {
        Candidate::Thunderbolt { svid: mode.svid, mode: mode.mode }
    } else {
        Candidate::DisplayPort { svid: mode.svid, mode: mode.mode }
    }
}

proof fn lemma_find_svid_step(modes: Seq<AltMode>, svid: u16, i: int)
    requires
        0 <= i < modes.len(),
    ensures
        find_svid(modes.skip(i), svid) == if modes[i].svid == svid {
            Some(modes[i])
        } else {
            find_svid(modes.skip(i + 1), svid)
        },
{
    assert(modes.skip(i).drop_first() =~= modes.skip(i + 1));
}

fn first_with_svid(modes: &Vec<AltMode>, svid: u16) -> (found: Option<usize>)
    ensures
        match found {
            Some(i) => i < modes@.len() && find_svid(modes@, svid) == Some(modes@[i as int]),
            None => find_svid(modes@, svid) is None,
        },
{
    let mut i: usize = 0;
    assert(modes@.skip(0) =~= modes@);
    while i < modes.len()
        invariant
            i <= modes@.len(),
            find_svid(modes@, svid) == find_svid(modes@.skip(i as int), svid),
        decreases modes@.len() - i,
    {
        proof {
            lemma_find_svid_step(modes@, svid, i as int);
        }
        if modes[i].svid == svid {
            return Some(i);
        }
        i = i + 1;
    }
    assert(modes@.skip(i as int).len() == 0);
    None
}

fn contains_usb4(partner: &PartnerSnapshot) -> (yes: bool)
    ensures
        yes == partner.usb_modes.available@.contains(UsbMode::Usb4),
{
    partner.usb_modes.contains(UsbMode::Usb4)
}

fn exec_usb4_step(port: &PortSnapshot, partner: &PartnerSnapshot, ctx: Context) -> (r: Result<bool, WaitReason>)
    requires
        partner.identity is Some,
    ensures
        r == usb4_step(*port, *partner, ctx),
{
    let id = partner.identity.as_ref().unwrap();
    if port.supports_usb4 && vdo::partner_supports_usb4(id) && contains_usb4(partner) {
        match &port.cable {
            Some(cable) => match &cable.identity {
                Some(cable_id) => Ok(vdo::cable_supports_usb4(cable_id, cable.plug_modes.as_slice())),
                None => if !ctx.discovery_expired {
                    Err(WaitReason::CableIdentity)
                } else {
                    Ok(false)
                },
            },
            None => if !ctx.discovery_expired {
                Err(WaitReason::CableDiscovery)
            } else {
                Ok(false)
            },
        }
    } else {
        Ok(false)
    }
}

fn revision_str(rev: &Option<String>) -> (r: Option<&str>)
    ensures
        match r {
            Some(s) => revision_view(*rev) == Some(s@),
            None => revision_view(*rev) is None,
        },
{
    match rev {
        Some(s) => Some(s.as_str()),
        None => None,
    }
}

fn exec_tbt_step(port: &PortSnapshot, partner: &PartnerSnapshot, ctx: Context) -> (r: Result<Option<Candidate>, WaitReason>)
    requires
        partner.identity is Some,
    ensures
        r == tbt_step(*port, *partner, ctx),
{
    let id = partner.identity.as_ref().unwrap();
    if port.supports_usb4 && vdo::modal(id) && vdo::supports_tbt(partner.alt_modes.as_slice()) {
        match &port.cable {
            Some(cable) => match &cable.identity {
                Some(cable_id) => {
                    let rev = revision_str(&cable.pd_revision);
                    if vdo::cable_supports_tbt(cable_id, cable.plug_modes.as_slice(), rev) {
                        match first_with_svid(&partner.alt_modes, THUNDERBOLT_SVID) {
                            Some(i) => Ok(Some(mode_candidate(&partner.alt_modes[i]))),
                            None => Ok(None),
                        }
                    } else {
                        Ok(None)
                    }
                },
                None => if !ctx.discovery_expired {
                    Err(WaitReason::CableIdentity)
                } else {
                    Ok(None)
                },
            },
            None => if !ctx.discovery_expired {
                Err(WaitReason::CableDiscovery)
            } else {
                Ok(None)
            },
        }
    } else {
        Ok(None)
    }
}

fn exec_dp_step(port: &PortSnapshot, partner: &PartnerSnapshot) -> (r: Option<Candidate>)
    ensures
        r == dp_step(*port, *partner),
{
    if !vdo::supports_dp(partner.alt_modes.as_slice()) {
        return None;
    }
    let cable_valid = if !vdo::dp_partner_receptacle(partner.alt_modes.as_slice()) {
        true
    } else {
        match &port.cable {
            Some(c) => match &c.identity {
                Some(id) => vdo::cable_supports_dp(id, c.plug_modes.as_slice()),
                None => true,
            },
            None => true,
        }
    };
    if !cable_valid {
        return None;
    }
    match first_with_svid(&partner.alt_modes, DISPLAYPORT_SVID) {
        Some(i) => Some(mode_candidate(&partner.alt_modes[i])),
        None => None,
    }
}

/// The ordered candidate modes of a port: `Err` names the discovery step
/// that must complete first, which can only happen before the discovery
/// deadline has expired.
pub fn candidates(port: &PortSnapshot, context: Context) -> (r: Result<Vec<Candidate>, WaitReason>)
    ensures
        candidates_view(r) == spec_candidates(*port, context),
{
    let partner = match &port.partner {
        Some(p) => p,
        None => return Ok(Vec::new()),
    };
    if !partner.supports_pd {
        return Ok(ordinary_only());
    }
    let identity = match &partner.identity {
        Some(id) => id,
        None => {
            return if context.discovery_expired {
                Ok(ordinary_only())
            } else {
                Err(WaitReason::PartnerIdentity)
            };
        },
    };
    if identity.id_header == 0 {
        return if context.discovery_expired {
            Ok(ordinary_only())
        } else {
            Err(WaitReason::PartnerIdentity)
        };
    }
    let usb4 = match exec_usb4_step(port, partner, context) {
        Ok(b) => b,
        Err(r) => return Err(r),
    };
    let tbt = match exec_tbt_step(port, partner, context) {
        Ok(t) => t,
        Err(r) => return Err(r),
    };
    let dp = exec_dp_step(port, partner);
    let mut result: Vec<Candidate> = Vec::new();
    if usb4 {
        result.push(Candidate::Usb4);
    }
    match tbt {
        Some(c) => result.push(c),
        None => {},
    }
    match dp {
        Some(c) => result.push(c),
        None => {},
    }
    proof {
        let expected = (if usb4 {
            seq![Candidate::Usb4]
        } else {
            seq![]
        }) + opt_seq(tbt) + opt_seq(dp);
        assert(result@ =~= expected);
    }
    if result.len() == 0 {
        result.push(Candidate::OrdinaryUsb);
        assert(result@ =~= seq![Candidate::OrdinaryUsb]);
    }
    Ok(result)
}

fn ordinary_only() -> (v: Vec<Candidate>)
    ensures
        v@ == seq![Candidate::OrdinaryUsb],
{
    let mut v: Vec<Candidate> = Vec::new();
    v.push(Candidate::OrdinaryUsb);
    assert(v@ =~= seq![Candidate::OrdinaryUsb]);
    v
}

fn active_matches(active: &ActiveMode, candidate: &Candidate) -> (m: bool)
    ensures
        m == spec_active_matches(*active, *candidate),
{
    match (active, candidate) {
        (ActiveMode::Usb4, Candidate::Usb4) => true,
        (ActiveMode::Thunderbolt { .. }, Candidate::Thunderbolt { .. }) => true,
        (ActiveMode::DisplayPort { .. }, Candidate::DisplayPort { .. }) => true,
        (ActiveMode::Inactive, Candidate::OrdinaryUsb) => true,
        _ => false,
    }
}

/// The decision for a port: wait for discovery, keep the active mode when it
/// already is the best candidate, transition to the best candidate (or to
/// ordinary USB when nothing is attached but a mode is active), or no mode.
pub fn decide(port: &PortSnapshot, context: Context) -> (d: Decision)
    ensures
        d == spec_decide(*port, context),
{
    let list = match candidates(port, context) {
        Ok(value) => value,
        Err(reason) => return Decision::Wait(reason),
    };
    if list.len() == 0 {
        return if port.active_mode.is_none() {
            Decision::NoMode
        } else {
            Decision::Transition { from: port.active_mode.duplicate(), to: Candidate::OrdinaryUsb }
        };
    }
    let best = list[0];
    if active_matches(&port.active_mode, &best) {
        Decision::Keep(port.active_mode.duplicate())
    } else {
        Decision::Transition { from: port.active_mode.duplicate(), to: best }
    }
}

// ---------------------------------------------------------------- laws

/// Priority rank: USB4, then Thunderbolt, then DisplayPort, then ordinary USB.
pub open spec fn rank(c: Candidate) -> int {
    match c {
        Candidate::Usb4 => 0,
        Candidate::Thunderbolt { .. } => 1,
        Candidate::DisplayPort { .. } => 2,
        Candidate::OrdinaryUsb => 3,
    }
}

pub open spec fn strictly_ranked(s: Seq<Candidate>) -> bool {
    forall|i: int, j: int| 0 <= i < j < s.len() ==> rank(#[trigger] s[i]) < rank(#[trigger] s[j])
}

proof fn lemma_find_svid_has_svid(modes: Seq<AltMode>, svid: u16)
    ensures
        find_svid(modes, svid) matches Some(m) ==> m.svid == svid,
    decreases modes.len(),
{
    if modes.len() > 0 && modes[0].svid != svid {
        lemma_find_svid_has_svid(modes.drop_first(), svid);
    }
}

proof fn lemma_step_kinds(port: PortSnapshot, partner: PartnerSnapshot, ctx: Context)
    requires
        partner.identity is Some,
    ensures
        tbt_step(port, partner, ctx) matches Ok(Some(c)) ==> c is Thunderbolt,
        dp_step(port, partner) matches Some(c) ==> c is DisplayPort,
{
    lemma_find_svid_has_svid(partner.alt_modes@, THUNDERBOLT_SVID);
    lemma_find_svid_has_svid(partner.alt_modes@, DISPLAYPORT_SVID);
}

/// The candidates are listed in strict priority order (so each kind occurs at
/// most once); ordinary USB is offered only alone; and the list is empty
/// exactly when no partner is attached.
pub proof fn law_candidates_follow_priority(port: PortSnapshot, ctx: Context)
    ensures
        spec_candidates(port, ctx) matches Ok(list) ==> {
            &&& strictly_ranked(list)
            &&& list.contains(Candidate::OrdinaryUsb) ==> list == seq![Candidate::OrdinaryUsb]
            &&& (list.len() == 0 <==> port.partner is None)
        },
{
    if let Some(partner) = port.partner {
        if partner.supports_pd && partner.identity is Some && partner.identity.unwrap().id_header
            != 0 {
            lemma_step_kinds(port, partner, ctx);
            if let Ok(list) = spec_candidates(port, ctx) {
                if list.contains(Candidate::OrdinaryUsb) {
                    let k = choose|k: int| 0 <= k < list.len() && list[k] == Candidate::OrdinaryUsb;
                    assert(list[k] == Candidate::OrdinaryUsb);
                }
            }
        }
    }
}

/// Once the discovery deadline has expired the policy never waits: what is
/// still undiscovered is left out instead.
pub proof fn law_expired_discovery_never_waits(port: PortSnapshot, ctx: Context)
    requires
        ctx.discovery_expired,
    ensures
        spec_candidates(port, ctx) is Ok,
{
}

/// Expiry of the discovery deadline only settles what was still being waited
/// for: a list that was available before the deadline stays the same after it.
pub proof fn law_expiry_only_resolves_waits(port: PortSnapshot)
    ensures
        spec_candidates(port, Context { discovery_expired: false }) is Ok ==> spec_candidates(
            port,
            Context { discovery_expired: true },
        ) == spec_candidates(port, Context { discovery_expired: false }),
{
}

/// High-speed candidates are never inferred: USB4 and Thunderbolt are offered
/// only for a USB4-capable host with an identified cable that supports them.
pub proof fn law_high_speed_requires_identified_cable(port: PortSnapshot, ctx: Context)
    ensures
        spec_candidates(port, ctx) matches Ok(list) ==> (list.contains(Candidate::Usb4) ==> {
            &&& port.supports_usb4
            &&& port.cable matches Some(cable) && cable.identity matches Some(id)
                && spec_cable_supports_usb4(id, cable.plug_modes@)
        }),
        spec_candidates(port, ctx) matches Ok(list) ==> (forall|i: int|
            0 <= i < list.len() && #[trigger] list[i] is Thunderbolt ==> {
                &&& port.supports_usb4
                &&& port.cable matches Some(cable) && cable.identity matches Some(id)
                    && spec_cable_supports_tbt(id, cable.plug_modes@, revision_view(cable.pd_revision))
            }),
{
    if let Some(partner) = port.partner {
        if partner.supports_pd && partner.identity is Some && partner.identity.unwrap().id_header
            != 0 {
            lemma_step_kinds(port, partner, ctx);
            if let Ok(list) = spec_candidates(port, ctx) {
                if list.contains(Candidate::Usb4) {
                    let k = choose|k: int| 0 <= k < list.len() && list[k] == Candidate::Usb4;
                    assert(list[k] == Candidate::Usb4);
                }
            }
        }
    }
}

/// A non-PD partner is only ever offered ordinary USB.
pub proof fn law_non_pd_partner_is_ordinary_usb(port: PortSnapshot, ctx: Context)
    requires
        port.partner matches Some(p) && !p.supports_pd,
    ensures
        spec_candidates(port, ctx) == Ok::<Seq<Candidate>, WaitReason>(seq![Candidate::OrdinaryUsb]),
{
}

/// The decision waits exactly when the candidates are not yet known, keeps
/// only the mode that is active, and never transitions to the mode that is
/// already active; when the active mode already is the best candidate, it is
/// kept (so a settled port is left alone).
pub proof fn law_decision_follows_candidates(port: PortSnapshot, ctx: Context)
    ensures
        (spec_decide(port, ctx) is Wait) <==> (spec_candidates(port, ctx) is Err),
        spec_decide(port, ctx) matches Decision::Wait(r) ==> spec_candidates(port, ctx) == Err::<
            Seq<Candidate>,
            WaitReason,
        >(r),
        spec_decide(port, ctx) matches Decision::Keep(m) ==> m == port.active_mode,
        spec_decide(port, ctx) matches Decision::Transition { from, to } ==> from == port.active_mode
            && !spec_active_matches(from, to),
        spec_candidates(port, ctx) matches Ok(list) ==> (list.len() > 0 && spec_active_matches(
            port.active_mode,
            list[0],
        ) ==> spec_decide(port, ctx) == Decision::Keep(port.active_mode)),
        spec_decide(port, ctx) matches Decision::Transition { to, .. } ==> (
        spec_candidates(port, ctx) matches Ok(list) && (list.len() > 0 && to == list[0] || list.len()
            == 0 && to == Candidate::OrdinaryUsb)),
{
}

impl Decision {
    pub fn duplicate(&self) -> (d: Decision)
        ensures
            d == *self,
    {
        match self {
            Decision::Wait(r) => Decision::Wait(*r),
            Decision::Keep(m) => Decision::Keep(m.duplicate()),
            Decision::Transition { from, to } => Decision::Transition { from: from.duplicate(), to: *to },
            Decision::NoMode => Decision::NoMode,
        }
    }
}

/// There are at most four candidates.
pub proof fn lemma_candidates_are_few(port: PortSnapshot, ctx: Context)
    ensures
        spec_candidates(port, ctx) matches Ok(list) ==> list.len() <= 4,
{
}

proof fn lemma_find_svid_exists(modes: Seq<AltMode>, svid: u16, i: int)
    requires
        0 <= i < modes.len(),
        modes[i].svid == svid,
    ensures
        find_svid(modes, svid) is Some,
    decreases modes.len(),
{
    if modes[0].svid != svid {
        lemma_find_svid_exists(modes.drop_first(), svid, i - 1);
    }
}

/// The decision keeps the active mode exactly when it already is the mode of
/// the best candidate (USB4 for USB4, Thunderbolt for Thunderbolt,
/// DisplayPort for DisplayPort, no mode for ordinary USB); otherwise it
/// moves from the active mode to the best candidate.
pub proof fn law_decide_keeps_only_the_best_mode(port: PortSnapshot, ctx: Context)
    ensures
        (spec_candidates(port, ctx) is Ok && spec_candidates(port, ctx)->Ok_0.len() > 0) ==> {
            let a = port.active_mode;
            let best = spec_candidates(port, ctx)->Ok_0[0];
            let same = (a is Usb4 && best is Usb4) || (a is Thunderbolt && best is Thunderbolt)
                || (a is DisplayPort && best is DisplayPort) || (a is Inactive && best is OrdinaryUsb);
            &&& same ==> spec_decide(port, ctx) == Decision::Keep(a)
            &&& !same ==> spec_decide(port, ctx) == Decision::Transition { from: a, to: best }
        },
{
}

/// A partner whose DisplayPort mode is a receptacle is offered DisplayPort
/// only over a cable that carries it: on an identified cable that does not
/// support DisplayPort (such as a USB 2.0 passive cable) no DisplayPort
/// candidate is listed. Without a receptacle, or with a capable or
/// unidentified cable, a DisplayPort sink of an identified PD partner is
/// listed.
pub proof fn law_displayport_needs_a_capable_cable(port: PortSnapshot, ctx: Context)
    ensures
        ({
            &&& spec_candidates(port, ctx) is Ok
            &&& port.partner is Some
            &&& spec_dp_partner_receptacle(port.partner->Some_0.alt_modes@)
            &&& port.cable is Some
            &&& port.cable->Some_0.identity is Some
            &&& !spec_cable_supports_dp(port.cable->Some_0.identity->Some_0, port.cable->Some_0.plug_modes@)
        }) ==> forall|i: int| 0 <= i < spec_candidates(port, ctx)->Ok_0.len()
            ==> !(#[trigger] spec_candidates(port, ctx)->Ok_0[i] is DisplayPort),
        ({
            &&& spec_candidates(port, ctx) is Ok
            &&& port.partner is Some
            &&& port.partner->Some_0.supports_pd
            &&& port.partner->Some_0.identity is Some
            &&& port.partner->Some_0.identity->Some_0.id_header != 0
            &&& spec_supports_dp(port.partner->Some_0.alt_modes@)
            &&& (!spec_dp_partner_receptacle(port.partner->Some_0.alt_modes@) || port.cable is None
                || port.cable->Some_0.identity is None
                || spec_cable_supports_dp(port.cable->Some_0.identity->Some_0, port.cable->Some_0.plug_modes@))
        }) ==> exists|i: int| 0 <= i < spec_candidates(port, ctx)->Ok_0.len()
            && #[trigger] spec_candidates(port, ctx)->Ok_0[i] is DisplayPort,
{
    if let Some(p) = port.partner {
        if p.identity is Some {
            lemma_step_kinds(port, p, ctx);
            lemma_find_svid_has_svid(p.alt_modes@, THUNDERBOLT_SVID);
            lemma_find_svid_has_svid(p.alt_modes@, DISPLAYPORT_SVID);
            if let Ok(list) = spec_candidates(port, ctx) {
                if p.supports_pd && p.identity.unwrap().id_header != 0 {
                    if let Ok(usb4) = usb4_step(port, p, ctx) {
                        if let Ok(tbt) = tbt_step(port, p, ctx) {
                            let head = (if usb4 { seq![Candidate::Usb4] } else { seq![] }) + opt_seq(tbt);
                            let l = head + opt_seq(dp_step(port, p));
                            assert forall|i: int| 0 <= i < head.len() implies !(#[trigger] head[i] is DisplayPort) by {
                                if usb4 && i == 0 {
                                } else {
                                    let k = if usb4 { i - 1 } else { i };
                                    assert(head[i] == opt_seq(tbt)[k]);
                                }
                            }
                            if spec_supports_dp(p.alt_modes@) && dp_cable_valid(port, p) {
                                let w = choose|w: int| 0 <= w < p.alt_modes@.len()
                                    && #[trigger] p.alt_modes@[w].svid == DISPLAYPORT_SVID
                                    && p.alt_modes@[w].vdo & crate::vdo::DP_MODE_SINK != 0;
                                lemma_find_svid_exists(p.alt_modes@, DISPLAYPORT_SVID, w);
                                assert(l[head.len() as int] is DisplayPort);
                            } else {
                                assert(opt_seq(dp_step(port, p)) =~= Seq::<Candidate>::empty());
                                assert(l =~= head);
                            }
                        }
                    }
                }
            }
        }
    }
}

} // verus!
