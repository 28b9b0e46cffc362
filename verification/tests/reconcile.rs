use cros_typec_selector::daemon::{PortOutcome, collect_events};
use cros_typec_selector::daemon::{
    Daemon, Mode, OperationStage, ReconcileEvent, ReconcileStart, WaitCondition, WaitOutcome,
    wait_step,
};
use cros_typec_selector::error::{Error, IoErrorKind};
use cros_typec_selector::policy::{Candidate, Decision, WaitReason};
use cros_typec_selector::state::Phase;
use cros_typec_selector::sysfs::{Operation, RawIdentity, RawPartner, RawPort, ReadText, Sysfs};
use cros_typec_selector::topology::{
    ActiveMode, AltMode, CableSnapshot, DataRole, PartnerSnapshot, PdIdentity, PortSnapshot, UsbMode, UsbModeSet,
};
use cros_typec_selector::transition::{TransitionAction, TransitionEvent};
use cros_typec_selector::udev::{EventAction, EventHint};

fn text(value: &str) -> ReadText {
    Ok(Some(value.to_owned()))
}

fn raw(name: &str, partner: Option<RawPartner>) -> RawPort {
    RawPort {
        name: name.to_owned(),
        exists: true,
        data_role: text("[host]"),
        partner,
        cable: None,
        usb4: Ok((None, true)),
    }
}

fn usb4_partner() -> RawPartner {
    RawPartner {
        supports_pd: text("yes"),
        pd_revision: text("3.0"),
        identity: Some(RawIdentity {
            id_header: text("0x08000000"),
            cert_stat: Ok(None),
            product: Ok(None),
            product_type_vdo1: text("0x08000000"),
            product_type_vdo2: Ok(None),
            product_type_vdo3: Ok(None),
        }),
        usb_mode: text("[usb2] usb3 usb4"),
        alt_modes: Ok(Vec::new()),
    }
}

fn daemon(mode: Mode) -> Daemon {
    Daemon::new(Sysfs::new("/typec".to_owned()), mode)
}

fn finished(start: ReconcileStart) -> Vec<ReconcileEvent> {
    match start {
        ReconcileStart::Finished(events) => events,
        ReconcileStart::Transition { .. } => panic!("unexpected transition"),
    }
}

fn dp_port() -> PortSnapshot {
    PortSnapshot {
        syspath: "/typec/port0".into(),
        name: "port0".into(),
        data_role: Some(DataRole::Host),
        supports_usb4: true,
        partner: Some(PartnerSnapshot {
            syspath: "/typec/port0-partner".into(),
            supports_pd: true,
            pd_revision: Some("3.0".into()),
            identity: Some(PdIdentity {
                id_header: 1 << 27,
                cert_stat: 0,
                product: 0,
                product_type_vdos: [Some(0x0800_0000), None, None],
            }),
            usb_modes: UsbModeSet {
                available: vec![UsbMode::Usb2, UsbMode::Usb4],
                active: Some(UsbMode::Usb2),
            },
            alt_modes: vec![AltMode {
                syspath: "/typec/port0-partner.0".into(),
                svid: 0xff01,
                mode: 1,
                vdo: 0x1,
                active: true,
            }],
        }),
        cable: Some(CableSnapshot {
            syspath: "/typec/port0-cable".into(),
            pd_revision: Some("3.0".into()),
            identity: Some(PdIdentity {
                id_header: 3 << 27,
                cert_stat: 0,
                product: 0,
                product_type_vdos: [Some(1), None, None],
            }),
            plug_modes: Vec::new(),
        }),
        active_mode: ActiveMode::DisplayPort { syspath: "/typec/port0-partner.0".into() },
        usb4_link: None,
    }
}

#[test]
fn a_port_without_partner_is_detached() {
    let mut d = daemon(Mode::DryRun);
    let events = finished(d.reconcile_port(&raw("port0", None), 0, false).unwrap());
    assert_eq!(events.len(), 1);
    assert!(matches!(&events[0], ReconcileEvent::Detached { port, generation: 0 } if port == "port0"));
}

#[test]
fn unreadable_ports_change_nothing() {
    let mut d = daemon(Mode::DryRun);
    assert!(matches!(d.reconcile_port(&raw("cable0", None), 0, false), Err(Error::InvalidPort(_))));
    assert!(d.state("cable0").is_none());
}

#[test]
fn attachment_waits_for_discovery_then_gives_up() {
    let mut d = daemon(Mode::DryRun);
    let events = finished(d.reconcile_port(&raw("port0", Some(usb4_partner())), 1_000, false).unwrap());
    match &events[0] {
        ReconcileEvent::Snapshot { generation, decision, .. } => {
            assert_eq!(*generation, 1);
            assert_eq!(*decision, Decision::Wait(WaitReason::CableDiscovery));
        }
        other => panic!("unexpected {other:?}"),
    }
    let state = d.state("port0").unwrap();
    assert_eq!(state.deadline, Some(6_000));
    assert!(matches!(state.phase, Phase::Discovering { reason: WaitReason::CableDiscovery }));
    assert_eq!(d.next_discovery_timeout(2_000), Some(4_000));
    assert_eq!(d.next_discovery_timeout(7_000), Some(0));

    let events = finished(d.reconcile_port(&raw("port0", Some(usb4_partner())), 7_000, false).unwrap());
    match &events[0] {
        ReconcileEvent::Snapshot { generation, decision, candidates, .. } => {
            assert_eq!(*generation, 1);
            assert_eq!(*candidates, Ok(vec![Candidate::OrdinaryUsb]));
            assert_eq!(*decision, Decision::Keep(ActiveMode::Inactive));
        }
        other => panic!("unexpected {other:?}"),
    }
    assert_eq!(d.next_discovery_timeout(7_000), None);
}

#[test]
fn partner_removal_detaches_and_renews_the_generation() {
    let mut d = daemon(Mode::DryRun);
    d.reconcile_port(&raw("port0", Some(usb4_partner())), 0, false).unwrap();
    assert!(d.generation_matches("port0", 1));
    d.event(&EventHint { port: Some("port0".into()), action: EventAction::Change, partner: true });
    assert!(d.generation_matches("port0", 1));
    d.event(&EventHint { port: Some("port0".into()), action: EventAction::Remove, partner: false });
    assert!(d.generation_matches("port0", 1));
    d.event(&EventHint { port: Some("port0".into()), action: EventAction::Remove, partner: true });
    assert!(!d.generation_matches("port0", 1));
    assert_eq!(d.state("port0").unwrap().phase, Phase::Detached);
}

#[test]
fn listing_detaches_ports_that_are_gone() {
    let mut d = daemon(Mode::DryRun);
    d.reconcile_port(&raw("port0", Some(usb4_partner())), 0, false).unwrap();
    let failure = Error::Io { path: "/typec".into(), kind: IoErrorKind::Other, detail: "x".into() };
    assert_eq!(d.reconcile_all(&Err(failure.clone())), Err(failure));
    assert!(d.generation_matches("port0", 1));
    assert_eq!(d.reconcile_all(&Ok(vec!["port1".to_owned()])), Ok(vec!["port1".to_owned()]));
    assert_eq!(d.state("port0").unwrap().phase, Phase::Detached);
}

#[test]
fn failure_is_terminal_until_detach() {
    let mut d = daemon(Mode::DryRun);
    d.reconcile_port(&raw("port0", Some(usb4_partner())), 0, false).unwrap();
    d.conclude("port0", 7, true);
    assert!(!matches!(d.state("port0").unwrap().phase, Phase::Failed(_)));
    d.conclude("port0", 1, true);
    assert_eq!(d.state("port0").unwrap().phase, Phase::Failed("bounded transition failure".into()));
    let events = finished(d.reconcile_port(&raw("port0", Some(usb4_partner())), 10, false).unwrap());
    assert!(matches!(&events[0], ReconcileEvent::FailedTerminal { reason, .. } if reason == "bounded transition failure"));
    finished(d.reconcile_port(&raw("port0", None), 20, false).unwrap());
    assert_eq!(d.state("port0").unwrap().phase, Phase::Detached);
}

#[test]
fn live_mode_keeps_an_active_displayport() {
    let mut d = daemon(Mode::Live);
    let events = finished(d.begin_reconcile(dp_port(), 0, false));
    assert_eq!(events.len(), 2);
    assert!(matches!(&events[1], ReconcileEvent::CoordinationRequired { keeping: ActiveMode::DisplayPort { .. }, .. }));
    assert!(matches!(d.state("port0").unwrap().phase, Phase::Active(ActiveMode::DisplayPort { .. })));
}

#[test]
fn dry_run_transition_reports_without_writing() {
    let mut d = daemon(Mode::DryRun);
    let (events, mut machine) = match d.begin_reconcile(dp_port(), 0, false) {
        ReconcileStart::Transition { events, machine } => (events, machine),
        ReconcileStart::Finished(events) => panic!("unexpected {events:?}"),
    };
    assert!(matches!(&events[0], ReconcileEvent::Snapshot { decision: Decision::Transition { to: Candidate::Usb4, .. }, .. }));
    assert_eq!(machine.port_name(), "port0");
    assert_eq!(machine.generation(), 1);
    let step = machine.step(TransitionEvent::Start);
    assert!(matches!(step.action, TransitionAction::CheckValidity));
    let step = machine.step(TransitionEvent::Validity(true));
    assert!(matches!(&step.events[0], ReconcileEvent::Operation { stage: OperationStage::Exit, operation: Operation::Exit { path }, .. } if path == "/typec/port0-partner.0/active"));
    assert!(matches!(&step.events[1], ReconcileEvent::WaitForNone { .. }));
    assert!(matches!(step.action, TransitionAction::ReadPort));
    let step = machine.step(TransitionEvent::Snapshot(Err(Error::InvalidPort("port0".into()))));
    assert!(matches!(&step.events[0], ReconcileEvent::Operation { stage: OperationStage::Enter, operation: Operation::EnterUsb4 { path }, .. } if path == "/typec/port0-partner/usb_mode"));
    assert!(matches!(step.action, TransitionAction::Finished(Ok(()))));
    assert!(!machine.failed());
}

#[test]
fn cancelled_before_exit_when_the_attachment_changed() {
    let mut d = daemon(Mode::DryRun);
    let mut machine = match d.begin_reconcile(dp_port(), 0, false) {
        ReconcileStart::Transition { machine, .. } => machine,
        ReconcileStart::Finished(events) => panic!("unexpected {events:?}"),
    };
    machine.step(TransitionEvent::Start);
    let step = machine.step(TransitionEvent::Validity(false));
    assert!(matches!(&step.events[0], ReconcileEvent::Cancelled { stage, .. } if stage == "before-exit"));
    assert!(matches!(step.action, TransitionAction::Finished(Ok(()))));
}

#[test]
fn waits_end_on_vanished_ports() {
    assert!(matches!(
        wait_step(WaitCondition::NoActiveMode, Err(Error::InvalidPort("port0".into())), false),
        WaitOutcome::Abandoned
    ));
    let missing = Error::Io { path: "p".into(), kind: IoErrorKind::NotFound, detail: "gone".into() };
    assert!(matches!(wait_step(WaitCondition::NoActiveMode, Err(missing), false), WaitOutcome::Abandoned));
    let denied = Error::Io { path: "p".into(), kind: IoErrorKind::Other, detail: "denied".into() };
    assert!(matches!(wait_step(WaitCondition::NoActiveMode, Err(denied), false), WaitOutcome::Failed(_)));
    assert!(matches!(wait_step(WaitCondition::NoActiveMode, Ok(dp_port()), false), WaitOutcome::KeepWaiting));
    let mut usb4 = dp_port();
    usb4.active_mode = ActiveMode::Usb4;
    assert!(matches!(wait_step(WaitCondition::TargetActive(Candidate::Usb4), Ok(usb4.clone()), false), WaitOutcome::KeepWaiting));
    assert!(matches!(wait_step(WaitCondition::TargetActive(Candidate::Usb4), Ok(usb4), true), WaitOutcome::Satisfied));
}

#[test]
fn one_failing_port_never_fails_the_reconciliation() {
    let denied = Error::Io { path: "/typec/port1/data_role".into(), kind: IoErrorKind::Other, detail: "denied".into() };
    let events = collect_events(vec![
        ("port0".to_owned(), PortOutcome::Reconciled(vec![ReconcileEvent::Detached { port: "port0".into(), generation: 2 }])),
        ("port1".to_owned(), PortOutcome::Unreadable(denied.clone())),
        ("port2".to_owned(), PortOutcome::Failed(Error::InvalidPort("port2".into()))),
        ("port3".to_owned(), PortOutcome::Reconciled(Vec::new())),
        ("port4".to_owned(), PortOutcome::Reconciled(vec![ReconcileEvent::OrdinaryUsb { port: "port4".into() }])),
    ]);
    assert_eq!(events.len(), 4);
    assert!(matches!(&events[0], ReconcileEvent::Detached { port, generation: 2 } if port == "port0"));
    assert!(matches!(&events[1], ReconcileEvent::TopologyError { port, error } if port == "port1" && error == "/typec/port1/data_role: denied"));
    assert!(matches!(&events[2], ReconcileEvent::ReconcileError { port, error } if port == "port2" && error == "invalid port name: port2"));
    assert!(matches!(&events[3], ReconcileEvent::OrdinaryUsb { port } if port == "port4"));
}
