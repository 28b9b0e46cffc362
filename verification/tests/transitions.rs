use cros_typec_selector::daemon::ReconcileEvent;
use cros_typec_selector::error::{Error, IoErrorKind};
use cros_typec_selector::policy::Candidate;
use cros_typec_selector::sysfs::{Operation, SysfsControl, TypecControl};
use cros_typec_selector::topology::{
    ActiveMode, AltMode, DataRole, PartnerSnapshot, PortSnapshot, UsbMode, UsbModeSet,
};
use cros_typec_selector::transition::{TransitionAction, TransitionEvent, TransitionMachine};

fn port(active: ActiveMode) -> PortSnapshot {
    PortSnapshot {
        syspath: "/typec/port1".into(),
        name: "port1".into(),
        data_role: Some(DataRole::Host),
        supports_usb4: true,
        partner: Some(PartnerSnapshot {
            syspath: "/typec/port1-partner".into(),
            supports_pd: true,
            pd_revision: Some("3.0".into()),
            identity: None,
            usb_modes: UsbModeSet { available: vec![UsbMode::Usb4], active: None },
            alt_modes: vec![AltMode {
                syspath: "/typec/port1-partner.1".into(),
                svid: 0xff01,
                mode: 1,
                vdo: 1,
                active: false,
            }],
        }),
        cable: None,
        active_mode: active,
        usb4_link: None,
    }
}

fn denied() -> Error {
    Error::Io { path: "/typec/port1-partner/usb_mode".into(), kind: IoErrorKind::Other, detail: "denied".into() }
}

#[test]
fn requests_write_only_mode_values() {
    let control = SysfsControl::new(true);
    assert!(control.dry_run());
    let exit = control
        .exit_request(&port(ActiveMode::DisplayPort { syspath: "/typec/port1-partner.1".into() }))
        .unwrap();
    assert_eq!(exit.operation, Operation::Exit { path: "/typec/port1-partner.1/active".into() });
    assert_eq!(exit.value, "0\n");
    let usb4_exit = control.exit_request(&port(ActiveMode::Usb4)).unwrap();
    assert_eq!(usb4_exit.operation.path(), "/typec/port1-partner/usb_mode");
    assert_eq!(usb4_exit.value, "usb2\n");
    let enter = control.enter_request(&port(ActiveMode::Inactive), &Candidate::Usb4).unwrap();
    assert_eq!(enter.value, "usb4\n");
    let dp = control
        .enter_request(&port(ActiveMode::Inactive), &Candidate::DisplayPort { svid: 0xff01, mode: 1 })
        .unwrap();
    assert_eq!(
        dp.operation,
        Operation::EnterAltMode { path: "/typec/port1-partner.1/active".into(), svid: 0xff01, mode: 1 }
    );
    assert_eq!(dp.value, "1\n");
}

#[test]
fn missing_modes_and_inactive_ports_are_refused() {
    let mut control = SysfsControl::new(false);
    assert_eq!(
        control.exit(&port(ActiveMode::Inactive)),
        Err(Error::Unsupported("port1 has no active mode to exit".into()))
    );
    assert_eq!(
        control.enter(&port(ActiveMode::Inactive), &Candidate::Thunderbolt { svid: 0x8087, mode: 1 }),
        Err(Error::Unsupported("mode 8087:1 disappeared".into()))
    );
    assert_eq!(
        control.enter(&port(ActiveMode::Inactive), &Candidate::OrdinaryUsb),
        Err(Error::Unsupported("ordinary USB needs no entry request".into()))
    );
}

#[test]
fn live_entry_retries_three_times_then_falls_back() {
    let mut machine = TransitionMachine::new(
        port(ActiveMode::Inactive),
        4,
        ActiveMode::Inactive,
        vec![Candidate::Usb4, Candidate::OrdinaryUsb],
        false,
    );
    let mut step = machine.step(TransitionEvent::Start);
    for (attempt, delay) in [(1usize, 100u64), (2, 300), (3, 900)] {
        assert!(matches!(step.action, TransitionAction::CheckValidity));
        step = machine.step(TransitionEvent::Validity(true));
        assert!(matches!(step.action, TransitionAction::ReadPort));
        step = machine.step(TransitionEvent::Snapshot(Ok(port(ActiveMode::Inactive))));
        match &step.action {
            TransitionAction::Write(request) => {
                assert_eq!(request.operation, Operation::EnterUsb4 { path: "/typec/port1-partner/usb_mode".into() });
                assert_eq!(request.value, "usb4\n");
            }
            other => panic!("unexpected {other:?}"),
        }
        step = machine.step(TransitionEvent::Written(Err(denied())));
        assert!(matches!(&step.events[0], ReconcileEvent::RequestError { attempt: a, error, .. }
            if *a == attempt && error == "/typec/port1-partner/usb_mode: denied"));
        assert!(matches!(step.action, TransitionAction::Pause { delay: d } if d == delay));
        step = machine.step(TransitionEvent::Paused(Ok(())));
    }
    assert!(matches!(&step.events[0], ReconcileEvent::CandidateFailed { target: Candidate::Usb4, .. }));
    assert!(matches!(step.action, TransitionAction::ReadPort));
    assert!(machine.failed());
    step = machine.step(TransitionEvent::Snapshot(Ok(port(ActiveMode::Inactive))));
    assert!(matches!(&step.events[0], ReconcileEvent::OrdinaryUsb { .. }));
    assert!(matches!(step.action, TransitionAction::Finished(Ok(()))));
}

#[test]
fn unexpected_outcomes_repeat_the_request() {
    let mut machine = TransitionMachine::new(
        port(ActiveMode::Usb4),
        1,
        ActiveMode::Usb4,
        vec![Candidate::DisplayPort { svid: 0xff01, mode: 1 }],
        false,
    );
    assert!(matches!(machine.step(TransitionEvent::Start).action, TransitionAction::CheckValidity));
    assert!(matches!(machine.step(TransitionEvent::Paused(Ok(()))).action, TransitionAction::CheckValidity));
    let step = machine.step(TransitionEvent::Validity(true));
    match &step.action {
        TransitionAction::Write(request) => assert_eq!(request.value, "usb2\n"),
        other => panic!("unexpected {other:?}"),
    }
    let step = machine.step(TransitionEvent::Written(Ok(())));
    assert!(matches!(&step.events[0], ReconcileEvent::Operation { .. }));
    assert!(matches!(step.action, TransitionAction::WaitFor { timeout: 5000, .. }));
    let step = machine.step(TransitionEvent::Waited(Ok(false)));
    assert!(matches!(step.action, TransitionAction::CheckValidity));
    let step = machine.step(TransitionEvent::Validity(true));
    assert!(matches!(&step.events[0], ReconcileEvent::ExitTimeout { .. }));
    assert!(matches!(step.action, TransitionAction::Finished(Ok(()))));
    assert!(machine.failed());
}
