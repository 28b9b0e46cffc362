use cros_typec_selector::policy::{Candidate, Decision};
use cros_typec_selector::state::{Phase, PortState, TransitionStep, transition_steps};
use cros_typec_selector::topology::ActiveMode;

#[test]
fn detach_invalidates_generation() {
    let now: u64 = 1_000;
    let mut state = PortState::default();
    state.attach(now);
    let old = state.generation;
    state.detach();
    assert!(!state.generation_is(old));
    assert_eq!(state.phase, Phase::Detached);
}

#[test]
fn duplicate_keep_is_terminal() {
    let mut state = PortState::default();
    state.apply_decision(&Decision::Keep(ActiveMode::Usb4));
    let first = state.phase.clone();
    state.apply_decision(&Decision::Keep(ActiveMode::Usb4));
    assert_eq!(state.phase, first);
}

#[test]
fn dp_to_usb4_orders_exit_wait_enter() {
    assert_eq!(
        transition_steps(
            &ActiveMode::DisplayPort {
                syspath: "dp".into()
            },
            &Candidate::Usb4
        ),
        vec![
            TransitionStep::Exit,
            TransitionStep::WaitForNone,
            TransitionStep::Enter(Candidate::Usb4)
        ]
    );
}

#[test]
fn already_correct_mode_needs_no_steps() {
    assert!(transition_steps(&ActiveMode::Usb4, &Candidate::Usb4).is_empty());
}
