use cros_typec_selector::daemon::{Mode, operation_is_authorization, requires_coordination};
use cros_typec_selector::sysfs::Operation;
use cros_typec_selector::topology::ActiveMode;

#[test]
fn backend_operations_cannot_name_authorized() {
    let op = Operation::EnterUsb4 {
        path: "usb_mode".to_string(),
    };
    assert!(!operation_is_authorization(&op));
}

#[test]
fn live_mode_keeps_early_kernel_dp_entry() {
    assert!(requires_coordination(
        Mode::Live,
        &ActiveMode::DisplayPort {
            syspath: "dp".into()
        }
    ));
    assert!(!requires_coordination(
        Mode::DryRun,
        &ActiveMode::DisplayPort {
            syspath: "dp".into()
        }
    ));
}
