use cros_typec_selector::udev::{is_partner_path, port_from_syspath};

#[test]
fn normalizes_nested_typec_paths() {
    assert_eq!(
        port_from_syspath("/devices/x/typec/port12/port12-partner/port12-partner.0"),
        Some("port12".into())
    );
}

#[test]
fn only_partner_object_changes_attachment() {
    assert!(is_partner_path(
        "/devices/typec/port4/port4-partner",
        Some("port4")
    ));
    assert!(!is_partner_path(
        "/devices/typec/port4/port4-partner/port4-partner.1",
        Some("port4")
    ));
}
