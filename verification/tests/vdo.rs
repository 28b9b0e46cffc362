use cros_typec_selector::topology::{AltMode, PdIdentity};
use cros_typec_selector::vdo::{
    THUNDERBOLT_SVID, cable_supports_dp, cable_supports_usb4, partner_supports_usb4,
};

fn identity(idh: u32, vdo1: Option<u32>, vdo2: Option<u32>) -> PdIdentity {
    PdIdentity {
        id_header: idh,
        cert_stat: 0,
        product: 0,
        product_type_vdos: [vdo1, vdo2, None],
    }
}

#[test]
fn partner_usb4_bit_boundary() {
    let id = identity(1 << 27, Some(0x0800_0000), None);
    assert!(partner_supports_usb4(&id));
    let id = identity(1 << 27, Some(0x0400_0000), None);
    assert!(!partner_supports_usb4(&id));
}

#[test]
fn passive_usb2_is_not_usb4() {
    assert!(!cable_supports_usb4(&identity(3 << 27, Some(0), None), &[]));
    assert!(cable_supports_usb4(&identity(3 << 27, Some(1), None), &[]));
}

#[test]
fn active_v13_inverted_usb4_bit() {
    assert!(cable_supports_usb4(
        &identity(4 << 27, Some(3 << 21), Some(0)),
        &[]
    ));
    assert!(!cable_supports_usb4(
        &identity(4 << 27, Some(3 << 21), Some(1 << 8)),
        &[]
    ));
}

#[test]
fn legacy_active_requires_rounded_tbt() {
    let mode = AltMode {
        syspath: String::new(),
        svid: THUNDERBOLT_SVID,
        mode: 1,
        vdo: (3 << 16) | (1 << 19),
        active: false,
    };
    assert!(cable_supports_usb4(
        &identity((4 << 27) | (1 << 26), Some(0), None),
        &[mode]
    ));
}

#[test]
fn passive_usb2_is_not_dp_capable() {
    assert!(!cable_supports_dp(&identity(3 << 27, Some(0), None), &[]));
    assert!(cable_supports_dp(&identity(3 << 27, Some(1), None), &[]));
}
