use cros_typec_selector::policy::{Candidate, Context, Decision, WaitReason, candidates, decide};
use cros_typec_selector::topology::{
    ActiveMode, AltMode, CableSnapshot, DataRole, PartnerSnapshot, PdIdentity, PortSnapshot,
    UsbMode, UsbModeSet,
};
use cros_typec_selector::vdo::{
    DISPLAYPORT_SVID, ProductType, THUNDERBOLT_SVID, cable_supports_tbt, dp_partner_receptacle,
    modal, product_type, supports_dp, supports_tbt,
};

fn identity(idh: u32, vdo1: Option<u32>, vdo2: Option<u32>) -> PdIdentity {
    PdIdentity {
        id_header: idh,
        cert_stat: 0,
        product: 0,
        product_type_vdos: [vdo1, vdo2, None],
    }
}

fn mode(svid: u16, number: u8, vdo: u32) -> AltMode {
    AltMode {
        syspath: format!("/typec/port0-partner.{number}"),
        svid,
        mode: number,
        vdo,
        active: false,
    }
}

fn usb4_partner(modes: Vec<AltMode>, idh: u32) -> PartnerSnapshot {
    PartnerSnapshot {
        syspath: "/typec/port0-partner".into(),
        supports_pd: true,
        pd_revision: Some("3.0".into()),
        identity: Some(identity(idh, Some(0x0800_0000), None)),
        usb_modes: UsbModeSet {
            available: vec![UsbMode::Usb2, UsbMode::Usb3, UsbMode::Usb4],
            active: Some(UsbMode::Usb2),
        },
        alt_modes: modes,
    }
}

fn passive_cable(speed: u32) -> CableSnapshot {
    CableSnapshot {
        syspath: "/typec/port0-cable".into(),
        pd_revision: Some("3.0".into()),
        identity: Some(identity(3 << 27, Some(speed), None)),
        plug_modes: Vec::new(),
    }
}

fn port(partner: Option<PartnerSnapshot>, cable: Option<CableSnapshot>) -> PortSnapshot {
    PortSnapshot {
        syspath: "/typec/port0".into(),
        name: "port0".into(),
        data_role: Some(DataRole::Host),
        supports_usb4: true,
        partner,
        cable,
        active_mode: ActiveMode::Inactive,
        usb4_link: None,
    }
}

const WAITING: Context = Context { discovery_expired: false };
const EXPIRED: Context = Context { discovery_expired: true };

#[test]
fn usb4_partner_and_cable_choose_usb4() {
    let p = port(Some(usb4_partner(Vec::new(), 1 << 27)), Some(passive_cable(1)));
    assert_eq!(candidates(&p, WAITING), Ok(vec![Candidate::Usb4]));
    assert_eq!(
        decide(&p, WAITING),
        Decision::Transition { from: ActiveMode::Inactive, to: Candidate::Usb4 }
    );
}

#[test]
fn active_usb4_is_kept() {
    let mut p = port(Some(usb4_partner(Vec::new(), 1 << 27)), Some(passive_cable(1)));
    p.active_mode = ActiveMode::Usb4;
    assert_eq!(decide(&p, WAITING), Decision::Keep(ActiveMode::Usb4));
}

#[test]
fn missing_cable_waits_until_discovery_expires() {
    let p = port(Some(usb4_partner(Vec::new(), 1 << 27)), None);
    assert_eq!(candidates(&p, WAITING), Err(WaitReason::CableDiscovery));
    assert_eq!(decide(&p, WAITING), Decision::Wait(WaitReason::CableDiscovery));
    assert_eq!(candidates(&p, EXPIRED), Ok(vec![Candidate::OrdinaryUsb]));
    assert_eq!(decide(&p, EXPIRED), Decision::Keep(ActiveMode::Inactive));
}

#[test]
fn cable_without_identity_waits() {
    let mut cable = passive_cable(1);
    cable.identity = None;
    let p = port(Some(usb4_partner(Vec::new(), 1 << 27)), Some(cable));
    assert_eq!(candidates(&p, WAITING), Err(WaitReason::CableIdentity));
}

#[test]
fn priority_is_usb4_tbt_dp() {
    let modes = vec![mode(DISPLAYPORT_SVID, 1, 0x1), mode(THUNDERBOLT_SVID, 1, 0)];
    let p = port(
        Some(usb4_partner(modes, (1 << 27) | (1 << 26))),
        Some(passive_cable(3)),
    );
    assert_eq!(
        candidates(&p, WAITING),
        Ok(vec![
            Candidate::Usb4,
            Candidate::Thunderbolt { svid: THUNDERBOLT_SVID, mode: 1 },
            Candidate::DisplayPort { svid: DISPLAYPORT_SVID, mode: 1 },
        ])
    );
}

#[test]
fn non_pd_partner_is_ordinary_usb() {
    let mut partner = usb4_partner(Vec::new(), 1 << 27);
    partner.supports_pd = false;
    let p = port(Some(partner), None);
    assert_eq!(candidates(&p, WAITING), Ok(vec![Candidate::OrdinaryUsb]));
}

#[test]
fn missing_identity_waits_for_partner() {
    let mut partner = usb4_partner(Vec::new(), 1 << 27);
    partner.identity = None;
    let p = port(Some(partner), None);
    assert_eq!(decide(&p, WAITING), Decision::Wait(WaitReason::PartnerIdentity));
    assert_eq!(candidates(&p, EXPIRED), Ok(vec![Candidate::OrdinaryUsb]));
}

#[test]
fn no_partner_means_no_mode() {
    let p = port(None, None);
    assert_eq!(candidates(&p, WAITING), Ok(Vec::new()));
    assert_eq!(decide(&p, WAITING), Decision::NoMode);
    let mut active = port(None, None);
    active.active_mode = ActiveMode::DisplayPort { syspath: "dp".into() };
    assert_eq!(
        decide(&active, WAITING),
        Decision::Transition {
            from: ActiveMode::DisplayPort { syspath: "dp".into() },
            to: Candidate::OrdinaryUsb
        }
    );
}

#[test]
fn vdo_fields_decode() {
    assert_eq!(product_type(&identity(1 << 27, None, None)), ProductType::Hub);
    assert_eq!(product_type(&identity(2 << 27, None, None)), ProductType::Peripheral);
    assert_eq!(product_type(&identity(5 << 27, None, None)), ProductType::Ama);
    assert_eq!(product_type(&identity(7 << 27, None, None)), ProductType::Other(7));
    assert!(modal(&identity(1 << 26, None, None)));
    assert!(!modal(&identity(1 << 27, None, None)));
    assert!(supports_dp(&[mode(DISPLAYPORT_SVID, 1, 0x1)]));
    assert!(!supports_dp(&[mode(DISPLAYPORT_SVID, 1, 0x40)]));
    assert!(dp_partner_receptacle(&[mode(DISPLAYPORT_SVID, 1, 0x40)]));
    assert!(supports_tbt(&[mode(THUNDERBOLT_SVID, 1, 0)]));
    assert!(!supports_tbt(&[mode(DISPLAYPORT_SVID, 1, 0)]));
}

#[test]
fn tbt_cables_depend_on_revision_and_speed() {
    let passive = identity(3 << 27, Some(2), None);
    assert!(cable_supports_tbt(&passive, &[], Some("2.0")));
    assert!(cable_supports_tbt(&passive, &[], Some("3.0")));
    assert!(!cable_supports_tbt(&passive, &[], None));
    let fast = identity(3 << 27, Some(4), None);
    assert!(!cable_supports_tbt(&fast, &[], Some("2.0")));
    assert!(cable_supports_tbt(&fast, &[], Some("3.1")));
    let active = identity(4 << 27, Some(0), None);
    assert!(cable_supports_tbt(&active, &[mode(THUNDERBOLT_SVID, 1, 0)], None));
    assert!(!cable_supports_tbt(&active, &[], Some("3.0")));
}
