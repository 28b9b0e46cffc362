use cros_typec_selector::error::Error;
use cros_typec_selector::sysfs::{RawIdentity, RawPartner, RawPort, ReadText, Sysfs};
use cros_typec_selector::topology::{DataRole, UsbMode};

fn text(value: &str) -> ReadText {
    Ok(Some(value.to_owned()))
}

fn absent() -> ReadText {
    Ok(None)
}

fn fixture(name: &str) -> Sysfs {
    Sysfs::new(format!("/fixtures/{name}"))
}

fn bare_port(name: &str) -> RawPort {
    RawPort {
        name: name.to_owned(),
        exists: true,
        data_role: text("[host] device\n"),
        partner: None,
        cable: None,
        usb4: Ok((None, false)),
    }
}

fn non_pd_partner() -> RawPartner {
    RawPartner {
        supports_pd: text("no\n"),
        pd_revision: text("0.0\n"),
        identity: None,
        usb_mode: text("[usb2] usb3\n"),
        alt_modes: Ok(Vec::new()),
    }
}

#[test]
fn reads_partial_non_pd_topology_without_hardware() {
    let mut raw = bare_port("port0");
    raw.partner = Some(non_pd_partner());
    let ports = fixture("sysfs-basic").ports(&vec![raw]).unwrap();
    assert_eq!(ports.len(), 1);
    assert_eq!(ports[0].data_role, Some(DataRole::Host));
    let partner = ports[0].partner.as_ref().unwrap();
    assert!(!partner.supports_pd);
    assert_eq!(partner.usb_modes.active, Some(UsbMode::Usb2));
    assert!(ports[0].cable.is_none());
}

#[test]
fn missing_partner_is_a_valid_detached_or_partial_snapshot() {
    let port = fixture("sysfs-partial").port(&bare_port("port3")).unwrap();
    assert!(port.partner.is_none());
}

#[test]
fn malformed_vdo_fails_with_context() {
    let mut raw = bare_port("port2");
    let mut partner = non_pd_partner();
    partner.identity = Some(RawIdentity {
        id_header: text("not-a-number\n"),
        cert_stat: absent(),
        product: absent(),
        product_type_vdo1: absent(),
        product_type_vdo2: absent(),
        product_type_vdo3: absent(),
    });
    raw.partner = Some(partner);
    let error = fixture("sysfs-malformed").port(&raw).unwrap_err();
    assert!(matches!(error, Error::Parse { .. }));
    assert!(error.message().contains("id_header"));
}

#[test]
fn port_names_cannot_escape_the_sysfs_root() {
    assert!(matches!(
        fixture("sysfs-basic").port(&bare_port("../port0")),
        Err(Error::InvalidPort(_))
    ));
}
