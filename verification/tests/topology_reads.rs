use cros_typec_selector::sysfs::{Usb4Source, choose_usb4_link};
use cros_typec_selector::error::{Error, IoErrorKind};
use cros_typec_selector::sysfs::{
    RawAltMode, RawCable, RawIdentity, RawPartner, RawPort, ReadText, Sysfs, active_mode,
    first_usb4_entry, is_downstream_router_name, is_port_name, is_usb4_port_entry,
    location_field_names, matching_location, order_port_names, parse_role, parse_usb_modes,
    physical_location, same_location, usb4_domain_of,
};
use cros_typec_selector::topology::{ActiveMode, DataRole, PdIdentity, UsbMode};

fn text(value: &str) -> ReadText {
    Ok(Some(value.to_owned()))
}

fn absent() -> ReadText {
    Ok(None)
}

fn failed(path: &str) -> Error {
    Error::Io { path: path.to_owned(), kind: IoErrorKind::Other, detail: "denied".to_owned() }
}

fn names(list: &[&str]) -> Vec<String> {
    list.iter().map(|a| a.to_string()).collect()
}

fn raw_mode(syspath: &str, svid: &str, mode: &str, active: &str) -> RawAltMode {
    RawAltMode {
        syspath: syspath.to_owned(),
        svid: text(svid),
        mode: text(mode),
        vdo: text("0x00000405\n"),
        active: text(active),
    }
}

fn pd_partner() -> RawPartner {
    RawPartner {
        supports_pd: text("yes\n"),
        pd_revision: text("3.0\n"),
        identity: Some(RawIdentity {
            id_header: text("0x4c800000\n"),
            cert_stat: absent(),
            product: text("17\n"),
            product_type_vdo1: text("0x0800000a\n"),
            product_type_vdo2: absent(),
            product_type_vdo3: absent(),
        }),
        usb_mode: text("usb2 usb3 [usb4]\n"),
        alt_modes: Ok(vec![raw_mode("/typec/port1-partner.0", "ff01\n", "1\n", "yes\n")]),
    }
}

fn raw_port(name: &str) -> RawPort {
    RawPort {
        name: name.to_owned(),
        exists: true,
        data_role: text("host [device]\n"),
        partner: None,
        cable: None,
        usb4: Ok((None, false)),
    }
}

#[test]
fn a_full_port_snapshot() {
    let sysfs = Sysfs::new("/typec".to_owned());
    let mut raw = raw_port("port1");
    raw.partner = Some(pd_partner());
    raw.cable = Some(RawCable {
        pd_revision: text("2.0\n"),
        identity: None,
        plug_modes: Ok(Vec::new()),
    });
    let port = sysfs.port(&raw).unwrap();
    assert_eq!(port.syspath, "/typec/port1");
    assert_eq!(port.data_role, Some(DataRole::Device));
    let partner = port.partner.as_ref().unwrap();
    assert_eq!(partner.syspath, "/typec/port1-partner");
    assert!(partner.supports_pd);
    assert_eq!(partner.pd_revision.as_deref(), Some("3.0"));
    assert_eq!(
        partner.identity,
        Some(PdIdentity {
            id_header: 0x4c80_0000,
            cert_stat: 0,
            product: 17,
            product_type_vdos: [Some(0x0800_000a), None, None],
        })
    );
    assert_eq!(partner.usb_modes.available, vec![UsbMode::Usb2, UsbMode::Usb3, UsbMode::Usb4]);
    assert_eq!(partner.usb_modes.active, Some(UsbMode::Usb4));
    assert_eq!(partner.alt_modes.len(), 1);
    assert_eq!(partner.alt_modes[0].svid, 0xff01);
    assert_eq!(partner.alt_modes[0].vdo, 0x405);
    assert!(partner.alt_modes[0].active);
    assert_eq!(port.active_mode, ActiveMode::Usb4);
    let cable = port.cable.as_ref().unwrap();
    assert_eq!(cable.syspath, "/typec/port1-cable");
    assert_eq!(cable.pd_revision.as_deref(), Some("2.0"));
}

#[test]
fn absent_port_and_read_errors_are_reported() {
    let sysfs = Sysfs::new("/typec".to_owned());
    let mut gone = raw_port("port4");
    gone.exists = false;
    assert!(matches!(sysfs.port(&gone), Err(Error::InvalidPort(name)) if name == "port4"));
    let mut unreadable = raw_port("port4");
    unreadable.data_role = Err(failed("/typec/port4/data_role"));
    assert_eq!(sysfs.port(&unreadable).unwrap_err(), failed("/typec/port4/data_role"));
}

#[test]
fn alt_mode_attribute_errors_name_the_file() {
    let sysfs = Sysfs::new("/typec".to_owned());
    let mut raw = raw_port("port1");
    let mut partner = pd_partner();
    partner.alt_modes = Ok(vec![RawAltMode {
        syspath: "/typec/port1-partner.0".to_owned(),
        svid: absent(),
        mode: text("1"),
        vdo: absent(),
        active: absent(),
    }]);
    raw.partner = Some(partner);
    match sysfs.port(&raw) {
        Err(Error::Io { path, kind, .. }) => {
            assert_eq!(path, "/typec/port1-partner.0/svid");
            assert_eq!(kind, IoErrorKind::NotFound);
        }
        other => panic!("unexpected {other:?}"),
    }
    let mut raw = raw_port("port1");
    let mut partner = pd_partner();
    partner.alt_modes = Ok(vec![raw_mode("/typec/port1-partner.0", "ff01", "x", "no")]);
    raw.partner = Some(partner);
    assert_eq!(
        sysfs.port(&raw).unwrap_err(),
        Error::Parse {
            path: "/typec/port1-partner.0/mode".to_owned(),
            value: "x".to_owned(),
            expected: "mode number".to_owned(),
        }
    );
}

#[test]
fn the_standard_root_looks_up_the_thunderbolt_bus() {
    let standard = Sysfs::new("/sys/class/typec".to_owned());
    assert_eq!(standard.thunderbolt_root(), Some("/sys/bus/thunderbolt/devices"));
    let fake = Sysfs::new("/tmp/typec".to_owned());
    assert_eq!(fake.thunderbolt_root(), None);
    let chosen = fake.with_thunderbolt_root("/tmp/tb".to_owned());
    assert_eq!(chosen.thunderbolt_root(), Some("/tmp/tb"));
    assert_eq!(chosen.root(), "/tmp/typec");
}

#[test]
fn port_names_are_ordered_by_number() {
    let ordered = order_port_names(&names(&["port10", "port2", "port1-partner", "usb", "port0"]));
    assert_eq!(ordered, names(&["port0", "port2", "port10"]));
    assert!(is_port_name("port7"));
    assert!(!is_port_name("port"));
    assert!(!is_port_name("port7-cable"));
}

#[test]
fn roles_and_usb_modes_follow_the_brackets() {
    assert_eq!(parse_role("[host] device"), DataRole::Host);
    assert_eq!(parse_role("device"), DataRole::Device);
    assert_eq!(parse_role("dual"), DataRole::Unknown);
    let set = parse_usb_modes("usb2 [usb3] usb4 tbt");
    assert_eq!(set.available, vec![UsbMode::Usb2, UsbMode::Usb3, UsbMode::Usb4]);
    assert_eq!(set.active, Some(UsbMode::Usb3));
}

#[test]
fn active_mode_comes_from_usb_mode_then_alt_modes() {
    assert_eq!(active_mode(None), ActiveMode::Inactive);
}

#[test]
fn alternate_modes_are_listed_in_path_order() {
    let sysfs = Sysfs::new("/typec".to_owned());
    let paths = sysfs.alt_mode_paths(
        "port0-partner",
        &names(&["port0", "port0-partner.1", "port0-partner", "port0-partner.0", "port1-partner.0"]),
        &names(&["identity", "port0-partner.2", "port0-partner.1", "port0-partner.2"]),
    );
    assert_eq!(
        paths,
        names(&[
            "/typec/port0-partner/port0-partner.1",
            "/typec/port0-partner/port0-partner.2",
            "/typec/port0-partner.0",
            "/typec/port0-partner.1",
        ])
    );
}

#[test]
fn physical_locations_need_three_fields() {
    assert_eq!(
        location_field_names(),
        names(&["panel", "horizontal_position", "vertical_position", "dock", "lid"])
    );
    let two = vec![text("left\n"), absent(), text("upper\n"), absent(), absent()];
    assert_eq!(physical_location(&two), Ok(None));
    let three = vec![text("left\n"), text("center\n"), text(" upper\n"), absent(), absent()];
    assert_eq!(
        physical_location(&three),
        Ok(Some(vec![
            ("panel".to_owned(), "left".to_owned()),
            ("horizontal_position".to_owned(), "center".to_owned()),
            ("vertical_position".to_owned(), "upper".to_owned()),
        ]))
    );
    let broken = vec![text("left"), Err(failed("h")), Err(failed("v")), absent(), absent()];
    assert_eq!(physical_location(&broken), Err(failed("h")));
}

#[test]
fn associates_usb4_by_physical_location_not_numbers() {
    let port = vec![
        ("panel".to_owned(), "left".to_owned()),
        ("horizontal_position".to_owned(), "right".to_owned()),
        ("vertical_position".to_owned(), "upper".to_owned()),
    ];
    let mut other = port.clone();
    other[0].1 = "right".to_owned();
    assert!(same_location(&port, &port.clone()));
    assert!(!same_location(&port, &other));
    let candidates = vec![Ok(None), Ok(Some(other.clone())), Ok(Some(port.clone())), Err(failed("x"))];
    assert_eq!(matching_location(&port, &candidates), Ok(Some(2)));
    let broken = vec![Ok(Some(other)), Err(failed("y")), Ok(Some(port.clone()))];
    assert_eq!(matching_location(&port, &broken), Err(failed("y")));
    assert_eq!(matching_location(&port, &Vec::new()), Ok(None));
    assert_eq!(
        usb4_domain_of("/sys/devices/pci0000:00/0000:00:0d.2/domain9/9-0/usb4_port1"),
        Some("/sys/devices/pci0000:00/0000:00:0d.2/domain9".to_owned())
    );
    assert_eq!(usb4_domain_of("/sys/devices/platform/usb4_port1"), None);
}

#[test]
fn usb4_entries_and_router_names() {
    assert_eq!(first_usb4_entry(&names(&["power", "usb4_port2", "usb4_port1"])), Some(1));
    assert_eq!(first_usb4_entry(&names(&["power", "uevent"])), None);
    assert!(is_usb4_port_entry("usb4_port3"));
    assert!(!is_usb4_port_entry("usb4"));
    assert!(is_downstream_router_name("9-1"));
    assert!(is_downstream_router_name("0-301"));
    assert!(!is_downstream_router_name("9-0"));
    assert!(!is_downstream_router_name("9-0:1.1"));
    assert!(!is_downstream_router_name("domain9"));
}

#[test]
fn a_direct_usb4_link_is_preferred_over_the_location() {
    let here = vec![
        ("panel".to_owned(), "left".to_owned()),
        ("horizontal_position".to_owned(), "left".to_owned()),
        ("vertical_position".to_owned(), "upper".to_owned()),
    ];
    let routers = Ok(vec![Ok(None), Ok(Some(here.clone()))]);
    let direct = Ok(names(&["power", "usb4_port1"]));
    let plain = Ok(names(&["power"]));
    assert_eq!(
        choose_usb4_link(&direct, true, &Ok(Some(here.clone())), &routers),
        Ok((Some(Usb4Source::Direct(1)), true))
    );
    assert_eq!(
        choose_usb4_link(&plain, true, &Ok(Some(here.clone())), &routers),
        Ok((Some(Usb4Source::Located(1)), true))
    );
    assert_eq!(choose_usb4_link(&plain, false, &Ok(Some(here.clone())), &routers), Ok((None, false)));
    assert_eq!(choose_usb4_link(&plain, true, &Ok(None), &routers), Ok((None, false)));
    assert_eq!(choose_usb4_link(&plain, true, &Err(failed("loc")), &routers), Err(failed("loc")));
    assert_eq!(choose_usb4_link(&Err(failed("dir")), true, &Ok(None), &routers), Err(failed("dir")));
    assert_eq!(
        choose_usb4_link(&plain, true, &Ok(Some(here)), &Err(failed("bus"))),
        Err(failed("bus"))
    );
}
