use cros_typec_selector::policy::{self, Candidate, Context, Decision};
use cros_typec_selector::topology::{
    ActiveMode, AltMode, CableSnapshot, DataRole, PartnerSnapshot, PdIdentity, PortSnapshot,
    UsbMode, UsbModeSet,
};
use std::collections::HashMap;

/// The capability scenarios, one `key=value` description each.
const SCENARIOS: [(&str, &str); 10] = [
    (
        "hp-g6-usb4",
        "partner_pd=true\npartner_idh=0x0c0003f0\npartner_vdo1=0x08000000\nusb_modes=usb2,usb3,usb4\nport_usb4=true\npartner_modes=8087:1:0x1,ff01:1:0x1c0045\ncable_idh=0x18000000\ncable_vdo1=0x3\nexpected=usb4\n",
    ),
    (
        "apple-studio-display-usb4",
        "partner_pd=true\npartner_idh=0x14000000\npartner_vdo1=0x08000000\nusb_modes=usb2,usb3,usb4\nport_usb4=true\npartner_modes=ff01:1:0x405\ncable_idh=0x18000000\ncable_vdo1=0x2\nexpected=usb4\n",
    ),
    (
        "passive-usb4",
        "partner_pd=true\npartner_idh=0x08000000\npartner_vdo1=0x08000000\nusb_modes=usb2,usb3,usb4\nport_usb4=true\ncable_idh=0x18000000\ncable_vdo1=0x3\nexpected=usb4\n",
    ),
    (
        "active-usb4",
        "partner_pd=true\npartner_idh=0x08000000\npartner_vdo1=0x08000000\nusb_modes=usb2,usb3,usb4\nport_usb4=true\ncable_idh=0x20000000\ncable_vdo1=0x00600000\ncable_vdo2=0x0\nexpected=usb4\n",
    ),
    (
        "tbt3-only",
        "# no USB4 device capability\npartner_pd=true\npartner_idh=0x14000000\nusb_modes=usb2,usb3\nport_usb4=true\npartner_modes=8087:1:0x1\ncable_idh=0x18000000\ncable_vdo1=0x2\ncable_revision=3.0\nexpected=tbt\n",
    ),
    (
        "displayport-only",
        "partner_pd=true\npartner_idh=0x14000000\nusb_modes=usb2,usb3\nport_usb4=true\npartner_modes=ff01:1:0x45\ncable_idh=0x18000000\ncable_vdo1=0x1\nexpected=dp\n",
    ),
    (
        "usb3-only",
        "partner_pd=true\npartner_idh=0x10000000\nusb_modes=usb2,usb3\nport_usb4=true\ncable_idh=0x18000000\ncable_vdo1=0x1\nexpected=ordinary\n",
    ),
    ("power-only", "partner_pd=false\nusb_modes=usb2\nport_usb4=true\nexpected=ordinary\n"),
    (
        "missing-emarker",
        "partner_pd=true\npartner_idh=0x08000000\npartner_vdo1=0x08000000\nusb_modes=usb2,usb3,usb4\nport_usb4=true\ndiscovery_expired=true\nexpected=ordinary\n",
    ),
    (
        "incomplete-discovery",
        "partner_pd=true\npartner_idh=0x08000000\npartner_vdo1=0x08000000\nusb_modes=usb2,usb3,usb4\nport_usb4=true\nexpected=wait\n",
    ),
];

fn number(value: &str) -> u32 {
    value.strip_prefix("0x").map_or_else(
        || value.parse().unwrap(),
        |v| u32::from_str_radix(v, 16).unwrap(),
    )
}

fn modes(value: Option<&&str>, cable: bool) -> Vec<AltMode> {
    value
        .into_iter()
        .flat_map(|v| v.split(','))
        .filter(|v| !v.is_empty())
        .map(|item| {
            let mut fields = item.split(':');
            AltMode {
                syspath: if cable { "plug-mode" } else { "partner-mode" }.to_string(),
                svid: u16::from_str_radix(fields.next().unwrap(), 16).unwrap(),
                mode: fields.next().unwrap().parse().unwrap(),
                vdo: number(fields.next().unwrap()),
                active: false,
            }
        })
        .collect()
}

fn fixture(name: &str) -> (PortSnapshot, Context, String) {
    let input = SCENARIOS.iter().find(|(n, _)| *n == name).unwrap().1;
    let map = input
        .lines()
        .filter(|l| !l.is_empty() && !l.starts_with('#'))
        .map(|line| line.split_once('=').unwrap())
        .collect::<HashMap<_, _>>();
    let identity = map.get("partner_idh").map(|idh| PdIdentity {
        id_header: number(idh),
        cert_stat: 0,
        product: 0,
        product_type_vdos: [map.get("partner_vdo1").map(|v| number(v)), None, None],
    });
    let partner_modes = modes(map.get("partner_modes"), false);
    let usb = map
        .get("usb_modes")
        .into_iter()
        .flat_map(|v| v.split(','))
        .map(|v| match v {
            "usb2" => UsbMode::Usb2,
            "usb3" => UsbMode::Usb3,
            "usb4" => UsbMode::Usb4,
            _ => panic!("bad USB mode"),
        })
        .collect();
    let partner = PartnerSnapshot {
        syspath: "partner".into(),
        supports_pd: map.get("partner_pd") == Some(&"true"),
        pd_revision: Some("3.0".into()),
        identity,
        usb_modes: UsbModeSet {
            available: usb,
            active: Some(UsbMode::Usb2),
        },
        alt_modes: partner_modes,
    };
    let cable = map.get("cable_idh").map(|idh| CableSnapshot {
        syspath: "cable".into(),
        pd_revision: map
            .get("cable_revision")
            .map(|v| (*v).into())
            .or(Some("3.0".into())),
        identity: Some(PdIdentity {
            id_header: number(idh),
            cert_stat: 0,
            product: 0,
            product_type_vdos: [
                map.get("cable_vdo1").map(|v| number(v)),
                map.get("cable_vdo2").map(|v| number(v)),
                None,
            ],
        }),
        plug_modes: modes(map.get("cable_modes"), true),
    });
    let port = PortSnapshot {
        syspath: "port".into(),
        name: "fixture-port".into(),
        data_role: Some(DataRole::Host),
        supports_usb4: map.get("port_usb4") == Some(&"true"),
        partner: Some(partner),
        cable,
        active_mode: ActiveMode::Inactive,
        usb4_link: None,
    };
    (
        port,
        Context {
            discovery_expired: map.get("discovery_expired") == Some(&"true"),
        },
        map["expected"].into(),
    )
}

#[test]
fn capability_matrix() {
    for name in [
        "hp-g6-usb4",
        "apple-studio-display-usb4",
        "passive-usb4",
        "active-usb4",
        "tbt3-only",
        "displayport-only",
        "usb3-only",
        "power-only",
        "missing-emarker",
        "incomplete-discovery",
    ] {
        let (port, context, expected) = fixture(name);
        let decision = policy::decide(&port, context);
        let actual = match decision {
            Decision::Wait(_) => "wait",
            Decision::Transition {
                to: Candidate::Usb4,
                ..
            } => "usb4",
            Decision::Transition {
                to: Candidate::Thunderbolt { .. },
                ..
            } => "tbt",
            Decision::Transition {
                to: Candidate::DisplayPort { .. },
                ..
            } => "dp",
            Decision::Transition {
                to: Candidate::OrdinaryUsb,
                ..
            }
            | Decision::Keep(ActiveMode::Inactive) => "ordinary",
            other => panic!("unexpected decision: {other:?}"),
        };
        println!("scenario={name} expected={expected} observed={actual}");
        assert_eq!(actual, expected, "fixture {name}");
    }
}

#[test]
fn active_usb4_is_idempotent() {
    let (mut port, context, _) = fixture("passive-usb4");
    port.active_mode = ActiveMode::Usb4;
    assert_eq!(
        policy::decide(&port, context),
        Decision::Keep(ActiveMode::Usb4)
    );
}
