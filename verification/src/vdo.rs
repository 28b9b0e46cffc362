//! USB-PD identity and alternate-mode capability checks (USB4 device
//! capability, cable speed, active-cable VDO versions, Thunderbolt and
//! DisplayPort alternate-mode bits).

use vstd::prelude::*;
use crate::topology::{AltMode, PdIdentity};

verus! {

pub const DISPLAYPORT_SVID: u16 = 0xff01;
pub const THUNDERBOLT_SVID: u16 = 0x8087;

pub const IDH_PRODUCT_TYPE_SHIFT: u32 = 27;
pub const IDH_PRODUCT_TYPE_MASK: u32 = 0x7;
pub const IDH_MODAL_OPERATION: u32 = 0x0400_0000;
pub const UFP_DEVICE_CAPABILITY_SHIFT: u32 = 24;
pub const UFP_DEVICE_CAPABILITY_MASK: u32 = 0xf;
pub const UFP_USB4_CAPABLE: u32 = 0x8;
pub const CABLE_SPEED_MASK: u32 = 0x7;
pub const ACTIVE_CABLE_VDO_VERSION_SHIFT: u32 = 21;
pub const ACTIVE_CABLE_VDO_VERSION_MASK: u32 = 0x7;
pub const ACTIVE_CABLE_VDO_VERSION_1_3: u32 = 0x3;
pub const ACTIVE_CABLE_USB4_NOT_SUPPORTED: u32 = 0x100;
pub const TBT_CABLE_SPEED_SHIFT: u32 = 16;
pub const TBT_CABLE_SPEED_MASK: u32 = 0x7;
pub const TBT_CABLE_10_AND_20_GBPS: u32 = 0x3;
pub const TBT_ROUNDED_SHIFT: u32 = 19;
pub const TBT_ROUNDED_MASK: u32 = 0x3;
pub const TBT_GEN3_GEN4_ROUNDED: u32 = 0x1;
pub const DP_MODE_RECEPTACLE: u32 = 0x40;
pub const DP_MODE_SINK: u32 = 0x1;

/// Product type field of the ID Header VDO.
#[derive(Clone, Copy, Debug, PartialEq, Eq, Structural)]
pub enum ProductType {
    Undefined,
    Hub,
    Peripheral,
    PassiveCable,
    ActiveCable,
    Ama,
    Vpd,
    Other(u8),
}

/// The three-bit product type code, bits 29..27 of the ID Header.
pub open spec fn product_type_code(id_header: u32) -> u32 {
    (id_header >> IDH_PRODUCT_TYPE_SHIFT) & IDH_PRODUCT_TYPE_MASK
}

pub open spec fn product_type_of_code(code: u32) -> ProductType {
    if code == 0 {
        ProductType::Undefined
    } else if code == 1 {
        ProductType::Hub
    } else if code == 2 {
        ProductType::Peripheral
    } else if code == 3 {
        ProductType::PassiveCable
    } else if code == 4 {
        ProductType::ActiveCable
    } else if code == 5 {
        ProductType::Ama
    } else if code == 6 {
        ProductType::Vpd
    } else {
        ProductType::Other(code as u8)
    }
}

pub open spec fn spec_product_type(identity: PdIdentity) -> ProductType {
    product_type_of_code(product_type_code(identity.id_header))
}

pub open spec fn spec_modal(identity: PdIdentity) -> bool {
    identity.id_header & IDH_MODAL_OPERATION != 0
}

/// UFP VDO1 advertises USB4 device capability.
pub open spec fn ufp_usb4_capable(vdo: u32) -> bool {
    ((vdo >> UFP_DEVICE_CAPABILITY_SHIFT) & UFP_DEVICE_CAPABILITY_MASK) & UFP_USB4_CAPABLE != 0
}

pub open spec fn spec_partner_supports_usb4(identity: PdIdentity) -> bool {
    &&& (spec_product_type(identity) is Hub || spec_product_type(identity) is Peripheral)
    &&& identity.product_type_vdos@[0] matches Some(vdo) && ufp_usb4_capable(vdo)
}

pub open spec fn cable_speed(vdo1: u32) -> u32 {
    vdo1 & CABLE_SPEED_MASK
}

pub open spec fn active_cable_vdo_version(vdo1: u32) -> u32 {
    (vdo1 >> ACTIVE_CABLE_VDO_VERSION_SHIFT) & ACTIVE_CABLE_VDO_VERSION_MASK
}

/// A Thunderbolt cable mode VDO that reports 10/20 Gb/s with Gen3/Gen4 rounding.
pub open spec fn tbt_mode_rounded_usb4(vdo: u32) -> bool {
    &&& (vdo >> TBT_CABLE_SPEED_SHIFT) & TBT_CABLE_SPEED_MASK == TBT_CABLE_10_AND_20_GBPS
    &&& (vdo >> TBT_ROUNDED_SHIFT) & TBT_ROUNDED_MASK == TBT_GEN3_GEN4_ROUNDED
}

pub open spec fn has_svid(modes: Seq<AltMode>, svid: u16) -> bool {
    exists|i: int| 0 <= i < modes.len() && #[trigger] modes[i].svid == svid
}

pub open spec fn has_rounded_tbt_mode(modes: Seq<AltMode>) -> bool {
    exists|i: int|
        0 <= i < modes.len() && #[trigger] modes[i].svid == THUNDERBOLT_SVID
            && tbt_mode_rounded_usb4(modes[i].vdo)
}

pub open spec fn spec_cable_supports_usb4(identity: PdIdentity, modes: Seq<AltMode>) -> bool {
    match identity.product_type_vdos@[0] {
        None => false,
        Some(vdo1) => match spec_product_type(identity) {
            ProductType::PassiveCable => cable_speed(vdo1) != 0,
            ProductType::ActiveCable => if active_cable_vdo_version(vdo1)
                == ACTIVE_CABLE_VDO_VERSION_1_3 {
                identity.product_type_vdos@[1] matches Some(vdo2) && vdo2
                    & ACTIVE_CABLE_USB4_NOT_SUPPORTED == 0
            } else {
                spec_modal(identity) && has_rounded_tbt_mode(modes)
            },
            _ => false,
        },
    }
}

/// A PD revision string that begins with "2.".
pub open spec fn is_pd_revision_2(rev: Seq<char>) -> bool {
    rev.len() >= 2 && rev[0] == '2' && rev[1] == '.'
}

pub open spec fn spec_cable_supports_tbt(
    identity: PdIdentity,
    modes: Seq<AltMode>,
    pd_revision: Option<Seq<char>>,
) -> bool {
    match spec_product_type(identity) {
        ProductType::ActiveCable => has_svid(modes, THUNDERBOLT_SVID),
        ProductType::PassiveCable => {
            let speed = match identity.product_type_vdos@[0] {
                Some(v) => v,
                None => 0u32,
            } & CABLE_SPEED_MASK;
            match pd_revision {
                Some(rev) => if is_pd_revision_2(rev) {
                    speed == 1 || speed == 2
                } else {
                    1 <= speed <= 4
                },
                None => false,
            }
        },
        _ => false,
    }
}

pub open spec fn spec_dp_partner_receptacle(modes: Seq<AltMode>) -> bool {
    exists|i: int|
        0 <= i < modes.len() && #[trigger] modes[i].svid == DISPLAYPORT_SVID && modes[i].vdo
            & DP_MODE_RECEPTACLE != 0
}

pub open spec fn spec_cable_supports_dp(identity: PdIdentity, modes: Seq<AltMode>) -> bool {
    match identity.product_type_vdos@[0] {
        None => false,
        Some(vdo1) => match spec_product_type(identity) {
            ProductType::PassiveCable => cable_speed(vdo1) != 0,
            ProductType::ActiveCable => spec_modal(identity) && has_svid(modes, DISPLAYPORT_SVID),
            _ => false,
        },
    }
}

pub open spec fn spec_supports_dp(modes: Seq<AltMode>) -> bool {
    exists|i: int|
        0 <= i < modes.len() && #[trigger] modes[i].svid == DISPLAYPORT_SVID && modes[i].vdo
            & DP_MODE_SINK != 0
}

pub open spec fn spec_supports_tbt(modes: Seq<AltMode>) -> bool {
    has_svid(modes, THUNDERBOLT_SVID)
}

/// Decodes the product type of an identity.
pub fn product_type(identity: &PdIdentity) -> (kind: ProductType)
    ensures
        kind == spec_product_type(*identity),
{
    let header = identity.id_header;
    let code = (header >> IDH_PRODUCT_TYPE_SHIFT) & IDH_PRODUCT_TYPE_MASK;
    assert(code <= 7) by (bit_vector)
        requires
            code == (header >> 27u32) & 7u32,
    ;
    match code {
        0 => ProductType::Undefined,
        1 => ProductType::Hub,
        2 => ProductType::Peripheral,
        3 => ProductType::PassiveCable,
        4 => ProductType::ActiveCable,
        5 => ProductType::Ama,
        6 => ProductType::Vpd,
        _ => ProductType::Other(code as u8),
    }
}

/// Whether the identity advertises modal operation.
pub fn modal(identity: &PdIdentity) -> (m: bool)
    ensures
        m == spec_modal(*identity),
{
    identity.id_header & IDH_MODAL_OPERATION != 0
}

/// A hub or peripheral whose UFP VDO1 advertises USB4 device capability.
pub fn partner_supports_usb4(identity: &PdIdentity) -> (ok: bool)
    ensures
        ok == spec_partner_supports_usb4(*identity),
{
    let kind = product_type(identity);
    let hub_or_peripheral = match kind {
        ProductType::Hub | ProductType::Peripheral => true,
        _ => false,
    };
    if !hub_or_peripheral {
        return false;
    }
    match identity.product_type_vdos[0] {
        Some(vdo) => ((vdo >> UFP_DEVICE_CAPABILITY_SHIFT) & UFP_DEVICE_CAPABILITY_MASK)
            & UFP_USB4_CAPABLE != 0,
        None => false,
    }
}

fn any_svid(modes: &[AltMode], svid: u16) -> (found: bool)
    ensures
        found == has_svid(modes@, svid),
{
    let mut i: usize = 0;
    while i < modes.len()
        invariant
            i <= modes@.len(),
            forall|j: int| 0 <= j < i ==> modes@[j].svid != svid,
        decreases modes@.len() - i,
    {
        if modes[i].svid == svid {
            return true;
        }
        i = i + 1;
    }
    false
}

fn any_rounded_tbt_mode(modes: &[AltMode]) -> (found: bool)
    ensures
        found == has_rounded_tbt_mode(modes@),
{
    let mut i: usize = 0;
    while i < modes.len()
        invariant
            i <= modes@.len(),
            forall|j: int|
                0 <= j < i ==> !(modes@[j].svid == THUNDERBOLT_SVID && tbt_mode_rounded_usb4(
                    modes@[j].vdo,
                )),
        decreases modes@.len() - i,
    {
        let m = &modes[i];
        if m.svid == THUNDERBOLT_SVID {
            let speed = (m.vdo >> TBT_CABLE_SPEED_SHIFT) & TBT_CABLE_SPEED_MASK;
            let rounded = (m.vdo >> TBT_ROUNDED_SHIFT) & TBT_ROUNDED_MASK;
            if speed == TBT_CABLE_10_AND_20_GBPS && rounded == TBT_GEN3_GEN4_ROUNDED {
                return true;
            }
        }
        i = i + 1;
    }
    false
}

/// Whether the cable can carry USB4: a passive cable above USB 2.0 speed, an
/// active cable whose VDO2 (version 1.3 VDOs) does not disclaim USB4, or an
/// older modal active cable with a rounded 10/20 Gb/s Thunderbolt mode.
pub fn cable_supports_usb4(identity: &PdIdentity, modes: &[AltMode]) -> (ok: bool)
    ensures
        ok == spec_cable_supports_usb4(*identity, modes@),
{
    let vdo1 = match identity.product_type_vdos[0] {
        Some(v) => v,
        None => return false,
    };
    match product_type(identity) {
        ProductType::PassiveCable => vdo1 & CABLE_SPEED_MASK != 0,
        ProductType::ActiveCable => {
            let version = (vdo1 >> ACTIVE_CABLE_VDO_VERSION_SHIFT) & ACTIVE_CABLE_VDO_VERSION_MASK;
            if version == ACTIVE_CABLE_VDO_VERSION_1_3 {
                return match identity.product_type_vdos[1] {
                    Some(vdo2) => vdo2 & ACTIVE_CABLE_USB4_NOT_SUPPORTED == 0,
                    None => false,
                };
            }
            modal(identity) && any_rounded_tbt_mode(modes)
        },
        _ => false,
    }
}

fn starts_with_pd_revision_2(rev: &str) -> (yes: bool)
    ensures
        yes == is_pd_revision_2(rev@),
{
    rev.unicode_len() >= 2 && rev.get_char(0) == '2' && rev.get_char(1) == '.'
}

/// Whether the cable supports Thunderbolt compatibility mode.
pub fn cable_supports_tbt(identity: &PdIdentity, modes: &[AltMode], pd_revision: Option<&str>) -> (ok: bool)
    ensures
        ok == spec_cable_supports_tbt(
            *identity,
            modes@,
            match pd_revision {
                Some(r) => Some(r@),
                None => None,
            },
        ),
{
    match product_type(identity) {
        ProductType::ActiveCable => any_svid(modes, THUNDERBOLT_SVID),
        ProductType::PassiveCable => {
            let vdo1 = match identity.product_type_vdos[0] {
                Some(v) => v,
                None => 0,
            };
            let speed = vdo1 & CABLE_SPEED_MASK;
            match pd_revision {
                Some(rev) => if starts_with_pd_revision_2(rev) {
                    speed == 1 || speed == 2
                } else {
                    1 <= speed && speed <= 4
                },
                None => false,
            }
        },
        _ => false,
    }
}

/// Whether a partner DisplayPort mode is a receptacle.
pub fn dp_partner_receptacle(modes: &[AltMode]) -> (ok: bool)
    ensures
        ok == spec_dp_partner_receptacle(modes@),
{
    let mut i: usize = 0;
    while i < modes.len()
        invariant
            i <= modes@.len(),
            forall|j: int|
                0 <= j < i ==> !(modes@[j].svid == DISPLAYPORT_SVID && modes@[j].vdo
                    & DP_MODE_RECEPTACLE != 0),
        decreases modes@.len() - i,
    {
        if modes[i].svid == DISPLAYPORT_SVID && modes[i].vdo & DP_MODE_RECEPTACLE != 0 {
            return true;
        }
        i = i + 1;
    }
    false
}

/// Whether the cable can carry DisplayPort.
pub fn cable_supports_dp(identity: &PdIdentity, modes: &[AltMode]) -> (ok: bool)
    ensures
        ok == spec_cable_supports_dp(*identity, modes@),
{
    let vdo1 = match identity.product_type_vdos[0] {
        Some(v) => v,
        None => return false,
    };
    match product_type(identity) {
        ProductType::PassiveCable => vdo1 & CABLE_SPEED_MASK != 0,
        ProductType::ActiveCable => modal(identity) && any_svid(modes, DISPLAYPORT_SVID),
        _ => false,
    }
}

/// Whether the partner offers a DisplayPort sink mode.
pub fn supports_dp(modes: &[AltMode]) -> (ok: bool)
    ensures
        ok == spec_supports_dp(modes@),
{
    let mut i: usize = 0;
    while i < modes.len()
        invariant
            i <= modes@.len(),
            forall|j: int|
                0 <= j < i ==> !(modes@[j].svid == DISPLAYPORT_SVID && modes@[j].vdo & DP_MODE_SINK
                    != 0),
        decreases modes@.len() - i,
    {
        if modes[i].svid == DISPLAYPORT_SVID && modes[i].vdo & DP_MODE_SINK != 0 {
            return true;
        }
        i = i + 1;
    }
    false
}

/// Whether the partner offers a Thunderbolt mode.
pub fn supports_tbt(modes: &[AltMode]) -> (ok: bool)
    ensures
        ok == spec_supports_tbt(modes@),
{
    any_svid(modes, THUNDERBOLT_SVID)
}

/// A passive cable carries DisplayPort exactly when its VDO1 advertises a
/// USB speed above USB 2.0 (speed bits not zero); a cable without VDO1 never
/// does.
pub proof fn law_passive_cable_dp_follows_speed(identity: PdIdentity, modes: Seq<AltMode>)
    ensures
        identity.product_type_vdos@[0] is None ==> !spec_cable_supports_dp(identity, modes),
        (spec_product_type(identity) is PassiveCable && identity.product_type_vdos@[0] is Some)
            ==> (spec_cable_supports_dp(identity, modes) <==> identity.product_type_vdos@[0]->Some_0 & 0x7 != 0),
{
}

} // verus!
