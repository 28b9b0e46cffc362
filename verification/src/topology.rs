//! Normalized snapshot of one Type-C connector, its partner and its cable.
//! Paths are carried as plain strings.

use vstd::prelude::*;

verus! {

#[derive(Clone, Copy, Debug, PartialEq, Eq, Structural)]
pub enum DataRole {
    Host,
    Device,
    Unknown,
}

#[derive(Clone, Copy, Debug, PartialEq, Eq, Structural)]
pub enum UsbMode {
    Usb2,
    Usb3,
    Usb4,
}

/// The USB modes a partner offers, and the one that is active.
#[derive(Clone, Debug, Default, PartialEq, Eq)]
pub struct UsbModeSet {
    pub available: Vec<UsbMode>,
    pub active: Option<UsbMode>,
}

impl UsbModeSet {
    /// Whether `mode` is among the available modes.
    pub fn contains(&self, mode: UsbMode) -> (found: bool)
        ensures
            found == self.available@.contains(mode),
    {
        let mut i: usize = 0;
        while i < self.available.len()
            invariant
                i <= self.available@.len(),
                forall|j: int| 0 <= j < i ==> self.available@[j] != mode,
            decreases self.available@.len() - i,
        {
            if self.available[i] == mode {
                return true;
            }
            i = i + 1;
        }
        false
    }
}

/// USB-PD Discover Identity response.
#[derive(Clone, Debug, PartialEq, Eq)]
pub struct PdIdentity {
    pub id_header: u32,
    pub cert_stat: u32,
    pub product: u32,
    pub product_type_vdos: [Option<u32>; 3],
}

/// One alternate mode of a partner or of a cable plug.
#[derive(Clone, Debug, PartialEq, Eq)]
pub struct AltMode {
    pub syspath: String,
    pub svid: u16,
    pub mode: u8,
    pub vdo: u32,
    pub active: bool,
}

#[derive(Clone, Debug, PartialEq, Eq)]
pub struct PartnerSnapshot {
    pub syspath: String,
    pub supports_pd: bool,
    pub pd_revision: Option<String>,
    pub identity: Option<PdIdentity>,
    pub usb_modes: UsbModeSet,
    pub alt_modes: Vec<AltMode>,
}

#[derive(Clone, Debug, PartialEq, Eq)]
pub struct CableSnapshot {
    pub syspath: String,
    pub pd_revision: Option<String>,
    pub identity: Option<PdIdentity>,
    pub plug_modes: Vec<AltMode>,
}

/// The mode the connector currently operates in.
#[derive(Clone, Debug, PartialEq, Eq)]
pub enum ActiveMode {
    Inactive,
    Usb4,
    Thunderbolt { syspath: String },
    DisplayPort { syspath: String },
    Other { svid: u16, syspath: String },
}

#[derive(Clone, Debug, PartialEq, Eq)]
pub struct Usb4Link {
    pub syspath: String,
    pub domain_syspath: Option<String>,
}

#[derive(Clone, Debug, PartialEq, Eq)]
pub struct PortSnapshot {
    pub syspath: String,
    pub name: String,
    pub data_role: Option<DataRole>,
    pub supports_usb4: bool,
    pub partner: Option<PartnerSnapshot>,
    pub cable: Option<CableSnapshot>,
    pub active_mode: ActiveMode,
    pub usb4_link: Option<Usb4Link>,
}

impl Usb4Link {
    pub fn duplicate(&self) -> (copy: Usb4Link)
        ensures
            copy == *self,
    {
        Usb4Link {
            syspath: self.syspath.clone(),
            domain_syspath: match &self.domain_syspath {
                Some(d) => Some(d.clone()),
                None => None,
            },
        }
    }
}

impl ActiveMode {
    /// A copy that equals `self`.
    pub fn duplicate(&self) -> (copy: ActiveMode)
        ensures
            copy == *self,
    {
        match self {
            ActiveMode::Inactive => ActiveMode::Inactive,
            ActiveMode::Usb4 => ActiveMode::Usb4,
            ActiveMode::Thunderbolt { syspath } => ActiveMode::Thunderbolt { syspath: syspath.clone() },
            ActiveMode::DisplayPort { syspath } => ActiveMode::DisplayPort { syspath: syspath.clone() },
            ActiveMode::Other { svid, syspath } => ActiveMode::Other { svid: *svid, syspath: syspath.clone() },
        }
    }

    /// Whether no mode is active.
    pub fn is_none(&self) -> (none: bool)
        ensures
            none == (*self is Inactive),
    {
        match self {
            ActiveMode::Inactive => true,
            _ => false,
        }
    }
}

} // verus!
