//! Connector-class Type-C mode selection: USB-PD identity decoding, the
//! candidate policy, the per-port attachment state machine, the sysfs
//! snapshot model and the reconciliation state machine that drives mode
//! transitions.

pub mod error;
pub mod text;
pub mod paths;
pub mod parse;
pub mod order;
pub mod topology;
pub mod vdo;
pub mod policy;
pub mod state;
pub mod sysfs;
pub mod daemon;
pub mod transition;
pub mod udev;
pub mod cli;
