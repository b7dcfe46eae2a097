//! Hardware-access layer for PCIe- and Ethernet-attached accelerator chips: addressing,
//! byte-exact bus access, the firmware mailbox protocol and device detection.

pub mod access;
pub mod address;
pub mod arc_msg;
pub mod arch;
pub mod chip;
pub mod chip_interface;
pub mod detect;
pub mod error;
pub mod memory;
pub mod mesh;
pub mod noc;
pub mod registers;
pub mod scan;
pub mod script;
pub mod transport;
pub mod window;
pub mod word;

pub use crate::arc_msg::ArcMsg;
pub use crate::chip::{create_chip, AllChips, Blackhole, Grayskull, Wormhole};
pub use crate::chip_interface::ChipInterface;
pub use crate::error::{LuwenError, TTError};
pub use crate::scan::scan;
