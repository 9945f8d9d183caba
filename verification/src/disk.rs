//! Block storage over the two legacy ATA buses.

use vstd::prelude::*;

pub mod pio;

verus! {

/// Base of the eight command and data ports of the primary bus.
pub const ATA_IO_PORT_PRIMARY: u16 = 0x01F0;

/// Base of the eight command and data ports of the secondary bus.
pub const ATA_IO_PORT_SECONDARY: u16 = 0x0170;

/// Base of the two control ports of the primary bus.
pub const ATA_CONTROL_PORT_PRIMARY: u16 = 0x03F6;

/// Base of the two control ports of the secondary bus.
pub const ATA_CONTROL_PORT_SECONDARY: u16 = 0x0376;

} // verus!
