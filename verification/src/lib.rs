//! The interrupt-driven I/O core of a small x86-64 kernel, and the command
//! line that sits on it.
//!
//! * [`interrupts`]: the table of interrupt vectors and what the routine behind
//!   each vector does.
//! * [`disk`]: the register protocol of an ATA drive, for reading, writing and
//!   identifying.
//! * [`task::keyboard`]: the bounded queue that carries scancodes from the
//!   keyboard interrupt to the task that consumes them, what a key press leads
//!   to, and the text that the editor keeps on the disk.
//! * [`task::cli`]: what a line typed at the prompt asks for.
//! * [`time`]: the tick count that the timer interrupt keeps.
//! * [`vga_buffer`]: the text screen and its colours.
//!
//! Nothing in this crate touches hardware. The crate decides; the kernel around
//! it performs each port access and each acknowledgement that the crate asks
//! for, hands back what it read, and copies the text screen to the display.

pub mod disk;
pub mod interrupts;
pub mod task;
pub mod time;
pub mod vga_buffer;
