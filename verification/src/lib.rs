//! The logic of a small kernel's first steps on the hardware.
//!
//! - [`pci`] reads PCI configuration space and enumerates the functions
//!   behind the host bridge.
//! - [`bits`] and [`volatile`] give access to registers and to the flags
//!   packed into them.
//! - [`usb`] holds the xHCI host controller's registers, the handshake that
//!   brings the controller up, and the allocator of the memory it is given.
//! - [`graphics`], [`console`] and [`mouse`] draw pixels, text and a mouse
//!   cursor into a frame buffer.
//! - [`memory`] names the kinds of memory in the firmware's memory map.
//!
//! Nothing here touches hardware. Whoever does hands the library what was
//! read and carries out what the library asks to have written.

pub mod bits;
pub mod console;
pub mod graphics;
pub mod memory;
pub mod mouse;
pub mod pci;
pub mod usb;
pub mod volatile;
