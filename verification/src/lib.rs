//! Verified core of the Aether Grim kernel: the physical frame bitmap, the
//! input-device state machines, PCI decoding, the scheduler's decisions and the
//! software renderer, each stated over plain values.
pub mod bits;
pub mod pmm;
pub mod paging;
pub mod keyboard;
pub mod mouse;
pub mod timer;
pub mod process;
pub mod pci;
pub mod gui;
pub mod fault;
pub mod hda;
pub mod xhci;
pub mod cpu;
