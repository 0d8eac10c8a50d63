//! Devices the kernel writes to: framebuffers and TTYs.
use vstd::prelude::*;

pub mod fb;
pub mod framebuffer;
pub mod tty;

verus! {

/// A device id handed out by the device manager.
pub type DeviceId = usize;

/// The class of a device.
#[derive(Debug, Clone, Copy, PartialEq, Eq, Structural)]
pub enum DeviceClass {
    Tty,
    Framebuffer,
}

} // verus!
