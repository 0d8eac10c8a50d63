//! TTY devices.
use vstd::prelude::*;

pub mod fb;

verus! {

/// What a TTY device can do.
#[derive(Debug, Clone, Copy, PartialEq, Eq, Structural)]
pub struct TtyDeviceCapabilities {
    bits: u8,
}

impl View for TtyDeviceCapabilities {
    type V = u8;

    closed spec fn view(&self) -> u8 {
        self.bits
    }
}

impl TtyDeviceCapabilities {
    /// The device can be read from.
    pub fn read() -> (r: Self)
        ensures
            r@ == 1,
    {
        Self { bits: 1 }
    }

    /// The device can be written to.
    pub fn write() -> (r: Self)
        ensures
            r@ == 2,
    {
        Self { bits: 2 }
    }

    pub fn bits(&self) -> (r: u8)
        ensures
            r == self@,
    {
        self.bits
    }
}

/// A terminal: reads and writes bytes.
pub trait TtyDevice {
    fn capabilities(&self) -> TtyDeviceCapabilities;

    /// Reads into `buf` and returns the number of bytes read.
    fn read(&mut self, buf: &mut Vec<u8>) -> usize;

    /// Writes `buf` and returns the number of bytes written.
    fn write(&mut self, buf: &[u8]) -> usize;
}

} // verus!
