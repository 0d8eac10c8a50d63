//! QEMU VGA driver.
use vstd::prelude::*;

verus! {

/// The QEMU VGA device.
pub struct Vga {}

impl Vga {
    pub fn new() -> (r: Self) {
        Self {}
    }
}

impl crate::drivers::Driver for Vga {}

} // verus!
