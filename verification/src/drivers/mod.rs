//! PCI drivers and the ids they match.
use core::cmp::Ordering;
use vstd::prelude::*;

pub mod qemu;

verus! {

/// A unique identifier for a device: the vendor id in the high 16 bits and
/// the device id in the low 16 bits.
#[derive(Debug, Clone, Copy, PartialEq, Eq, Ord, Structural)]
pub struct DeviceId(u32);

impl View for DeviceId {
    type V = u32;

    closed spec fn view(&self) -> u32 {
        self.0
    }
}

/// Ids are ordered by their 32-bit value: by vendor id, then by device id.
impl PartialOrd for DeviceId {
    fn partial_cmp(&self, other: &Self) -> (r: Option<Ordering>) {
        if self.0 < other.0 {
            Some(Ordering::Less)
        } else if self.0 == other.0 {
            Some(Ordering::Equal)
        } else {
            Some(Ordering::Greater)
        }
    }
}

impl vstd::std_specs::cmp::PartialOrdSpecImpl for DeviceId {
    open spec fn obeys_partial_cmp_spec() -> bool {
        true
    }

    open spec fn partial_cmp_spec(&self, other: &Self) -> Option<Ordering> {
        if self@ < other@ {
            Some(Ordering::Less)
        } else if self@ == other@ {
            Some(Ordering::Equal)
        } else {
            Some(Ordering::Greater)
        }
    }
}

/// The vendor id held by `id`.
pub open spec fn spec_vendor(id: u32) -> u16 {
    (id >> 16u32) as u16
}

/// The device id held by `id`.
pub open spec fn spec_device(id: u32) -> u16 {
    (id & 0xFFFFu32) as u16
}

impl DeviceId {
    pub fn from_parts(vendor_id: u16, device_id: u16) -> (r: Self)
        ensures
            r@ == ((vendor_id as u32) << 16u32) | (device_id as u32),
    {
        Self(((vendor_id as u32) << 16u32) | (device_id as u32))
    }

    pub fn vendor(&self) -> (r: u16)
        ensures
            r == spec_vendor(self@),
    {
        (self.0 >> 16u32) as u16
    }

    pub fn device(&self) -> (r: u16)
        ensures
            r == spec_device(self@),
    {
        (self.0 & 0xFFFF) as u16
    }
}

/// An id built from a vendor id and a device id gives both back.
pub proof fn lemma_device_id_parts(vendor_id: u16, device_id: u16)
    ensures
        spec_vendor(((vendor_id as u32) << 16u32) | (device_id as u32)) == vendor_id,
        spec_device(((vendor_id as u32) << 16u32) | (device_id as u32)) == device_id,
{
    let v = vendor_id as u32;
    let d = device_id as u32;
    assert(((v << 16u32) | d) >> 16u32 == v && ((v << 16u32) | d) & 0xFFFFu32 == d) by (bit_vector)
        requires
            v <= 0xFFFF,
            d <= 0xFFFF;
}

/// An id is its 32-bit value: two ids are equal exactly when their values are.
pub proof fn lemma_device_id_view_eq(a: DeviceId, b: DeviceId)
    ensures
        (a@ == b@) == (a == b),
{
}

/// A driver for a PCI device.
pub trait Driver {}

/// Ids built from parts are equal exactly when both parts are, and order
/// by vendor id first, then by device id.
pub proof fn lemma_device_id_order(v1: u16, d1: u16, v2: u16, d2: u16)
    ensures
        (((v1 as u32) << 16u32) | (d1 as u32) == ((v2 as u32) << 16u32) | (d2 as u32)) == (v1 == v2 && d1 == d2),
        (((v1 as u32) << 16u32) | (d1 as u32) < ((v2 as u32) << 16u32) | (d2 as u32)) == (v1 < v2 || (v1 == v2
            && d1 < d2)),
{
    let a = v1 as u32;
    let b = d1 as u32;
    let c = v2 as u32;
    let d = d2 as u32;
    assert(((a << 16u32) | b == (c << 16u32) | d) == (a == c && b == d) && ((a << 16u32) | b < (c << 16u32) | d) == (
    a < c || (a == c && b < d))) by (bit_vector)
        requires
            a <= 0xFFFF,
            b <= 0xFFFF,
            c <= 0xFFFF,
            d <= 0xFFFF;
}

} // verus!
