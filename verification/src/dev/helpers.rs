use vstd::prelude::*;

verus! {

/// The name of the vendor with PCI vendor id `vendor_id`, for the vendors the
/// kernel knows.
pub fn identity_vendor_id(vendor_id: u16) -> (r: Option<&'static str>)
    ensures
        vendor_id == 0x1234 ==> r == Some("QEMU"),
        vendor_id == 0x8086 ==> r == Some("Intel"),
        vendor_id == 0x10DE ==> r == Some("Nvidia"),
        vendor_id != 0x1234 && vendor_id != 0x8086 && vendor_id != 0x10DE ==> r is None,
{
    match vendor_id {
        0x1234 => Some("QEMU"),
        0x8086 => Some("Intel"),
        0x10DE => Some("Nvidia"),
        _ => None,
    }
}

} // verus!
