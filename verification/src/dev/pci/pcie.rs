//! PCI Express configuration spaces.
use crate::arch::{PhysAddr, VirtAddr};
use crate::mm::page_table::PageTableFlags;
use core::ops::RangeInclusive;
use vstd::prelude::*;

verus! {

/// The bytes of configuration space of one PCIe device: 8 functions of 4KiB.
pub const DEVICE_SIZE: u64 = 0x8000;

/// The bytes of configuration space of one PCIe bus: 32 devices.
pub const BUS_SIZE: u64 = 0x10_0000;

/// 2MiB, the page size the configuration spaces are mapped with.
pub const PAGE_2MIB: u64 = 0x20_0000;

/// The first bus of a range: std's `RangeInclusive::start` returns the
/// start the range was made with, as long as the range has not been iterated
/// to exhaustion.
pub assume_specification<Idx>[ RangeInclusive::<Idx>::start ](r: &RangeInclusive<Idx>) -> (ret: &Idx)
    ensures
        !r@.exhausted ==> *ret == r@.start,
;

/// The last bus of a range: std's `RangeInclusive::end` returns the end the
/// range was made with, as long as the range has not been iterated to
/// exhaustion.
pub assume_specification<Idx>[ RangeInclusive::<Idx>::end ](r: &RangeInclusive<Idx>) -> (ret: &Idx)
    ensures
        !r@.exhausted ==> *ret == r@.end,
;

/// A region of contiguous physical memory that holds the configuration space
/// of the buses `buses`, mapped at a 2MiB-aligned virtual address.
pub struct PCIeConfigSpace {
    /// The physical base address of the config space.
    phys_base: PhysAddr,
    /// The mapped virtual address of the config space.
    virt_base: VirtAddr,
    /// The bus numbers that this config space holds.
    buses: RangeInclusive<u8>,
}

impl PCIeConfigSpace {
    pub closed spec fn spec_phys_base(&self) -> nat {
        self.phys_base@
    }

    pub closed spec fn spec_virt_base(&self) -> nat {
        self.virt_base@
    }

    /// The first bus.
    pub closed spec fn spec_first(&self) -> u8 {
        self.buses@.start
    }

    /// The last bus.
    pub closed spec fn spec_last(&self) -> u8 {
        self.buses@.end
    }

    /// The range of buses has not been iterated through.
    pub closed spec fn fresh(&self) -> bool {
        !self.buses@.exhausted
    }

    /// The size of the configuration space of buses `first..=last`.
    pub open spec fn spec_size(first: u8, last: u8) -> nat {
        ((last - first + 1) * BUS_SIZE) as nat
    }

    /// The configuration space of `buses`, identity mapped at `base`, which must
    /// be 2MiB aligned. The caller maps [`Self::mapped_pages`] 2MiB pages from
    /// `base` onto the frames at the same addresses, with
    /// [`Self::mapping_flags`].
    pub fn identity_mapped(base: PhysAddr, buses: RangeInclusive<u8>) -> (r: Self)
        requires
            base@ % (PAGE_2MIB as nat) == 0,
            buses@.start <= buses@.end,
            !buses@.exhausted,
        ensures
            r.spec_phys_base() == base@,
            r.spec_virt_base() == base@,
            r.spec_first() == buses@.start,
            r.spec_last() == buses@.end,
            r.fresh(),
    {
        let size = (*buses.end() as u64 - *buses.start() as u64 + 1) * BUS_SIZE;
        let virt_base = Self::map_with_offset(base, 0, size);
        Self { phys_base: base, virt_base, buses }
    }

    /// The virtual address of configuration space at `base` mapped with
    /// `offset`; both must be 2MiB aligned.
    fn map_with_offset(base: PhysAddr, offset: u64, size: u64) -> (r: VirtAddr)
        requires
            base@ % (PAGE_2MIB as nat) == 0,
            offset % PAGE_2MIB == 0,
            base@ + offset <= u64::MAX,
        ensures
            r@ == base@ + offset,
    {
        VirtAddr::new(base.as_u64() + offset)
    }

    /// The flags the 2MiB pages of a configuration space are mapped with:
    /// present, writable, not executable, not cached.
    pub fn mapping_flags() -> (r: PageTableFlags)
        ensures
            r@ == 0x8000_0000_0000_0013,
    {
        let r = PageTableFlags::present().union(PageTableFlags::writable()).union(PageTableFlags::no_execute()).union(
            PageTableFlags::no_cache(),
        );
        proof {
            assert(1u64 << 0u64 | 1u64 << 1u64 | 1u64 << 63u64 | 1u64 << 4u64 == 0x8000_0000_0000_0013u64) by (bit_vector);
        }
        r
    }

    /// The number of 2MiB pages that map the configuration space.
    pub fn mapped_pages(&self) -> (r: u64)
        requires
            self.spec_first() <= self.spec_last(),
            self.fresh(),
        ensures
            r == ((Self::spec_size(self.spec_first(), self.spec_last()) + PAGE_2MIB - 1) as nat) / (PAGE_2MIB as nat),
    {
        let size = self.size();
        size / PAGE_2MIB + if size % PAGE_2MIB == 0 { 0 } else { 1 }
    }

    /// The size in bytes of the configuration space.
    pub fn size(&self) -> (r: u64)
        requires
            self.spec_first() <= self.spec_last(),
            self.fresh(),
        ensures
            r == Self::spec_size(self.spec_first(), self.spec_last()),
    {
        (*self.buses.end() as u64 - *self.buses.start() as u64 + 1) * BUS_SIZE
    }

    /// Whether the configuration space holds bus `bus`.
    pub fn contains_bus(&self, bus: u8) -> (r: bool)
        requires
            self.fresh(),
        ensures
            r == (self.spec_first() <= bus <= self.spec_last()),
    {
        let first = *self.buses.start();
        let last = *self.buses.end();
        first <= bus && bus <= last
    }
}

/// A PCIe bus, by number.
pub struct PCIeBus {
    bus: u8,
}

impl PCIeBus {
    pub closed spec fn spec_bus(&self) -> u8 {
        self.bus
    }

    pub fn new(bus: u8) -> (r: Self)
        ensures
            r.spec_bus() == bus,
    {
        Self { bus }
    }
}

/// The configuration space of the first space in `spaces[i..]` that holds
/// `bus`.
pub open spec fn spec_bus_base(spaces: Seq<PCIeConfigSpace>, bus: u8, i: int) -> Option<nat>
    decreases spaces.len() - i,
{
    if i < 0 || i >= spaces.len() {
        None
    } else if spaces[i].spec_first() <= bus <= spaces[i].spec_last() {
        Some((spaces[i].spec_virt_base() + (bus - spaces[i].spec_first()) * BUS_SIZE) as nat)
    } else {
        spec_bus_base(spaces, bus, i + 1)
    }
}

/// The virtual address of the configuration space of `bus`, found in the first
/// space that holds it; some space must hold it.
pub fn get_bus_base(spaces: &[PCIeConfigSpace], bus: &PCIeBus) -> (r: VirtAddr)
    requires
        spec_bus_base(spaces@, bus.spec_bus(), 0) matches Some(b) && b <= u64::MAX,
        forall|i: int| 0 <= i < spaces@.len() ==> (#[trigger] spaces@[i]).fresh(),
    ensures
        spec_bus_base(spaces@, bus.spec_bus(), 0) == Some(r@),
{
    let mut i: usize = 0;
    while i < spaces.len()
        invariant
            i <= spaces@.len(),
            spec_bus_base(spaces@, bus.spec_bus(), 0) == spec_bus_base(spaces@, bus.spec_bus(), i as int),
            spec_bus_base(spaces@, bus.spec_bus(), 0) matches Some(b) && b <= u64::MAX,
            forall|i: int| 0 <= i < spaces@.len() ==> (#[trigger] spaces@[i]).fresh(),
        decreases spaces@.len() - i,
    {
        let space = &spaces[i];
        if space.contains_bus(bus.bus) {
            let offset = (bus.bus - *space.buses.start()) as u64 * BUS_SIZE;
            return space.virt_base.offset(offset);
        }
        i = i + 1;
    }
    proof {
        assert(false);
    }
    VirtAddr::null()
}

/// The number of functions a device has, from its header type: eight for a
/// multi-function device (bit 7 set), one otherwise.
pub fn function_count(header_type: u8) -> (r: u64)
    ensures
        r == if header_type & 0x80 == 0 {
            1u64
        } else {
            8u64
        },
{
    let bit = ((header_type >> 7u8) & 1) as u64;
    proof {
        assert(((header_type >> 7u8) & 1u8) == (if header_type & 0x80u8 == 0 { 0u8 } else { 1u8 })) by (bit_vector);
    }
    bit * 7 + 1
}

/// The address a base address register holds: its low four bits are flags.
pub fn bar_address(bar: u32) -> (r: u32)
    ensures
        r == bar & !0xFu32,
{
    bar & !0xF
}

/// Whether the function is absent: its vendor id reads as all ones.
pub fn function_absent(vendor_id: u16) -> (r: bool)
    ensures
        r == (vendor_id == 0xFFFF),
{
    vendor_id == 0xFFFF
}

/// The capability id and the next capability pointer held by a capability
/// header.
pub fn capability_header(header: u32) -> (r: (u32, u16))
    ensures
        r.0 == header & 0xFF,
        r.1 == (header >> 8u32) & 0xFF,
{
    let next = (header >> 8u32) & 0xFF;
    proof {
        assert(next <= 0xFF) by (bit_vector)
            requires next == (header >> 8u32) & 0xFF;
    }
    (header & 0xFF, next as u16)
}

/// The class of a PCI device, from the class code of its configuration space.
#[derive(Debug, Clone, Copy, PartialEq, Eq, Structural)]
pub enum DeviceClass {
    Unclassified,
    MassStorageController,
    NetworkController,
    DisplayController,
    MultimediaController,
    MemoryController,
    BridgeDevice,
    SimpleCommunicationController,
    BaseSystemPeripheral,
    InputDeviceController,
    DockingStation,
    Processor,
    SerialBusController,
    WirelessController,
    IntelligentController,
    SatelliteCommunicationController,
    EncryptionController,
    SignalProcessingController,
    ProcessingAccelerator,
    NonEssentialInstrumentation,
    Coprocessor,
    Unassigned,
    Unknown(u8),
}

/// The class that class code `value` stands for.
pub open spec fn spec_class_from_code(value: u8) -> DeviceClass {
    if value == 0x00 {
        DeviceClass::Unclassified
    }     else if value == 0x01 {
        DeviceClass::MassStorageController
    }     else if value == 0x02 {
        DeviceClass::NetworkController
    }     else if value == 0x03 {
        DeviceClass::DisplayController
    }     else if value == 0x04 {
        DeviceClass::MultimediaController
    }     else if value == 0x05 {
        DeviceClass::MemoryController
    }     else if value == 0x06 {
        DeviceClass::BridgeDevice
    }     else if value == 0x07 {
        DeviceClass::SimpleCommunicationController
    }     else if value == 0x08 {
        DeviceClass::BaseSystemPeripheral
    }     else if value == 0x09 {
        DeviceClass::InputDeviceController
    }     else if value == 0x0A {
        DeviceClass::DockingStation
    }     else if value == 0x0B {
        DeviceClass::Processor
    }     else if value == 0x0C {
        DeviceClass::SerialBusController
    }     else if value == 0x0D {
        DeviceClass::WirelessController
    }     else if value == 0x0E {
        DeviceClass::IntelligentController
    }     else if value == 0x0F {
        DeviceClass::SatelliteCommunicationController
    }     else if value == 0x10 {
        DeviceClass::EncryptionController
    }     else if value == 0x11 {
        DeviceClass::SignalProcessingController
    }     else if value == 0x12 {
        DeviceClass::ProcessingAccelerator
    }     else if value == 0x13 {
        DeviceClass::NonEssentialInstrumentation
    }     else if value == 0x40 {
        DeviceClass::Coprocessor
    }     else if value == 0xFF {
        DeviceClass::Unassigned
    } else {
        DeviceClass::Unknown(value)
    }
}

/// The class code of class `class`.
pub open spec fn spec_class_code(class: DeviceClass) -> u8 {
    match class {
        DeviceClass::Unclassified => 0x00,
        DeviceClass::MassStorageController => 0x01,
        DeviceClass::NetworkController => 0x02,
        DeviceClass::DisplayController => 0x03,
        DeviceClass::MultimediaController => 0x04,
        DeviceClass::MemoryController => 0x05,
        DeviceClass::BridgeDevice => 0x06,
        DeviceClass::SimpleCommunicationController => 0x07,
        DeviceClass::BaseSystemPeripheral => 0x08,
        DeviceClass::InputDeviceController => 0x09,
        DeviceClass::DockingStation => 0x0A,
        DeviceClass::Processor => 0x0B,
        DeviceClass::SerialBusController => 0x0C,
        DeviceClass::WirelessController => 0x0D,
        DeviceClass::IntelligentController => 0x0E,
        DeviceClass::SatelliteCommunicationController => 0x0F,
        DeviceClass::EncryptionController => 0x10,
        DeviceClass::SignalProcessingController => 0x11,
        DeviceClass::ProcessingAccelerator => 0x12,
        DeviceClass::NonEssentialInstrumentation => 0x13,
        DeviceClass::Coprocessor => 0x40,
        DeviceClass::Unassigned => 0xFF,
        DeviceClass::Unknown(other) => other,
    }
}

impl DeviceClass {
    pub fn from_u8(value: u8) -> (r: DeviceClass)
        ensures
            r == spec_class_from_code(value),
    {
        match value {
            0x00 => DeviceClass::Unclassified,
            0x01 => DeviceClass::MassStorageController,
            0x02 => DeviceClass::NetworkController,
            0x03 => DeviceClass::DisplayController,
            0x04 => DeviceClass::MultimediaController,
            0x05 => DeviceClass::MemoryController,
            0x06 => DeviceClass::BridgeDevice,
            0x07 => DeviceClass::SimpleCommunicationController,
            0x08 => DeviceClass::BaseSystemPeripheral,
            0x09 => DeviceClass::InputDeviceController,
            0x0A => DeviceClass::DockingStation,
            0x0B => DeviceClass::Processor,
            0x0C => DeviceClass::SerialBusController,
            0x0D => DeviceClass::WirelessController,
            0x0E => DeviceClass::IntelligentController,
            0x0F => DeviceClass::SatelliteCommunicationController,
            0x10 => DeviceClass::EncryptionController,
            0x11 => DeviceClass::SignalProcessingController,
            0x12 => DeviceClass::ProcessingAccelerator,
            0x13 => DeviceClass::NonEssentialInstrumentation,
            0x40 => DeviceClass::Coprocessor,
            0xFF => DeviceClass::Unassigned,
            other => DeviceClass::Unknown(other),
        }
    }

    pub fn to_u8(self) -> (r: u8)
        ensures
            r == spec_class_code(self),
    {
        match self {
            DeviceClass::Unclassified => 0x00,
            DeviceClass::MassStorageController => 0x01,
            DeviceClass::NetworkController => 0x02,
            DeviceClass::DisplayController => 0x03,
            DeviceClass::MultimediaController => 0x04,
            DeviceClass::MemoryController => 0x05,
            DeviceClass::BridgeDevice => 0x06,
            DeviceClass::SimpleCommunicationController => 0x07,
            DeviceClass::BaseSystemPeripheral => 0x08,
            DeviceClass::InputDeviceController => 0x09,
            DeviceClass::DockingStation => 0x0A,
            DeviceClass::Processor => 0x0B,
            DeviceClass::SerialBusController => 0x0C,
            DeviceClass::WirelessController => 0x0D,
            DeviceClass::IntelligentController => 0x0E,
            DeviceClass::SatelliteCommunicationController => 0x0F,
            DeviceClass::EncryptionController => 0x10,
            DeviceClass::SignalProcessingController => 0x11,
            DeviceClass::ProcessingAccelerator => 0x12,
            DeviceClass::NonEssentialInstrumentation => 0x13,
            DeviceClass::Coprocessor => 0x40,
            DeviceClass::Unassigned => 0xFF,
            DeviceClass::Unknown(other) => other,
        }
    }
}

/// The PCI class-code table: each named class is decoded from exactly its
/// code (mass storage from 0x01, network from 0x02, display from 0x03, ...,
/// coprocessor from 0x40, unassigned from 0xFF) and encodes to it; every
/// other code is kept as `Unknown` with that code.
pub proof fn lemma_class_code_table(value: u8)
    ensures
        (spec_class_from_code(value) == DeviceClass::Unclassified) <==> (value == 0x00u8),
        spec_class_code(DeviceClass::Unclassified) == 0x00u8,
        (spec_class_from_code(value) == DeviceClass::MassStorageController) <==> (value == 0x01u8),
        spec_class_code(DeviceClass::MassStorageController) == 0x01u8,
        (spec_class_from_code(value) == DeviceClass::NetworkController) <==> (value == 0x02u8),
        spec_class_code(DeviceClass::NetworkController) == 0x02u8,
        (spec_class_from_code(value) == DeviceClass::DisplayController) <==> (value == 0x03u8),
        spec_class_code(DeviceClass::DisplayController) == 0x03u8,
        (spec_class_from_code(value) == DeviceClass::MultimediaController) <==> (value == 0x04u8),
        spec_class_code(DeviceClass::MultimediaController) == 0x04u8,
        (spec_class_from_code(value) == DeviceClass::MemoryController) <==> (value == 0x05u8),
        spec_class_code(DeviceClass::MemoryController) == 0x05u8,
        (spec_class_from_code(value) == DeviceClass::BridgeDevice) <==> (value == 0x06u8),
        spec_class_code(DeviceClass::BridgeDevice) == 0x06u8,
        (spec_class_from_code(value) == DeviceClass::SimpleCommunicationController) <==> (value == 0x07u8),
        spec_class_code(DeviceClass::SimpleCommunicationController) == 0x07u8,
        (spec_class_from_code(value) == DeviceClass::BaseSystemPeripheral) <==> (value == 0x08u8),
        spec_class_code(DeviceClass::BaseSystemPeripheral) == 0x08u8,
        (spec_class_from_code(value) == DeviceClass::InputDeviceController) <==> (value == 0x09u8),
        spec_class_code(DeviceClass::InputDeviceController) == 0x09u8,
        (spec_class_from_code(value) == DeviceClass::DockingStation) <==> (value == 0x0Au8),
        spec_class_code(DeviceClass::DockingStation) == 0x0Au8,
        (spec_class_from_code(value) == DeviceClass::Processor) <==> (value == 0x0Bu8),
        spec_class_code(DeviceClass::Processor) == 0x0Bu8,
        (spec_class_from_code(value) == DeviceClass::SerialBusController) <==> (value == 0x0Cu8),
        spec_class_code(DeviceClass::SerialBusController) == 0x0Cu8,
        (spec_class_from_code(value) == DeviceClass::WirelessController) <==> (value == 0x0Du8),
        spec_class_code(DeviceClass::WirelessController) == 0x0Du8,
        (spec_class_from_code(value) == DeviceClass::IntelligentController) <==> (value == 0x0Eu8),
        spec_class_code(DeviceClass::IntelligentController) == 0x0Eu8,
        (spec_class_from_code(value) == DeviceClass::SatelliteCommunicationController) <==> (value == 0x0Fu8),
        spec_class_code(DeviceClass::SatelliteCommunicationController) == 0x0Fu8,
        (spec_class_from_code(value) == DeviceClass::EncryptionController) <==> (value == 0x10u8),
        spec_class_code(DeviceClass::EncryptionController) == 0x10u8,
        (spec_class_from_code(value) == DeviceClass::SignalProcessingController) <==> (value == 0x11u8),
        spec_class_code(DeviceClass::SignalProcessingController) == 0x11u8,
        (spec_class_from_code(value) == DeviceClass::ProcessingAccelerator) <==> (value == 0x12u8),
        spec_class_code(DeviceClass::ProcessingAccelerator) == 0x12u8,
        (spec_class_from_code(value) == DeviceClass::NonEssentialInstrumentation) <==> (value == 0x13u8),
        spec_class_code(DeviceClass::NonEssentialInstrumentation) == 0x13u8,
        (spec_class_from_code(value) == DeviceClass::Coprocessor) <==> (value == 0x40u8),
        spec_class_code(DeviceClass::Coprocessor) == 0x40u8,
        (spec_class_from_code(value) == DeviceClass::Unassigned) <==> (value == 0xFFu8),
        spec_class_code(DeviceClass::Unassigned) == 0xFFu8,
        (spec_class_from_code(value) == DeviceClass::Unknown(value)) <==> ((0x14u8 <= value && value < 0x40u8) || (
        0x40u8 < value && value < 0xFFu8)),
        spec_class_from_code(value) is Unknown ==> spec_class_from_code(value) == DeviceClass::Unknown(value),
{
}

/// Decoding a class code and encoding the class gives the code back.
pub proof fn lemma_class_code_roundtrip(value: u8)
    ensures
        spec_class_code(spec_class_from_code(value)) == value,
{
}

/// Encoding a class and decoding the code gives the class back, unless the
/// class is `Unknown` with a code that stands for a known class.
pub proof fn lemma_class_roundtrip(class: DeviceClass)
    requires
        class matches DeviceClass::Unknown(v) ==> spec_class_from_code(v) == class,
    ensures
        spec_class_from_code(spec_class_code(class)) == class,
{
}

/// How a function's base address register addresses its region.
#[derive(Debug, Clone, Copy, PartialEq, Structural)]
pub enum PCIEFunctionAddressType {
    Memory,
    IO,
}

/// Registers of the configuration space header of a function.
#[derive(Debug, Clone, Copy, PartialEq, Eq, Structural)]
pub enum PCIEFunctionOffset {
    VendorID,
    DeviceID,
    Command,
    Status,
    RevisionID,
    ProgIF,
    Subclass,
    Class,
    CacheLineSize,
    LatencyTimer,
    HeaderType,
    BIST,
    Bar0,
    Bar1,
    Bar2,
    Bar3,
    Bar4,
    Bar5,
    CardbusCISPointer,
    SubsystemVendorID,
    SubsystemID,
    ExpansionROMBaseAddress,
    CapabilitiesPointer,
    InterruptLine,
    InterruptPin,
    MinGrant,
    MaxLatency,
}

/// The byte offset of register `o` in the configuration space.
pub open spec fn spec_offset(o: PCIEFunctionOffset) -> u16 {
    match o {
        PCIEFunctionOffset::VendorID => 0x00,
        PCIEFunctionOffset::DeviceID => 0x02,
        PCIEFunctionOffset::Command => 0x04,
        PCIEFunctionOffset::Status => 0x06,
        PCIEFunctionOffset::RevisionID => 0x08,
        PCIEFunctionOffset::ProgIF => 0x09,
        PCIEFunctionOffset::Subclass => 0x0A,
        PCIEFunctionOffset::Class => 0x0B,
        PCIEFunctionOffset::CacheLineSize => 0x0C,
        PCIEFunctionOffset::LatencyTimer => 0x0D,
        PCIEFunctionOffset::HeaderType => 0x0E,
        PCIEFunctionOffset::BIST => 0x0F,
        PCIEFunctionOffset::Bar0 => 0x10,
        PCIEFunctionOffset::Bar1 => 0x14,
        PCIEFunctionOffset::Bar2 => 0x18,
        PCIEFunctionOffset::Bar3 => 0x1C,
        PCIEFunctionOffset::Bar4 => 0x20,
        PCIEFunctionOffset::Bar5 => 0x24,
        PCIEFunctionOffset::CardbusCISPointer => 0x28,
        PCIEFunctionOffset::SubsystemVendorID => 0x2C,
        PCIEFunctionOffset::SubsystemID => 0x2E,
        PCIEFunctionOffset::ExpansionROMBaseAddress => 0x30,
        PCIEFunctionOffset::CapabilitiesPointer => 0x34,
        PCIEFunctionOffset::InterruptLine => 0x3C,
        PCIEFunctionOffset::InterruptPin => 0x3D,
        PCIEFunctionOffset::MinGrant => 0x3E,
        PCIEFunctionOffset::MaxLatency => 0x3F,
    }
}

/// The type 0 configuration header layout: each register sits at its own
/// byte offset (vendor id at 0x00, device id at 0x02, class at 0x0B, header
/// type at 0x0E, the six BARs at 0x10 to 0x24, four bytes apart, the
/// capabilities pointer at 0x34, ...), so distinct registers never share one.
pub proof fn lemma_register_offsets(o: PCIEFunctionOffset, other: PCIEFunctionOffset)
    ensures
        (spec_offset(o) == 0x00u16) <==> (o == PCIEFunctionOffset::VendorID),
        (spec_offset(o) == 0x02u16) <==> (o == PCIEFunctionOffset::DeviceID),
        (spec_offset(o) == 0x04u16) <==> (o == PCIEFunctionOffset::Command),
        (spec_offset(o) == 0x06u16) <==> (o == PCIEFunctionOffset::Status),
        (spec_offset(o) == 0x08u16) <==> (o == PCIEFunctionOffset::RevisionID),
        (spec_offset(o) == 0x09u16) <==> (o == PCIEFunctionOffset::ProgIF),
        (spec_offset(o) == 0x0Au16) <==> (o == PCIEFunctionOffset::Subclass),
        (spec_offset(o) == 0x0Bu16) <==> (o == PCIEFunctionOffset::Class),
        (spec_offset(o) == 0x0Cu16) <==> (o == PCIEFunctionOffset::CacheLineSize),
        (spec_offset(o) == 0x0Du16) <==> (o == PCIEFunctionOffset::LatencyTimer),
        (spec_offset(o) == 0x0Eu16) <==> (o == PCIEFunctionOffset::HeaderType),
        (spec_offset(o) == 0x0Fu16) <==> (o == PCIEFunctionOffset::BIST),
        (spec_offset(o) == 0x10u16) <==> (o == PCIEFunctionOffset::Bar0),
        (spec_offset(o) == 0x14u16) <==> (o == PCIEFunctionOffset::Bar1),
        (spec_offset(o) == 0x18u16) <==> (o == PCIEFunctionOffset::Bar2),
        (spec_offset(o) == 0x1Cu16) <==> (o == PCIEFunctionOffset::Bar3),
        (spec_offset(o) == 0x20u16) <==> (o == PCIEFunctionOffset::Bar4),
        (spec_offset(o) == 0x24u16) <==> (o == PCIEFunctionOffset::Bar5),
        (spec_offset(o) == 0x28u16) <==> (o == PCIEFunctionOffset::CardbusCISPointer),
        (spec_offset(o) == 0x2Cu16) <==> (o == PCIEFunctionOffset::SubsystemVendorID),
        (spec_offset(o) == 0x2Eu16) <==> (o == PCIEFunctionOffset::SubsystemID),
        (spec_offset(o) == 0x30u16) <==> (o == PCIEFunctionOffset::ExpansionROMBaseAddress),
        (spec_offset(o) == 0x34u16) <==> (o == PCIEFunctionOffset::CapabilitiesPointer),
        (spec_offset(o) == 0x3Cu16) <==> (o == PCIEFunctionOffset::InterruptLine),
        (spec_offset(o) == 0x3Du16) <==> (o == PCIEFunctionOffset::InterruptPin),
        (spec_offset(o) == 0x3Eu16) <==> (o == PCIEFunctionOffset::MinGrant),
        (spec_offset(o) == 0x3Fu16) <==> (o == PCIEFunctionOffset::MaxLatency),
        (spec_offset(o) == spec_offset(other)) <==> (o == other),
{
}

impl PCIEFunctionOffset {
    /// The byte offset of the register in the configuration space.
    pub fn offset(self) -> (r: u16)
        ensures
            r == spec_offset(self),
            r < 0x40,
    {
        match self {
            PCIEFunctionOffset::VendorID => 0x00,
            PCIEFunctionOffset::DeviceID => 0x02,
            PCIEFunctionOffset::Command => 0x04,
            PCIEFunctionOffset::Status => 0x06,
            PCIEFunctionOffset::RevisionID => 0x08,
            PCIEFunctionOffset::ProgIF => 0x09,
            PCIEFunctionOffset::Subclass => 0x0A,
            PCIEFunctionOffset::Class => 0x0B,
            PCIEFunctionOffset::CacheLineSize => 0x0C,
            PCIEFunctionOffset::LatencyTimer => 0x0D,
            PCIEFunctionOffset::HeaderType => 0x0E,
            PCIEFunctionOffset::BIST => 0x0F,
            PCIEFunctionOffset::Bar0 => 0x10,
            PCIEFunctionOffset::Bar1 => 0x14,
            PCIEFunctionOffset::Bar2 => 0x18,
            PCIEFunctionOffset::Bar3 => 0x1C,
            PCIEFunctionOffset::Bar4 => 0x20,
            PCIEFunctionOffset::Bar5 => 0x24,
            PCIEFunctionOffset::CardbusCISPointer => 0x28,
            PCIEFunctionOffset::SubsystemVendorID => 0x2C,
            PCIEFunctionOffset::SubsystemID => 0x2E,
            PCIEFunctionOffset::ExpansionROMBaseAddress => 0x30,
            PCIEFunctionOffset::CapabilitiesPointer => 0x34,
            PCIEFunctionOffset::InterruptLine => 0x3C,
            PCIEFunctionOffset::InterruptPin => 0x3D,
            PCIEFunctionOffset::MinGrant => 0x3E,
            PCIEFunctionOffset::MaxLatency => 0x3F,
        }
    }
}

/// The configuration space of one function.
pub struct PCIeFunction {
    /// The base address of the function's configuration space.
    base: VirtAddr,
}

impl PCIeFunction {
    pub closed spec fn spec_base(&self) -> nat {
        self.base@
    }

    pub fn new(base: VirtAddr) -> (r: Self)
        ensures
            r.spec_base() == base@,
    {
        Self { base }
    }

    /// The address of the register at `offset`.
    pub fn register_address(&self, offset: PCIEFunctionOffset) -> (r: VirtAddr)
        requires
            self.spec_base() + 0x40 <= u64::MAX,
        ensures
            r@ == self.spec_base() + spec_offset(offset),
    {
        self.base.offset(offset.offset() as u64)
    }
}


/// The address of the configuration space of function `function` of device
/// `device` on a bus whose configuration space starts at `base`.
pub fn function_address(base: VirtAddr, device: u64, function: u64) -> (r: VirtAddr)
    requires
        device < 32,
        function < 8,
        base@ + BUS_SIZE <= u64::MAX,
    ensures
        r@ == base@ + device * DEVICE_SIZE + function * 4096,
{
    base.offset(device * DEVICE_SIZE + function * 4096)
}

/// The registers of one function's configuration space that a bus scan reads.
#[derive(Debug, Clone, Copy)]
pub struct FunctionHeader {
    pub vendor_id: u16,
    pub device_id: u16,
    pub revision: u8,
    pub class: u8,
    pub header_type: u8,
    /// The raw base address registers.
    pub bars: [u32; 6],
}

/// A function found on a bus.
#[derive(Debug, Clone, Copy)]
pub struct DeviceFunctionInner {
    pub function: u8,
    pub vendor_id: u16,
    pub device_id: u16,
    pub revision: u8,
    pub class: DeviceClass,
    /// The addresses the base address registers hold.
    pub bars: [u32; 6],
}

/// A device found on a bus, with its present functions in order.
#[derive(Debug)]
pub struct PciDevice {
    pub device: u8,
    pub functions: Vec<DeviceFunctionInner>,
}

/// A scanned bus: the devices that have at least one function, in order.
#[derive(Debug)]
pub struct BusDevice {
    pub bus: u8,
    pub devices: Vec<PciDevice>,
}

/// `info` describes function `function` whose configuration space holds `h`.
pub open spec fn describes(info: DeviceFunctionInner, h: FunctionHeader, function: nat) -> bool {
    &&& info.function == function
    &&& info.vendor_id == h.vendor_id
    &&& info.device_id == h.device_id
    &&& info.revision == h.revision
    &&& info.class == spec_class_from_code(h.class)
    &&& forall|i: int| 0 <= i < 6 ==> #[trigger] info.bars[i] == h.bars[i] & !0xFu32
}

/// The number of functions the scan looks at for `device`: eight when
/// function 0 says the device is multi-function, one otherwise.
pub open spec fn spec_function_count(headers: Seq<FunctionHeader>, device: int) -> int {
    if headers[device * 8].header_type & 0x80 == 0 {
        1
    } else {
        8
    }
}

/// The present functions among the first `n` functions of `device`: those
/// whose vendor id does not read as all ones.
pub open spec fn present_functions(headers: Seq<FunctionHeader>, device: int, n: int) -> Seq<int>
    decreases n,
{
    if n <= 0 {
        Seq::empty()
    } else if headers[device * 8 + n - 1].vendor_id == 0xFFFF {
        present_functions(headers, device, n - 1)
    } else {
        present_functions(headers, device, n - 1).push(n - 1)
    }
}

/// The functions the scan finds on `device`.
pub open spec fn device_functions(headers: Seq<FunctionHeader>, device: int) -> Seq<int> {
    present_functions(headers, device, spec_function_count(headers, device))
}

/// The devices among the first `n` that have a present function, in order.
pub open spec fn found_devices(headers: Seq<FunctionHeader>, n: int) -> Seq<int>
    decreases n,
{
    if n <= 0 {
        Seq::empty()
    } else if device_functions(headers, n - 1).len() == 0 {
        found_devices(headers, n - 1)
    } else {
        found_devices(headers, n - 1).push(n - 1)
    }
}

/// `d` is what the scan makes of device `device`.
pub open spec fn scanned_device(d: PciDevice, headers: Seq<FunctionHeader>, device: int) -> bool {
    let fs = device_functions(headers, device);
    &&& d.device == device
    &&& d.functions@.len() == fs.len()
    &&& forall|j: int|
        0 <= j < fs.len() ==> describes(#[trigger] d.functions@[j], headers[device * 8 + fs[j]], fs[j] as nat)
}

/// What function `function` whose configuration space holds `h` is.
pub fn describe_function(h: &FunctionHeader, function: u8) -> (r: DeviceFunctionInner)
    ensures
        describes(r, *h, function as nat),
{
    let bars = [
        bar_address(h.bars[0]),
        bar_address(h.bars[1]),
        bar_address(h.bars[2]),
        bar_address(h.bars[3]),
        bar_address(h.bars[4]),
        bar_address(h.bars[5]),
    ];
    DeviceFunctionInner {
        function,
        vendor_id: h.vendor_id,
        device_id: h.device_id,
        revision: h.revision,
        class: DeviceClass::from_u8(h.class),
        bars,
    }
}

/// The functions among the first `n` of `device` that are present, each once,
/// in increasing order.
proof fn lemma_present_functions(headers: Seq<FunctionHeader>, device: int, n: int, f: int)
    ensures
        present_functions(headers, device, n).contains(f) <==> (0 <= f < n && headers[device * 8 + f].vendor_id
            != 0xFFFF),
        forall|i: int, j: int|
            0 <= i < j < present_functions(headers, device, n).len() ==> #[trigger] present_functions(
                headers,
                device,
                n,
            )[i] < #[trigger] present_functions(headers, device, n)[j],
        forall|i: int|
            0 <= i < present_functions(headers, device, n).len() ==> 0 <= #[trigger] present_functions(
                headers,
                device,
                n,
            )[i] < n,
    decreases n,
{
    if n > 0 {
        lemma_present_functions(headers, device, n - 1, f);
        let prev = present_functions(headers, device, n - 1);
        if headers[device * 8 + n - 1].vendor_id != 0xFFFF {
            let cur = prev.push(n - 1);
            assert(cur.contains(f) <==> (prev.contains(f) || f == n - 1)) by {
                if f == n - 1 {
                    assert(cur[prev.len() as int] == f);
                }
                if prev.contains(f) {
                    let k = choose|k: int| 0 <= k < prev.len() && prev[k] == f;
                    assert(cur[k] == f);
                }
                if cur.contains(f) && f != n - 1 {
                    let k = choose|k: int| 0 <= k < cur.len() && cur[k] == f;
                    assert(k < prev.len());
                    assert(prev[k] == f);
                }
            }
        }
    }
}

/// A function of a device is found exactly when it is one the device has,
/// all eight when function 0's header type has the multi-function bit
/// (0x80) and function 0 alone otherwise, and its vendor id does not read
/// as 0xFFFF; the found functions come in increasing order.
pub proof fn lemma_device_functions(headers: Seq<FunctionHeader>, device: int, f: int)
    ensures
        device_functions(headers, device).contains(f) <==> (0 <= f < (if headers[device * 8].header_type & 0x80 != 0 {
            8int
        } else {
            1int
        }) && headers[device * 8 + f].vendor_id != 0xFFFF),
        forall|i: int, j: int|
            0 <= i < j < device_functions(headers, device).len() ==> #[trigger] device_functions(headers, device)[i]
                < #[trigger] device_functions(headers, device)[j],
{
    lemma_present_functions(headers, device, spec_function_count(headers, device), f);
}

/// The devices among the first `n` that have a function found, each once, in
/// increasing order.
proof fn lemma_found_devices_upto(headers: Seq<FunctionHeader>, n: int, d: int)
    ensures
        found_devices(headers, n).contains(d) <==> (0 <= d < n && device_functions(headers, d).len() > 0),
        forall|i: int, j: int|
            0 <= i < j < found_devices(headers, n).len() ==> #[trigger] found_devices(headers, n)[i]
                < #[trigger] found_devices(headers, n)[j],
        forall|i: int| 0 <= i < found_devices(headers, n).len() ==> 0 <= #[trigger] found_devices(headers, n)[i] < n,
    decreases n,
{
    if n > 0 {
        lemma_found_devices_upto(headers, n - 1, d);
        let prev = found_devices(headers, n - 1);
        if device_functions(headers, n - 1).len() != 0 {
            let cur = prev.push(n - 1);
            assert(cur.contains(d) <==> (prev.contains(d) || d == n - 1)) by {
                if d == n - 1 {
                    assert(cur[prev.len() as int] == d);
                }
                if prev.contains(d) {
                    let k = choose|k: int| 0 <= k < prev.len() && prev[k] == d;
                    assert(cur[k] == d);
                }
                if cur.contains(d) && d != n - 1 {
                    let k = choose|k: int| 0 <= k < cur.len() && cur[k] == d;
                    assert(k < prev.len());
                    assert(prev[k] == d);
                }
            }
        }
    }
}

/// A device of the bus is found exactly when it has a function that is
/// found, and the found devices come in increasing order.
pub proof fn lemma_found_devices(headers: Seq<FunctionHeader>, d: int)
    ensures
        found_devices(headers, 32).contains(d) <==> (0 <= d < 32 && exists|f: int|
            #[trigger] device_functions(headers, d).contains(f)),
        forall|i: int, j: int|
            0 <= i < j < found_devices(headers, 32).len() ==> #[trigger] found_devices(headers, 32)[i]
                < #[trigger] found_devices(headers, 32)[j],
{
    lemma_found_devices_upto(headers, 32, d);
    if device_functions(headers, d).len() > 0 {
        assert(device_functions(headers, d).contains(device_functions(headers, d)[0]));
    }
}

/// Scans device `device`: the present functions among those its function 0
/// announces.
pub fn scan_device(headers: &[FunctionHeader], device: u8) -> (r: PciDevice)
    requires
        headers@.len() == 256,
        device < 32,
    ensures
        scanned_device(r, headers@, device as int),
{
    let base = device as usize * 8;
    let count = function_count(headers[base].header_type);
    let mut functions: Vec<DeviceFunctionInner> = Vec::new();
    let mut f: u64 = 0;
    while f < count
        invariant
            headers@.len() == 256,
            device < 32,
            base == device * 8,
            count == spec_function_count(headers@, device as int),
            f <= count,
            functions@.len() == present_functions(headers@, device as int, f as int).len(),
            forall|j: int|
                0 <= j < functions@.len() ==> describes(
                    #[trigger] functions@[j],
                    headers@[device * 8 + present_functions(headers@, device as int, f as int)[j]],
                    present_functions(headers@, device as int, f as int)[j] as nat,
                ),
        decreases count - f,
    {
        let h = &headers[base + f as usize];
        if !function_absent(h.vendor_id) {
            let info = describe_function(h, f as u8);
            functions.push(info);
        }
        f = f + 1;
    }
    PciDevice { device, functions }
}

/// Scans `bus`: `headers[d * 8 + f]` holds what function `f` of device `d`
/// holds in the bus's configuration space; the scan reads function 0 of each
/// device, and the other functions only of a multi-function device.
pub fn parse_bus(headers: &[FunctionHeader], bus: &PCIeBus) -> (r: BusDevice)
    requires
        headers@.len() == 256,
    ensures
        r.bus == bus.spec_bus(),
        r.devices@.len() == found_devices(headers@, 32).len(),
        forall|k: int|
            0 <= k < r.devices@.len() ==> scanned_device(
                #[trigger] r.devices@[k],
                headers@,
                found_devices(headers@, 32)[k],
            ),
{
    let mut devices: Vec<PciDevice> = Vec::new();
    let mut d: u8 = 0;
    while d < 32
        invariant
            headers@.len() == 256,
            d <= 32,
            devices@.len() == found_devices(headers@, d as int).len(),
            forall|k: int|
                0 <= k < devices@.len() ==> scanned_device(
                    #[trigger] devices@[k],
                    headers@,
                    found_devices(headers@, d as int)[k],
                ),
        decreases 32 - d,
    {
        let device = scan_device(headers, d);
        if device.functions.len() > 0 {
            devices.push(device);
        }
        d = d + 1;
    }
    BusDevice { bus: bus.bus, devices }
}


/// The capabilities a function announces in its capability list.
#[derive(Debug, Clone, Copy, PartialEq, Eq, Structural)]
pub struct PCICapabilities {
    bits: u32,
}

/// Power management.
pub const PMCAP: u32 = 1;

/// Message signalled interrupts.
pub const MSICAP: u32 = 2;

/// Extended message signalled interrupts.
pub const MSIXCAP: u32 = 4;

/// PCI Express.
pub const PCIECAP: u32 = 8;

/// The bits that name a capability.
pub const PCI_CAPABILITIES_ALL: u32 = 0xF;

impl PCICapabilities {
    pub closed spec fn spec_bits(&self) -> u32 {
        self.bits
    }

    /// No capability.
    pub fn empty() -> (r: Self)
        ensures
            r.spec_bits() == 0,
    {
        Self { bits: 0 }
    }

    /// The capabilities whose bits are `bits`, if every bit names one.
    pub fn from_bits(bits: u32) -> (r: Option<Self>)
        ensures
            r matches Some(c) ==> c.spec_bits() == bits,
            r is Some <==> bits & !PCI_CAPABILITIES_ALL == 0,
    {
        if bits & !PCI_CAPABILITIES_ALL == 0 {
            Some(Self { bits })
        } else {
            None
        }
    }

    /// The bits of the capabilities.
    pub fn bits(&self) -> (r: u32)
        ensures
            r == self.spec_bits(),
    {
        self.bits
    }

    /// The capabilities of both.
    pub fn union(self, other: Self) -> (r: Self)
        ensures
            r.spec_bits() == self.spec_bits() | other.spec_bits(),
    {
        Self { bits: self.bits | other.bits }
    }

    /// Whether every capability of `other` is among these.
    pub fn contains(&self, other: Self) -> (r: bool)
        ensures
            r == (self.spec_bits() & other.spec_bits() == other.spec_bits()),
    {
        self.bits & other.bits == other.bits
    }

    /// One step of walking the capability list: the capabilities after the
    /// entry whose header is `header` has been read, and the offset of the next
    /// entry (0 ends the list). An id that names no known capability adds
    /// nothing.
    pub fn add_entry(self, header: u32) -> (r: (Self, u16))
        ensures
            r.0.spec_bits() == if (header & 0xFF) & !PCI_CAPABILITIES_ALL == 0 {
                self.spec_bits() | (header & 0xFF)
            } else {
                self.spec_bits()
            },
            r.1 == (header >> 8u32) & 0xFF,
    {
        let (cap_id, next) = capability_header(header);
        match Self::from_bits(cap_id) {
            Some(cap) => (self.union(cap), next),
            None => (self, next),
        }
    }
}

} // verus!
