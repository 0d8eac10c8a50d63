//! Devices found on the platform rather than on a bus, and the choice of the
//! driver that serves each.
use vstd::prelude::*;
use vstd::string::StringSliceAdditionalSpecFns;

verus! {

/// The kind of a platform device.
#[derive(Debug, Clone, Copy, PartialEq, Eq, Structural)]
pub enum PlatformDevType {
    IoDevice,
    Framebuffer,
}

/// Where a platform device lives: an I/O port or a memory address.
#[derive(Debug, Clone, Copy, PartialEq, Eq, Structural)]
pub enum PlatformDevAddr {
    IoPort(u16),
    Addr(usize),
}

impl PlatformDevAddr {
    /// The device at I/O port `io_port`.
    pub fn io_port(io_port: u16) -> (r: Self)
        ensures
            r == PlatformDevAddr::IoPort(io_port),
    {
        PlatformDevAddr::IoPort(io_port)
    }

    /// The device at memory address `addr`.
    pub fn addr(addr: usize) -> (r: Self)
        ensures
            r == PlatformDevAddr::Addr(addr),
    {
        PlatformDevAddr::Addr(addr)
    }

    /// The address read as an I/O port: the port itself, or the low 16 bits of
    /// a memory address (the address is stored little endian).
    pub open spec fn spec_port_bits(self) -> u16 {
        match self {
            PlatformDevAddr::IoPort(p) => p,
            PlatformDevAddr::Addr(a) => (a & 0xFFFF) as u16,
        }
    }

    /// The address read as an I/O port.
    pub fn port_bits(&self) -> (r: u16)
        ensures
            r == self.spec_port_bits(),
    {
        match self {
            PlatformDevAddr::IoPort(p) => *p,
            PlatformDevAddr::Addr(a) => (*a & 0xFFFF) as u16,
        }
    }
}

/// Whether two names are the same string.
pub fn same_name(a: &str, b: &str) -> (r: bool)
    ensures
        r == (a.spec_bytes() == b.spec_bytes()),
{
    let x = a.as_bytes();
    let y = b.as_bytes();
    if x.len() != y.len() {
        return false;
    }
    let mut i: usize = 0;
    while i < x.len()
        invariant
            x@ == a.spec_bytes(),
            y@ == b.spec_bytes(),
            x@.len() == y@.len(),
            i <= x@.len(),
            forall|j: int| 0 <= j < i ==> x@[j] == y@[j],
        decreases x@.len() - i,
    {
        if x[i] != y[i] {
            return false;
        }
        i = i + 1;
    }
    proof {
        assert(x@ =~= y@);
    }
    true
}

/// A device found on the platform.
pub struct PlatformDev {
    pub name: &'static str,
    pub class: PlatformDevType,
    pub addr: PlatformDevAddr,
}

impl PlatformDev {
    pub fn new(name: &'static str, class: PlatformDevType, addr: PlatformDevAddr) -> (r: Self)
        ensures
            r.name == name,
            r.class == class,
            r.addr == addr,
    {
        Self { name, class, addr }
    }
}

/// Selects the platform devices a driver handles: by name, and by I/O port
/// when one is given.
pub struct PlatformDevMatcher {
    pub name: &'static str,
    pub addr: Option<PlatformDevAddr>,
}

impl PlatformDevMatcher {
    /// Whether the matcher selects `dev`.
    pub open spec fn spec_matches(&self, dev: &PlatformDev) -> bool {
        &&& self.name.spec_bytes() == dev.name.spec_bytes()
        &&& match self.addr {
            Some(a) => a.spec_port_bits() == dev.addr.spec_port_bits(),
            None => true,
        }
    }

    /// Whether the matcher selects `dev`: the names agree, and the I/O ports do
    /// where the matcher gives an address.
    pub fn matches(&self, dev: &PlatformDev) -> (r: bool)
        ensures
            r == self.spec_matches(dev),
    {
        if !same_name(self.name, dev.name) {
            return false;
        }
        match &self.addr {
            Some(a) => a.port_bits() == dev.addr.port_bits(),
            None => true,
        }
    }
}

/// A platform driver as far as choosing it goes: its name and the devices it
/// handles.
pub struct PlatformDrv {
    pub name: &'static str,
    pub matchers: Vec<PlatformDevMatcher>,
}

impl PlatformDrv {
    /// Whether some matcher of the driver selects `dev`.
    pub open spec fn spec_matches(&self, dev: &PlatformDev) -> bool {
        exists|i: int| 0 <= i < self.matchers@.len() && (#[trigger] self.matchers@[i]).spec_matches(dev)
    }

    /// Whether the driver handles `dev`.
    pub fn matches(&self, dev: &PlatformDev) -> (r: bool)
        ensures
            r == self.spec_matches(dev),
    {
        let mut i: usize = 0;
        while i < self.matchers.len()
            invariant
                i <= self.matchers@.len(),
                forall|j: int| 0 <= j < i ==> !(#[trigger] self.matchers@[j]).spec_matches(dev),
            decreases self.matchers@.len() - i,
        {
            if self.matchers[i].matches(dev) {
                return true;
            }
            i = i + 1;
        }
        false
    }
}

/// The first driver at or after `start` that handles `dev`. A driver that
/// handles the device but declines it when probed is passed over by asking
/// again from the next index.
pub fn next_matching_driver(drivers: &[PlatformDrv], dev: &PlatformDev, start: usize) -> (r: Option<usize>)
    ensures
        match r {
            Some(k) => start <= k < drivers@.len() && drivers@[k as int].spec_matches(dev) && forall|j: int|
                start <= j < k ==> !(#[trigger] drivers@[j]).spec_matches(dev),
            None => forall|j: int| start <= j < drivers@.len() ==> !(#[trigger] drivers@[j]).spec_matches(dev),
        },
{
    let mut i = start;
    while i < drivers.len()
        invariant
            start <= i,
            forall|j: int| start <= j < i && j < drivers@.len() ==> !(#[trigger] drivers@[j]).spec_matches(dev),
        decreases drivers@.len() - i,
    {
        if drivers[i].matches(dev) {
            return Some(i);
        }
        i = i + 1;
    }
    None
}

/// The platform devices, in the order they were found.
pub struct PlatformDeviceTree {
    devs: Vec<PlatformDev>,
}

impl PlatformDeviceTree {
    pub closed spec fn spec_devs(&self) -> Seq<PlatformDev> {
        self.devs@
    }

    /// No device.
    pub fn empty() -> (r: Self)
        ensures
            r.spec_devs() == Seq::<PlatformDev>::empty(),
    {
        Self { devs: Vec::new() }
    }

    /// Adds `dev` after the others.
    pub fn add_device(&mut self, dev: PlatformDev)
        ensures
            final(self).spec_devs() == old(self).spec_devs().push(dev),
    {
        self.devs.push(dev);
    }

    /// The number of devices.
    pub fn len(&self) -> (r: usize)
        ensures
            r == self.spec_devs().len(),
    {
        self.devs.len()
    }

    /// The device at `index`.
    pub fn get(&self, index: usize) -> (r: &PlatformDev)
        requires
            index < self.spec_devs().len(),
        ensures
            *r == self.spec_devs()[index as int],
    {
        &self.devs[index]
    }
}

/// Adds the devices the boot stage registers after those `devs` already
/// holds: the serial port at `serial_port`, where there is one, then the
/// framebuffer whose description lives at `fb_info_addr`.
pub fn boot_platform_devices(devs: &mut PlatformDeviceTree, serial_port: Option<u16>, fb_info_addr: usize)
    ensures
        final(devs).spec_devs() == old(devs).spec_devs() + match serial_port {
            Some(p) => seq![
                PlatformDev { name: "io_dev", class: PlatformDevType::IoDevice, addr: PlatformDevAddr::IoPort(p) },
                PlatformDev { name: "efi_fb", class: PlatformDevType::Framebuffer, addr: PlatformDevAddr::Addr(fb_info_addr) },
            ],
            None => seq![
                PlatformDev { name: "efi_fb", class: PlatformDevType::Framebuffer, addr: PlatformDevAddr::Addr(fb_info_addr) },
            ],
        },
{
    match serial_port {
        Some(p) => devs.add_device(PlatformDev::new("io_dev", PlatformDevType::IoDevice, PlatformDevAddr::io_port(p))),
        None => {},
    }
    devs.add_device(PlatformDev::new("efi_fb", PlatformDevType::Framebuffer, PlatformDevAddr::addr(fb_info_addr)));
}

} // verus!
