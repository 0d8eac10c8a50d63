//! The qemu-vga driver: device matching and register decoding.
use crate::drivers::{spec_device, spec_vendor, DeviceId};
use vstd::prelude::*;

verus! {

/// Whether the driver handles the device with id `device_id`: vendor 0x1234,
/// device 0x1111.
pub fn matches(device_id: &DeviceId) -> (r: bool)
    ensures
        r == (spec_vendor(device_id@) == 0x1234 && spec_device(device_id@) == 0x1111),
{
    device_id.vendor() == 0x1234 && device_id.device() == 0x1111
}

/// The byte order of the framebuffer.
#[derive(Debug, PartialEq, Eq, Structural)]
pub enum Endianness {
    Little,
    Big,
}

/// The value of the endianness register when the framebuffer is little endian.
pub const ENDIANNESS_LITTLE: u32 = 0x1e1e1e1e;

/// The value of the endianness register when the framebuffer is big endian.
pub const ENDIANNESS_BIG: u32 = 0xbebebebe;

/// Decodes the endianness register; an unknown value counts as little endian.
pub fn endianness_from_register(endian: u32) -> (r: Endianness)
    ensures
        r == (if endian == ENDIANNESS_BIG {
            Endianness::Big
        } else {
            Endianness::Little
        }),
{
    if endian == ENDIANNESS_LITTLE {
        Endianness::Little
    } else if endian == ENDIANNESS_BIG {
        Endianness::Big
    } else {
        Endianness::Little
    }
}

/// The identification value the device reports in its id register.
pub const VGA_ID: u16 = 0xB0C5;

/// The value written to the enable register: enabled, with a linear
/// framebuffer.
pub const VGA_ENABLE_LFB: u16 = 0x41;

/// The number of bytes of framebuffer that the reported virtual size takes.
pub fn framebuffer_size(vsize_width: u16, vsize_height: u16, bpp: u16) -> (r: u64)
    ensures
        r == (vsize_width as nat * vsize_height as nat * bpp as nat) / 8,
{
    proof {
        assert(vsize_width as nat * vsize_height as nat <= 0xFFFF * 0xFFFF) by (nonlinear_arith)
            requires vsize_width <= 0xFFFF, vsize_height <= 0xFFFF;
        assert(vsize_width as nat * vsize_height as nat * bpp as nat <= 0xFFFF * 0xFFFF * 0xFFFF) by (nonlinear_arith)
            requires vsize_width as nat * vsize_height as nat <= 0xFFFF * 0xFFFF, bpp <= 0xFFFF;
    }
    vsize_width as u64 * vsize_height as u64 * bpp as u64 / 8
}


/// The number of 4KiB pages that map a framebuffer of `size` bytes.
pub fn framebuffer_pages(size: u64) -> (r: u64)
    ensures
        r == (size as nat + 4095) / 4096,
{
    let r = size / 4096 + if size % 4096 == 0 { 0 } else { 1 };
    proof {
        assert(r == (size as nat + 4095) / 4096) by (nonlinear_arith)
            requires r == size / 4096 + if size % 4096 == 0 { 0u64 } else { 1u64 };
    }
    r
}

/// Whether the id register identifies the device.
pub fn is_known_id(id: u16) -> (r: bool)
    ensures
        r == (id == VGA_ID),
{
    id == VGA_ID
}

/// The width the driver asks for.
pub const REQUESTED_WIDTH: u16 = 800;

/// The height the driver asks for.
pub const REQUESTED_HEIGHT: u16 = 600;

/// The bits per pixel the driver asks for.
pub const REQUESTED_BPP: u16 = 32;

/// How far the driver has got in bringing up the card.
#[derive(Debug, Clone, Copy, PartialEq, Eq, Structural)]
pub enum VgaInitState {
    /// Nothing has been read or written yet.
    Start,
    /// The id register is being read.
    ReadingId,
    /// The endianness register is being read.
    ReadingEndianness,
    /// The display is being switched off.
    Disabling,
    /// The resolution is being set.
    SettingResolution,
    /// The display is being switched on with a linear framebuffer.
    Enabling,
    /// The resolution the card settled on is being read.
    ReadingResolution,
    /// The virtual size is being read; the card reported `bpp` bits per pixel.
    ReadingVirtualSize { bpp: u16 },
    /// The framebuffer is being mapped.
    Mapping,
    /// The card is up.
    Done,
    /// The card is unknown, or the steps came out of order.
    Failed,
}

/// What the outside world reports back to the driver.
#[derive(Debug, Clone, Copy, PartialEq, Eq, Structural)]
pub enum VgaEvent {
    /// Bring-up starts.
    Ready,
    /// The id register holds this value.
    Id(u16),
    /// The endianness register holds this value.
    Endianness(u32),
    /// The last write is done.
    Written,
    /// The resolution registers hold this width, height and depth.
    Resolution(u16, u16, u16),
    /// The virtual size registers hold this width and height.
    VirtualSize(u16, u16),
    /// The framebuffer is mapped.
    Mapped,
}

/// What the driver asks the outside world to do next.
#[derive(Debug, Clone, Copy, PartialEq, Eq, Structural)]
pub enum VgaAction {
    ReadId,
    ReadEndianness,
    /// Write the enable register.
    WriteEnable(u16),
    /// Write the width, height and depth registers.
    WriteResolution(u16, u16, u16),
    ReadResolution,
    ReadVirtualSize,
    /// Map this many 4KiB pages of framebuffer.
    MapFramebuffer(u64),
    /// Bring-up is over: whether the card is up.
    Finish(bool),
}

/// The number of framebuffer pages for the virtual size `width` by `height`
/// at `bpp` bits per pixel.
pub open spec fn spec_framebuffer_pages(width: u16, height: u16, bpp: u16) -> u64 {
    ((((width as nat * height as nat * bpp as nat) / 8) + 4095) / 4096) as u64
}

/// The next state and action of the bring-up sequence: read the id and give
/// up on an unknown card, read the endianness, switch the display off, set
/// 800x600x32, switch it on with a linear framebuffer, read back the depth and
/// the virtual size, map the framebuffer, and finish. An event the current
/// state does not wait for fails the sequence.
pub open spec fn spec_vga_step(state: VgaInitState, event: VgaEvent) -> (VgaInitState, VgaAction) {
    match (state, event) {
        (VgaInitState::Start, VgaEvent::Ready) => (VgaInitState::ReadingId, VgaAction::ReadId),
        (VgaInitState::ReadingId, VgaEvent::Id(id)) => if id == VGA_ID {
            (VgaInitState::ReadingEndianness, VgaAction::ReadEndianness)
        } else {
            (VgaInitState::Failed, VgaAction::Finish(false))
        },
        (VgaInitState::ReadingEndianness, VgaEvent::Endianness(_)) => (
            VgaInitState::Disabling,
            VgaAction::WriteEnable(0),
        ),
        (VgaInitState::Disabling, VgaEvent::Written) => (
            VgaInitState::SettingResolution,
            VgaAction::WriteResolution(800, 600, 32),
        ),
        (VgaInitState::SettingResolution, VgaEvent::Written) => (
            VgaInitState::Enabling,
            VgaAction::WriteEnable(VGA_ENABLE_LFB),
        ),
        (VgaInitState::Enabling, VgaEvent::Written) => (VgaInitState::ReadingResolution, VgaAction::ReadResolution),
        (VgaInitState::ReadingResolution, VgaEvent::Resolution(_, _, bpp)) => (
            VgaInitState::ReadingVirtualSize { bpp },
            VgaAction::ReadVirtualSize,
        ),
        (VgaInitState::ReadingVirtualSize { bpp }, VgaEvent::VirtualSize(w, h)) => (
            VgaInitState::Mapping,
            VgaAction::MapFramebuffer(spec_framebuffer_pages(w, h, bpp)),
        ),
        (VgaInitState::Mapping, VgaEvent::Mapped) => (VgaInitState::Done, VgaAction::Finish(true)),
        _ => (VgaInitState::Failed, VgaAction::Finish(false)),
    }
}

impl VgaInitState {
    /// Takes one step of the bring-up sequence.
    pub fn step(self, event: VgaEvent) -> (r: (VgaInitState, VgaAction))
        ensures
            r == spec_vga_step(self, event),
    {
        match (self, event) {
            (VgaInitState::Start, VgaEvent::Ready) => (VgaInitState::ReadingId, VgaAction::ReadId),
            (VgaInitState::ReadingId, VgaEvent::Id(id)) => {
                if is_known_id(id) {
                    (VgaInitState::ReadingEndianness, VgaAction::ReadEndianness)
                } else {
                    (VgaInitState::Failed, VgaAction::Finish(false))
                }
            },
            (VgaInitState::ReadingEndianness, VgaEvent::Endianness(_)) => (
                VgaInitState::Disabling,
                VgaAction::WriteEnable(0),
            ),
            (VgaInitState::Disabling, VgaEvent::Written) => {
                (
                    VgaInitState::SettingResolution,
                    VgaAction::WriteResolution(REQUESTED_WIDTH, REQUESTED_HEIGHT, REQUESTED_BPP),
                )
            },
            (VgaInitState::SettingResolution, VgaEvent::Written) => (
                VgaInitState::Enabling,
                VgaAction::WriteEnable(VGA_ENABLE_LFB),
            ),
            (VgaInitState::Enabling, VgaEvent::Written) => (
                VgaInitState::ReadingResolution,
                VgaAction::ReadResolution,
            ),
            (VgaInitState::ReadingResolution, VgaEvent::Resolution(_, _, bpp)) => (
                VgaInitState::ReadingVirtualSize { bpp },
                VgaAction::ReadVirtualSize,
            ),
            (VgaInitState::ReadingVirtualSize { bpp }, VgaEvent::VirtualSize(w, h)) => {
                let pages = framebuffer_pages(framebuffer_size(w, h, bpp));
                (VgaInitState::Mapping, VgaAction::MapFramebuffer(pages))
            },
            (VgaInitState::Mapping, VgaEvent::Mapped) => (VgaInitState::Done, VgaAction::Finish(true)),
            _ => (VgaInitState::Failed, VgaAction::Finish(false)),
        }
    }
}

/// Once bring-up has finished, every further event leaves it where it is:
/// a failed bring-up stays failed, and a finished one reports failure on any
/// event, without asking for anything more than to finish.
pub proof fn lemma_vga_finish_is_final(state: VgaInitState, event: VgaEvent)
    requires
        state == VgaInitState::Done || state == VgaInitState::Failed,
    ensures
        spec_vga_step(state, event) == (VgaInitState::Failed, VgaAction::Finish(false)),
{
}

/// A known card is brought up by reading its id and endianness, switching the
/// display off, setting 800x600x32, switching it on with a linear
/// framebuffer, reading back the depth and the virtual size, and mapping the
/// framebuffer those call for.
pub proof fn lemma_vga_bring_up(endian: u32, w: u16, h: u16, bpp: u16, vw: u16, vh: u16)
    ensures
        spec_vga_step(VgaInitState::Start, VgaEvent::Ready) == (VgaInitState::ReadingId, VgaAction::ReadId),
        spec_vga_step(VgaInitState::ReadingId, VgaEvent::Id(VGA_ID)) == (
            VgaInitState::ReadingEndianness,
            VgaAction::ReadEndianness,
        ),
        spec_vga_step(VgaInitState::ReadingEndianness, VgaEvent::Endianness(endian)) == (
            VgaInitState::Disabling,
            VgaAction::WriteEnable(0),
        ),
        spec_vga_step(VgaInitState::Disabling, VgaEvent::Written) == (
            VgaInitState::SettingResolution,
            VgaAction::WriteResolution(800, 600, 32),
        ),
        spec_vga_step(VgaInitState::SettingResolution, VgaEvent::Written) == (
            VgaInitState::Enabling,
            VgaAction::WriteEnable(0x41),
        ),
        spec_vga_step(VgaInitState::Enabling, VgaEvent::Written) == (
            VgaInitState::ReadingResolution,
            VgaAction::ReadResolution,
        ),
        spec_vga_step(VgaInitState::ReadingResolution, VgaEvent::Resolution(w, h, bpp)) == (
            VgaInitState::ReadingVirtualSize { bpp },
            VgaAction::ReadVirtualSize,
        ),
        spec_vga_step(VgaInitState::ReadingVirtualSize { bpp }, VgaEvent::VirtualSize(vw, vh)) == (
            VgaInitState::Mapping,
            VgaAction::MapFramebuffer(spec_framebuffer_pages(vw, vh, bpp)),
        ),
        spec_vga_step(VgaInitState::Mapping, VgaEvent::Mapped) == (VgaInitState::Done, VgaAction::Finish(true)),
{
}

/// A card whose id register does not identify it fails bring-up right after
/// the id is read, with nothing written to it.
pub proof fn lemma_vga_unknown_card(id: u16)
    requires
        id != VGA_ID,
    ensures
        spec_vga_step(VgaInitState::Start, VgaEvent::Ready) == (VgaInitState::ReadingId, VgaAction::ReadId),
        spec_vga_step(VgaInitState::ReadingId, VgaEvent::Id(id)) == (VgaInitState::Failed, VgaAction::Finish(false)),
{
}

} // verus!
