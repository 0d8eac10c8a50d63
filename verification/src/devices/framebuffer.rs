//! A linear framebuffer held as plain bytes.
use vstd::prelude::*;

verus! {

/// The layout of the pixels in memory.
#[derive(Debug, Clone, Copy, PartialEq, Eq, Structural)]
pub enum PixelFormat {
    RGB,
    BGR,
}

/// The geometry of a framebuffer.
#[derive(Debug, Clone, Copy)]
pub struct FramebufferInfo {
    /// Visible pixels per row.
    pub width: u32,
    /// Visible rows.
    pub height: u32,
    pub pixel_format: PixelFormat,
    /// Bytes per row.
    pub stride: u32,
    /// Bytes per pixel.
    pub bpp: u32,
}

/// The bytes that a pixel write with `color` at `(x, y)` leaves in `buf`: the
/// low `min(bpp, 4)` bytes of `color`, little endian, at byte
/// `y * stride + x * bpp`, if the pixel is visible and fits in the buffer.
pub open spec fn pixel_written(buf: Seq<u8>, info: FramebufferInfo, x: u32, y: u32, color: u32) -> Seq<u8> {
    let n: nat = if info.bpp < 4 { info.bpp as nat } else { 4 };
    let off: nat = y as nat * info.stride as nat + x as nat * info.bpp as nat;
    if x < info.width && y < info.height && off + n <= buf.len() {
        Seq::new(
            buf.len(),
            |i: int|
                if off <= i < off + n {
                    ((color as nat / pow256((i - off) as nat)) % 256) as u8
                } else {
                    buf[i]
                },
        )
    } else {
        buf
    }
}

/// 256 to the power `k`.
pub open spec fn pow256(k: nat) -> nat
    decreases k,
{
    if k == 0 {
        1
    } else {
        256 * pow256((k - 1) as nat)
    }
}

/// Powers of 256 are positive.
pub proof fn lemma_pow256_pos(k: nat)
    ensures
        pow256(k) > 0,
    decreases k,
{
    if k > 0 {
        lemma_pow256_pos((k - 1) as nat);
    }
}

/// A framebuffer: its geometry, the address it is mapped at, and its bytes.
pub struct Framebuffer {
    info: FramebufferInfo,
    addr: u64,
    buffer: Vec<u8>,
}

impl View for Framebuffer {
    type V = Seq<u8>;

    closed spec fn view(&self) -> Seq<u8> {
        self.buffer@
    }
}

impl Framebuffer {
    /// The geometry of the framebuffer.
    pub closed spec fn spec_info(&self) -> FramebufferInfo {
        self.info
    }

    pub fn info(&self) -> (r: FramebufferInfo)
        ensures
            r == self.spec_info(),
    {
        self.info
    }

    /// The address the buffer is mapped at.
    pub closed spec fn spec_addr(&self) -> nat {
        self.addr as nat
    }

    pub fn new(info: FramebufferInfo, addr: u64, buffer: Vec<u8>) -> (r: Self)
        ensures
            r.spec_info() == info,
            r.spec_addr() == addr,
            r@ == buffer@,
    {
        Self { info, addr, buffer }
    }

    pub fn addr(&self) -> (r: u64)
        ensures
            r == self.spec_addr(),
    {
        self.addr
    }

    /// Moves the buffer to another address.
    pub fn set_addr(&mut self, addr: u64)
        ensures
            final(self).spec_addr() == addr,
            final(self)@ == old(self)@,
            final(self).spec_info() == old(self).spec_info(),
    {
        self.addr = addr;
    }

    pub fn len(&self) -> (r: usize)
        ensures
            r == self@.len(),
    {
        self.buffer.len()
    }

    /// The byte at `index`.
    pub fn byte(&self, index: usize) -> (r: u8)
        requires
            index < self@.len(),
        ensures
            r == self@[index as int],
    {
        self.buffer[index]
    }

    /// Replaces the byte at `index`.
    pub fn set_byte(&mut self, index: usize, value: u8)
        requires
            index < old(self)@.len(),
        ensures
            final(self)@ == old(self)@.update(index as int, value),
            final(self).spec_info() == old(self).spec_info(),
            final(self).spec_addr() == old(self).spec_addr(),
    {
        self.buffer.set(index, value);
    }

    /// Writes `color` to the pixel at `(x, y)`.
    pub fn write_pixel(&mut self, x: u32, y: u32, color: u32)
        ensures
            final(self)@ == pixel_written(old(self)@, old(self).spec_info(), x, y, color),
            final(self).spec_info() == old(self).spec_info(),
            final(self).spec_addr() == old(self).spec_addr(),
    {
        let info = self.info;
        let n: u64 = if info.bpp < 4 { info.bpp as u64 } else { 4 };
        if x >= info.width || y >= info.height {
            return;
        }
        proof {
            assert(y as nat * info.stride as nat <= 0xFFFF_FFFF * 0xFFFF_FFFF) by (nonlinear_arith)
                requires y <= 0xFFFF_FFFFu32, info.stride <= 0xFFFF_FFFFu32;
            assert(x as nat * info.bpp as nat <= 0xFFFF_FFFF * 0xFFFF_FFFF) by (nonlinear_arith)
                requires x <= 0xFFFF_FFFFu32, info.bpp <= 0xFFFF_FFFFu32;
        }
        let off: u128 = y as u128 * info.stride as u128 + x as u128 * info.bpp as u128;
        if off + n as u128 > self.buffer.len() as u128 {
            return;
        }
        let off = off as usize;
        let ghost old_buf = self.buffer@;
        assert(off + n <= usize::MAX);
        assert(pow256(0) == 1);
        assert(color as nat / 1 == color as nat);
        let mut k: u64 = 0;
        let mut c: u32 = color;
        while k < n
            invariant
                k <= n,
                n <= 4,
                off + n <= old_buf.len(),
                off + n <= usize::MAX,
                self.buffer@.len() == old_buf.len(),
                self.info == info,
                self.addr == old(self).addr,
                c as nat == color as nat / pow256(k as nat),
                forall|i: int| 0 <= i < old_buf.len() ==> #[trigger] self.buffer@[i] == if off <= i < off + k {
                    ((color as nat / pow256((i - off) as nat)) % 256) as u8
                } else {
                    old_buf[i]
                },
            decreases n - k,
        {
            self.buffer.set(off + k as usize, (c % 256) as u8);
            proof {
                lemma_pow256_pos(k as nat);
                assert(c as nat / 256 == color as nat / pow256((k + 1) as nat)) by (nonlinear_arith)
                    requires c as nat == color as nat / pow256(k as nat), pow256((k + 1) as nat) == 256 * pow256(k as nat),
                        pow256(k as nat) > 0;
            }
            c = c / 256;
            k = k + 1;
        }
        proof {
            assert(self.buffer@ =~= pixel_written(old_buf, info, x, y, color));
        }
    }
}

} // verus!
