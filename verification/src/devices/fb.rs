//! Text rendering constants and glyphs for framebuffer consoles.
use crate::devices::framebuffer::{pixel_written, pow256, Framebuffer, FramebufferInfo};
use noto_sans_mono_bitmap::{get_raster, get_raster_width, FontWeight, RasterHeight};
use vstd::prelude::*;

verus! {

/// Pixels of space between lines of text.
pub const LINE_SPACING: usize = 2;

/// Pixels of space between characters.
pub const LETTER_SPACING: usize = 0;

/// Pixels of space at the left border.
pub const BORDER_PADDING: usize = 1;

/// The height of a rendered character in pixels.
pub const CHAR_RASTER_HEIGHT: usize = 16;

/// The width of a rendered character in pixels.
pub const CHAR_RASTER_WIDTH: usize = 7;

/// The number of pixels of a rendered character.
pub const GLYPH_LEN: usize = 112;

/// The character drawn for characters the font lacks.
pub const BACKUP_CHAR: char = ' ';

/// The pixel intensities of the glyph of `c` in the regular 16-pixel font, row
/// by row.
pub uninterp spec fn glyph_pixels(c: char) -> Seq<u8>;

/// Whether the font has a glyph for `c`: the printable ASCII characters.
pub open spec fn has_glyph(c: char) -> bool {
    ' ' <= c <= '~'
}

/// The glyph of `c` in the regular 16-pixel font, as its pixel intensities row
/// by row, or `None` if the font lacks it.
///
/// Calls `noto_sans_mono_bitmap::get_raster`. With the crate's default
/// features only the printable ASCII range is built in, and every glyph holds
/// `width * height` pixels, 7 by 16 for this font.
#[verifier::external_body]
fn raster_of(c: char) -> (r: Option<Vec<u8>>)
    ensures
        r is Some <==> has_glyph(c),
        r matches Some(p) ==> p@ == glyph_pixels(c) && p@.len() == GLYPH_LEN,
{
    match get_raster(c, FontWeight::Regular, RasterHeight::Size16) {
        Some(raster) => Some(raster.pixels().to_vec()),
        None => None,
    }
}

/// The width of every glyph of the regular 16-pixel font.
///
/// Calls `noto_sans_mono_bitmap::get_raster_width`, which returns the width
/// of that font, 7.
#[verifier::external_body]
fn raster_width() -> (r: usize)
    ensures
        r == CHAR_RASTER_WIDTH,
{
    get_raster_width(FontWeight::Regular, RasterHeight::Size16)
}

/// The height of every glyph of the 16-pixel font.
///
/// Calls `noto_sans_mono_bitmap::RasterHeight::val`, which returns 16 for
/// `Size16`.
#[verifier::external_body]
fn raster_height() -> (r: usize)
    ensures
        r == CHAR_RASTER_HEIGHT,
{
    RasterHeight::Size16.val()
}

/// The pixels drawn for `c`: its glyph, or the glyph of [`BACKUP_CHAR`] if
/// the font lacks it.
pub open spec fn spec_char_raster(c: char) -> Seq<u8> {
    if has_glyph(c) {
        glyph_pixels(c)
    } else {
        glyph_pixels(BACKUP_CHAR)
    }
}

/// The pixels drawn for `c`, row by row.
pub fn get_char_raster(c: char) -> (r: Vec<u8>)
    ensures
        r@ == spec_char_raster(c),
        r@.len() == GLYPH_LEN,
{
    match raster_of(c) {
        Some(p) => p,
        None => raster_of(BACKUP_CHAR).unwrap(),
    }
}

/// The color a pixel of intensity `b` is drawn with: `b` in every byte.
pub open spec fn gray(b: u8) -> u32 {
    ((b as u32) * 0x0101_0101) as u32
}

/// `buf` after the first `n` pixels of `pixels`, a glyph of
/// [`CHAR_RASTER_WIDTH`] columns, are drawn with their top left corner at
/// `(x0, y0)`. Coordinates are truncated to 32 bits.
pub open spec fn glyph_drawn(buf: Seq<u8>, info: FramebufferInfo, x0: usize, y0: usize, pixels: Seq<u8>, n: nat) -> Seq<u8>
    decreases n,
{
    if n == 0 {
        buf
    } else {
        let i = (n - 1) as nat;
        let prev = glyph_drawn(buf, info, x0, y0, pixels, i);
        pixel_written(
            prev,
            info,
            (x0 + i % (CHAR_RASTER_WIDTH as nat)) as u32,
            (y0 + i / (CHAR_RASTER_WIDTH as nat)) as u32,
            gray(pixels[i as int]),
        )
    }
}

/// Draws the glyph `pixels` with its top left corner at `(x0, y0)`.
pub fn draw_glyph(fb: &mut Framebuffer, x0: usize, y0: usize, pixels: &Vec<u8>)
    requires
        pixels@.len() == GLYPH_LEN,
        x0 + CHAR_RASTER_WIDTH <= usize::MAX,
        y0 + CHAR_RASTER_HEIGHT <= usize::MAX,
    ensures
        final(fb)@ == glyph_drawn(old(fb)@, old(fb).spec_info(), x0, y0, pixels@, GLYPH_LEN as nat),
        final(fb).spec_info() == old(fb).spec_info(),
        final(fb).spec_addr() == old(fb).spec_addr(),
{
    let width = raster_width();
    let mut i: usize = 0;
    while i < pixels.len()
        invariant
            width == CHAR_RASTER_WIDTH,
            i <= pixels@.len(),
            pixels@.len() == GLYPH_LEN,
            x0 + CHAR_RASTER_WIDTH <= usize::MAX,
            y0 + CHAR_RASTER_HEIGHT <= usize::MAX,
            fb.spec_info() == old(fb).spec_info(),
            fb.spec_addr() == old(fb).spec_addr(),
            fb@ == glyph_drawn(old(fb)@, old(fb).spec_info(), x0, y0, pixels@, i as nat),
        decreases pixels@.len() - i,
    {
        let x = i % width;
        let y = i / width;
        let b = pixels[i];
        proof {
            assert(y < CHAR_RASTER_HEIGHT) by (nonlinear_arith)
                requires y == i / 7, i < 112;
        }
        let color: u32 = (b as u32) * 0x0101_0101;
        fb.write_pixel((x0 + x) as u32, (y0 + y) as u32, color);
        i = i + 1;
    }
}

/// The number of bytes a pixel write stores: the pixel's size, at most four.
pub open spec fn pixel_bytes(info: FramebufferInfo) -> nat {
    if info.bpp < 4 {
        info.bpp as nat
    } else {
        4
    }
}

/// The index of the first byte of pixel `(x, y)`.
pub open spec fn pixel_offset(info: FramebufferInfo, x: nat, y: nat) -> nat {
    y * info.stride as nat + x * info.bpp as nat
}

/// Drawing keeps the number of bytes.
proof fn lemma_glyph_drawn_len(buf: Seq<u8>, info: FramebufferInfo, x0: usize, y0: usize, pixels: Seq<u8>, n: nat)
    ensures
        glyph_drawn(buf, info, x0, y0, pixels, n).len() == buf.len(),
    decreases n,
{
    if n > 0 {
        lemma_glyph_drawn_len(buf, info, x0, y0, pixels, (n - 1) as nat);
    }
}

/// In row-major order, pixel `(x, y)` ends no later than where pixel
/// `(x2, y2)` starts when it comes first, rows being at least `width * bpp`
/// bytes apart.
proof fn lemma_row_major_before(info: FramebufferInfo, x: nat, y: nat, x2: nat, y2: nat)
    requires
        x < info.width,
        x2 < info.width,
        y < y2 || (y == y2 && x < x2),
        info.stride as nat >= info.width as nat * info.bpp as nat,
    ensures
        pixel_offset(info, x, y) + info.bpp as nat <= pixel_offset(info, x2, y2),
{
    let s = info.stride as nat;
    let b = info.bpp as nat;
    let w = info.width as nat;
    if y == y2 {
        assert(x2 * b - x * b == (x2 - x) * b) by (nonlinear_arith);
        assert((x2 - x) * b >= b) by (nonlinear_arith)
            requires
                x2 - x >= 1,
        ;
    } else {
        assert(y2 * s - y * s == (y2 - y) * s) by (nonlinear_arith);
        assert((y2 - y) * s >= s) by (nonlinear_arith)
            requires
                y2 - y >= 1,
        ;
        assert(w * b - x * b == (w - x) * b) by (nonlinear_arith);
        assert((w - x) * b >= b) by (nonlinear_arith)
            requires
                w - x >= 1,
        ;
        assert(x2 * b >= 0) by (nonlinear_arith);
    }
}

/// Every byte of a gray pixel holds its intensity.
proof fn lemma_gray_bytes(b: u8, k: nat)
    requires
        k < 4,
    ensures
        (gray(b) as nat / pow256(k)) % 256 == b,
{
    let g: u32 = gray(b);
    assert(g == (b as u32) * 0x0101_0101u32) by (nonlinear_arith)
        requires
            g == ((b as u32) * 0x0101_0101) as u32,
            b < 256,
    ;
    assert(g % 256 == b as u32 && (g / 256) % 256 == b as u32 && (g / 65536) % 256 == b as u32 && (g / 16777216)
        % 256 == b as u32) by (bit_vector)
        requires
            g == (b as u32) * 0x0101_0101u32,
    ;
    assert(pow256(1) == 256) by {
        reveal_with_fuel(pow256, 2);
    }
    assert(pow256(2) == 65536) by {
        reveal_with_fuel(pow256, 3);
    }
    assert(pow256(3) == 16777216) by {
        reveal_with_fuel(pow256, 4);
    }
    assert(pow256(0) == 1);
    if k == 0 {
        assert(g as nat / 1 == g as nat);
    } else if k == 1 {
        assert(g as nat / pow256(k) == (g / 256) as nat);
    } else if k == 2 {
        assert(g as nat / pow256(k) == (g / 65536) as nat);
    } else {
        assert(g as nat / pow256(k) == (g / 16777216) as nat);
    }
}

/// The byte `k` of pixel `(x0 + c, y0 + r)` after the first `n` pixels of the
/// glyph are drawn: the intensity of raster pixel `r * 7 + c` once that pixel
/// is drawn, what it was before until then.
proof fn lemma_glyph_byte(
    buf: Seq<u8>,
    info: FramebufferInfo,
    x0: usize,
    y0: usize,
    pixels: Seq<u8>,
    n: nat,
    c: nat,
    r: nat,
    k: nat,
)
    requires
        n <= GLYPH_LEN,
        pixels.len() == GLYPH_LEN,
        c < CHAR_RASTER_WIDTH,
        r < CHAR_RASTER_HEIGHT,
        x0 + CHAR_RASTER_WIDTH <= u32::MAX,
        y0 + CHAR_RASTER_HEIGHT <= u32::MAX,
        info.stride as nat >= info.width as nat * info.bpp as nat,
        x0 + c < info.width,
        y0 + r < info.height,
        pixel_offset(info, (x0 + c) as nat, (y0 + r) as nat) + pixel_bytes(info) <= buf.len(),
        k < pixel_bytes(info),
    ensures
        glyph_drawn(buf, info, x0, y0, pixels, n)[(pixel_offset(info, (x0 + c) as nat, (y0 + r) as nat) + k) as int] == if r * 7 + c
            < n {
            pixels[(r * 7 + c) as int]
        } else {
            buf[(pixel_offset(info, (x0 + c) as nat, (y0 + r) as nat) + k) as int]
        },
    decreases n,
{
    if n > 0 {
        let i = (n - 1) as nat;
        let j = pixel_offset(info, (x0 + c) as nat, (y0 + r) as nat) + k;
        lemma_glyph_byte(buf, info, x0, y0, pixels, i, c, r, k);
        lemma_glyph_drawn_len(buf, info, x0, y0, pixels, i);
        let prev = glyph_drawn(buf, info, x0, y0, pixels, i);
        let ci = i % 7;
        let ri = i / 7;
        assert(i == ri * 7 + ci && ri < 16 && ci < 7) by (nonlinear_arith)
            requires
                ci == i % 7,
                ri == i / 7,
                i < 112,
        ;
        let xi = (x0 + ci) as u32;
        let yi = (y0 + ri) as u32;
        assert(xi == x0 + ci && yi == y0 + ri);
        assert(glyph_drawn(buf, info, x0, y0, pixels, n) == pixel_written(prev, info, xi, yi, gray(pixels[i as int])));
        if i == r * 7 + c {
            assert(ci == c && ri == r) by (nonlinear_arith)
                requires
                    i == ri * 7 + ci,
                    i == r * 7 + c,
                    ci < 7,
                    c < 7,
            ;
            lemma_gray_bytes(pixels[i as int], k);
        } else {
            assert(ci != c || ri != r) by (nonlinear_arith)
                requires
                    i == ri * 7 + ci,
                    i != r * 7 + c,
            ;
            if xi < info.width && yi < info.height {
                let x = (x0 + c) as nat;
                let y = (y0 + r) as nat;
                let x2 = (x0 + ci) as nat;
                let y2 = (y0 + ri) as nat;
                if y < y2 || (y == y2 && x < x2) {
                    lemma_row_major_before(info, x, y, x2, y2);
                } else {
                    lemma_row_major_before(info, x2, y2, x, y);
                }
            }
        }
    }
}

/// After a glyph is drawn with its top left corner at `(x0, y0)`, the pixel
/// at `(x0 + c, y0 + r)`, column `c` and row `r` of the glyph, holds in each
/// of its bytes the intensity of raster pixel `r * 7 + c`: the glyph is
/// drawn row by row, each row left to right, neither mirrored nor shifted.
/// This holds where that pixel is visible and lies in the buffer, and rows
/// are at least `width * bpp` bytes apart.
pub proof fn lemma_glyph_pixel_placed(
    buf: Seq<u8>,
    info: FramebufferInfo,
    x0: usize,
    y0: usize,
    pixels: Seq<u8>,
    c: nat,
    r: nat,
    k: nat,
)
    requires
        pixels.len() == GLYPH_LEN,
        c < CHAR_RASTER_WIDTH,
        r < CHAR_RASTER_HEIGHT,
        x0 + CHAR_RASTER_WIDTH <= u32::MAX,
        y0 + CHAR_RASTER_HEIGHT <= u32::MAX,
        info.stride as nat >= info.width as nat * info.bpp as nat,
        x0 + c < info.width,
        y0 + r < info.height,
        pixel_offset(info, (x0 + c) as nat, (y0 + r) as nat) + pixel_bytes(info) <= buf.len(),
        k < pixel_bytes(info),
    ensures
        glyph_drawn(buf, info, x0, y0, pixels, GLYPH_LEN as nat)[(pixel_offset(info, (x0 + c) as nat, (y0 + r) as nat) + k) as int] == pixels[(r
            * 7 + c) as int],
{
    assert(r * 7 + c < 112) by (nonlinear_arith)
        requires
            r < 16,
            c < 7,
    ;
    lemma_glyph_byte(buf, info, x0, y0, pixels, GLYPH_LEN as nat, c, r, k);
}

} // verus!
