use hadron_kernel::devices::fb::{get_char_raster, CHAR_RASTER_HEIGHT, CHAR_RASTER_WIDTH, GLYPH_LEN};
use hadron_kernel::devices::framebuffer::{Framebuffer, FramebufferInfo, PixelFormat};
use hadron_kernel::devices::tty::fb::FbTtyWriter;

const WIDTH: u32 = 64;
const HEIGHT: u32 = 40;
const STRIDE: usize = 256;

fn framebuffer() -> Framebuffer {
    let info = FramebufferInfo { width: WIDTH, height: HEIGHT, pixel_format: PixelFormat::RGB, stride: STRIDE as u32, bpp: 4 };
    Framebuffer::new(info, 0xFFFF_C000_0000_0000, vec![0u8; STRIDE * HEIGHT as usize])
}

fn snapshot(fb: &Framebuffer) -> Vec<u8> {
    (0..fb.len()).map(|i| fb.byte(i)).collect()
}

/// Whether some pixel of the cell whose top left corner is `(x, y)` is lit.
fn cell_lit(fb: &Framebuffer, x: usize, y: usize) -> bool {
    (0..CHAR_RASTER_HEIGHT).any(|r| (0..CHAR_RASTER_WIDTH).any(|c| fb.byte((y + r) * STRIDE + (x + c) * 4) != 0))
}

#[test]
fn glyph_sizes() {
    assert_eq!(get_char_raster('A').len(), GLYPH_LEN);
    assert_eq!(GLYPH_LEN, CHAR_RASTER_WIDTH * CHAR_RASTER_HEIGHT);
    // a character the font lacks is drawn as a space
    assert_eq!(get_char_raster('\u{263A}'), get_char_raster(' '));
    assert!(get_char_raster(' ').iter().all(|&p| p == 0));
    assert!(get_char_raster('#').iter().any(|&p| p != 0));
}

#[test]
fn pixels_are_little_endian() {
    let mut fb = framebuffer();
    fb.write_pixel(1, 2, 0x1122_3344);
    let off = 2 * STRIDE + 4;
    assert_eq!([fb.byte(off), fb.byte(off + 1), fb.byte(off + 2), fb.byte(off + 3)], [0x44, 0x33, 0x22, 0x11]);
    let before = snapshot(&fb);
    fb.write_pixel(WIDTH, 0, 0xFFFF_FFFF);
    fb.write_pixel(0, HEIGHT, 0xFFFF_FFFF);
    assert_eq!(snapshot(&fb), before);
}

#[test]
fn control_characters_draw_nothing() {
    let mut fb = framebuffer();
    let mut tty = FbTtyWriter::new();
    tty.write_char(&mut fb, '\n');
    tty.write_char(&mut fb, '\r');
    tty.write_char(&mut fb, '\t');
    assert!(snapshot(&fb).iter().all(|&b| b == 0));
}

#[test]
fn glyphs_advance_the_cursor() {
    let mut fb = framebuffer();
    let mut tty = FbTtyWriter::new();
    tty.write_char(&mut fb, '#');
    assert!(cell_lit(&fb, 0, 0));
    assert!(!cell_lit(&fb, CHAR_RASTER_WIDTH, 0));
    tty.write_char(&mut fb, '#');
    assert!(cell_lit(&fb, CHAR_RASTER_WIDTH, 0));
}

#[test]
fn newline_then_glyph() {
    let mut fb = framebuffer();
    let mut tty = FbTtyWriter::new();
    tty.write_char(&mut fb, '\n');
    tty.write_char(&mut fb, '#');
    // a new line starts one glyph height plus the spacing lower, after the padding
    assert!(cell_lit(&fb, 1, 18));
    assert!(!cell_lit(&fb, 1, 0));
}

#[test]
fn writing_at_the_bottom_scrolls() {
    let mut fb = framebuffer();
    fb.set_byte(20 * STRIDE, 0xAB);
    let mut tty = FbTtyWriter::new();
    tty.set_pos(1, 36);
    tty.write_char(&mut fb, '#');
    // the screen moved up by one line: row 20 is now row 2
    assert_eq!(fb.byte(2 * STRIDE), 0xAB);
    assert_eq!(fb.byte(20 * STRIDE), 0);
    // the glyph sits on the last line
    assert!(cell_lit(&fb, 1, 22));
}
