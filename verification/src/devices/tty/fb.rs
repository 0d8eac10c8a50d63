//! A TTY that renders text onto a framebuffer.
use crate::devices::fb::{
    draw_glyph, get_char_raster, glyph_drawn, spec_char_raster, BORDER_PADDING, CHAR_RASTER_HEIGHT,
    CHAR_RASTER_WIDTH, GLYPH_LEN, LETTER_SPACING, LINE_SPACING,
};
use crate::devices::framebuffer::Framebuffer;
use crate::devices::DeviceId;
use vstd::prelude::*;

verus! {

/// The height of a line of text, spacing included.
pub open spec fn line_height() -> nat {
    (CHAR_RASTER_HEIGHT + LINE_SPACING) as nat
}

/// `buf` scrolled up by `line` rows of `row` bytes, out of `height` visible
/// rows: each row moves up by `line` rows, and everything from row
/// `height - line` to the end of the buffer is cleared.
pub open spec fn scrolled(buf: Seq<u8>, row: nat, height: nat, line: nat) -> Seq<u8> {
    Seq::new(
        buf.len(),
        |i: int|
            if i < ((height - line) * row) as int {
                buf[i + (line * row) as int]
            } else {
                0u8
            },
    )
}

/// Scrolling moves the screen up by one 18-pixel line: row `j` of the result
/// is row `j + 18` of the screen before, the last 18 rows are cleared, and
/// nothing changes in size.
pub proof fn lemma_scrolled_rows(buf: Seq<u8>, row: nat, height: nat, j: nat, b: nat)
    requires
        height >= 18,
        height * row <= buf.len(),
        b < row,
        j < height,
    ensures
        scrolled(buf, row, height, line_height()).len() == buf.len(),
        j + 18 < height ==> scrolled(buf, row, height, line_height())[(j * row + b) as int] == buf[((j + 18) * row
            + b) as int],
        j + 18 >= height ==> scrolled(buf, row, height, line_height())[(j * row + b) as int] == 0u8,
{
    assert(line_height() == 18);
    assert((j * row + b) + 18 * row == (j + 18) * row + b) by (nonlinear_arith);
    assert(j * row + b < height * row) by (nonlinear_arith)
        requires
            j < height,
            b < row,
    ;
    if j + 18 < height {
        assert(j * row + b < (height - 18) * row) by (nonlinear_arith)
            requires
                j + 18 < height,
                b < row,
        ;
    } else {
        assert(j * row + b >= (height - 18) * row) by (nonlinear_arith)
            requires
                j + 18 >= height,
                height >= 18,
        ;
    }
}

/// Where a printable character goes: at the cursor when its 7 columns end
/// before the right edge, else at the left border (x = 1) one 18-pixel line
/// down; the screen scrolls exactly when its 16 rows would then reach the
/// bottom, and the character then goes on the last line, 18 pixels above
/// the bottom. Either way it ends above the bottom.
pub proof fn lemma_placement(x: nat, y: nat, width: nat, height: nat)
    requires
        height >= 18,
    ensures
        ({
            let (px, py, scroll) = placement(x, y, width, height);
            let line_y = if x + 7 < width {
                y
            } else {
                y + 18
            };
            &&& (x + 7 < width ==> px == x)
            &&& (x + 7 >= width ==> px == 1)
            &&& (scroll <==> line_y + 16 >= height)
            &&& (!scroll ==> py == line_y)
            &&& (scroll ==> py == height - 18)
            &&& py + 16 < height
        }),
{
}

/// The cursor of a framebuffer TTY, in pixels.
pub struct FbTtyWriter {
    x_pos: usize,
    y_pos: usize,
}

/// What writing a printable character does: the cursor position, in pixels,
/// the glyph is drawn at and whether the screen scrolls first.
pub open spec fn placement(x: nat, y: nat, width: nat, height: nat) -> (nat, nat, bool) {
    let (x1, y1) = if x + CHAR_RASTER_WIDTH >= width {
        (BORDER_PADDING as nat, y + line_height())
    } else {
        (x, y)
    };
    if y1 + CHAR_RASTER_HEIGHT >= height {
        (x1, (height - line_height()) as nat, true)
    } else {
        (x1, y1, false)
    }
}

impl FbTtyWriter {
    pub closed spec fn spec_x(&self) -> nat {
        self.x_pos as nat
    }

    pub closed spec fn spec_y(&self) -> nat {
        self.y_pos as nat
    }

    /// A cursor at the top left corner.
    pub fn new() -> (r: Self)
        ensures
            r.spec_x() == 0,
            r.spec_y() == 0,
    {
        Self { x_pos: 0, y_pos: 0 }
    }

    /// The cursor position `(x, y)`.
    pub fn position(&self) -> (r: (usize, usize))
        ensures
            r.0 == self.spec_x(),
            r.1 == self.spec_y(),
    {
        (self.x_pos, self.y_pos)
    }

    /// Moves the cursor to `(x, y)`.
    pub fn set_pos(&mut self, x: usize, y: usize)
        ensures
            final(self).spec_x() == x,
            final(self).spec_y() == y,
    {
        self.x_pos = x;
        self.y_pos = y;
    }

    fn newline(&mut self)
        requires
            old(self).spec_y() + line_height() <= usize::MAX,
        ensures
            final(self).spec_x() == BORDER_PADDING,
            final(self).spec_y() == old(self).spec_y() + line_height(),
    {
        self.y_pos = self.y_pos + CHAR_RASTER_HEIGHT + LINE_SPACING;
        self.carriage_return()
    }

    /// Scrolls the framebuffer up by one line and puts the cursor on the last
    /// line.
    fn scroll_up(&mut self, fb: &mut Framebuffer)
        requires
            old(fb).spec_info().height >= line_height(),
            old(fb).spec_info().height as nat * old(fb).spec_info().stride as nat <= old(fb)@.len(),
        ensures
            final(fb)@ == scrolled(old(fb)@, old(fb).spec_info().stride as nat, old(fb).spec_info().height as nat, line_height()),
            final(fb).spec_info() == old(fb).spec_info(),
            final(fb).spec_addr() == old(fb).spec_addr(),
            final(self).spec_x() == old(self).spec_x(),
            final(self).spec_y() == old(fb).spec_info().height - line_height(),
    {
        let row_size = fb.info().stride as usize;
        let height = fb.info().height as usize;
        let line_height = CHAR_RASTER_HEIGHT + LINE_SPACING;
        let ghost old_buf = fb@;
        let len = fb.len();
        proof {
            assert(height * row_size <= old_buf.len());
            assert(old_buf.len() <= usize::MAX);
            assert((height - line_height) * row_size <= height * row_size) by (nonlinear_arith)
                requires height >= line_height;
            assert(line_height * row_size <= height * row_size) by (nonlinear_arith)
                requires height >= line_height;
            assert((height - line_height) * row_size + line_height * row_size == height * row_size) by (nonlinear_arith)
                requires height >= line_height;
        }
        let moved = (height - line_height) * row_size;
        let shift = line_height * row_size;
        let mut i: usize = 0;
        while i < moved
            invariant
                i <= moved,
                moved + shift <= old_buf.len(),
                old_buf.len() == len,
                fb@.len() == old_buf.len(),
                fb.spec_info() == old(fb).spec_info(),
                fb.spec_addr() == old(fb).spec_addr(),
                forall|j: int| 0 <= j < i ==> #[trigger] fb@[j] == old_buf[j + shift],
                forall|j: int| i <= j < old_buf.len() ==> #[trigger] fb@[j] == old_buf[j],
            decreases moved - i,
        {
            let b = fb.byte(i + shift);
            fb.set_byte(i, b);
            i = i + 1;
        }
        let mut j: usize = moved;
        while j < len
            invariant
                moved <= j <= len,
                len == old_buf.len(),
                moved + shift <= old_buf.len(),
                fb@.len() == old_buf.len(),
                fb.spec_info() == old(fb).spec_info(),
                fb.spec_addr() == old(fb).spec_addr(),
                forall|k: int| 0 <= k < moved ==> #[trigger] fb@[k] == old_buf[k + shift],
                forall|k: int| moved <= k < j ==> #[trigger] fb@[k] == 0u8,
            decreases len - j,
        {
            fb.set_byte(j, 0);
            j = j + 1;
        }
        proof {
            assert(fb@ =~= scrolled(old_buf, row_size as nat, height as nat, line_height as nat));
        }
        self.y_pos = height - line_height;
    }

    fn carriage_return(&mut self)
        ensures
            final(self).spec_x() == BORDER_PADDING,
            final(self).spec_y() == old(self).spec_y(),
    {
        self.x_pos = BORDER_PADDING;
    }

    /// Writes a character: a newline, a carriage return, a tab of four glyph
    /// widths, or a glyph. A glyph that would reach the right edge goes to the
    /// next line first, and one that would reach the bottom scrolls the screen
    /// up first.
    pub fn write_char(&mut self, fb: &mut Framebuffer, c: char)
        requires
            c != '\n' && c != '\r' ==> old(self).spec_x() + 4 * CHAR_RASTER_WIDTH + LETTER_SPACING <= usize::MAX,
            c != '\r' ==> old(self).spec_y() + line_height() + CHAR_RASTER_HEIGHT <= usize::MAX,
            c != '\n' && c != '\r' && c != '\t' && placement(
                old(self).spec_x(),
                old(self).spec_y(),
                old(fb).spec_info().width as nat,
                old(fb).spec_info().height as nat,
            ).2 ==> old(fb).spec_info().height >= line_height() && old(fb).spec_info().height as nat * old(fb).spec_info().stride as nat
                <= old(fb)@.len(),
        ensures
            final(fb).spec_info() == old(fb).spec_info(),
            final(fb).spec_addr() == old(fb).spec_addr(),
            c == '\n' ==> final(self).spec_x() == BORDER_PADDING && final(self).spec_y() == old(self).spec_y()
                + line_height() && final(fb)@ == old(fb)@,
            c == '\r' ==> final(self).spec_x() == BORDER_PADDING && final(self).spec_y() == old(self).spec_y()
                && final(fb)@ == old(fb)@,
            c == '\t' ==> final(fb)@ == old(fb)@ && if old(self).spec_x() + 4 * CHAR_RASTER_WIDTH >= old(fb).spec_info().width {
                final(self).spec_x() == BORDER_PADDING && final(self).spec_y() == old(self).spec_y() + line_height()
            } else {
                final(self).spec_x() == old(self).spec_x() + 4 * CHAR_RASTER_WIDTH && final(self).spec_y() == old(
                    self,
                ).spec_y()
            },
            c != '\n' && c != '\r' && c != '\t' ==> {
                let (x, y, scroll) = placement(
                    old(self).spec_x(),
                    old(self).spec_y(),
                    old(fb).spec_info().width as nat,
                    old(fb).spec_info().height as nat,
                );
                let before = if scroll {
                    scrolled(old(fb)@, old(fb).spec_info().stride as nat, old(fb).spec_info().height as nat, line_height())
                } else {
                    old(fb)@
                };
                &&& final(self).spec_x() == x + CHAR_RASTER_WIDTH + LETTER_SPACING
                &&& final(self).spec_y() == y
                &&& final(fb)@ == glyph_drawn(
                    before,
                    old(fb).spec_info(),
                    x as usize,
                    y as usize,
                    spec_char_raster(c),
                    GLYPH_LEN as nat,
                )
            },
    {
        let width = fb.info().width as usize;
        if c == '\n' {
            self.newline();
        } else if c == '\r' {
            self.carriage_return();
        } else if c == '\t' {
            self.x_pos = self.x_pos + CHAR_RASTER_WIDTH * 4;
            if self.x_pos >= width {
                self.newline();
            }
        } else {
            let new_xpos = self.x_pos + CHAR_RASTER_WIDTH;
            if new_xpos >= width {
                self.newline();
            }
            let new_ypos = self.y_pos + CHAR_RASTER_HEIGHT;
            if new_ypos >= fb.info().height as usize {
                self.scroll_up(fb);
            }
            let raster = get_char_raster(c);
            self.write_rendered_char(fb, &raster);
        }
    }

    /// Draws a rendered character at the cursor and moves the cursor past it.
    fn write_rendered_char(&mut self, fb: &mut Framebuffer, rendered_char: &Vec<u8>)
        requires
            rendered_char@.len() == GLYPH_LEN,
            old(self).spec_x() + CHAR_RASTER_WIDTH + LETTER_SPACING <= usize::MAX,
            old(self).spec_y() + CHAR_RASTER_HEIGHT <= usize::MAX,
        ensures
            final(fb)@ == glyph_drawn(
                old(fb)@,
                old(fb).spec_info(),
                old(self).x_pos,
                old(self).y_pos,
                rendered_char@,
                GLYPH_LEN as nat,
            ),
            final(fb).spec_info() == old(fb).spec_info(),
            final(fb).spec_addr() == old(fb).spec_addr(),
            final(self).spec_x() == old(self).spec_x() + CHAR_RASTER_WIDTH + LETTER_SPACING,
            final(self).spec_y() == old(self).spec_y(),
    {
        draw_glyph(fb, self.x_pos, self.y_pos, rendered_char);
        self.x_pos = self.x_pos + CHAR_RASTER_WIDTH + LETTER_SPACING;
    }
}

/// A TTY that writes text to the framebuffer device `fb_id`.
pub struct VirtFbTtyDevice {
    fb_id: DeviceId,
    writer: FbTtyWriter,
}

impl VirtFbTtyDevice {
    pub closed spec fn spec_fb_id(&self) -> DeviceId {
        self.fb_id
    }

    pub closed spec fn spec_writer(&self) -> FbTtyWriter {
        self.writer
    }

    pub fn new(fb_id: DeviceId) -> (r: Self)
        ensures
            r.spec_fb_id() == fb_id,
            r.spec_writer().spec_x() == 0,
            r.spec_writer().spec_y() == 0,
    {
        Self { fb_id, writer: FbTtyWriter::new() }
    }

    /// The framebuffer device the text goes to.
    pub fn fb_id(&self) -> (r: DeviceId)
        ensures
            r == self.spec_fb_id(),
    {
        self.fb_id
    }

    /// Moves the cursor to `(x, y)`.
    pub fn set_pos(&mut self, x: u32, y: u32)
        ensures
            final(self).spec_writer().spec_x() == x,
            final(self).spec_writer().spec_y() == y,
            final(self).spec_fb_id() == old(self).spec_fb_id(),
    {
        self.writer.set_pos(x as usize, y as usize);
    }
}

} // verus!
