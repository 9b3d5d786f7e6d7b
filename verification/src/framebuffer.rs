//! Text on a pixel framebuffer: a cursor that moves character by character
//! and line by line, and the pixels of each character drawn at the cursor.

use vstd::prelude::*;
use vstd::std_specs::iter::IteratorSpec;

verus! {

/// Additional vertical space between lines.
pub const LINE_SPACING: usize = 2;

/// Additional horizontal space between characters.
pub const LETTER_SPACING: usize = 0;

/// Padding from the border, so that the text is not too close to it.
pub const BORDER_PADDING: usize = 1;

/// Height of the raster of each character.
pub const CHAR_RASTER_HEIGHT: usize = 16;

/// Width of the raster of each character: the font is a mono space font.
pub const CHAR_RASTER_WIDTH: usize = 7;

/// The character that is drawn in place of one that the font does not have.
pub const BACKUP_CHAR: char = '\u{fffd}';

/// Color format of the pixels of a framebuffer.
#[derive(Debug, Clone, Copy, PartialEq, Eq, Structural)]
pub enum PixelFormat {
    /// One byte red, then one byte green, then one byte blue.
    Rgb,
    /// One byte blue, then one byte green, then one byte red.
    Bgr,
    /// A single byte for the gray value.
    U8,
    /// A format given by the bit offsets of its colors.
    Unknown { red_position: u8, green_position: u8, blue_position: u8 },
}

/// The layout of a framebuffer.
#[derive(Debug, Clone, Copy, PartialEq, Eq, Structural)]
pub struct FrameBufferInfo {
    /// The total size in bytes.
    pub byte_len: usize,
    /// The width in pixels.
    pub width: usize,
    /// The height in pixels.
    pub height: usize,
    /// The color format of each pixel.
    pub pixel_format: PixelFormat,
    /// The number of bytes per pixel.
    pub bytes_per_pixel: usize,
    /// Number of pixels between the start of a line and the start of the
    /// next.
    pub stride: usize,
}

/// The intensities of the pixels of a character: 16 rows of 7 bytes, from
/// top to bottom and from left to right.
pub struct RasterizedChar {
    raster: &'static [&'static [u8]],
}

/// Whether `raster` has the shape of a character: 16 rows of 7 bytes.
pub open spec fn is_char_raster(raster: Seq<Seq<u8>>) -> bool {
    &&& raster.len() == CHAR_RASTER_HEIGHT
    &&& forall|row: int| 0 <= row < raster.len() ==> (#[trigger] raster[row]).len() == CHAR_RASTER_WIDTH
}

impl View for RasterizedChar {
    type V = Seq<Seq<u8>>;

    closed spec fn view(&self) -> Seq<Seq<u8>> {
        Seq::new(self.raster@.len(), |row: int| self.raster@[row]@)
    }
}

impl RasterizedChar {
    #[verifier::type_invariant]
    spec fn shaped(self) -> bool {
        is_char_raster(self@)
    }

    /// The intensity of the pixel in this row and column.
    pub fn intensity(&self, row: usize, col: usize) -> (intensity: u8)
        requires
            row < CHAR_RASTER_HEIGHT,
            col < CHAR_RASTER_WIDTH,
        ensures
            is_char_raster(self@),
            intensity == self@[row as int][col as int],
    {
        proof {
            use_type_invariant(self);
            assert(self@[row as int].len() == CHAR_RASTER_WIDTH);
        }
        self.raster[row][col]
    }

    /// Height of the raster in pixels.
    pub fn height(&self) -> (height: usize)
        ensures
            is_char_raster(self@),
            height == CHAR_RASTER_HEIGHT,
    {
        proof {
            use_type_invariant(self);
        }
        CHAR_RASTER_HEIGHT
    }

    /// Width of the raster in pixels.
    pub fn width(&self) -> (width: usize)
        ensures
            is_char_raster(self@),
            width == CHAR_RASTER_WIDTH,
    {
        proof {
            use_type_invariant(self);
        }
        CHAR_RASTER_WIDTH
    }
}

/// The raster that the font has for a character in regular weight at
/// height 16, if it has the character.
pub uninterp spec fn font_raster(c: char) -> Option<Seq<Seq<u8>>>;

/// Calls `get_raster` of the noto_sans_mono_bitmap crate for `c` in regular
/// weight at raster height 16, and takes the rows of what it returns. The
/// contract claims that every raster is 16 rows of 7 bytes, and that the
/// font has the replacement character.
#[verifier::external_body]
fn get_raster(c: char) -> (raster: Option<&'static [&'static [u8]]>)
    ensures
        match raster {
            Some(rows) => font_raster(c) == Some(
                Seq::new(rows@.len(), |row: int| rows@[row]@),
            ) && is_char_raster(Seq::new(rows@.len(), |row: int| rows@[row]@)),
            None => font_raster(c) is None,
        },
        c == BACKUP_CHAR ==> raster is Some,
{
    noto_sans_mono_bitmap::get_raster(
        c,
        noto_sans_mono_bitmap::FontWeight::Regular,
        noto_sans_mono_bitmap::RasterHeight::Size16,
    ).map(|rendered| rendered.raster())
}

/// The raster that is drawn for `c`: that of `c` where the font has it,
/// that of the replacement character otherwise.
pub open spec fn char_raster(c: char) -> Seq<Seq<u8>> {
    match font_raster(c) {
        Some(raster) => raster,
        None => font_raster(BACKUP_CHAR).unwrap(),
    }
}

/// Returns the raster of the given char or the raster of [`BACKUP_CHAR`].
pub fn get_char_raster(c: char) -> (rendered: RasterizedChar)
    ensures
        rendered@ == char_raster(c),
        is_char_raster(rendered@),
{
    match get_raster(c) {
        Some(raster) => {
            let rendered = RasterizedChar { raster };
            rendered
        },
        None => {
            let raster = get_raster(BACKUP_CHAR).unwrap();
            RasterizedChar { raster }
        },
    }
}

/// The four bytes from which a pixel of this intensity takes its bytes.
pub open spec fn pixel_color(format: PixelFormat, intensity: u8) -> Seq<u8> {
    match format {
        PixelFormat::Rgb => seq![intensity, intensity, intensity / 2, 0],
        PixelFormat::Bgr => seq![intensity / 2, intensity, intensity, 0],
        PixelFormat::U8 => seq![if intensity > 200 { 0xf } else { 0 }, 0, 0, 0],
        PixelFormat::Unknown { .. } => seq![0, 0, 0, 0],
    }
}

/// What a framebuffer writer holds: the bytes of the framebuffer, its
/// layout, and the position of the cursor in pixels.
pub struct Canvas {
    pub pixels: Seq<u8>,
    pub info: FrameBufferInfo,
    pub x_pos: nat,
    pub y_pos: nat,
}

impl Canvas {
    /// Number of pixels of a row that may be drawn to: the width, and at
    /// least one character after the border.
    pub open spec fn columns(self) -> nat {
        if self.info.width > BORDER_PADDING + CHAR_RASTER_WIDTH {
            self.info.width as nat
        } else {
            (BORDER_PADDING + CHAR_RASTER_WIDTH) as nat
        }
    }

    /// Number of rows that may be drawn to: the height, and at least one
    /// character after the border.
    pub open spec fn rows(self) -> nat {
        if self.info.height > BORDER_PADDING + CHAR_RASTER_HEIGHT {
            self.info.height as nat
        } else {
            (BORDER_PADDING + CHAR_RASTER_HEIGHT) as nat
        }
    }

    /// Index of the first byte of the pixel at `x` in row `y`.
    pub open spec fn byte_offset(self, x: nat, y: nat) -> nat {
        ((y * self.info.stride + x) * self.info.bytes_per_pixel) as nat
    }

    /// The pixel format is one of the three that can be drawn in, with at
    /// most four bytes to a pixel.
    pub open spec fn can_draw(self) -> bool {
        &&& self.info.bytes_per_pixel <= 4
        &&& !(self.info.pixel_format is Unknown)
    }

    /// The pixel at `x` in row `y` lies in the framebuffer, and its number
    /// fits in a machine word.
    pub open spec fn holds_pixel(self, x: nat, y: nat) -> bool {
        &&& y * self.info.stride + x <= usize::MAX
        &&& self.byte_offset(x, y) + self.info.bytes_per_pixel <= self.pixels.len()
    }

    /// Characters can be written: the pixels can be drawn, the framebuffer
    /// holds every row and column that may be drawn to, and the cursor is
    /// where writing leaves it.
    pub open spec fn wf(self) -> bool {
        &&& self.can_draw()
        &&& self.rows() >= 1 && self.holds_pixel((self.columns() - 1) as nat, (self.rows() - 1) as nat)
        &&& self.x_pos <= self.columns()
        &&& self.columns() + CHAR_RASTER_WIDTH <= usize::MAX
    }

    /// The canvas with the pixel at `x` in row `y` set to `intensity`.
    pub open spec fn write_pixel(self, x: nat, y: nat, intensity: u8) -> Canvas {
        let offset = self.byte_offset(x, y);
        let color = pixel_color(self.info.pixel_format, intensity);
        Canvas {
            pixels: Seq::new(
                self.pixels.len(),
                |p: int|
                    if offset <= p < offset + self.info.bytes_per_pixel {
                        color[p - offset]
                    } else {
                        self.pixels[p]
                    },
            ),
            ..self
        }
    }

    /// The canvas with the first `count` pixels of `raster` drawn at the
    /// cursor, row by row from the top and from left to right in each row.
    pub open spec fn draw(self, raster: Seq<Seq<u8>>, count: nat) -> Canvas
        decreases count,
    {
        if count == 0 {
            self
        } else {
            let n = (count - 1) as nat;
            let row = n / (CHAR_RASTER_WIDTH as nat);
            let col = n % (CHAR_RASTER_WIDTH as nat);
            self.draw(raster, n).write_pixel(
                self.x_pos + col,
                self.y_pos + row,
                raster[row as int][col as int],
            )
        }
    }

    /// The canvas with `raster` drawn at the cursor and the cursor moved
    /// to the right by the width of a character.
    pub open spec fn write_rendered_char(self, raster: Seq<Seq<u8>>) -> Canvas {
        Canvas {
            x_pos: (self.x_pos + CHAR_RASTER_WIDTH + LETTER_SPACING) as nat,
            ..self.draw(raster, (CHAR_RASTER_HEIGHT * CHAR_RASTER_WIDTH) as nat)
        }
    }

    /// The cursor at the left border.
    pub open spec fn carriage_return(self) -> Canvas {
        Canvas { x_pos: BORDER_PADDING as nat, ..self }
    }

    /// The cursor at the left border, one line further down.
    pub open spec fn newline(self) -> Canvas {
        Canvas {
            x_pos: BORDER_PADDING as nat,
            y_pos: (self.y_pos + CHAR_RASTER_HEIGHT + LINE_SPACING) as nat,
            ..self
        }
    }

    /// Every byte zero, and the cursor in the upper left corner.
    pub open spec fn clear(self) -> Canvas {
        Canvas {
            pixels: Seq::new(self.pixels.len(), |p: int| 0u8),
            x_pos: BORDER_PADDING as nat,
            y_pos: BORDER_PADDING as nat,
            ..self
        }
    }

    /// Where a character is drawn: on a new line if it would reach the
    /// right border, and on a cleared screen if it would then reach the
    /// lower border.
    pub open spec fn place_char(self) -> Canvas {
        let in_row = if self.x_pos + CHAR_RASTER_WIDTH >= self.info.width {
            self.newline()
        } else {
            self
        };
        if in_row.y_pos + CHAR_RASTER_HEIGHT + BORDER_PADDING >= self.info.height {
            in_row.clear()
        } else {
            in_row
        }
    }

    /// The canvas after `c` is written: a line feed and a carriage return
    /// move the cursor, any other character is drawn.
    pub open spec fn write_char(self, c: char) -> Canvas {
        if c == '\n' {
            self.newline()
        } else if c == '\r' {
            self.carriage_return()
        } else {
            self.place_char().write_rendered_char(char_raster(c))
        }
    }

    /// The canvas after the characters of a string are written one by one.
    pub open spec fn write_str(self, s: Seq<char>) -> Canvas
        decreases s.len(),
    {
        if s.len() == 0 {
            self
        } else {
            self.write_str(s.drop_last()).write_char(s.last())
        }
    }
}

/// Writes text to a framebuffer that it has borrowed.
pub struct FrameBufferWriter<'a> {
    framebuffer: &'a mut [u8],
    info: FrameBufferInfo,
    x_pos: usize,
    y_pos: usize,
}

impl<'a> View for FrameBufferWriter<'a> {
    type V = Canvas;

    closed spec fn view(&self) -> Canvas {
        Canvas {
            pixels: self.framebuffer@,
            info: self.info,
            x_pos: self.x_pos as nat,
            y_pos: self.y_pos as nat,
        }
    }
}

/// A pixel that lies before the last pixel that may be drawn to lies in
/// the framebuffer.
proof fn lemma_earlier_pixel_is_held(canvas: Canvas, x: nat, y: nat, last_x: nat, last_y: nat)
    requires
        canvas.holds_pixel(last_x, last_y),
        x <= last_x,
        y <= last_y,
    ensures
        canvas.holds_pixel(x, y),
{
    let stride = canvas.info.stride as int;
    let bpp = canvas.info.bytes_per_pixel as int;
    assert(y * stride <= last_y * stride) by (nonlinear_arith)
        requires
            y <= last_y,
            0 <= stride,
    ;
    assert((y * stride + x) * bpp <= (last_y * stride + last_x) * bpp) by (nonlinear_arith)
        requires
            y * stride + x <= last_y * stride + last_x,
            0 <= bpp,
    ;
}

impl<'a> FrameBufferWriter<'a> {
    /// Creates a writer that has no framebuffer yet: it holds no byte and
    /// a layout without pixels.
    pub fn new() -> (writer: Self)
        ensures
            writer@ == (Canvas {
                pixels: Seq::<u8>::empty(),
                info: FrameBufferInfo {
                    byte_len: 0,
                    width: 0,
                    height: 0,
                    pixel_format: PixelFormat::U8,
                    bytes_per_pixel: 0,
                    stride: 0,
                },
                x_pos: 0,
                y_pos: 0,
            }),
    {
        let writer = FrameBufferWriter {
            framebuffer: &mut [],
            info: FrameBufferInfo {
                byte_len: 0,
                width: 0,
                height: 0,
                pixel_format: PixelFormat::U8,
                bytes_per_pixel: 0,
                stride: 0,
            },
            x_pos: 0,
            y_pos: 0,
        };
        assert(writer@.pixels =~= Seq::<u8>::empty());
        writer
    }

    /// Takes the framebuffer and its layout, and clears the screen.
    pub fn init(&mut self, framebuffer: &'a mut [u8], info: FrameBufferInfo)
        ensures
            final(self)@ == (Canvas {
                pixels: old(framebuffer)@,
                info,
                x_pos: 0,
                y_pos: 0,
            }).clear(),
    {
        self.framebuffer = framebuffer;
        self.info = info;
        self.clear();
    }

    /// The bytes of the framebuffer.
    pub fn framebuffer(&self) -> (bytes: &[u8])
        ensures
            bytes@ == self@.pixels,
    {
        &*self.framebuffer
    }

    /// The position of the cursor: the column and the row of the pixel at
    /// which the next character begins.
    pub fn position(&self) -> (position: (usize, usize))
        ensures
            position.0 == self@.x_pos,
            position.1 == self@.y_pos,
    {
        (self.x_pos, self.y_pos)
    }

    /// Whether characters can be written: the pixel format can be drawn
    /// in and the framebuffer is large enough for its layout.
    pub fn can_write(&self) -> (ready: bool)
        ensures
            ready == self@.wf(),
    {
        let bytes_per_pixel = self.info.bytes_per_pixel;
        if bytes_per_pixel > 4 {
            return false;
        }
        match self.info.pixel_format {
            PixelFormat::Unknown { .. } => {
                return false;
            },
            _ => {},
        }
        let columns = if self.info.width > BORDER_PADDING + CHAR_RASTER_WIDTH {
            self.info.width
        } else {
            BORDER_PADDING + CHAR_RASTER_WIDTH
        };
        let rows = if self.info.height > BORDER_PADDING + CHAR_RASTER_HEIGHT {
            self.info.height
        } else {
            BORDER_PADDING + CHAR_RASTER_HEIGHT
        };
        if self.x_pos > columns || columns > usize::MAX - CHAR_RASTER_WIDTH {
            return false;
        }
        let ghost last = (rows - 1) * self.info.stride + (columns - 1);
        assert(last >= 0 && last * bytes_per_pixel >= 0 && (bytes_per_pixel > 0 ==> last
            * bytes_per_pixel >= last)) by (nonlinear_arith)
            requires
                last == (rows - 1) * self.info.stride + (columns - 1),
                rows >= 1,
                columns >= 1,
                self.info.stride >= 0,
                bytes_per_pixel >= 0,
        ;
        let len = self.framebuffer.len();
        let row_start = match (rows - 1).checked_mul(self.info.stride) {
            Some(product) => product,
            None => {
                return false;
            },
        };
        let last_pixel = match row_start.checked_add(columns - 1) {
            Some(sum) => sum,
            None => {
                return false;
            },
        };
        let offset = match last_pixel.checked_mul(bytes_per_pixel) {
            Some(product) => product,
            None => {
                return false;
            },
        };
        match offset.checked_add(bytes_per_pixel) {
            Some(end) => end <= len,
            None => false,
        }
    }

    fn newline(&mut self)
        requires
            old(self)@.y_pos + CHAR_RASTER_HEIGHT + LINE_SPACING <= usize::MAX,
        ensures
            final(self)@ == old(self)@.newline(),
    {
        self.y_pos += CHAR_RASTER_HEIGHT + LINE_SPACING;
        self.carriage_return()
    }

    fn carriage_return(&mut self)
        ensures
            final(self)@ == old(self)@.carriage_return(),
    {
        self.x_pos = BORDER_PADDING;
    }

    /// Erases all text on the screen and moves the cursor to the upper
    /// left corner.
    pub fn clear(&mut self)
        ensures
            final(self)@ == old(self)@.clear(),
    {
        self.x_pos = BORDER_PADDING;
        self.y_pos = BORDER_PADDING;
        let mut i: usize = 0;
        while i < self.framebuffer.len()
            invariant
                0 <= i <= self.framebuffer@.len(),
                self.framebuffer@.len() == old(self).framebuffer@.len(),
                self.info == old(self).info,
                self.x_pos == BORDER_PADDING,
                self.y_pos == BORDER_PADDING,
                forall|p: int| 0 <= p < i ==> self.framebuffer@[p] == 0,
            decreases self.framebuffer@.len() - i,
        {
            self.framebuffer[i] = 0;
            i = i + 1;
        }
        assert(self@.pixels =~= old(self)@.clear().pixels);
    }

    fn width(&self) -> (width: usize)
        ensures
            width == self@.info.width,
    {
        self.info.width
    }

    fn height(&self) -> (height: usize)
        ensures
            height == self@.info.height,
    {
        self.info.height
    }

    /// Writes a single char to the framebuffer. Takes care of special
    /// control characters, such as newlines and carriage returns.
    pub fn write_char(&mut self, c: char)
        requires
            old(self)@.wf(),
            old(self)@.y_pos + 2 * (CHAR_RASTER_HEIGHT + LINE_SPACING) <= usize::MAX,
        ensures
            final(self)@ == old(self)@.write_char(c),
            final(self)@.wf(),
            final(self)@.y_pos <= old(self)@.y_pos + CHAR_RASTER_HEIGHT + LINE_SPACING,
    {
        if c == '\n' {
            self.newline();
        } else if c == '\r' {
            self.carriage_return();
        } else {
            let new_xpos = self.x_pos + CHAR_RASTER_WIDTH;
            if new_xpos >= self.width() {
                self.newline();
            }
            let new_ypos = self.y_pos + CHAR_RASTER_HEIGHT + BORDER_PADDING;
            if new_ypos >= self.height() {
                self.clear();
                assert(self@.holds_pixel(
                    (old(self)@.columns() - 1) as nat,
                    (old(self)@.rows() - 1) as nat,
                ));
            }
            assert(self@ == old(self)@.place_char());
            proof {
                lemma_earlier_pixel_is_held(
                    self@,
                    (self@.x_pos + CHAR_RASTER_WIDTH - 1) as nat,
                    (self@.y_pos + CHAR_RASTER_HEIGHT - 1) as nat,
                    (self@.columns() - 1) as nat,
                    (self@.rows() - 1) as nat,
                );
            }
            proof {
                lemma_draw_keeps_layout(
                    self@,
                    char_raster(c),
                    (CHAR_RASTER_HEIGHT * CHAR_RASTER_WIDTH) as nat,
                );
            }
            self.write_rendered_char(get_char_raster(c));
        }
    }

    /// Draws a rendered char into the framebuffer at the cursor, and moves
    /// the cursor to the right by its width.
    fn write_rendered_char(&mut self, rendered_char: RasterizedChar)
        requires
            old(self)@.can_draw(),
            old(self)@.holds_pixel(
                (old(self)@.x_pos + CHAR_RASTER_WIDTH - 1) as nat,
                (old(self)@.y_pos + CHAR_RASTER_HEIGHT - 1) as nat,
            ),
            old(self)@.x_pos + CHAR_RASTER_WIDTH <= usize::MAX,
            old(self)@.y_pos + CHAR_RASTER_HEIGHT <= usize::MAX,
        ensures
            final(self)@ == old(self)@.write_rendered_char(rendered_char@),
    {
        let ghost before = self@;
        let height = rendered_char.height();
        let width = rendered_char.width();
        let mut y: usize = 0;
        while y < height
            invariant
                0 <= y <= height,
                height == CHAR_RASTER_HEIGHT,
                width == CHAR_RASTER_WIDTH,
                is_char_raster(rendered_char@),
                before.can_draw(),
                before.holds_pixel(
                    (before.x_pos + CHAR_RASTER_WIDTH - 1) as nat,
                    (before.y_pos + CHAR_RASTER_HEIGHT - 1) as nat,
                ),
                before.x_pos + CHAR_RASTER_WIDTH <= usize::MAX,
                before.y_pos + CHAR_RASTER_HEIGHT <= usize::MAX,
                self@ == before.draw(rendered_char@, (y * CHAR_RASTER_WIDTH) as nat),
            decreases height - y,
        {
            let mut x: usize = 0;
            while x < width
                invariant
                    0 <= x <= width,
                    0 <= y < height,
                    height == CHAR_RASTER_HEIGHT,
                    width == CHAR_RASTER_WIDTH,
                    is_char_raster(rendered_char@),
                    before.can_draw(),
                    before.holds_pixel(
                        (before.x_pos + CHAR_RASTER_WIDTH - 1) as nat,
                        (before.y_pos + CHAR_RASTER_HEIGHT - 1) as nat,
                    ),
                    before.x_pos + CHAR_RASTER_WIDTH <= usize::MAX,
                    before.y_pos + CHAR_RASTER_HEIGHT <= usize::MAX,
                    self@ == before.draw(rendered_char@, (y * CHAR_RASTER_WIDTH + x) as nat),
                decreases width - x,
            {
                let byte = rendered_char.intensity(y, x);
                proof {
                    let drawn = before.draw(rendered_char@, (y * CHAR_RASTER_WIDTH + x) as nat);
                    lemma_draw_keeps_layout(before, rendered_char@, (y * CHAR_RASTER_WIDTH + x) as nat);
                    lemma_earlier_pixel_is_held(
                        drawn,
                        (before.x_pos + x) as nat,
                        (before.y_pos + y) as nat,
                        (before.x_pos + CHAR_RASTER_WIDTH - 1) as nat,
                        (before.y_pos + CHAR_RASTER_HEIGHT - 1) as nat,
                    );
                    assert((y * CHAR_RASTER_WIDTH + x) / 7 == y && (y * CHAR_RASTER_WIDTH + x) % 7 == x);
                }
                self.write_pixel(self.x_pos + x, self.y_pos + y, byte);
                x = x + 1;
            }
            y = y + 1;
        }
        proof {
            lemma_draw_keeps_layout(
                before,
                rendered_char@,
                (CHAR_RASTER_HEIGHT * CHAR_RASTER_WIDTH) as nat,
            );
        }
        self.x_pos += rendered_char.width() + LETTER_SPACING;
    }

    /// Sets the pixel at `x` in row `y` to the color that the pixel format
    /// has for `intensity`.
    fn write_pixel(&mut self, x: usize, y: usize, intensity: u8)
        requires
            old(self)@.can_draw(),
            old(self)@.holds_pixel(x as nat, y as nat),
        ensures
            final(self)@ == old(self)@.write_pixel(x as nat, y as nat, intensity),
    {
        assert(y * self.info.stride >= 0) by (nonlinear_arith);
        let pixel_offset = y * self.info.stride + x;
        let color: [u8; 4] = match self.info.pixel_format {
            PixelFormat::Rgb => [intensity, intensity, intensity / 2, 0],
            PixelFormat::Bgr => [intensity / 2, intensity, intensity, 0],
            PixelFormat::U8 => [
                if intensity > 200 {
                    0xf
                } else {
                    0
                },
                0,
                0,
                0,
            ],
            PixelFormat::Unknown { .. } => [0, 0, 0, 0],
        };
        assert(color@ =~= pixel_color(self.info.pixel_format, intensity));
        let bytes_per_pixel = self.info.bytes_per_pixel;
        assert(pixel_offset * bytes_per_pixel >= 0) by (nonlinear_arith)
            requires
                pixel_offset >= 0,
                bytes_per_pixel >= 0,
        ;
        let len = self.framebuffer.len();
        assert(self@.byte_offset(x as nat, y as nat) == pixel_offset * bytes_per_pixel);
        assert(pixel_offset * bytes_per_pixel + bytes_per_pixel <= len);
        let byte_offset = pixel_offset * bytes_per_pixel;
        let mut k: usize = 0;
        while k < bytes_per_pixel
            invariant
                0 <= k <= bytes_per_pixel <= 4,
                byte_offset + bytes_per_pixel <= len,
                self.framebuffer@.len() == len,
                self.framebuffer@.len() == old(self).framebuffer@.len(),
                self.info == old(self).info,
                self.x_pos == old(self).x_pos,
                self.y_pos == old(self).y_pos,
                forall|p: int|
                    0 <= p < self.framebuffer@.len() ==> self.framebuffer@[p] == if byte_offset <= p
                        < byte_offset + k {
                        color@[p - byte_offset]
                    } else {
                        old(self).framebuffer@[p]
                    },
            decreases bytes_per_pixel - k,
        {
            self.framebuffer[byte_offset + k] = color[k];
            k = k + 1;
        }
        assert(self@.pixels =~= old(self)@.write_pixel(x as nat, y as nat, intensity).pixels);
    }

    /// Writes the characters of a string one by one.
    pub fn write_str(&mut self, s: &str)
        requires
            old(self)@.wf(),
            old(self)@.y_pos + (s@.len() + 1) * (CHAR_RASTER_HEIGHT + LINE_SPACING) <= usize::MAX,
        ensures
            final(self)@ == old(self)@.write_str(s@),
            final(self)@.wf(),
    {
        let mut chars = s.chars();
        let ghost mut done: Seq<char> = Seq::empty();
        proof {
            vstd::string::axiom_spec_iter(s);
        }
        loop
            invariant
                done + chars.remaining() == s@,
                chars.obeys_prophetic_iter_laws(),
                chars.decrease() is Some,
                self@.wf(),
                self@ == old(self)@.write_str(done),
                self@.y_pos <= old(self)@.y_pos + done.len() * (CHAR_RASTER_HEIGHT + LINE_SPACING),
                old(self)@.y_pos + (s@.len() + 1) * (CHAR_RASTER_HEIGHT + LINE_SPACING) <= usize::MAX,
            decreases chars.decrease()->0,
        {
            let ghost before = chars;
            let next = chars.next();
            proof {
                vstd::string::next_postcondition(&before, &chars, next);
            }
            match next {
                Some(c) => {
                    proof {
                        assert((done.push(c)).drop_last() =~= done);
                        assert(done.push(c) + chars.remaining() =~= done + before.remaining());
                        assert(done.len() < s@.len());
                        let start = old(self)@.y_pos;
                        let now = self@.y_pos;
                        let written = done.len();
                        let total = s@.len();
                        assert(now + 2 * 18 <= usize::MAX && now + 18 <= start + (written + 1) * 18)
                            by (nonlinear_arith)
                            requires
                                written < total,
                                now <= start + written * 18,
                                start + (total + 1) * 18 <= usize::MAX,
                        ;
                        done = done.push(c);
                    }
                    self.write_char(c);
                },
                None => {
                    proof {
                        assert(done =~= s@);
                    }
                    return ;
                },
            }
        }
    }
}

/// Drawing changes bytes of the framebuffer and nothing else.
proof fn lemma_draw_keeps_layout(canvas: Canvas, raster: Seq<Seq<u8>>, count: nat)
    ensures
        canvas.draw(raster, count).info == canvas.info,
        canvas.draw(raster, count).x_pos == canvas.x_pos,
        canvas.draw(raster, count).y_pos == canvas.y_pos,
        canvas.draw(raster, count).pixels.len() == canvas.pixels.len(),
    decreases count,
{
    if count > 0 {
        lemma_draw_keeps_layout(canvas, raster, (count - 1) as nat);
    }
}

} // verus!
