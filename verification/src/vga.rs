//! The text screen: 25 rows of 80 characters, written on the last row and
//! scrolled up line by line.

use vstd::prelude::*;
use vstd::string::StringSliceAdditionalSpecFns;

verus! {

/// Number of rows of the screen.
pub const BUFFER_HEIGHT: usize = 25;

/// Number of characters in a row.
pub const BUFFER_WIDTH: usize = 80;

/// The byte of a line feed.
pub const LINE_FEED: u8 = 0x0a;

/// The byte of a space.
pub const SPACE: u8 = 0x20;

/// The byte of the filled box that stands for a byte that cannot be shown.
pub const FILLED_BOX: u8 = 0xfe;

/// The colors of the text screen.
#[derive(Debug, Clone, Copy, PartialEq, Eq, Structural)]
pub enum Color {
    Black,
    Blue,
    Green,
    Cyan,
    Red,
    Magenta,
    Brown,
    LightGray,
    DarkGray,
    LightBlue,
    LightGreen,
    LightCyan,
    LightRed,
    Pink,
    Yellow,
    White,
}

impl Color {
    /// The number of the color: the colors are numbered from 0 to 15 in the
    /// order in which they are declared.
    pub open spec fn number(self) -> u8 {
        match self {
            Color::Black => 0,
            Color::Blue => 1,
            Color::Green => 2,
            Color::Cyan => 3,
            Color::Red => 4,
            Color::Magenta => 5,
            Color::Brown => 6,
            Color::LightGray => 7,
            Color::DarkGray => 8,
            Color::LightBlue => 9,
            Color::LightGreen => 10,
            Color::LightCyan => 11,
            Color::LightRed => 12,
            Color::Pink => 13,
            Color::Yellow => 14,
            Color::White => 15,
        }
    }

    /// The number of the color.
    pub fn as_u8(self) -> (number: u8)
        ensures
            number == self.number(),
    {
        match self {
            Color::Black => 0,
            Color::Blue => 1,
            Color::Green => 2,
            Color::Cyan => 3,
            Color::Red => 4,
            Color::Magenta => 5,
            Color::Brown => 6,
            Color::LightGray => 7,
            Color::DarkGray => 8,
            Color::LightBlue => 9,
            Color::LightGreen => 10,
            Color::LightCyan => 11,
            Color::LightRed => 12,
            Color::Pink => 13,
            Color::Yellow => 14,
            Color::White => 15,
        }
    }
}

/// The color of a character and of its background, in one byte.
#[derive(Debug, Clone, Copy, PartialEq, Eq, Structural)]
pub struct ColorCode(pub u8);

impl ColorCode {
    /// The byte that holds `background` in its upper four bits and
    /// `foreground` in its lower four.
    pub open spec fn of(foreground: Color, background: Color) -> ColorCode {
        ColorCode((background.number() * 16 + foreground.number()) as u8)
    }

    /// The color code of `foreground` on `background`.
    pub fn new(foreground: Color, background: Color) -> (code: ColorCode)
        ensures
            code == ColorCode::of(foreground, background),
    {
        let back: u8 = background.as_u8();
        let fore: u8 = foreground.as_u8();
        assert((back << 4 | fore) == back * 16 + fore) by (bit_vector)
            requires
                back < 16,
                fore < 16,
        ;
        ColorCode(back << 4 | fore)
    }
}

/// A character of the screen with its color.
#[derive(Debug, Clone, Copy, PartialEq, Eq, Structural)]
pub struct ScreenChar {
    pub ascii_character: u8,
    pub color_code: ColorCode,
}

/// The byte that is shown for `byte`: the byte itself where it is a
/// printable ASCII character or a line feed, a filled box otherwise.
pub open spec fn shown_byte(byte: u8) -> u8 {
    if 0x20 <= byte <= 0x7e || byte == 0x0a {
        byte
    } else {
        0xfe
    }
}

/// What a writer holds: the rows of the screen from top to bottom, the
/// column at which the next character goes, and the color it writes in.
pub struct Screen {
    pub rows: Seq<Seq<ScreenChar>>,
    pub column: nat,
    pub color_code: ColorCode,
}

impl Screen {
    /// A row of spaces in the screen's color.
    pub open spec fn blank_row(self) -> Seq<ScreenChar> {
        Seq::new(
            BUFFER_WIDTH as nat,
            |col: int| ScreenChar { ascii_character: 0x20, color_code: self.color_code },
        )
    }

    /// The screen has 25 rows of 80 characters, and the column is on the
    /// screen or just past the end of the row.
    pub open spec fn wf(self) -> bool {
        &&& self.rows.len() == BUFFER_HEIGHT
        &&& forall|row: int| 0 <= row < BUFFER_HEIGHT ==> (#[trigger] self.rows[row]).len() == BUFFER_WIDTH
        &&& self.column <= BUFFER_WIDTH
    }

    /// The screen with row `row` blank.
    pub open spec fn clear_row(self, row: int) -> Screen {
        Screen { rows: self.rows.update(row, self.blank_row()), ..self }
    }

    /// The screen after a line feed: every row has moved up by one, the
    /// first row is gone, the last row is blank, and writing goes on at its
    /// start.
    pub open spec fn new_line(self) -> Screen {
        Screen {
            rows: self.rows.subrange(1, BUFFER_HEIGHT as int).push(self.blank_row()),
            column: 0,
            color_code: self.color_code,
        }
    }

    /// The screen after `byte` is written: a line feed starts a new line;
    /// any other byte goes to the last row at the column, after a line feed
    /// where the row is full.
    pub open spec fn write_byte(self, byte: u8) -> Screen {
        if byte == 0x0a {
            self.new_line()
        } else {
            let at = if self.column >= BUFFER_WIDTH {
                self.new_line()
            } else {
                self
            };
            Screen {
                rows: at.rows.update(
                    BUFFER_HEIGHT - 1,
                    at.rows[BUFFER_HEIGHT - 1].update(
                        at.column as int,
                        ScreenChar { ascii_character: byte, color_code: self.color_code },
                    ),
                ),
                column: at.column + 1,
                color_code: self.color_code,
            }
        }
    }

    /// The screen after the bytes of a string are written one by one, each
    /// as it is shown.
    pub open spec fn write_bytes(self, bytes: Seq<u8>) -> Screen
        decreases bytes.len(),
    {
        if bytes.len() == 0 {
            self
        } else {
            self.write_bytes(bytes.drop_last()).write_byte(shown_byte(bytes.last()))
        }
    }
}

/// Writing keeps the screen in shape.
pub proof fn lemma_write_byte_keeps_shape(screen: Screen, byte: u8)
    requires
        screen.wf(),
    ensures
        screen.new_line().wf(),
        screen.write_byte(byte).wf(),
        screen.write_byte(byte).color_code == screen.color_code,
{
}

/// Writes text to the screen.
pub struct Writer {
    column_position: usize,
    color_code: ColorCode,
    buffer: [[ScreenChar; BUFFER_WIDTH]; BUFFER_HEIGHT],
}

impl View for Writer {
    type V = Screen;

    closed spec fn view(&self) -> Screen {
        Screen {
            rows: Seq::new(BUFFER_HEIGHT as nat, |row: int| self.buffer@[row]@),
            column: self.column_position as nat,
            color_code: self.color_code,
        }
    }
}

impl Writer {
    /// A writer in the given color on a blank screen, at the start of the
    /// last row.
    pub fn new(color_code: ColorCode) -> (writer: Writer)
        ensures
            writer@.wf(),
            writer@.column == 0,
            writer@.color_code == color_code,
            forall|row: int| 0 <= row < BUFFER_HEIGHT ==> #[trigger] writer@.rows[row] == writer@.blank_row(),
    {
        let blank = ScreenChar { ascii_character: SPACE, color_code };
        let buffer = [[blank; BUFFER_WIDTH]; BUFFER_HEIGHT];
        let writer = Writer { column_position: 0, color_code, buffer };
        proof {
            assert forall|r: int| 0 <= r < BUFFER_HEIGHT implies #[trigger] writer@.rows[r]
                == writer@.blank_row() by {
                assert(writer@.rows[r] =~= writer@.blank_row());
            }
        }
        writer
    }

    /// The character at this row and column of the screen.
    pub fn char_at(&self, row: usize, col: usize) -> (c: ScreenChar)
        requires
            self@.wf(),
            row < BUFFER_HEIGHT,
            col < BUFFER_WIDTH,
        ensures
            c == self@.rows[row as int][col as int],
    {
        assert(self@.rows[row as int].len() == BUFFER_WIDTH);
        self.buffer[row][col]
    }

    /// The column at which the next character is written.
    pub fn column_position(&self) -> (column: usize)
        ensures
            column == self@.column,
    {
        self.column_position
    }

    /// Writes a byte to the screen.
    pub fn write_byte(&mut self, byte: u8)
        requires
            old(self)@.wf(),
        ensures
            final(self)@.wf(),
            final(self)@ == old(self)@.write_byte(byte),
    {
        if byte == LINE_FEED {
            self.new_line();
        } else {
            if self.column_position >= BUFFER_WIDTH {
                self.new_line();
            }
            let row = BUFFER_HEIGHT - 1;
            let col = self.column_position;
            let ghost before = self@;
            assert(before.rows[row as int].len() == BUFFER_WIDTH);
            self.buffer[row][col] = ScreenChar { ascii_character: byte, color_code: self.color_code };
            self.column_position += 1;
            assert(self@.rows =~= before.rows.update(
                row as int,
                before.rows[row as int].update(
                    col as int,
                    ScreenChar { ascii_character: byte, color_code: self.color_code },
                ),
            ));
        }
    }

    /// Writes a string to the screen: printable ASCII characters and line
    /// feeds as they are, a filled box for every other byte.
    pub fn write_string(&mut self, s: &str)
        requires
            old(self)@.wf(),
        ensures
            final(self)@.wf(),
            final(self)@ == old(self)@.write_bytes(s.spec_bytes()),
    {
        let bytes = s.as_bytes();
        let mut i: usize = 0;
        while i < bytes.len()
            invariant
                0 <= i <= bytes.len(),
                bytes@ == s.spec_bytes(),
                self@.wf(),
                self@ == old(self)@.write_bytes(bytes@.take(i as int)),
            decreases bytes.len() - i,
        {
            let byte = bytes[i];
            assert(bytes@.take(i + 1).drop_last() =~= bytes@.take(i as int));
            if (0x20 <= byte && byte <= 0x7e) || byte == LINE_FEED {
                self.write_byte(byte);
            } else {
                self.write_byte(FILLED_BOX);
            }
            i = i + 1;
        }
        assert(bytes@.take(i as int) =~= bytes@);
    }

    /// Moves every row up by one and goes on at the start of a blank last
    /// row.
    fn new_line(&mut self)
        requires
            old(self)@.wf(),
        ensures
            final(self)@.wf(),
            final(self)@ == old(self)@.new_line(),
    {
        let ghost before = self@;
        let mut row: usize = 1;
        while row < BUFFER_HEIGHT
            invariant
                1 <= row <= BUFFER_HEIGHT,
                self@.wf(),
                self@.column == before.column,
                self@.color_code == before.color_code,
                before.wf(),
                forall|r: int| 0 <= r < row - 1 ==> #[trigger] self@.rows[r] == before.rows[r + 1],
                forall|r: int| row - 1 <= r < BUFFER_HEIGHT ==> #[trigger] self@.rows[r] == before.rows[r],
            decreases BUFFER_HEIGHT - row,
        {
            let ghost at_row = self@;
            let mut col: usize = 0;
            while col < BUFFER_WIDTH
                invariant
                    0 <= col <= BUFFER_WIDTH,
                    1 <= row < BUFFER_HEIGHT,
                    self@.wf(),
                    at_row.wf(),
                    self@.column == at_row.column,
                    self@.color_code == at_row.color_code,
                    forall|r: int|
                        0 <= r < BUFFER_HEIGHT && r != row - 1 ==> #[trigger] self@.rows[r]
                            == at_row.rows[r],
                    forall|c: int|
                        0 <= c < col ==> #[trigger] self@.rows[row - 1][c] == at_row.rows[row as int][c],
                    forall|c: int|
                        col <= c < BUFFER_WIDTH ==> #[trigger] self@.rows[row - 1][c]
                            == at_row.rows[row - 1][c],
                decreases BUFFER_WIDTH - col,
            {
                let ghost inner = self@;
                assert(inner.rows[row as int].len() == BUFFER_WIDTH);
                assert(inner.rows[row - 1].len() == BUFFER_WIDTH);
                let character = self.buffer[row][col];
                self.buffer[row - 1][col] = character;
                assert(self@.rows =~= inner.rows.update(
                    row - 1,
                    inner.rows[row - 1].update(col as int, character),
                ));
                col = col + 1;
            }
            assert(self@.rows[row - 1] =~= at_row.rows[row as int]);
            row = row + 1;
        }
        let ghost moved = self@;
        self.clear_row(BUFFER_HEIGHT - 1);
        self.column_position = 0;
        assert(self@.rows =~= before.new_line().rows) by {
            assert(self@.rows == moved.rows.update(BUFFER_HEIGHT - 1, moved.blank_row()));
        }
    }

    /// Fills a row with spaces.
    fn clear_row(&mut self, row: usize)
        requires
            old(self)@.wf(),
            row < BUFFER_HEIGHT,
        ensures
            final(self)@.wf(),
            final(self)@ == old(self)@.clear_row(row as int),
    {
        let blank = ScreenChar { ascii_character: SPACE, color_code: self.color_code };
        let ghost before = self@;
        let mut col: usize = 0;
        while col < BUFFER_WIDTH
            invariant
                0 <= col <= BUFFER_WIDTH,
                row < BUFFER_HEIGHT,
                self@.wf(),
                before.wf(),
                blank == (ScreenChar { ascii_character: 0x20, color_code: before.color_code }),
                self@.column == before.column,
                self@.color_code == before.color_code,
                forall|r: int|
                    0 <= r < BUFFER_HEIGHT && r != row ==> #[trigger] self@.rows[r] == before.rows[r],
                forall|c: int| 0 <= c < col ==> #[trigger] self@.rows[row as int][c] == blank,
            decreases BUFFER_WIDTH - col,
        {
            let ghost inner = self@;
            assert(inner.rows[row as int].len() == BUFFER_WIDTH);
            self.buffer[row][col] = blank;
            assert(self@.rows =~= inner.rows.update(
                row as int,
                inner.rows[row as int].update(col as int, blank),
            ));
            col = col + 1;
        }
        assert(self@.rows[row as int] =~= before.blank_row());
        assert(self@.rows =~= before.clear_row(row as int).rows);
    }
}

/// The attribute byte of light red text on black.
pub const LIGHT_RED_ON_BLACK: u8 = 0xc;

/// Shows `s` in light red at the start of the text screen, whose memory is
/// `screen`: every byte of `s` is put there, each followed by its attribute
/// byte. The rest of the screen stays as it is.
pub fn print_to_vga(s: &[u8], screen: &mut [u8])
    requires
        2 * s@.len() <= old(screen)@.len(),
    ensures
        final(screen)@.len() == old(screen)@.len(),
        forall|i: int|
            0 <= i < s@.len() ==> final(screen)@[2 * i] == s@[i] && final(screen)@[2 * i + 1]
                == LIGHT_RED_ON_BLACK,
        forall|j: int| 2 * s@.len() <= j < old(screen)@.len() ==> final(screen)@[j] == old(screen)@[j],
{
    let len = screen.len();
    let mut i: usize = 0;
    while i < s.len()
        invariant
            0 <= i <= s@.len(),
            2 * s@.len() <= len,
            screen@.len() == len,
            len == old(screen)@.len(),
            forall|k: int|
                0 <= k < i ==> screen@[2 * k] == s@[k] && screen@[2 * k + 1] == LIGHT_RED_ON_BLACK,
            forall|j: int| 2 * i <= j < screen@.len() ==> screen@[j] == old(screen)@[j],
        decreases s@.len() - i,
    {
        screen[2 * i] = s[i];
        screen[2 * i + 1] = LIGHT_RED_ON_BLACK;
        i = i + 1;
    }
}

} // verus!
