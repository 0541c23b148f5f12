//! The cells of the text console: 25 rows of 80 characters, each with a
//! colour code. A writer puts characters on the last row, from left to right.

use vstd::prelude::*;
use vstd::string::StringSliceAdditionalSpecFns;

verus! {

/// The number of rows on the screen.
pub const BUFFER_HEIGHT: usize = 25;

/// The number of cells in a row.
pub const BUFFER_WIDTH: usize = 80;

/// The first printable ASCII byte, the space.
pub const PRINTABLE_ASCII: u8 = 0x20;

/// The last printable ASCII byte, the tilde.
pub const PRINTABLE_ASCII_CMP: u8 = 0x7e;

/// The byte shown in place of one that is not printable ASCII: a filled box.
pub const NOT_IN_ASCII_RANGE: u8 = 0xfe;

/// The byte that ends a line.
pub const NEWLINE: u8 = 0x0a;

/// The sixteen colours of the text mode.
#[derive(Clone, Copy, Debug, PartialEq, Eq, Structural)]
pub enum Color {
    Black,
    Blue,
    Green,
    Cyan,
    Red,
    Magenta,
    Brown,
    LightGray,
    DarkGray,
    LightBlue,
    LightGreen,
    LightCyan,
    LightRed,
    Pink,
    Yellow,
    White,
}

impl Color {
    /// The number of the colour in the hardware palette, 0 to 15.
    pub open spec fn spec_code(self) -> u8 {
        match self {
            Color::Black => 0,
            Color::Blue => 1,
            Color::Green => 2,
            Color::Cyan => 3,
            Color::Red => 4,
            Color::Magenta => 5,
            Color::Brown => 6,
            Color::LightGray => 7,
            Color::DarkGray => 8,
            Color::LightBlue => 9,
            Color::LightGreen => 10,
            Color::LightCyan => 11,
            Color::LightRed => 12,
            Color::Pink => 13,
            Color::Yellow => 14,
            Color::White => 15,
        }
    }

    /// The number of the colour in the hardware palette, 0 to 15.
    #[verifier::when_used_as_spec(spec_code)]
    pub fn code(self) -> (code: u8)
        ensures
            code == self.spec_code(),
            code < 16,
    {
        match self {
            Color::Black => 0,
            Color::Blue => 1,
            Color::Green => 2,
            Color::Cyan => 3,
            Color::Red => 4,
            Color::Magenta => 5,
            Color::Brown => 6,
            Color::LightGray => 7,
            Color::DarkGray => 8,
            Color::LightBlue => 9,
            Color::LightGreen => 10,
            Color::LightCyan => 11,
            Color::LightRed => 12,
            Color::Pink => 13,
            Color::Yellow => 14,
            Color::White => 15,
        }
    }
}

/// The colour byte of a cell: the background in the upper four bits, the
/// foreground in the lower four.
#[derive(Clone, Copy, Debug, PartialEq, Eq, Structural)]
pub struct ColorCode(pub u8);

impl ColorCode {
    /// The colour byte for `foreground` on `background`.
    pub fn new(foreground: Color, background: Color) -> (code: ColorCode)
        ensures
            code.0 == background.code() * 16 + foreground.code(),
    {
        let high = background.code();
        let low = foreground.code();
        assert((high << 4) | low == high * 16 + low) by (bit_vector)
            requires
                high < 16,
                low < 16,
        ;
        ColorCode((high << 4) | low)
    }
}

/// One cell of the screen.
#[derive(Clone, Copy, Debug, PartialEq, Eq, Structural)]
pub struct ScreenChar {
    pub ascii_character: u8,
    pub color_code: ColorCode,
}

/// All cells of the screen, row by row.
pub struct Buffer {
    pub chars: [[ScreenChar; BUFFER_WIDTH]; BUFFER_HEIGHT],
}

impl Buffer {
    /// The cell in row `row` and column `col`.
    pub open spec fn cell(&self, row: int, col: int) -> ScreenChar {
        self.chars[row][col]
    }

    /// Whether `self` is `before` with `glyphs` put on the last row from
    /// column `at` on, each in `color`, and every other cell as it was.
    pub open spec fn shows(
        &self,
        before: Buffer,
        at: int,
        glyphs: Seq<u8>,
        color: ColorCode,
    ) -> bool {
        forall|row: int, col: int|
            0 <= row < BUFFER_HEIGHT && 0 <= col < BUFFER_WIDTH ==> #[trigger] self.cell(row, col)
                == (if row == BUFFER_HEIGHT - 1 && at <= col < at + glyphs.len() {
                ScreenChar { ascii_character: glyphs[col - at], color_code: color }
            } else {
                before.cell(row, col)
            })
    }

    /// A screen on which every cell is `fill`.
    pub fn new(fill: ScreenChar) -> (buffer: Buffer)
        ensures
            forall|row: int, col: int|
                0 <= row < BUFFER_HEIGHT && 0 <= col < BUFFER_WIDTH ==> #[trigger] buffer.cell(
                    row,
                    col,
                ) == fill,
    {
        let row = [fill;BUFFER_WIDTH];
        Buffer { chars: [row;BUFFER_HEIGHT] }
    }
}

/// What is shown for `byte`: the byte itself where it is printable ASCII,
/// the filled box where it is not.
pub open spec fn spec_glyph(byte: u8) -> u8 {
    if PRINTABLE_ASCII <= byte <= PRINTABLE_ASCII_CMP {
        byte
    } else {
        NOT_IN_ASCII_RANGE
    }
}

/// What is shown for `byte`: the byte itself where it is printable ASCII,
/// the filled box where it is not.
#[verifier::when_used_as_spec(spec_glyph)]
pub fn glyph(byte: u8) -> (shown: u8)
    ensures
        shown == spec_glyph(byte),
{
    if PRINTABLE_ASCII <= byte && byte <= PRINTABLE_ASCII_CMP {
        byte
    } else {
        NOT_IN_ASCII_RANGE
    }
}

/// What a string of `bytes` puts on the screen: a newline puts nothing,
/// every other byte its glyph.
pub open spec fn rendered(bytes: Seq<u8>) -> Seq<u8> {
    bytes.filter(|byte: u8| byte != NEWLINE).map_values(|byte: u8| glyph(byte))
}

/// Writes to the last row of the screen, from its column position on.
pub struct Writer {
    pub column_position: usize,
    pub color_code: ColorCode,
    pub buffer: Buffer,
}

impl Writer {
    /// Whether `self` is `before` after `glyphs` were written: they stand on
    /// the last row from the column of `before` on, in its colour, and the
    /// column has moved behind them.
    pub open spec fn wrote(&self, before: Writer, glyphs: Seq<u8>) -> bool {
        &&& self.color_code == before.color_code
        &&& self.column_position == before.column_position + glyphs.len()
        &&& self.buffer.shows(
            before.buffer,
            before.column_position as int,
            glyphs,
            before.color_code,
        )
    }

    /// Puts `byte` in the cell at the column position, in the writer's
    /// colour, and moves one column on. A newline changes nothing. The row
    /// must have a cell left for any other byte.
    pub fn write_byte(&mut self, byte: u8)
        requires
            byte != NEWLINE ==> old(self).column_position < BUFFER_WIDTH,
        ensures
            byte == NEWLINE ==> *final(self) == *old(self),
            byte != NEWLINE ==> final(self).wrote(*old(self), seq![byte]),
    {
        if byte == NEWLINE {
            self.new_line();
        } else {
            let row = BUFFER_HEIGHT - 1;
            let col = self.column_position;
            self.buffer.chars[row][col] = ScreenChar {
                ascii_character: byte,
                color_code: self.color_code,
            };
            self.column_position += 1;
        }
    }

    /// Whether the last row has room for what `s` puts on the screen. A
    /// string that puts nothing there always fits.
    pub fn fits(&self, s: &str) -> (room: bool)
        ensures
            room == (rendered(s.spec_bytes()).len() > 0 ==> self.column_position + rendered(
                s.spec_bytes(),
            ).len() <= BUFFER_WIDTH),
    {
        let bytes = s.as_bytes();
        let mut shown: usize = 0;
        let mut i: usize = 0;
        while i < bytes.len()
            invariant
                i <= bytes.len(),
                shown == rendered(bytes@.take(i as int)).len(),
                shown <= i,
            decreases bytes.len() - i,
        {
            proof {
                lemma_rendered_step(bytes@, i as int);
            }
            if bytes[i] != NEWLINE {
                shown += 1;
            }
            i += 1;
        }
        assert(bytes@.take(i as int) == bytes@);
        shown == 0 || (self.column_position <= BUFFER_WIDTH && shown <= BUFFER_WIDTH
            - self.column_position)
    }

    /// Writes `s` byte by byte: a newline puts nothing on the screen, a
    /// printable ASCII byte puts itself, any other byte the filled box. The
    /// row must have room for all of it.
    pub fn write_string(&mut self, s: &str)
        requires
            rendered(s.spec_bytes()).len() > 0 ==> old(self).column_position + rendered(
                s.spec_bytes(),
            ).len() <= BUFFER_WIDTH,
        ensures
            final(self).wrote(*old(self), rendered(s.spec_bytes())),
    {
        let bytes = s.as_bytes();
        let mut i: usize = 0;
        while i < bytes.len()
            invariant
                i <= bytes.len(),
                bytes@ == s.spec_bytes(),
                rendered(bytes@).len() > 0 ==> old(self).column_position + rendered(bytes@).len()
                    <= BUFFER_WIDTH,
                self.wrote(*old(self), rendered(bytes@.take(i as int))),
            decreases bytes.len() - i,
        {
            let byte = bytes[i];
            proof {
                lemma_rendered_step(bytes@, i as int);
                lemma_rendered_prefix(bytes@, i + 1);
            }
            if byte == NEWLINE {
                self.write_byte(byte);
            } else {
                self.write_byte(glyph(byte));
            }
            i += 1;
        }
        assert(bytes@.take(i as int) == bytes@);
    }

    /// Starts no new line: the writer stays on the last row, where it is.
    pub fn new_line(&mut self)
        ensures
            *final(self) == *old(self),
    {
    }

    /// Sets the colour of what is written from now on.
    pub fn set_color_code(&mut self, color_code: ColorCode)
        ensures
            final(self).color_code == color_code,
            final(self).column_position == old(self).column_position,
            final(self).buffer == old(self).buffer,
    {
        self.color_code = color_code;
    }
}

/// Writes `string` on the last row of `buffer`, from the first column on, in
/// `foreground` on `background`, and gives the screen back. The row must
/// have room for all of it.
pub fn print(string: &str, foreground: Color, background: Color, buffer: Buffer) -> (screen:
    Buffer)
    requires
        rendered(string.spec_bytes()).len() <= BUFFER_WIDTH,
    ensures
        screen.shows(
            buffer,
            0,
            rendered(string.spec_bytes()),
            ColorCode((background.code() * 16 + foreground.code()) as u8),
        ),
{
    let mut writer = Writer {
        column_position: 0,
        color_code: ColorCode::new(foreground, background),
        buffer,
    };
    writer.write_string(string);
    writer.buffer
}

/// One more byte of a string puts one more glyph on the screen, or nothing
/// where it is a newline.
pub proof fn lemma_rendered_step(bytes: Seq<u8>, index: int)
    requires
        0 <= index < bytes.len(),
    ensures
        rendered(bytes.take(index + 1)) == (if bytes[index] == NEWLINE {
            rendered(bytes.take(index))
        } else {
            rendered(bytes.take(index)).push(glyph(bytes[index]))
        }),
        rendered(bytes.take(0)).len() == 0,
{
    let keep = |byte: u8| byte != NEWLINE;
    let prefix = bytes.take(index);
    assert(bytes.take(index + 1) == prefix.push(bytes[index]));
    prefix.lemma_filter_push(bytes[index], keep);
    bytes.take(0).lemma_filter_len(keep);
}

/// A prefix of a string puts no more on the screen than the whole string.
pub proof fn lemma_rendered_prefix(bytes: Seq<u8>, count: int)
    requires
        0 <= count <= bytes.len(),
    ensures
        rendered(bytes.take(count)).len() <= rendered(bytes).len(),
{
    bytes.lemma_filter_take_len(|byte: u8| byte != NEWLINE, count);
}

} // verus!
