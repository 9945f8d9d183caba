//! The text screen: 25 rows of 80 characters, each in its colours.
//!
//! [`Writer`] keeps what the screen shows and where the next character goes.
//! It writes at the end of the last row and scrolls the rows up when that row
//! is full. The kernel copies the cells to the display's memory.

use vstd::prelude::*;

verus! {

/// The standard colour palette of the VGA text mode, in the order of the
/// colours' numbers, from 0 to 15.
#[allow(dead_code)]
#[derive(Debug, Clone, Copy, PartialEq, Eq, Structural)]
pub enum Color {
    Black,
    Blue,
    Green,
    Cyan,
    Red,
    Magenta,
    Brown,
    LightGray,
    DarkGray,
    LightBlue,
    LightGreen,
    LightCyan,
    LightRed,
    Pink,
    Yellow,
    White,
}

impl Color {
    /// The colour's number in the palette.
    pub open spec fn spec_code(self) -> u8 {
        match self {
            Color::Black => 0,
            Color::Blue => 1,
            Color::Green => 2,
            Color::Cyan => 3,
            Color::Red => 4,
            Color::Magenta => 5,
            Color::Brown => 6,
            Color::LightGray => 7,
            Color::DarkGray => 8,
            Color::LightBlue => 9,
            Color::LightGreen => 10,
            Color::LightCyan => 11,
            Color::LightRed => 12,
            Color::Pink => 13,
            Color::Yellow => 14,
            Color::White => 15,
        }
    }

    /// The colour's number in the palette.
    #[verifier::when_used_as_spec(spec_code)]
    pub fn code(self) -> (code: u8)
        ensures
            code == self.spec_code(),
            code < 16,
    {
        match self {
            Color::Black => 0,
            Color::Blue => 1,
            Color::Green => 2,
            Color::Cyan => 3,
            Color::Red => 4,
            Color::Magenta => 5,
            Color::Brown => 6,
            Color::LightGray => 7,
            Color::DarkGray => 8,
            Color::LightBlue => 9,
            Color::LightGreen => 10,
            Color::LightCyan => 11,
            Color::LightRed => 12,
            Color::Pink => 13,
            Color::Yellow => 14,
            Color::White => 15,
        }
    }
}

/// A foreground colour together with a background colour, as the one byte
/// that the text buffer holds beside each character.
#[derive(Debug, Clone, Copy, PartialEq, Eq, Structural)]
pub struct ColorCode(u8);

impl ColorCode {
    /// The byte: the background's number in the high four bits, the
    /// foreground's in the low four.
    pub closed spec fn spec_bits(self) -> u8 {
        self.0
    }

    /// The code of `foreground` on `background`.
    pub fn new(foreground: Color, background: Color) -> (code: ColorCode)
        ensures
            code.spec_bits() == (background.spec_code() << 4) | foreground.spec_code(),
            code.spec_bits() == background.spec_code() * 16 + foreground.spec_code(),
    {
        let high = background.code();
        let low = foreground.code();
        assert((high << 4) | low == high * 16 + low) by (bit_vector)
            requires
                high < 16,
                low < 16,
        ;
        ColorCode(high << 4 | low)
    }

    /// The byte.
    #[verifier::when_used_as_spec(spec_bits)]
    pub fn bits(self) -> (bits: u8)
        ensures
            bits == self.spec_bits(),
    {
        self.0
    }
}

/// The height of the text buffer (normally 25 lines).
pub const BUFFER_HEIGHT: usize = 25;

/// The width of the text buffer (normally 80 columns).
pub const BUFFER_WIDTH: usize = 80;

/// The number of cells of the text buffer.
pub const BUFFER_CELLS: usize = 2000;

/// The cell at which the last row starts.
pub const LAST_ROW: usize = 1920;

/// A character of the screen and its colours.
#[derive(Debug, Clone, Copy, PartialEq, Eq, Structural)]
pub struct ScreenChar {
    pub ascii_character: u8,
    pub color_code: ColorCode,
}

/// The byte that stands on the screen for `byte`: the byte itself if it is a
/// printable ASCII character or a newline, and else a filled square.
pub open spec fn spec_shown(byte: u8) -> u8 {
    if 0x20 <= byte <= 0x7e || byte == 0x0A {
        byte
    } else {
        0xfe
    }
}

/// The byte that stands on the screen for `byte`.
#[verifier::when_used_as_spec(spec_shown)]
pub fn shown(byte: u8) -> (on_screen: u8)
    ensures
        on_screen == spec_shown(byte),
{
    if (0x20 <= byte && byte <= 0x7e) || byte == 0x0A {
        byte
    } else {
        0xfe
    }
}

/// The characters of the cells in their order, those that are 0 left out.
pub open spec fn text_of(cells: Seq<ScreenChar>) -> Seq<u8>
    decreases cells.len(),
{
    if cells.len() == 0 {
        Seq::empty()
    } else if cells.last().ascii_character != 0 {
        text_of(cells.drop_last()).push(cells.last().ascii_character)
    } else {
        text_of(cells.drop_last())
    }
}

/// The last cell at or before `upto` whose character is not 0, or -1 if
/// there is none.
pub open spec fn last_text(cells: Seq<ScreenChar>, upto: int) -> int
    decreases upto + 1,
{
    if upto < 0 {
        -1
    } else if cells[upto].ascii_character != 0 {
        upto
    } else {
        last_text(cells, upto - 1)
    }
}

/// The last cell at or before `upto` whose character is `c`, or -1 if there
/// is none.
pub open spec fn last_match(cells: Seq<ScreenChar>, c: char, upto: int) -> int
    decreases upto + 1,
{
    if upto < 0 {
        -1
    } else if cells[upto].ascii_character as u32 == c as u32 {
        upto
    } else {
        last_match(cells, c, upto - 1)
    }
}

/// What a [`Writer`] is in contracts.
pub struct ScreenView {
    /// The column of the last row that takes the next character; 80 when the
    /// row is full.
    pub column: usize,
    /// The colours in which characters are written.
    pub color: ColorCode,
    /// The cells, row after row from the top.
    pub chars: Seq<ScreenChar>,
    /// The row and column at which the command being typed starts.
    pub cmd_start: (usize, usize),
}

impl ScreenView {
    /// The view is that of a screen: it has all its cells, and the column and
    /// the start of the command are on it or just behind a row's end.
    pub open spec fn wf(self) -> bool {
        &&& self.chars.len() == BUFFER_CELLS
        &&& self.column <= BUFFER_WIDTH
        &&& self.cmd_start.0 < BUFFER_HEIGHT
        &&& self.cmd_start.1 <= BUFFER_WIDTH
    }

    /// A space in the current colours.
    pub open spec fn blank(self) -> ScreenChar {
        ScreenChar { ascii_character: 0x20, color_code: self.color }
    }

    /// The cell that takes the next character.
    pub open spec fn cursor(self) -> int {
        LAST_ROW + self.column
    }

    /// The cell at which the command being typed starts.
    pub open spec fn command_start(self) -> int {
        self.cmd_start.0 * BUFFER_WIDTH + self.cmd_start.1
    }

    /// The screen with `row` filled with spaces in the current colours.
    pub open spec fn clear_row(self, row: int) -> ScreenView {
        ScreenView {
            chars: Seq::new(
                BUFFER_CELLS as nat,
                |i: int|
                    if row * BUFFER_WIDTH <= i < (row + 1) * BUFFER_WIDTH {
                        self.blank()
                    } else {
                        self.chars[i]
                    },
            ),
            ..self
        }
    }

    /// The screen with every row filled with spaces in the current colours and
    /// the next character at the start of the last row.
    pub open spec fn reset_screen(self) -> ScreenView {
        ScreenView {
            column: 0,
            chars: Seq::new(BUFFER_CELLS as nat, |i: int| self.blank()),
            ..self
        }
    }

    /// The screen scrolled up by a row: the top row is gone, the last row is
    /// spaces, the next character goes to its start, and the command starts a
    /// row higher, unless it started in the top row.
    pub open spec fn new_line(self) -> ScreenView {
        ScreenView {
            column: 0,
            chars: Seq::new(
                BUFFER_CELLS as nat,
                |i: int|
                    if i < LAST_ROW {
                        self.chars[i + BUFFER_WIDTH]
                    } else {
                        self.blank()
                    },
            ),
            cmd_start: (
                if self.cmd_start.0 > 0 {
                    (self.cmd_start.0 - 1) as usize
                } else {
                    0
                },
                self.cmd_start.1,
            ),
            ..self
        }
    }

    /// The screen after `byte` has been written. A newline scrolls the screen
    /// up. Any other byte goes to the next column of the last row, in the
    /// current colours, after a scroll if the row was full.
    pub open spec fn write_byte(self, byte: u8) -> ScreenView {
        if byte == 0x0A {
            self.new_line()
        } else {
            let line = if self.column >= BUFFER_WIDTH {
                self.new_line()
            } else {
                self
            };
            ScreenView {
                column: (line.column + 1) as usize,
                chars: line.chars.update(
                    line.cursor(),
                    ScreenChar { ascii_character: byte, color_code: self.color },
                ),
                ..line
            }
        }
    }

    /// The screen after the bytes have been written one after another, each
    /// as the byte that stands for it on the screen.
    pub open spec fn write_string(self, bytes: Seq<u8>) -> ScreenView
        decreases bytes.len(),
    {
        if bytes.len() == 0 {
            self
        } else {
            self.write_string(bytes.drop_last()).write_byte(spec_shown(bytes.last()))
        }
    }

    /// The rows moved down by one: the last row is gone and the top row is
    /// spaces.
    pub open spec fn moved_down(self) -> Seq<ScreenChar> {
        Seq::new(
            BUFFER_CELLS as nat,
            |i: int|
                if i < BUFFER_WIDTH {
                    self.blank()
                } else {
                    self.chars[i - BUFFER_WIDTH]
                },
        )
    }

    /// Whether a character can be taken back: in the middle of the row always,
    /// at its start if the row above holds a character that is not 0.
    pub open spec fn can_backspace(self) -> bool {
        self.column > 0 || last_text(self.moved_down(), BUFFER_CELLS - 1) >= LAST_ROW
    }

    /// The screen after the last character has been taken back. In the middle
    /// of the row the column before is set to 0 and takes the next character.
    /// At the start of the row the rows move down by one, and the last cell of
    /// the last row that is not 0 is set to 0 and takes the next character.
    pub open spec fn backspace(self) -> ScreenView {
        let wiped = ScreenChar { ascii_character: 0, color_code: self.color };
        if self.column > 0 {
            ScreenView {
                column: (self.column - 1) as usize,
                chars: self.chars.update(self.cursor() - 1, wiped),
                ..self
            }
        } else {
            let down = self.moved_down();
            let at = last_text(down, BUFFER_CELLS - 1);
            ScreenView { column: (at - LAST_ROW) as usize, chars: down.update(at, wiped), ..self }
        }
    }

    /// The command being typed: the characters from the start of the command
    /// to the cell of the next character, that cell included, those that are 0
    /// left out.
    pub open spec fn scan_cmd(self) -> Seq<u8> {
        if self.command_start() <= self.cursor() {
            text_of(self.chars.subrange(self.command_start(), self.cursor() + 1))
        } else {
            Seq::empty()
        }
    }

    /// The characters behind the last `c` on the screen, up to the cell of the
    /// next character, that cell not included, those that are 0 left out; all
    /// of the screen up to that cell if there is no `c`.
    pub open spec fn scan_until_or_all(self, c: char) -> Seq<u8> {
        text_of(
            self.chars.subrange(last_match(self.chars, c, self.cursor() - 1) + 1, self.cursor()),
        )
    }
}

/// A writer type that allows writing ASCII bytes and strings to the text
/// screen.
///
/// Wraps lines at `BUFFER_WIDTH`. Supports newline characters.
pub struct Writer {
    column_position: usize,
    color_code: ColorCode,
    chars: [ScreenChar; 2000],
    cmd_start: (usize, usize),
}

impl View for Writer {
    type V = ScreenView;

    closed spec fn view(&self) -> ScreenView {
        ScreenView {
            column: self.column_position,
            color: self.color_code,
            chars: self.chars@,
            cmd_start: self.cmd_start,
        }
    }
}

impl Writer {
    #[verifier::type_invariant]
    spec fn inv(&self) -> bool {
        self@.wf()
    }

    /// A writer for a screen whose cells are all 0, in yellow on black, with
    /// the next character at the start of the last row.
    pub fn new() -> (writer: Writer)
        ensures
            writer@.wf(),
            writer@.column == 0,
            writer@.cmd_start == (0usize, 0usize),
            writer@.color.spec_bits() == 0x0E,
            forall|i: int|
                0 <= i < BUFFER_CELLS ==> (#[trigger] writer@.chars[i]).ascii_character == 0
                    && writer@.chars[i].color_code.spec_bits() == 0,
    {
        let color_code = ColorCode::new(Color::Yellow, Color::Black);
        let chars = [ScreenChar { ascii_character: 0, color_code: ColorCode(0) };2000];
        Writer { column_position: 0, color_code, chars, cmd_start: (0, 0) }
    }

    /// The row and column that take the next character.
    pub fn current_pos(&self) -> (pos: (usize, usize))
        ensures
            pos == ((BUFFER_HEIGHT - 1) as usize, self@.column),
            self@.wf(),
    {
        proof {
            use_type_invariant(self);
        }
        (BUFFER_HEIGHT - 1, self.column_position)
    }

    /// The row and column at which the command being typed starts.
    pub fn cmd_start(&self) -> (start: (usize, usize))
        ensures
            start == self@.cmd_start,
            self@.wf(),
    {
        proof {
            use_type_invariant(self);
        }
        self.cmd_start
    }

    /// The cell at `row` and `col`.
    pub fn char_at(&self, row: usize, col: usize) -> (cell: ScreenChar)
        requires
            row < BUFFER_HEIGHT,
            col < BUFFER_WIDTH,
        ensures
            cell == self@.chars[row * BUFFER_WIDTH + col],
    {
        proof {
            use_type_invariant(self);
        }
        assert(row * BUFFER_WIDTH + col < BUFFER_CELLS) by (nonlinear_arith)
            requires
                row < BUFFER_HEIGHT,
                col < BUFFER_WIDTH,
        ;
        self.chars[row * BUFFER_WIDTH + col]
    }

    /// Writes an ASCII byte to the buffer.
    ///
    /// Wraps lines at `BUFFER_WIDTH`. Supports the `\n` newline character.
    pub fn write_byte(&mut self, byte: u8)
        ensures
            final(self)@ == old(self)@.write_byte(byte),
    {
        if byte == 0x0A {
            self.new_line();
        } else {
            if self.column_position >= BUFFER_WIDTH {
                self.new_line();
            }
            proof {
                use_type_invariant(&*self);
            }
            let col = self.column_position;
            let color_code = self.color_code;
            self.chars[LAST_ROW + col] = ScreenChar { ascii_character: byte, color_code };
            self.column_position = col + 1;
        }
    }

    /// Writes the given ASCII string to the buffer.
    ///
    /// Wraps lines at `BUFFER_WIDTH`. Supports the `\n` newline character. A
    /// byte that is no printable ASCII character is shown as a filled square.
    pub fn write_string(&mut self, s: &[u8])
        ensures
            final(self)@ == old(self)@.write_string(s@),
    {
        let mut done: usize = 0;
        while done < s.len()
            invariant
                done <= s@.len(),
                self@ == old(self)@.write_string(s@.take(done as int)),
            decreases s@.len() - done,
        {
            let byte = s[done];
            self.write_byte(shown(byte));
            done += 1;
            assert(s@.take(done as int).drop_last() =~= s@.take(done - 1));
        }
        assert(s@.take(done as int) =~= s@);
    }

    /// Shifts all lines one line up and clears the last row.
    fn new_line(&mut self)
        ensures
            final(self)@ == old(self)@.new_line(),
    {
        proof {
            use_type_invariant(&*self);
        }
        let mut cell: usize = 0;
        while cell < LAST_ROW
            invariant
                cell <= LAST_ROW,
                self@.wf(),
                self.column_position == old(self).column_position,
                self.color_code == old(self).color_code,
                self.cmd_start == old(self).cmd_start,
                forall|i: int|
                    0 <= i < cell ==> self.chars@[i] == old(self).chars@[i + BUFFER_WIDTH],
                forall|i: int| cell <= i < BUFFER_CELLS ==> self.chars@[i] == old(self).chars@[i],
            decreases LAST_ROW - cell,
        {
            self.chars[cell] = self.chars[cell + BUFFER_WIDTH];
            cell += 1;
        }
        let blank = ScreenChar { ascii_character: 0x20, color_code: self.color_code };
        while cell < BUFFER_CELLS
            invariant
                LAST_ROW <= cell <= BUFFER_CELLS,
                self@.wf(),
                self.column_position == old(self).column_position,
                self.color_code == old(self).color_code,
                self.cmd_start == old(self).cmd_start,
                blank == old(self)@.blank(),
                forall|i: int|
                    0 <= i < LAST_ROW ==> self.chars@[i] == old(self).chars@[i + BUFFER_WIDTH],
                forall|i: int| LAST_ROW <= i < cell ==> self.chars@[i] == blank,
            decreases BUFFER_CELLS - cell,
        {
            self.chars[cell] = blank;
            cell += 1;
        }
        self.column_position = 0;
        if self.cmd_start.0 > 0 {
            self.cmd_start = (self.cmd_start.0 - 1, self.cmd_start.1);
        }
        assert(self@.chars =~= old(self)@.new_line().chars);
    }

    /// Clears a row by overwriting it with blank characters.
    pub fn clear_row(&mut self, row: usize)
        requires
            row < BUFFER_HEIGHT,
        ensures
            final(self)@ == old(self)@.clear_row(row as int),
    {
        proof {
            use_type_invariant(&*self);
        }
        let blank = ScreenChar { ascii_character: 0x20, color_code: self.color_code };
        let start = row * BUFFER_WIDTH;
        let mut col: usize = 0;
        while col < BUFFER_WIDTH
            invariant
                col <= BUFFER_WIDTH,
                row < BUFFER_HEIGHT,
                start == row * BUFFER_WIDTH,
                self@.wf(),
                self.column_position == old(self).column_position,
                self.color_code == old(self).color_code,
                self.cmd_start == old(self).cmd_start,
                blank == old(self)@.blank(),
                forall|i: int| start <= i < start + col ==> self.chars@[i] == blank,
                forall|i: int|
                    0 <= i < BUFFER_CELLS && !(start <= i < start + col) ==> self.chars@[i]
                        == old(self).chars@[i],
            decreases BUFFER_WIDTH - col,
        {
            self.chars[start + col] = blank;
            col += 1;
        }
        assert(self@.chars =~= old(self)@.clear_row(row as int).chars);
    }

    /// Clears every row and goes to the start of the last row.
    pub fn reset_screen(&mut self)
        ensures
            final(self)@ == old(self)@.reset_screen(),
    {
        proof {
            use_type_invariant(&*self);
        }
        let blank = ScreenChar { ascii_character: 0x20, color_code: self.color_code };
        let mut cell: usize = 0;
        while cell < BUFFER_CELLS
            invariant
                cell <= BUFFER_CELLS,
                self@.wf(),
                self.column_position == old(self).column_position,
                self.color_code == old(self).color_code,
                self.cmd_start == old(self).cmd_start,
                blank == old(self)@.blank(),
                forall|i: int| 0 <= i < cell ==> self.chars@[i] == blank,
            decreases BUFFER_CELLS - cell,
        {
            self.chars[cell] = blank;
            cell += 1;
        }
        self.column_position = 0;
        assert(self@.chars =~= old(self)@.reset_screen().chars);
    }

    /// Whether a character can be taken back: see
    /// [`ScreenView::can_backspace`].
    pub fn can_backspace(&self) -> (can: bool)
        ensures
            can == self@.can_backspace(),
    {
        proof {
            use_type_invariant(self);
        }
        if self.column_position > 0 {
            return true;
        }
        let ghost down = self@.moved_down();
        let above = LAST_ROW - BUFFER_WIDTH;
        let mut col: usize = BUFFER_WIDTH;
        while col > 0
            invariant
                col <= BUFFER_WIDTH,
                above == LAST_ROW - BUFFER_WIDTH,
                self@.wf(),
                down == self@.moved_down(),
                last_text(down, BUFFER_CELLS - 1) == last_text(down, LAST_ROW + col - 1),
            decreases col,
        {
            col -= 1;
            if self.chars[above + col].ascii_character != 0 {
                return true;
            }
        }
        proof {
            lemma_last_text_bound(down, LAST_ROW - 1);
        }
        false
    }

    /// Takes back the last character.
    pub fn backspace(&mut self)
        requires
            old(self)@.can_backspace(),
        ensures
            final(self)@ == old(self)@.backspace(),
    {
        proof {
            use_type_invariant(&*self);
        }
        if self.column_position > 0 {
            self.column_position -= 1;
        } else {
            // Send everything down a row
            let mut cell: usize = BUFFER_CELLS;
            while cell > BUFFER_WIDTH
                invariant
                    BUFFER_WIDTH <= cell <= BUFFER_CELLS,
                    self@.wf(),
                    self.column_position == old(self).column_position,
                    self.color_code == old(self).color_code,
                    self.cmd_start == old(self).cmd_start,
                    forall|i: int|
                        cell <= i < BUFFER_CELLS ==> self.chars@[i] == old(self).chars@[i
                            - BUFFER_WIDTH],
                    forall|i: int| 0 <= i < cell ==> self.chars@[i] == old(self).chars@[i],
                decreases cell,
            {
                cell -= 1;
                self.chars[cell] = self.chars[cell - BUFFER_WIDTH];
            }
            self.clear_row(0);
            proof {
                use_type_invariant(&*self);
            }
            assert(self@.chars =~= old(self)@.moved_down());
            // Seek back to newline
            let ghost down = self@.chars;
            let mut col: usize = BUFFER_WIDTH - 1;
            while self.chars[LAST_ROW + col].ascii_character == 0
                invariant
                    col < BUFFER_WIDTH,
                    self@.wf(),
                    self@.chars == down,
                    self.column_position == old(self).column_position,
                    self.color_code == old(self).color_code,
                    self.cmd_start == old(self).cmd_start,
                    last_text(down, BUFFER_CELLS - 1) >= LAST_ROW,
                    last_text(down, BUFFER_CELLS - 1) == last_text(down, LAST_ROW + col),
                decreases col,
            {
                proof {
                    if col == 0 {
                        lemma_last_text_bound(down, LAST_ROW - 1);
                    }
                }
                col -= 1;
            }
            self.column_position = col;
        }
        let wiped = ScreenChar { ascii_character: 0, color_code: self.color_code };
        self.chars[LAST_ROW + self.column_position] = wiped;
    }

    /// The character before the one that comes next.
    pub fn last_char(&self) -> (c: u8)
        requires
            self@.column > 0,
        ensures
            c == self@.chars[self@.cursor() - 1].ascii_character,
    {
        proof {
            use_type_invariant(self);
        }
        self.chars[LAST_ROW + self.column_position - 1].ascii_character
    }

    /// The characters behind the last `c` on the screen: see
    /// [`ScreenView::scan_until_or_all`].
    pub fn scan_until_or_all(&self, c: char) -> (s: Vec<u8>)
        requires
            self@.column > 0,
        ensures
            s@ == self@.scan_until_or_all(c),
    {
        proof {
            use_type_invariant(self);
        }
        let cursor = LAST_ROW + self.column_position;
        // find where the text starts
        let mut from: usize = cursor;
        while from > 0 && self.chars[from - 1].ascii_character as u32 != c as u32
            invariant
                from <= cursor,
                cursor == self@.cursor(),
                self@.wf(),
                self@.column > 0,
                last_match(self@.chars, c, cursor - 1) == last_match(self@.chars, c, from - 1),
            decreases from,
        {
            from -= 1;
        }
        assert(last_match(self@.chars, c, cursor - 1) + 1 == from);
        self.text(from, cursor)
    }

    /// The characters of the cells from `from` up to `to`, `to` not included,
    /// those that are 0 left out.
    fn text(&self, from: usize, to: usize) -> (s: Vec<u8>)
        requires
            from <= to <= BUFFER_CELLS,
        ensures
            s@ == text_of(self@.chars.subrange(from as int, to as int)),
    {
        proof {
            use_type_invariant(self);
        }
        let mut s: Vec<u8> = Vec::new();
        let mut cell: usize = from;
        assert(self@.chars.subrange(from as int, from as int) =~= Seq::<ScreenChar>::empty());
        while cell < to
            invariant
                from <= cell <= to <= BUFFER_CELLS,
                self@.wf(),
                s@ == text_of(self@.chars.subrange(from as int, cell as int)),
            decreases to - cell,
        {
            let character = self.chars[cell].ascii_character;
            assert(self@.chars.subrange(from as int, cell + 1).drop_last()
                =~= self@.chars.subrange(from as int, cell as int));
            if character != 0 {
                s.push(character);
            }
            cell += 1;
        }
        s
    }

    /// Makes the command being typed start where the next character goes.
    pub fn reset_cmd_start(&mut self)
        ensures
            final(self)@ == (ScreenView {
                cmd_start: ((BUFFER_HEIGHT - 1) as usize, old(self)@.column),
                ..old(self)@
            }),
    {
        proof {
            use_type_invariant(&*self);
        }
        self.cmd_start = (BUFFER_HEIGHT - 1, self.column_position);
    }

    /// The command being typed: see [`ScreenView::scan_cmd`]. The cell of the
    /// next character is part of it, so the last row must not be full if the
    /// command reaches that far.
    pub fn scan_cmd(&self) -> (s: Vec<u8>)
        requires
            self@.column < BUFFER_WIDTH || self@.cursor() < self@.command_start(),
        ensures
            s@ == self@.scan_cmd(),
    {
        proof {
            use_type_invariant(self);
        }
        let cursor = LAST_ROW + self.column_position;
        let start = self.cmd_start.0 * BUFFER_WIDTH + self.cmd_start.1;
        if start <= cursor {
            self.text(start, cursor + 1)
        } else {
            Vec::new()
        }
    }

    /// Sets the colours in which characters are written from now on.
    pub fn set_color(&mut self, color: ColorCode)
        ensures
            final(self)@ == (ScreenView { color, ..old(self)@ }),
    {
        proof {
            use_type_invariant(&*self);
        }
        self.color_code = color;
    }
}

/// No cell behind `upto` is the last cell with text up to `upto`.
pub proof fn lemma_last_text_bound(cells: Seq<ScreenChar>, upto: int)
    ensures
        last_text(cells, upto) <= upto || last_text(cells, upto) == -1,
        last_text(cells, upto) >= -1,
    decreases upto + 1,
{
    if upto >= 0 && cells[upto].ascii_character == 0 {
        lemma_last_text_bound(cells, upto - 1);
    }
}

} // verus!
