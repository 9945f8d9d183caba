//! The command line: what a line of input asks for.
//!
//! A line is bytes. Its words are the runs of bytes between ASCII whitespace;
//! the first word names the command and the rest are its arguments. Nothing
//! here prints or touches the disk: the functions say what a line means, and
//! the kernel acts on it.

use crate::task::keyboard::keys::behind_command_start;
use crate::task::keyboard::keys::spec_text_edit_process_key;
use crate::task::keyboard::{
    text_edit_process_key, Decoder, DiskWriter, Key, KeyAction, BACKSPACE,
};
use crate::vga_buffer::{Color, ColorCode, Writer};
use vstd::prelude::*;

verus! {

/// The escape character, which leaves the text editor.
pub const ESC: char = '\u{1B}';

/// The character that marks the buffer.
pub const BUFFER_CHAR: char = '\u{2}';

/// The word `cat`.
pub const CAT: [u8; 3] = [0x63, 0x61, 0x74];

/// The word `color`.
pub const COLOR: [u8; 5] = [0x63, 0x6f, 0x6c, 0x6f, 0x72];

/// The word `dclear`.
pub const DCLEAR: [u8; 6] = [0x64, 0x63, 0x6c, 0x65, 0x61, 0x72];

/// The word `dappend`.
pub const DAPPEND: [u8; 7] = [0x64, 0x61, 0x70, 0x70, 0x65, 0x6e, 0x64];

/// The word `textedit`.
pub const TEXTEDIT: [u8; 8] = [0x74, 0x65, 0x78, 0x74, 0x65, 0x64, 0x69, 0x74];

/// The word `echo`.
pub const ECHO: [u8; 4] = [0x65, 0x63, 0x68, 0x6f];

/// The word `help`.
pub const HELP: [u8; 4] = [0x68, 0x65, 0x6c, 0x70];

/// The word `Black`.
pub const BLACK: [u8; 5] = [0x42, 0x6c, 0x61, 0x63, 0x6b];

/// The word `Blue`.
pub const BLUE: [u8; 4] = [0x42, 0x6c, 0x75, 0x65];

/// The word `Green`.
pub const GREEN: [u8; 5] = [0x47, 0x72, 0x65, 0x65, 0x6e];

/// The word `Cyan`.
pub const CYAN: [u8; 4] = [0x43, 0x79, 0x61, 0x6e];

/// The word `Red`.
pub const RED: [u8; 3] = [0x52, 0x65, 0x64];

/// The word `Magenta`.
pub const MAGENTA: [u8; 7] = [0x4d, 0x61, 0x67, 0x65, 0x6e, 0x74, 0x61];

/// The word `Brown`.
pub const BROWN: [u8; 5] = [0x42, 0x72, 0x6f, 0x77, 0x6e];

/// The word `LightGray`.
pub const LIGHT_GRAY: [u8; 9] = [0x4c, 0x69, 0x67, 0x68, 0x74, 0x47, 0x72, 0x61, 0x79];

/// The word `DarkGray`.
pub const DARK_GRAY: [u8; 8] = [0x44, 0x61, 0x72, 0x6b, 0x47, 0x72, 0x61, 0x79];

/// The word `LightBlue`.
pub const LIGHT_BLUE: [u8; 9] = [0x4c, 0x69, 0x67, 0x68, 0x74, 0x42, 0x6c, 0x75, 0x65];

/// The word `LightGreen`.
pub const LIGHT_GREEN: [u8; 10] = [0x4c, 0x69, 0x67, 0x68, 0x74, 0x47, 0x72, 0x65, 0x65, 0x6e];

/// The word `LightCyan`.
pub const LIGHT_CYAN: [u8; 9] = [0x4c, 0x69, 0x67, 0x68, 0x74, 0x43, 0x79, 0x61, 0x6e];

/// The word `LightRed`.
pub const LIGHT_RED: [u8; 8] = [0x4c, 0x69, 0x67, 0x68, 0x74, 0x52, 0x65, 0x64];

/// The word `Pink`.
pub const PINK: [u8; 4] = [0x50, 0x69, 0x6e, 0x6b];

/// The word `Yellow`.
pub const YELLOW: [u8; 6] = [0x59, 0x65, 0x6c, 0x6c, 0x6f, 0x77];

/// The word `White`.
pub const WHITE: [u8; 5] = [0x57, 0x68, 0x69, 0x74, 0x65];

/// Whether the byte is ASCII whitespace: a space, a tab, a line feed, a form
/// feed or a carriage return.
pub open spec fn spec_is_space(byte: u8) -> bool {
    byte == 0x20 || byte == 0x09 || byte == 0x0A || byte == 0x0C || byte == 0x0D
}

/// Whether the byte is ASCII whitespace.
#[verifier::when_used_as_spec(spec_is_space)]
pub fn is_space(byte: u8) -> (space: bool)
    ensures
        space == spec_is_space(byte),
{
    byte == 0x20 || byte == 0x09 || byte == 0x0A || byte == 0x0C || byte == 0x0D
}

/// The first place at or behind `from` that holds no whitespace; the end of
/// the line if there is none.
pub open spec fn skip_spaces(line: Seq<u8>, from: int) -> int
    decreases line.len() - from,
{
    if from >= line.len() {
        line.len() as int
    } else if spec_is_space(line[from]) {
        skip_spaces(line, from + 1)
    } else {
        from
    }
}

/// The first place at or behind `from` that holds whitespace; the end of the
/// line if there is none.
pub open spec fn skip_word(line: Seq<u8>, from: int) -> int
    decreases line.len() - from,
{
    if from >= line.len() {
        line.len() as int
    } else if !spec_is_space(line[from]) {
        skip_word(line, from + 1)
    } else {
        from
    }
}

/// The next word at or behind `from` starts at [`skip_spaces`] and ends
/// before [`skip_word`] from there: only whitespace lies before it, it holds
/// no whitespace and at least one byte, and it ends at whitespace or with the
/// line.
pub proof fn lemma_next_word(line: Seq<u8>, from: int)
    requires
        0 <= from <= line.len(),
    ensures
        ({
            let start = skip_spaces(line, from);
            let end = skip_word(line, start);
            &&& from <= start <= end <= line.len()
            &&& forall|i: int| from <= i < start ==> spec_is_space(#[trigger] line[i])
            &&& forall|i: int| start <= i < end ==> !spec_is_space(#[trigger] line[i])
            &&& start < line.len() ==> start < end
            &&& end < line.len() ==> spec_is_space(line[end])
        }),
{
    lemma_skip_spaces(line, from);
    lemma_skip_word(line, skip_spaces(line, from));
}

proof fn lemma_skip_spaces(line: Seq<u8>, from: int)
    requires
        0 <= from <= line.len(),
    ensures
        from <= skip_spaces(line, from) <= line.len(),
        forall|i: int| from <= i < skip_spaces(line, from) ==> spec_is_space(#[trigger] line[i]),
        skip_spaces(line, from) < line.len() ==> !spec_is_space(line[skip_spaces(line, from)]),
    decreases line.len() - from,
{
    if from < line.len() && spec_is_space(line[from]) {
        lemma_skip_spaces(line, from + 1);
    }
}

proof fn lemma_skip_word(line: Seq<u8>, from: int)
    requires
        0 <= from <= line.len(),
    ensures
        from <= skip_word(line, from) <= line.len(),
        forall|i: int| from <= i < skip_word(line, from) ==> !spec_is_space(#[trigger] line[i]),
        skip_word(line, from) < line.len() ==> spec_is_space(line[skip_word(line, from)]),
        from < line.len() && !spec_is_space(line[from]) ==> from < skip_word(line, from),
    decreases line.len() - from,
{
    if from < line.len() && !spec_is_space(line[from]) {
        lemma_skip_word(line, from + 1);
    }
}

/// The next word of the line at or behind `from`, as the places where it
/// starts and where it ends; none if only whitespace is left.
pub fn next_word(line: &[u8], from: usize) -> (word: Option<(usize, usize)>)
    requires
        from <= line@.len(),
    ensures
        word is None <==> skip_spaces(line@, from as int) == line@.len(),
        word matches Some((start, end)) ==> start == skip_spaces(line@, from as int) && end
            == skip_word(line@, start as int) && start < end <= line@.len(),
{
    let mut start = from;
    while start < line.len() && is_space(line[start])
        invariant
            from <= start <= line@.len(),
            skip_spaces(line@, from as int) == skip_spaces(line@, start as int),
        decreases line@.len() - start,
    {
        start += 1;
    }
    if start == line.len() {
        return None;
    }
    let mut end = start + 1;
    assert(skip_word(line@, start as int) == skip_word(line@, start + 1));
    while end < line.len() && !is_space(line[end])
        invariant
            start < end <= line@.len(),
            skip_word(line@, start as int) == skip_word(line@, end as int),
        decreases line@.len() - end,
    {
        end += 1;
    }
    Some((start, end))
}

/// Whether the two runs of bytes are the same.
pub fn same(word: &[u8], other: &[u8]) -> (equal: bool)
    ensures
        equal == (word@ == other@),
{
    if word.len() != other.len() {
        return false;
    }
    let mut at: usize = 0;
    while at < word.len()
        invariant
            at <= word@.len(),
            word@.len() == other@.len(),
            forall|i: int| 0 <= i < at ==> word@[i] == other@[i],
        decreases word@.len() - at,
    {
        if word[at] != other[at] {
            return false;
        }
        at += 1;
    }
    assert(word@ =~= other@);
    true
}

/// `head` and `tail` with one space between them, or the one of them that is
/// not empty.
pub open spec fn glue(head: Seq<u8>, tail: Seq<u8>) -> Seq<u8> {
    if head.len() == 0 {
        tail
    } else if tail.len() == 0 {
        head
    } else {
        head + seq![0x20u8] + tail
    }
}

/// The words of the line from `from` on, with one space between each two.
pub open spec fn joined(line: Seq<u8>, from: int) -> Seq<u8>
    decreases line.len() - from,
{
    let start = skip_spaces(line, from);
    let end = skip_word(line, start);
    if 0 <= from <= start < end <= line.len() {
        glue(line.subrange(start, end), joined(line, end))
    } else {
        Seq::empty()
    }
}

/// The words of the line from `from` on, with one space between each two.
pub fn join(line: &[u8], from: usize) -> (text: Vec<u8>)
    requires
        from <= line@.len(),
    ensures
        text@ == joined(line@, from as int),
{
    let mut text: Vec<u8> = Vec::new();
    let mut at = from;
    loop
        invariant
            from <= at <= line@.len(),
            joined(line@, from as int) == glue(text@, joined(line@, at as int)),
        ensures
            text@ == joined(line@, from as int),
        decreases line@.len() - at,
    {
        let ghost before = text@;
        match next_word(line, at) {
            None => {
                proof {
                    lemma_next_word(line@, at as int);
                    assert(joined(line@, at as int) =~= Seq::<u8>::empty());
                }
                break ;
            },
            Some((start, end)) => {
                if text.len() > 0 {
                    text.push(0x20);
                }
                let mut i = start;
                let ghost spaced = text@;
                while i < end
                    invariant
                        start <= i <= end <= line@.len(),
                        text@ == spaced + line@.subrange(start as int, i as int),
                    decreases end - i,
                {
                    text.push(line[i]);
                    i += 1;
                    assert(text@ =~= spaced + line@.subrange(start as int, i as int));
                }
                proof {
                    let word = line@.subrange(start as int, end as int);
                    let rest = joined(line@, end as int);
                    lemma_next_word(line@, at as int);
                    assert(joined(line@, at as int) == glue(word, rest));
                    assert(text@ =~= glue(before, word));
                    assert(glue(before, glue(word, rest)) =~= glue(glue(before, word), rest));
                }
                at = end;
            },
        }
    }
    text
}

/// The commands.
#[derive(Clone, Copy, PartialEq, Eq, Structural, Debug)]
pub enum Command {
    /// Prints what the disk holds.
    Cat,
    /// Sets the colours of the screen.
    Color,
    /// Clears the disk.
    Dclear,
    /// Appends text to the disk.
    Dappend,
    /// Opens the text editor.
    TextEdit,
    /// Prints its arguments.
    Echo,
    /// Prints the list of commands.
    Help,
}

impl Command {
    /// The word that names the command.
    pub open spec fn spec_name(self) -> Seq<u8> {
        match self {
            Command::Cat => CAT@,
            Command::Color => COLOR@,
            Command::Dclear => DCLEAR@,
            Command::Dappend => DAPPEND@,
            Command::TextEdit => TEXTEDIT@,
            Command::Echo => ECHO@,
            Command::Help => HELP@,
        }
    }

    /// The command that `word` names, if it names one.
    pub open spec fn spec_named(word: Seq<u8>) -> Option<Command> {
        if word == CAT@ {
            Some(Command::Cat)
        } else if word == COLOR@ {
            Some(Command::Color)
        } else if word == DCLEAR@ {
            Some(Command::Dclear)
        } else if word == DAPPEND@ {
            Some(Command::Dappend)
        } else if word == TEXTEDIT@ {
            Some(Command::TextEdit)
        } else if word == ECHO@ {
            Some(Command::Echo)
        } else if word == HELP@ {
            Some(Command::Help)
        } else {
            None
        }
    }

    /// The command that `word` names, if it names one.
    pub fn named(word: &[u8]) -> (command: Option<Command>)
        ensures
            command == Self::spec_named(word@),
            command matches Some(found) ==> found.spec_name() == word@,
    {
        if same(word, &CAT) {
            Some(Command::Cat)
        } else if same(word, &COLOR) {
            Some(Command::Color)
        } else if same(word, &DCLEAR) {
            Some(Command::Dclear)
        } else if same(word, &DAPPEND) {
            Some(Command::Dappend)
        } else if same(word, &TEXTEDIT) {
            Some(Command::TextEdit)
        } else if same(word, &ECHO) {
            Some(Command::Echo)
        } else if same(word, &HELP) {
            Some(Command::Help)
        } else {
            None
        }
    }
}

/// What a line of input asks for.
#[derive(Clone, Copy, PartialEq, Eq, Structural, Debug)]
pub enum Request {
    /// Nothing: the line has no word.
    Empty,
    /// A command. Its arguments are the words of the line from `args` on.
    Run { command: Command, args: usize },
    /// Something that is no command: the word from `start` up to `end`.
    Unknown { start: usize, end: usize },
}

/// What `line` asks for.
pub open spec fn spec_handle_command(line: Seq<u8>) -> Request {
    let start = skip_spaces(line, 0);
    let end = skip_word(line, start);
    if start == line.len() {
        Request::Empty
    } else {
        match Command::spec_named(line.subrange(start, end)) {
            Some(command) => Request::Run { command, args: end as usize },
            None => Request::Unknown { start: start as usize, end: end as usize },
        }
    }
}

/// What `line` asks for: the command that its first word names, with the place
/// where its arguments start.
pub fn handle_command(line: &[u8]) -> (request: Request)
    ensures
        request == spec_handle_command(line@),
        request matches Request::Run { args, .. } ==> args <= line@.len(),
        request matches Request::Unknown { start, end } ==> start < end <= line@.len(),
{
    match next_word(line, 0) {
        None => Request::Empty,
        Some((start, end)) => {
            let word = vstd::slice::slice_subrange(line, start, end);
            match Command::named(word) {
                Some(command) => Request::Run { command, args: end },
                None => Request::Unknown { start, end },
            }
        },
    }
}

/// Whether the line has a word at or behind `from`: whether a command was
/// given an argument.
pub fn has_argument(line: &[u8], from: usize) -> (has: bool)
    requires
        from <= line@.len(),
    ensures
        has == (skip_spaces(line@, from as int) < line@.len()),
{
    proof {
        lemma_next_word(line@, from as int);
    }
    next_word(line, from).is_some()
}

/// Clears the disk, unless the command was given an argument. The writer then
/// is at word 0 of sector 0 with an all-zero buffer, and the sectors from the
/// first up to the one that it held, whose number is returned, are to be
/// written with zeros. Whether the writer counts a word as half written stays
/// as it was.
pub fn dclear(line: &[u8], from: usize, writer: &mut DiskWriter) -> (last: Option<u32>)
    requires
        from <= line@.len(),
    ensures
        last is None <==> skip_spaces(line@, from as int) < line@.len(),
        last is None ==> *final(writer) == *old(writer),
        last matches Some(lba) ==> {
            &&& lba == old(writer).current_lba
            &&& final(writer).current_lba == 0
            &&& final(writer).current_buf@ == Seq::new(256, |i: int| 0u16)
            &&& final(writer).current_buf_offset == 0
            &&& final(writer).is_in_word == old(writer).is_in_word
        },
{
    if has_argument(line, from) {
        return None;
    }
    let last = writer.current_lba;
    writer.clear();
    Some(last)
}

/// What `echo` prints for the arguments from `from` on: the words with one
/// space between each two, and one more space behind them.
pub fn echo(line: &[u8], from: usize) -> (text: Vec<u8>)
    requires
        from <= line@.len(),
    ensures
        text@ == joined(line@, from as int).push(0x20),
{
    let mut text = join(line, from);
    text.push(0x20);
    text
}

/// What `dappend` appends for the arguments from `from` on: the words with
/// one space between each two.
pub fn dappend(line: &[u8], from: usize) -> (text: Vec<u8>)
    requires
        from <= line@.len(),
    ensures
        text@ == joined(line@, from as int),
{
    join(line, from)
}

impl Color {
    /// The colour's name.
    pub open spec fn spec_name(self) -> Seq<u8> {
        match self {
            Color::Black => BLACK@,
            Color::Blue => BLUE@,
            Color::Green => GREEN@,
            Color::Cyan => CYAN@,
            Color::Red => RED@,
            Color::Magenta => MAGENTA@,
            Color::Brown => BROWN@,
            Color::LightGray => LIGHT_GRAY@,
            Color::DarkGray => DARK_GRAY@,
            Color::LightBlue => LIGHT_BLUE@,
            Color::LightGreen => LIGHT_GREEN@,
            Color::LightCyan => LIGHT_CYAN@,
            Color::LightRed => LIGHT_RED@,
            Color::Pink => PINK@,
            Color::Yellow => YELLOW@,
            Color::White => WHITE@,
        }
    }

    /// The colour with the number `number` in the palette, if there is one.
    pub open spec fn spec_numbered(number: int) -> Option<Color> {
        if number == 0 {
            Some(Color::Black)
        } else if number == 1 {
            Some(Color::Blue)
        } else if number == 2 {
            Some(Color::Green)
        } else if number == 3 {
            Some(Color::Cyan)
        } else if number == 4 {
            Some(Color::Red)
        } else if number == 5 {
            Some(Color::Magenta)
        } else if number == 6 {
            Some(Color::Brown)
        } else if number == 7 {
            Some(Color::LightGray)
        } else if number == 8 {
            Some(Color::DarkGray)
        } else if number == 9 {
            Some(Color::LightBlue)
        } else if number == 10 {
            Some(Color::LightGreen)
        } else if number == 11 {
            Some(Color::LightCyan)
        } else if number == 12 {
            Some(Color::LightRed)
        } else if number == 13 {
            Some(Color::Pink)
        } else if number == 14 {
            Some(Color::Yellow)
        } else if number == 15 {
            Some(Color::White)
        } else {
            None
        }
    }

    /// The colour with the number `number` in the palette, if there is one.
    pub fn numbered(number: u8) -> (color: Option<Color>)
        ensures
            color == Self::spec_numbered(number as int),
            color is Some <==> number < 16,
            color matches Some(found) ==> found.spec_code() == number,
    {
        match number {
            0 => Some(Color::Black),
            1 => Some(Color::Blue),
            2 => Some(Color::Green),
            3 => Some(Color::Cyan),
            4 => Some(Color::Red),
            5 => Some(Color::Magenta),
            6 => Some(Color::Brown),
            7 => Some(Color::LightGray),
            8 => Some(Color::DarkGray),
            9 => Some(Color::LightBlue),
            10 => Some(Color::LightGreen),
            11 => Some(Color::LightCyan),
            12 => Some(Color::LightRed),
            13 => Some(Color::Pink),
            14 => Some(Color::Yellow),
            15 => Some(Color::White),
            _ => None,
        }
    }

    /// The colour with the name `word`, if there is one.
    pub open spec fn spec_named(word: Seq<u8>) -> Option<Color> {
        if word == BLACK@ {
            Some(Color::Black)
        } else if word == BLUE@ {
            Some(Color::Blue)
        } else if word == GREEN@ {
            Some(Color::Green)
        } else if word == CYAN@ {
            Some(Color::Cyan)
        } else if word == RED@ {
            Some(Color::Red)
        } else if word == MAGENTA@ {
            Some(Color::Magenta)
        } else if word == BROWN@ {
            Some(Color::Brown)
        } else if word == LIGHT_GRAY@ {
            Some(Color::LightGray)
        } else if word == DARK_GRAY@ {
            Some(Color::DarkGray)
        } else if word == LIGHT_BLUE@ {
            Some(Color::LightBlue)
        } else if word == LIGHT_GREEN@ {
            Some(Color::LightGreen)
        } else if word == LIGHT_CYAN@ {
            Some(Color::LightCyan)
        } else if word == LIGHT_RED@ {
            Some(Color::LightRed)
        } else if word == PINK@ {
            Some(Color::Pink)
        } else if word == YELLOW@ {
            Some(Color::Yellow)
        } else if word == WHITE@ {
            Some(Color::White)
        } else {
            None
        }
    }

    /// The colour with the name `word`, if there is one.
    pub fn named(word: &[u8]) -> (color: Option<Color>)
        ensures
            color == Self::spec_named(word@),
            color matches Some(found) ==> found.spec_name() == word@,
    {
        if same(word, &BLACK) {
            Some(Color::Black)
        } else if same(word, &BLUE) {
            Some(Color::Blue)
        } else if same(word, &GREEN) {
            Some(Color::Green)
        } else if same(word, &CYAN) {
            Some(Color::Cyan)
        } else if same(word, &RED) {
            Some(Color::Red)
        } else if same(word, &MAGENTA) {
            Some(Color::Magenta)
        } else if same(word, &BROWN) {
            Some(Color::Brown)
        } else if same(word, &LIGHT_GRAY) {
            Some(Color::LightGray)
        } else if same(word, &DARK_GRAY) {
            Some(Color::DarkGray)
        } else if same(word, &LIGHT_BLUE) {
            Some(Color::LightBlue)
        } else if same(word, &LIGHT_GREEN) {
            Some(Color::LightGreen)
        } else if same(word, &LIGHT_CYAN) {
            Some(Color::LightCyan)
        } else if same(word, &LIGHT_RED) {
            Some(Color::LightRed)
        } else if same(word, &PINK) {
            Some(Color::Pink)
        } else if same(word, &YELLOW) {
            Some(Color::Yellow)
        } else if same(word, &WHITE) {
            Some(Color::White)
        } else {
            None
        }
    }
}

/// Whether the byte is a decimal digit.
pub open spec fn spec_is_digit(byte: u8) -> bool {
    0x30 <= byte <= 0x39
}

/// The number that a run of decimal digits writes; none if the run is empty
/// or holds a byte that is no digit.
pub open spec fn digits(word: Seq<u8>) -> Option<nat>
    decreases word.len(),
{
    if word.len() == 0 || !spec_is_digit(word.last()) {
        None
    } else if word.len() == 1 {
        Some((word.last() - 0x30) as nat)
    } else {
        match digits(word.drop_last()) {
            Some(high) => Some((high * 10 + (word.last() - 0x30)) as nat),
            None => None,
        }
    }
}

/// The number that the word writes: decimal digits, with or without a plus
/// sign before them. None if the word is of another form.
pub open spec fn number(word: Seq<u8>) -> Option<nat> {
    if word.len() > 0 && word[0] == 0x2B {
        digits(word.drop_first())
    } else {
        digits(word)
    }
}

/// What a word of the `color` command names.
#[derive(Clone, Copy, PartialEq, Eq, Structural, Debug)]
pub enum NamedColor {
    /// A colour, by its number or by its name.
    Color(Color),
    /// The number 16, which is one past the last colour.
    PastPalette,
    /// No colour: a greater number, or a word that is neither a number nor a
    /// colour's name.
    Invalid,
}

/// What `word` names: the colour of that number if it writes a number below
/// 16, the colour of that name if it is no number.
pub open spec fn spec_named_color(word: Seq<u8>) -> NamedColor {
    match number(word) {
        Some(value) => match Color::spec_numbered(value as int) {
            Some(color) => NamedColor::Color(color),
            None => if value == 16 {
                NamedColor::PastPalette
            } else {
                NamedColor::Invalid
            },
        },
        None => match Color::spec_named(word) {
            Some(color) => NamedColor::Color(color),
            None => NamedColor::Invalid,
        },
    }
}

/// The number that the digits write, or 17 if that number is greater than 17.
fn capped_digits(word: &[u8]) -> (value: Option<u8>)
    ensures
        value is None <==> digits(word@) is None,
        value matches Some(capped) ==> capped == if digits(word@).unwrap() < 17 {
            digits(word@).unwrap()
        } else {
            17
        },
{
    if word.len() == 0 {
        return None;
    }
    let mut value: u8 = 0;
    let mut at: usize = 0;
    while at < word.len()
        invariant
            at <= word@.len(),
            value <= 17,
            forall|i: int| 0 <= i < at ==> spec_is_digit(word@[i]),
            at > 0 ==> digits(word@.take(at as int)) is Some && value == if digits(
                word@.take(at as int),
            ).unwrap() < 17 {
                digits(word@.take(at as int)).unwrap()
            } else {
                17
            },
            at == 0 ==> value == 0,
        decreases word@.len() - at,
    {
        let byte = word[at];
        if !(0x30 <= byte && byte <= 0x39) {
            proof {
                lemma_digits_are_digits(word@, at as int);
            }
            return None;
        }
        let digit = byte - 0x30;
        let ghost longer = word@.take(at + 1);
        assert(longer.drop_last() =~= word@.take(at as int));
        assert(longer.last() == byte);
        let next: u16 = value as u16 * 10 + digit as u16;
        value = if next < 17 {
            next as u8
        } else {
            17
        };
        at += 1;
    }
    assert(word@.take(at as int) =~= word@);
    Some(value)
}

/// A run of digits that writes a number holds digits only.
proof fn lemma_digits_are_digits(word: Seq<u8>, at: int)
    requires
        0 <= at < word.len(),
        !spec_is_digit(word[at]),
    ensures
        digits(word) is None,
    decreases word.len(),
{
    if word.len() > 0 && spec_is_digit(word.last()) && word.len() > 1 {
        assert(at < word.len() - 1);
        lemma_digits_are_digits(word.drop_last(), at);
    }
}

/// What `word` names: see [`spec_named_color`].
pub fn named_color(word: &[u8]) -> (named: NamedColor)
    ensures
        named == spec_named_color(word@),
{
    let written = if word.len() > 0 && word[0] == 0x2B {
        let rest = vstd::slice::slice_subrange(word, 1, word.len());
        assert(rest@ =~= word@.drop_first());
        capped_digits(rest)
    } else {
        capped_digits(word)
    };
    match written {
        Some(value) => match Color::numbered(value) {
            Some(color) => NamedColor::Color(color),
            None => if value == 16 {
                NamedColor::PastPalette
            } else {
                NamedColor::Invalid
            },
        },
        None => match Color::named(word) {
            Some(color) => NamedColor::Color(color),
            None => NamedColor::Invalid,
        },
    }
}

/// Why the `color` command did not set the colours.
#[derive(Clone, Copy, PartialEq, Eq, Structural, Debug)]
pub enum ColorError {
    /// No argument was given.
    MissingForeground,
    /// One argument was given.
    MissingBackground,
    /// More than two arguments were given.
    TooManyArguments,
    /// An argument names no colour.
    InvalidColor,
    /// An argument is the number 16.
    PastPalette,
}

/// The colours that the arguments of the `color` command name, the foreground
/// first, or why they name none. The number of arguments is looked at first,
/// then the foreground, then the background.
pub open spec fn spec_color(line: Seq<u8>, from: int) -> Result<(Color, Color), ColorError> {
    let fg_start = skip_spaces(line, from);
    let fg_end = skip_word(line, fg_start);
    let bg_start = skip_spaces(line, fg_end);
    let bg_end = skip_word(line, bg_start);
    if fg_start == line.len() {
        Err(ColorError::MissingForeground)
    } else if bg_start == line.len() {
        Err(ColorError::MissingBackground)
    } else if skip_spaces(line, bg_end) < line.len() {
        Err(ColorError::TooManyArguments)
    } else {
        match spec_named_color(line.subrange(fg_start, fg_end)) {
            NamedColor::Invalid => Err(ColorError::InvalidColor),
            NamedColor::PastPalette => Err(ColorError::PastPalette),
            NamedColor::Color(foreground) => match spec_named_color(
                line.subrange(bg_start, bg_end),
            ) {
                NamedColor::Invalid => Err(ColorError::InvalidColor),
                NamedColor::PastPalette => Err(ColorError::PastPalette),
                NamedColor::Color(background) => Ok((foreground, background)),
            },
        }
    }
}

/// The colour code that the `color` command sets for the arguments from
/// `from` on, or why it sets none.
pub fn color(line: &[u8], from: usize) -> (code: Result<ColorCode, ColorError>)
    requires
        from <= line@.len(),
    ensures
        match spec_color(line@, from as int) {
            Ok((foreground, background)) => code is Ok && code.unwrap().spec_bits()
                == background.spec_code() * 16 + foreground.spec_code(),
            Err(error) => code == Err::<ColorCode, ColorError>(error),
        },
{
    let (fg_start, fg_end) = match next_word(line, from) {
        Some(word) => word,
        None => {
            return Err(ColorError::MissingForeground);
        },
    };
    let (bg_start, bg_end) = match next_word(line, fg_end) {
        Some(word) => word,
        None => {
            return Err(ColorError::MissingBackground);
        },
    };
    if next_word(line, bg_end).is_some() {
        return Err(ColorError::TooManyArguments);
    }
    let foreground = match named_color(vstd::slice::slice_subrange(line, fg_start, fg_end)) {
        NamedColor::Color(color) => color,
        NamedColor::PastPalette => {
            return Err(ColorError::PastPalette);
        },
        NamedColor::Invalid => {
            return Err(ColorError::InvalidColor);
        },
    };
    let background = match named_color(vstd::slice::slice_subrange(line, bg_start, bg_end)) {
        NamedColor::Color(color) => color,
        NamedColor::PastPalette => {
            return Err(ColorError::PastPalette);
        },
        NamedColor::Invalid => {
            return Err(ColorError::InvalidColor);
        },
    };
    Ok(ColorCode::new(foreground, background))
}

/// What a key press leads to at the prompt. A backspace takes a character
/// back only behind the start of the command; a line feed runs the command;
/// any other character is printed.
pub open spec fn spec_prompt_key(key: Key, cursor: int, command_start: int) -> KeyAction {
    match key {
        Key::Unicode(c) => if c == BACKSPACE {
            if cursor > command_start {
                KeyAction::Backspace
            } else {
                KeyAction::Ignore
            }
        } else if c == '\n' {
            KeyAction::RunCommand
        } else {
            KeyAction::Print(c)
        },
        Key::RawKey(code) => KeyAction::PrintRaw(code),
    }
}

/// What a key press leads to on the command line. In the text editor the
/// escape key leaves it and every other key goes to the editor; else the key
/// is taken as at the prompt.
pub open spec fn spec_cli_key(text_mode: bool, key: Key, cursor: int, command_start: int)
    -> KeyAction {
    if text_mode {
        if key == Key::Unicode(ESC) {
            KeyAction::LeaveTextMode
        } else {
            KeyAction::Edit(spec_text_edit_process_key(key))
        }
    } else {
        spec_prompt_key(key, cursor, command_start)
    }
}

/// What a key press leads to on the command line.
pub fn cli_key(text_mode: bool, key: Key, writer: &Writer) -> (action: KeyAction)
    ensures
        action == spec_cli_key(text_mode, key, writer@.cursor(), writer@.command_start()),
{
    if text_mode {
        match key {
            Key::Unicode(c) => if c == ESC {
                KeyAction::LeaveTextMode
            } else {
                KeyAction::Edit(text_edit_process_key(key))
            },
            Key::RawKey(_) => KeyAction::Edit(text_edit_process_key(key)),
        }
    } else {
        match key {
            Key::Unicode(c) => if c as u32 == 8 {
                if behind_command_start(writer) {
                    KeyAction::Backspace
                } else {
                    KeyAction::Ignore
                }
            } else if c == '\n' {
                KeyAction::RunCommand
            } else {
                KeyAction::Print(c)
            },
            Key::RawKey(code) => KeyAction::PrintRaw(code),
        }
    }
}

/// What the next scancode leads to on the command line: nothing unless it
/// completes a key press, and else what that key leads to.
pub fn cli(decoder: &mut Decoder, scancode: u8, text_mode: bool, writer: &Writer) -> (action:
    Option<KeyAction>)
    ensures
        action matches Some(taken) ==> exists|key: Key|
            taken == spec_cli_key(text_mode, key, writer@.cursor(), writer@.command_start()),
{
    match decoder.decode(scancode) {
        Some(key) => Some(cli_key(text_mode, key, writer)),
        None => None,
    }
}

} // verus!
