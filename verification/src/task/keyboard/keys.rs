//! Keys: what a key press leads to.
//!
//! A scancode goes through the decoder, which gives a key once a key press is
//! complete. A key is a character or the code of a key that gives none, and
//! the functions say what pressing it does, on the screen and in the text
//! editor.

use super::decoder::{decoder_add_byte, decoder_new, decoder_process_keyevent, Decoder};
use crate::vga_buffer::Writer;
use pc_keyboard::KeyCode;
use vstd::prelude::*;

verus! {

/// The backspace character.
pub const BACKSPACE: char = '\u{8}';

/// What the decoder does with a letter while a control key is held.
#[derive(Clone, Copy, PartialEq, Eq, Structural, Debug)]
pub enum Control {
    /// The letter goes through as it is.
    Ignore,
    /// The letters A to Z become the characters U+0001 to U+001A.
    MapLettersToUnicode,
}

/// A key as the command line sees it.
#[derive(Clone, Copy, PartialEq, Eq, Debug)]
pub enum Key {
    /// A key that gives a character.
    Unicode(char),
    /// A key that gives none, by its code.
    RawKey(KeyCode),
}

impl Decoder {
    /// A decoder that has seen no scancode and lets letters through as they
    /// are while a control key is held.
    pub fn new() -> (decoder: Decoder) {
        decoder_new(Control::Ignore)
    }

    /// Takes the next scancode from the keyboard and gives the key that it
    /// completes, if it completes one. Which key that is depends on the
    /// scancodes that came before.
    pub fn decode(&mut self, scancode: u8) -> (key: Option<Key>) {
        match decoder_add_byte(self, scancode) {
            Some(key_event) => decoder_process_keyevent(self, key_event),
            None => None,
        }
    }
}

/// What a key press leads to.
#[derive(Clone, Copy, PartialEq, Eq, Debug)]
pub enum KeyAction {
    /// Leave the text editor: clear the screen and show the prompt.
    LeaveTextMode,
    /// Hand the key to the text editor, where it does this.
    Edit(Edit),
    /// Take back the last character on the screen.
    Backspace,
    /// Nothing.
    Ignore,
    /// Go to a new line and run the command that was typed.
    RunCommand,
    /// Print the character.
    Print(char),
    /// Print the name of the key with this code.
    PrintRaw(KeyCode),
}

/// What a key press does to the text on the disk.
#[derive(Clone, Copy, PartialEq, Eq, Structural, Debug)]
pub enum Edit {
    /// Take back the last byte: see [`super::DiskWriter::step_back`] and
    /// [`super::DiskWriter::wipe`].
    TakeBack,
    /// Put the character behind the text: see [`super::DiskWriter::put`].
    Put(char),
    /// Nothing.
    Nothing,
}

/// What a key press does in the text editor: a backspace takes back the last
/// byte, any other character is put behind the text, and a key that gives no
/// character does nothing.
pub open spec fn spec_text_edit_process_key(key: Key) -> Edit {
    match key {
        Key::Unicode(c) => if c == BACKSPACE {
            Edit::TakeBack
        } else {
            Edit::Put(c)
        },
        Key::RawKey(_) => Edit::Nothing,
    }
}

/// What a key press does in the text editor.
#[verifier::when_used_as_spec(spec_text_edit_process_key)]
pub fn text_edit_process_key(key: Key) -> (edit: Edit)
    ensures
        edit == spec_text_edit_process_key(key),
{
    match key {
        Key::Unicode(character) => if character as u32 == 8 {
            Edit::TakeBack
        } else {
            Edit::Put(character)
        },
        Key::RawKey(_) => Edit::Nothing,
    }
}

/// What the next scancode does in the text editor: nothing unless it
/// completes a key press, and else what that key does.
pub fn text_editor(decoder: &mut Decoder, scancode: u8) -> (edit: Option<Edit>)
    ensures
        edit matches Some(done) ==> exists|key: Key| done == spec_text_edit_process_key(key),
{
    match decoder.decode(scancode) {
        Some(key) => Some(text_edit_process_key(key)),
        None => None,
    }
}

/// Whether the next character goes behind the start of the command.
pub(crate) fn behind_command_start(writer: &Writer) -> (behind: bool)
    ensures
        behind == (writer@.cursor() > writer@.command_start()),
{
    let cur_pos = writer.current_pos();
    let start = writer.cmd_start();
    assert(cur_pos.0 * 80 + cur_pos.1 <= 2000 && start.0 * 80 + start.1 <= 2000)
        by (nonlinear_arith)
        requires
            cur_pos.0 == 24,
            cur_pos.1 <= 80,
            start.0 < 25,
            start.1 <= 80,
    ;
    cur_pos.0 * 80 + cur_pos.1 > start.0 * 80 + start.1
}

/// What a key press leads to where keys are only echoed: a backspace takes a
/// character back where the next character goes behind the start of the
/// command, and every other character is printed, the line feed too.
pub open spec fn spec_print_key(key: Key, cursor: int, command_start: int) -> KeyAction {
    match key {
        Key::Unicode(c) => if c == BACKSPACE {
            if cursor > command_start {
                KeyAction::Backspace
            } else {
                KeyAction::Ignore
            }
        } else {
            KeyAction::Print(c)
        },
        Key::RawKey(code) => KeyAction::PrintRaw(code),
    }
}

/// What a key press leads to where keys are only echoed.
pub fn print_key(key: Key, writer: &Writer) -> (action: KeyAction)
    ensures
        action == spec_print_key(key, writer@.cursor(), writer@.command_start()),
{
    match key {
        Key::Unicode(c) => if c as u32 == 8 {
            if behind_command_start(writer) {
                KeyAction::Backspace
            } else {
                KeyAction::Ignore
            }
        } else {
            KeyAction::Print(c)
        },
        Key::RawKey(code) => KeyAction::PrintRaw(code),
    }
}

/// What the next scancode leads to where keys are only echoed: nothing unless
/// it completes a key press, and else what that key leads to.
pub fn print_keypresses(decoder: &mut Decoder, scancode: u8, writer: &Writer) -> (action: Option<
    KeyAction,
>)
    ensures
        action matches Some(taken) ==> exists|key: Key|
            taken == spec_print_key(key, writer@.cursor(), writer@.command_start()),
{
    match decoder.decode(scancode) {
        Some(key) => Some(print_key(key, writer)),
        None => None,
    }
}

} // verus!
