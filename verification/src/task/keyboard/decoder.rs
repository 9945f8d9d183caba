//! The scancode decoder of `pc_keyboard`, as far as the keyboard tasks use it.
//!
//! Nothing in this file is proved, and nothing is claimed: what a scancode
//! decodes to depends on the scancodes that came before it, which the decoder
//! keeps to itself.

use super::keys::{Control, Key};
use pc_keyboard::layouts::Us104Key;
use pc_keyboard::{DecodedKey, HandleControl, KeyCode, KeyEvent, Keyboard, ScancodeSet1};
use vstd::prelude::*;

verus! {

/// `pc_keyboard::KeyCode`, taken as it is.
#[verifier::external_type_specification]
#[verifier::external_body]
pub struct ExKeyCode(KeyCode);

/// `pc_keyboard::KeyEvent`, taken as it is.
#[verifier::external_type_specification]
#[verifier::external_body]
pub struct ExKeyEvent(KeyEvent);

/// `pc_keyboard::Keyboard` for the US layout with 104 keys and scancode set 1.
/// The type is bound by traits of `pc_keyboard`, so it is held whole behind
/// this struct.
#[verifier::external_body]
pub struct Decoder {
    keyboard: Keyboard<Us104Key, ScancodeSet1>,
}

/// `Keyboard::new`: a decoder that has seen no scancode.
#[verifier::external_body]
pub(crate) fn decoder_new(control: Control) -> (decoder: Decoder) {
    let handle_ctrl = match control {
        Control::Ignore => HandleControl::Ignore,
        Control::MapLettersToUnicode => HandleControl::MapLettersToUnicode,
    };
    Decoder { keyboard: Keyboard::new(Us104Key, ScancodeSet1, handle_ctrl) }
}

/// `Keyboard::add_byte`: the key event that the scancode completes, if it
/// completes one. A scancode that the decoder cannot place gives none.
#[verifier::external_body]
pub(crate) fn decoder_add_byte(decoder: &mut Decoder, byte: u8) -> (event: Option<KeyEvent>) {
    match decoder.keyboard.add_byte(byte) {
        Ok(event) => event,
        Err(_) => None,
    }
}

/// `Keyboard::process_keyevent`: the key that the event gives, if it gives
/// one, with the modifier keys held at the time taken into account.
#[verifier::external_body]
pub(crate) fn decoder_process_keyevent(decoder: &mut Decoder, event: KeyEvent) -> (key: Option<
    Key,
>) {
    match decoder.keyboard.process_keyevent(event) {
        Some(DecodedKey::Unicode(character)) => Some(Key::Unicode(character)),
        Some(DecodedKey::RawKey(code)) => Some(Key::RawKey(code)),
        None => None,
    }
}

} // verus!
