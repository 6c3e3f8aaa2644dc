//! Key codes, key states and the semantic key event.

use vstd::prelude::*;

verus! {

/// Numeric identifier of a key, in the kernel's stable numbering.
pub type KeyCode = u16;

/// Event class of a synchronization record.
pub const EV_SYN: u16 = 0;

/// Event class of a key record.
pub const EV_KEY: u16 = 1;

/// Event class of a miscellaneous record.
pub const EV_MSC: u16 = 4;

/// Code of the synchronization record that closes a batch.
pub const SYN_REPORT: u16 = 0;

/// Largest key code of the kernel's numbering.
pub const KEY_MAX: KeyCode = 0x2ff;

/// The left control key.
pub const KEY_LEFTCTRL: KeyCode = 29;

/// The letter A.
pub const KEY_A: KeyCode = 30;

/// The letter C.
pub const KEY_C: KeyCode = 46;

/// The letter V.
pub const KEY_V: KeyCode = 47;

/// The left alt key.
pub const KEY_LEFTALT: KeyCode = 56;

/// The caps lock key.
pub const KEY_CAPSLOCK: KeyCode = 58;

/// The function key F1.
pub const KEY_F1: KeyCode = 59;

/// The left meta key.
pub const KEY_LEFTMETA: KeyCode = 125;

/// The play and pause media key.
pub const KEY_PLAYPAUSE: KeyCode = 164;

/// The three states a key can report: pressed, released, repeating.
#[derive(Clone, Copy, Debug, PartialEq, Eq, Structural)]
pub enum KeyValue {
    On,
    Off,
    Hold,
}

/// One key changing state.
#[derive(Clone, Copy, Debug, PartialEq, Eq, Structural)]
pub struct KeyEvent {
    pub code: KeyCode,
    pub value: KeyValue,
}

/// The state that a raw record value stands for: 1 is a press, 2 a repeat,
/// and everything else a release.
pub open spec fn key_value_of(val: int) -> KeyValue {
    if val == 1 {
        KeyValue::On
    } else if val == 2 {
        KeyValue::Hold
    } else {
        KeyValue::Off
    }
}

/// The raw record value of a state.
pub open spec fn key_value_number(value: KeyValue) -> int {
    match value {
        KeyValue::Off => 0,
        KeyValue::On => 1,
        KeyValue::Hold => 2,
    }
}

/// Reads a raw record value as a key state.
pub fn get_key_value(val: i32) -> (value: KeyValue)
    ensures
        value == key_value_of(val as int),
{
    match val {
        0 => KeyValue::Off,
        1 => KeyValue::On,
        2 => KeyValue::Hold,
        _ => KeyValue::Off,
    }
}

/// Gives the raw record value of a key state.
pub fn key_value_raw(value: KeyValue) -> (val: i32)
    ensures
        val as int == key_value_number(value),
{
    match value {
        KeyValue::On => 1,
        KeyValue::Off => 0,
        KeyValue::Hold => 2,
    }
}

/// Every state survives the trip through its raw value.
pub proof fn lemma_key_value_round_trip(value: KeyValue)
    ensures
        key_value_of(key_value_number(value)) == value,
        0 <= key_value_number(value) <= 2,
{
}

} // verus!
