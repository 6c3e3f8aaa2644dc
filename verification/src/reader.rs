//! Normalizing the stream of a grabbed keyboard: which records become key
//! events, which are dropped, and what follows a failed read.

use vstd::prelude::*;
use crate::codec::{RawEvent, key_event_of};
use crate::keys::{KeyEvent, EV_KEY};
use crate::keys::get_key_value;

verus! {

/// What the reader does after one attempt to read a record.
#[derive(Clone, Copy, Debug, PartialEq, Eq, Structural)]
pub enum ReadStep {
    /// The read failed: report the error and read again.
    Report,
    /// The record is not of the key class: drop it and read again.
    Skip,
    /// The record is a key event: hand it on.
    Deliver(KeyEvent),
}

/// The step that follows a read: a failed read is reported, a record of the
/// key class is delivered as its key event, every other record is dropped.
pub open spec fn read_step_of(read: Option<RawEvent>) -> ReadStep {
    match read {
        None => ReadStep::Report,
        Some(record) => match key_event_of(record) {
            Some(event) => ReadStep::Deliver(event),
            None => ReadStep::Skip,
        },
    }
}

/// Reads a record as a key event; only a record of the key class is one.
pub fn get_key_event(event: &RawEvent) -> (key_event: Option<KeyEvent>)
    ensures
        key_event == key_event_of(*event),
        key_event.is_some() <==> event.kind == EV_KEY,
{
    if event.kind == EV_KEY {
        Some(KeyEvent { code: event.code, value: get_key_value(event.value) })
    } else {
        None
    }
}

/// Decides what follows one attempt to read a record, given the record or
/// nothing where the read failed. Only `Deliver` ends the wait for the next
/// key event; after the other two the reader reads again.
pub fn next_event_step(read: Option<RawEvent>) -> (step: ReadStep)
    ensures
        step == read_step_of(read),
{
    match read {
        None => ReadStep::Report,
        Some(record) => match get_key_event(&record) {
            Some(event) => ReadStep::Deliver(event),
            None => ReadStep::Skip,
        },
    }
}

/// Holds of a device path that names a keyboard: its last three characters
/// are "kbd".
pub open spec fn is_keyboard_name(path: Seq<char>) -> bool {
    path.len() >= 3 && path[path.len() - 3] == 'k' && path[path.len() - 2] == 'b' && path[path.len()
        - 1] == 'd'
}

/// The texts of a list of strings.
pub open spec fn names_of(paths: Seq<String>) -> Seq<Seq<char>> {
    Seq::new(paths.len(), |i: int| paths[i]@)
}

/// The keyboard paths among a list of paths, in the list's order.
pub open spec fn keyboard_names(paths: Seq<Seq<char>>) -> Seq<Seq<char>>
    decreases paths.len(),
{
    if paths.len() == 0 {
        Seq::empty()
    } else if is_keyboard_name(paths.last()) {
        keyboard_names(paths.drop_last()).push(paths.last())
    } else {
        keyboard_names(paths.drop_last())
    }
}

/// Tells whether a device path names a keyboard.
pub fn is_keyboard_path(path: &str) -> (yes: bool)
    ensures
        yes == is_keyboard_name(path@),
{
    let n = path.unicode_len();
    n >= 3 && path.get_char(n - 3) == 'k' && path.get_char(n - 2) == 'b' && path.get_char(n - 1)
        == 'd'
}

/// Keeps the keyboard paths of a directory listing, in the listing's order.
pub fn get_keyboard_file_descriptors(all_input_fds: &Vec<String>) -> (keyboard_fds: Vec<String>)
    ensures
        names_of(keyboard_fds@) == keyboard_names(names_of(all_input_fds@)),
{
    let mut keyboard_fds: Vec<String> = Vec::new();
    let mut i: usize = 0;
    assert(names_of(all_input_fds@.take(0)) =~= Seq::<Seq<char>>::empty());
    assert(names_of(keyboard_fds@) =~= Seq::<Seq<char>>::empty());
    while i < all_input_fds.len()
        invariant
            i <= all_input_fds@.len(),
            names_of(keyboard_fds@) == keyboard_names(names_of(all_input_fds@.take(i as int))),
        decreases all_input_fds@.len() - i,
    {
        let ghost before = names_of(all_input_fds@.take(i as int));
        let ghost now = names_of(all_input_fds@.take(i + 1));
        let ghost kept = names_of(keyboard_fds@);
        assert(now.drop_last() =~= before);
        assert(now.last() == all_input_fds@[i as int]@);
        if is_keyboard_path(all_input_fds[i].as_str()) {
            keyboard_fds.push(all_input_fds[i].clone());
            assert(names_of(keyboard_fds@) =~= kept.push(all_input_fds@[i as int]@));
        }
        i = i + 1;
    }
    assert(all_input_fds@.take(i as int) =~= all_input_fds@);
    keyboard_fds
}

} // verus!
