//! Output encoding: every key event goes out as its record followed by one
//! synchronization record, appended to the byte stream of the synthetic
//! device.

use vstd::prelude::*;
use crate::codec::{RawEvent, TimeStamp, EVENT_RECORD_LEN};
use crate::codec::{key_record, raw_bytes, raw_of, sync_record, write_raw, lemma_raw_round_trip};
use crate::keys::{KeyCode, KeyEvent, KeyValue, EV_KEY, EV_SYN, SYN_REPORT};
use crate::keys::key_value_raw;

verus! {

/// The time written into emitted records: it is not tracked.
pub open spec fn zero_time() -> TimeStamp {
    TimeStamp { sec: 0, usec: 0 }
}

/// The bytes that emitting one record of any class appends: the record, then
/// the synchronization record.
pub open spec fn event_bytes(kind: u16, code: u16, value: i32) -> Seq<u8> {
    raw_bytes(RawEvent { time: zero_time(), kind, code, value }) + raw_bytes(sync_record())
}

/// The bytes that emitting one key event appends: its record, then the
/// synchronization record.
pub open spec fn key_bytes(event: KeyEvent) -> Seq<u8> {
    raw_bytes(key_record(event.code, event.value, zero_time())) + raw_bytes(sync_record())
}

/// The bytes that emitting a run of key events appends, in their order.
pub open spec fn wire(events: Seq<KeyEvent>) -> Seq<u8>
    decreases events.len(),
{
    if events.len() == 0 {
        Seq::empty()
    } else {
        wire(events.drop_last()) + key_bytes(events.last())
    }
}

/// One event of the given state for each code, in the codes' order.
pub open spec fn presses(codes: Seq<KeyCode>, value: KeyValue) -> Seq<KeyEvent> {
    Seq::new(codes.len(), |i: int| KeyEvent { code: codes[i], value })
}

/// A toggle burst: every code pressed in order, then every code released in
/// order.
pub open spec fn toggle(codes: Seq<KeyCode>) -> Seq<KeyEvent> {
    presses(codes, KeyValue::On) + presses(codes, KeyValue::Off)
}

/// The bytes of two runs of events are the bytes of the first followed by
/// those of the second.
pub proof fn lemma_wire_concat(a: Seq<KeyEvent>, b: Seq<KeyEvent>)
    ensures
        wire(a + b) == wire(a) + wire(b),
    decreases b.len(),
{
    if b.len() == 0 {
        assert(a + b =~= a);
        assert(wire(a) + wire(b) =~= wire(a));
    } else {
        lemma_wire_concat(a, b.drop_last());
        assert((a + b).drop_last() =~= a + b.drop_last());
        assert((a + b).last() == b.last());
        assert(wire(a + b) =~= wire(a) + wire(b));
    }
}

/// A single event's bytes are its record and the synchronization record.
pub proof fn lemma_wire_one(event: KeyEvent)
    ensures
        wire(seq![event]) == key_bytes(event),
{
    let s = seq![event];
    assert(s.drop_last() =~= Seq::<KeyEvent>::empty());
    assert(wire(s.drop_last()) =~= Seq::<u8>::empty());
    assert(wire(s) =~= key_bytes(event));
}

/// Every emitted key event is exactly two records on the wire: the first
/// decodes to the event's own record, the second to the synchronization
/// record, whose value is zero.
pub proof fn lemma_sync_companion(event: KeyEvent)
    ensures
        key_bytes(event).len() == 2 * EVENT_RECORD_LEN,
        raw_of(key_bytes(event).subrange(0, 24)) == key_record(
            event.code,
            event.value,
            zero_time(),
        ),
        raw_of(key_bytes(event).subrange(24, 48)) == sync_record(),
        sync_record().kind == EV_SYN,
        sync_record().value == 0,
{
    let first = key_record(event.code, event.value, zero_time());
    lemma_raw_round_trip(first);
    lemma_raw_round_trip(sync_record());
    assert(key_bytes(event).subrange(0, 24) =~= raw_bytes(first));
    assert(key_bytes(event).subrange(24, 48) =~= raw_bytes(sync_record()));
}

/// A run of events takes two records for each event.
pub proof fn lemma_wire_len(events: Seq<KeyEvent>)
    ensures
        wire(events).len() == 2 * EVENT_RECORD_LEN * events.len(),
    decreases events.len(),
{
    if events.len() > 0 {
        lemma_wire_len(events.drop_last());
        lemma_sync_companion(events.last());
    }
}

/// Appends one record to the output stream.
pub fn emit_input_event(out: &mut Vec<u8>, input_event: RawEvent)
    ensures
        final(out)@ == old(out)@ + raw_bytes(input_event),
{
    write_raw(out, &input_event);
}

/// Appends a record of the given class, code and value, stamped with the
/// zero time, and the synchronization record after it.
pub fn emit_event(out: &mut Vec<u8>, kind: u16, code: u16, value: i32)
    ensures
        final(out)@ == old(out)@ + event_bytes(kind, code, value),
{
    let key_input_event = RawEvent { time: TimeStamp { sec: 0, usec: 0 }, kind, code, value };
    let sync_input_event = RawEvent {
        time: TimeStamp { sec: 0, usec: 0 },
        kind: EV_SYN,
        code: SYN_REPORT,
        value: 0,
    };
    emit_input_event(out, key_input_event);
    emit_input_event(out, sync_input_event);
    assert(out@ =~= old(out)@ + event_bytes(kind, code, value));
}

/// Emits one key event: its record, then the synchronization record.
pub fn emit_key(out: &mut Vec<u8>, key_code: KeyCode, value: KeyValue)
    ensures
        final(out)@ == old(out)@ + key_bytes(KeyEvent { code: key_code, value }),
        final(out)@.len() == old(out)@.len() + 2 * EVENT_RECORD_LEN,
{
    let event_value = key_value_raw(value);
    emit_event(out, EV_KEY, key_code, event_value);
    proof {
        lemma_sync_companion(KeyEvent { code: key_code, value });
    }
}

fn emit_codes(out: &mut Vec<u8>, codes: &[KeyCode], value: KeyValue)
    ensures
        final(out)@ == old(out)@ + wire(presses(codes@, value)),
{
    let mut i: usize = 0;
    assert(presses(codes@.take(0), value) =~= Seq::<KeyEvent>::empty());
    assert(out@ =~= old(out)@ + wire(presses(codes@.take(0), value)));
    while i < codes.len()
        invariant
            i <= codes@.len(),
            out@ == old(out)@ + wire(presses(codes@.take(i as int), value)),
        decreases codes@.len() - i,
    {
        let key_code = codes[i];
        emit_key(out, key_code, value);
        proof {
            let before = presses(codes@.take(i as int), value);
            let after = presses(codes@.take(i + 1), value);
            assert(after.drop_last() =~= before);
            assert(after.last() == KeyEvent { code: key_code, value });
            assert(out@ =~= old(out)@ + wire(after));
        }
        i = i + 1;
    }
    assert(codes@.take(i as int) =~= codes@);
}

/// Emits the same state for every code of a list, in the list's order.
pub fn emit_key_sequence(out: &mut Vec<u8>, key_code_list: Vec<KeyCode>, value: KeyValue)
    ensures
        final(out)@ == old(out)@ + wire(presses(key_code_list@, value)),
{
    emit_codes(out, key_code_list.as_slice(), value);
}

/// Emits a toggle burst: a press for every code of a list in order, then a
/// release for every code in order.
pub fn emit_key_sequence_toggle(out: &mut Vec<u8>, key_code_list: Vec<KeyCode>)
    ensures
        final(out)@ == old(out)@ + wire(toggle(key_code_list@)),
{
    emit_codes(out, key_code_list.as_slice(), KeyValue::On);
    emit_codes(out, key_code_list.as_slice(), KeyValue::Off);
    proof {
        lemma_wire_concat(
            presses(key_code_list@, KeyValue::On),
            presses(key_code_list@, KeyValue::Off),
        );
        assert(out@ =~= old(out)@ + wire(toggle(key_code_list@)));
    }
}

} // verus!
