//! The binary layout of kernel input records and of the registration record
//! of a synthetic device, as used on 64-bit little-endian Linux.
//!
//! An input record is 24 bytes: seconds (signed, 8 bytes), microseconds
//! (signed, 8 bytes), event class (2 bytes), code (2 bytes), value (signed,
//! 4 bytes). Every field is little-endian; signed fields are two's complement.

use vstd::prelude::*;
use crate::keys::{KeyCode, KeyEvent, KeyValue, EV_KEY, EV_SYN, SYN_REPORT};
use crate::keys::{key_value_of, key_value_number, get_key_value, key_value_raw};

verus! {

/// Length in bytes of one input record.
pub const EVENT_RECORD_LEN: usize = 24;

/// Width in bytes of the name field of a registration record.
pub const NAME_FIELD_LEN: usize = 80;

/// Length in bytes of a registration record.
pub const DESCRIPTOR_LEN: usize = 1116;

/// Time of an event: whole seconds and the microseconds beyond them.
#[derive(Clone, Copy, Debug, PartialEq, Eq, Structural)]
pub struct TimeStamp {
    pub sec: i64,
    pub usec: i64,
}

/// One input record with its fields named.
#[derive(Clone, Copy, Debug, PartialEq, Eq, Structural)]
pub struct RawEvent {
    pub time: TimeStamp,
    pub kind: u16,
    pub code: u16,
    pub value: i32,
}

/// The two bytes of a 16-bit field, low byte first.
pub open spec fn u16_le(x: u16) -> Seq<u8> {
    seq![(x % 256) as u8, (x / 256) as u8]
}

/// The four bytes of a 32-bit field, low byte first.
pub open spec fn u32_le(x: u32) -> Seq<u8> {
    seq![
        (x % 256) as u8,
        (x / 0x100 % 256) as u8,
        (x / 0x1_0000 % 256) as u8,
        (x / 0x100_0000) as u8,
    ]
}

/// The eight bytes of a 64-bit field, low byte first.
pub open spec fn u64_le(x: u64) -> Seq<u8> {
    seq![
        (x % 256) as u8,
        (x / 0x100 % 256) as u8,
        (x / 0x1_0000 % 256) as u8,
        (x / 0x100_0000 % 256) as u8,
        (x / 0x1_0000_0000 % 256) as u8,
        (x / 0x100_0000_0000 % 256) as u8,
        (x / 0x1_0000_0000_0000 % 256) as u8,
        (x / 0x100_0000_0000_0000) as u8,
    ]
}

/// The 16-bit number that two bytes hold, low byte first.
pub open spec fn u16_from_le(s: Seq<u8>) -> u16
    recommends
        s.len() == 2,
{
    (s[0] as int + 0x100 * s[1] as int) as u16
}

/// The 32-bit number that four bytes hold, low byte first.
pub open spec fn u32_from_le(s: Seq<u8>) -> u32
    recommends
        s.len() == 4,
{
    (s[0] as int + 0x100 * s[1] as int + 0x1_0000 * s[2] as int + 0x100_0000 * s[3] as int) as u32
}

/// The 64-bit number that eight bytes hold, low byte first.
pub open spec fn u64_from_le(s: Seq<u8>) -> u64
    recommends
        s.len() == 8,
{
    (s[0] as int + 0x100 * s[1] as int + 0x1_0000 * s[2] as int + 0x100_0000 * s[3] as int
        + 0x1_0000_0000 * s[4] as int + 0x100_0000_0000 * s[5] as int + 0x1_0000_0000_0000
        * s[6] as int + 0x100_0000_0000_0000 * s[7] as int) as u64
}

/// Two's complement of a signed 32-bit number.
pub open spec fn twos32(v: i32) -> u32 {
    if v >= 0 {
        v as u32
    } else {
        (v + 0x1_0000_0000) as u32
    }
}

/// The signed 32-bit number that a two's complement stands for.
pub open spec fn signed32(u: u32) -> i32 {
    if u < 0x8000_0000 {
        u as i32
    } else {
        (u - 0x1_0000_0000) as i32
    }
}

/// Two's complement of a signed 64-bit number.
pub open spec fn twos64(v: i64) -> u64 {
    if v >= 0 {
        v as u64
    } else {
        (v + 0x1_0000_0000_0000_0000) as u64
    }
}

/// The signed 64-bit number that a two's complement stands for.
pub open spec fn signed64(u: u64) -> i64 {
    if u < 0x8000_0000_0000_0000 {
        u as i64
    } else {
        (u - 0x1_0000_0000_0000_0000) as i64
    }
}

/// The 24 bytes of an input record.
pub open spec fn raw_bytes(ev: RawEvent) -> Seq<u8> {
    u64_le(twos64(ev.time.sec)) + u64_le(twos64(ev.time.usec)) + u16_le(ev.kind) + u16_le(ev.code)
        + u32_le(twos32(ev.value))
}

/// The input record that 24 bytes hold.
pub open spec fn raw_of(s: Seq<u8>) -> RawEvent
    recommends
        s.len() == 24,
{
    RawEvent {
        time: TimeStamp {
            sec: signed64(u64_from_le(s.subrange(0, 8))),
            usec: signed64(u64_from_le(s.subrange(8, 16))),
        },
        kind: u16_from_le(s.subrange(16, 18)),
        code: u16_from_le(s.subrange(18, 20)),
        value: signed32(u32_from_le(s.subrange(20, 24))),
    }
}

/// The record of a key changing state at a given time.
pub open spec fn key_record(code: KeyCode, value: KeyValue, time: TimeStamp) -> RawEvent {
    RawEvent { time, kind: EV_KEY, code, value: key_value_number(value) as i32 }
}

/// The synchronization record that closes a batch: all fields zero.
pub open spec fn sync_record() -> RawEvent {
    RawEvent { time: TimeStamp { sec: 0, usec: 0 }, kind: EV_SYN, code: SYN_REPORT, value: 0 }
}

/// The key event that a record reports, if it is of the key class.
pub open spec fn key_event_of(ev: RawEvent) -> Option<KeyEvent> {
    if ev.kind == EV_KEY {
        Some(KeyEvent { code: ev.code, value: key_value_of(ev.value as int) })
    } else {
        None
    }
}

fn push_u16(out: &mut Vec<u8>, x: u16)
    ensures
        final(out)@ == old(out)@ + u16_le(x),
{
    out.push((x % 256) as u8);
    out.push((x / 256) as u8);
    assert(out@ =~= old(out)@ + u16_le(x));
}

fn push_u32(out: &mut Vec<u8>, x: u32)
    ensures
        final(out)@ == old(out)@ + u32_le(x),
{
    out.push((x % 256) as u8);
    out.push((x / 0x100 % 256) as u8);
    out.push((x / 0x1_0000 % 256) as u8);
    out.push((x / 0x100_0000) as u8);
    assert(out@ =~= old(out)@ + u32_le(x));
}

fn push_u64(out: &mut Vec<u8>, x: u64)
    ensures
        final(out)@ == old(out)@ + u64_le(x),
{
    out.push((x % 256) as u8);
    out.push((x / 0x100 % 256) as u8);
    out.push((x / 0x1_0000 % 256) as u8);
    out.push((x / 0x100_0000 % 256) as u8);
    out.push((x / 0x1_0000_0000 % 256) as u8);
    out.push((x / 0x100_0000_0000 % 256) as u8);
    out.push((x / 0x1_0000_0000_0000 % 256) as u8);
    out.push((x / 0x100_0000_0000_0000) as u8);
    assert(out@ =~= old(out)@ + u64_le(x));
}

fn to_twos32(v: i32) -> (u: u32)
    ensures
        u == twos32(v),
{
    if v >= 0 {
        v as u32
    } else {
        (v as i64 + 0x1_0000_0000) as u32
    }
}

fn to_twos64(v: i64) -> (u: u64)
    ensures
        u == twos64(v),
{
    if v >= 0 {
        v as u64
    } else {
        (v as i128 + 0x1_0000_0000_0000_0000) as u64
    }
}

fn from_twos32(u: u32) -> (v: i32)
    ensures
        v == signed32(u),
{
    if u < 0x8000_0000 {
        u as i32
    } else {
        (u as i64 - 0x1_0000_0000) as i32
    }
}

fn from_twos64(u: u64) -> (v: i64)
    ensures
        v == signed64(u),
{
    if u < 0x8000_0000_0000_0000 {
        u as i64
    } else {
        (u as i128 - 0x1_0000_0000_0000_0000) as i64
    }
}

fn read_u16(bytes: &[u8], at: usize) -> (x: u16)
    requires
        at + 2 <= bytes@.len(),
    ensures
        x == u16_from_le(bytes@.subrange(at as int, at + 2)),
{
    bytes[at] as u16 + 0x100 * (bytes[at + 1] as u16)
}

fn read_u32(bytes: &[u8], at: usize) -> (x: u32)
    requires
        at + 4 <= bytes@.len(),
    ensures
        x == u32_from_le(bytes@.subrange(at as int, at + 4)),
{
    bytes[at] as u32 + 0x100 * (bytes[at + 1] as u32) + 0x1_0000 * (bytes[at + 2] as u32)
        + 0x100_0000 * (bytes[at + 3] as u32)
}

fn read_u64(bytes: &[u8], at: usize) -> (x: u64)
    requires
        at + 8 <= bytes@.len(),
    ensures
        x == u64_from_le(bytes@.subrange(at as int, at + 8)),
{
    bytes[at] as u64 + 0x100 * (bytes[at + 1] as u64) + 0x1_0000 * (bytes[at + 2] as u64)
        + 0x100_0000 * (bytes[at + 3] as u64) + 0x1_0000_0000 * (bytes[at + 4] as u64)
        + 0x100_0000_0000 * (bytes[at + 5] as u64) + 0x1_0000_0000_0000 * (bytes[at + 6] as u64)
        + 0x100_0000_0000_0000 * (bytes[at + 7] as u64)
}

/// Appends the 24 bytes of a record to a buffer.
pub fn write_raw(out: &mut Vec<u8>, ev: &RawEvent)
    ensures
        final(out)@ == old(out)@ + raw_bytes(*ev),
{
    push_u64(out, to_twos64(ev.time.sec));
    push_u64(out, to_twos64(ev.time.usec));
    push_u16(out, ev.kind);
    push_u16(out, ev.code);
    push_u32(out, to_twos32(ev.value));
    assert(out@ =~= old(out)@ + raw_bytes(*ev));
}

/// Lays a record out as its 24 bytes.
pub fn encode_raw(ev: &RawEvent) -> (bytes: Vec<u8>)
    ensures
        bytes@ == raw_bytes(*ev),
        bytes@.len() == EVENT_RECORD_LEN,
{
    let mut bytes: Vec<u8> = Vec::new();
    write_raw(&mut bytes, ev);
    assert(bytes@ =~= raw_bytes(*ev));
    bytes
}

/// Lays out the record of a key changing state at a given time.
pub fn encode_event(code: KeyCode, value: KeyValue, time: TimeStamp) -> (bytes: Vec<u8>)
    ensures
        bytes@ == raw_bytes(key_record(code, value, time)),
        bytes@.len() == EVENT_RECORD_LEN,
{
    let ev = RawEvent { time, kind: EV_KEY, code, value: key_value_raw(value) };
    encode_raw(&ev)
}

/// Lays out the synchronization record that follows every key record.
pub fn encode_sync() -> (bytes: Vec<u8>)
    ensures
        bytes@ == raw_bytes(sync_record()),
        bytes@.len() == EVENT_RECORD_LEN,
{
    let ev = RawEvent {
        time: TimeStamp { sec: 0, usec: 0 },
        kind: EV_SYN,
        code: SYN_REPORT,
        value: 0,
    };
    encode_raw(&ev)
}

/// Reads a record from its bytes. Fails exactly when the length is not that
/// of one record.
pub fn decode_raw(bytes: &[u8]) -> (ev: Option<RawEvent>)
    ensures
        ev.is_some() <==> bytes@.len() == EVENT_RECORD_LEN,
        ev.is_some() ==> ev.unwrap() == raw_of(bytes@),
{
    if bytes.len() != EVENT_RECORD_LEN {
        return None;
    }
    let sec = from_twos64(read_u64(bytes, 0));
    let usec = from_twos64(read_u64(bytes, 8));
    let kind = read_u16(bytes, 16);
    let code = read_u16(bytes, 18);
    let value = from_twos32(read_u32(bytes, 20));
    Some(RawEvent { time: TimeStamp { sec, usec }, kind, code, value })
}

/// Reads the key event that a record's bytes report. Fails exactly when the
/// length is not that of one record or the record is not of the key class.
pub fn decode_event(bytes: &[u8]) -> (event: Option<KeyEvent>)
    ensures
        event == (if bytes@.len() == EVENT_RECORD_LEN {
            key_event_of(raw_of(bytes@))
        } else {
            None
        }),
{
    match decode_raw(bytes) {
        Some(ev) => {
            if ev.kind == EV_KEY {
                Some(KeyEvent { code: ev.code, value: get_key_value(ev.value) })
            } else {
                None
            }
        },
        None => None,
    }
}

/// The name field of a registration record: the first 80 bytes of the name,
/// then zeros up to the field's width.
pub open spec fn name_field(name: Seq<u8>) -> Seq<u8> {
    Seq::new(
        NAME_FIELD_LEN as nat,
        |i: int|
            if i < name.len() {
                name[i]
            } else {
                0u8
            },
    )
}

/// A run of zero bytes.
pub open spec fn zeros(n: nat) -> Seq<u8> {
    Seq::new(n, |i: int| 0u8)
}

/// The 1116 bytes of a registration record: the name field, the four
/// identity fields, and the force-feedback and axis fields, which a keyboard
/// leaves zero.
pub open spec fn descriptor_bytes(name: Seq<u8>, bus: u16, vendor: u16, product: u16, version: u16)
    -> Seq<u8> {
    name_field(name) + u16_le(bus) + u16_le(vendor) + u16_le(product) + u16_le(version) + zeros(
        1028,
    )
}

fn push_zeros(out: &mut Vec<u8>, n: usize)
    ensures
        final(out)@ == old(out)@ + zeros(n as nat),
{
    let mut i: usize = 0;
    while i < n
        invariant
            i <= n,
            out@ == old(out)@ + zeros(i as nat),
        decreases n - i,
    {
        out.push(0u8);
        i = i + 1;
        assert(out@ =~= old(out)@ + zeros(i as nat));
    }
}

/// Builds the registration record of a synthetic device. A name longer than
/// the name field is cut to the field's width.
pub fn build_device_descriptor(name: &[u8], bus: u16, vendor: u16, product: u16, version: u16)
    -> (bytes: Vec<u8>)
    ensures
        bytes@ == descriptor_bytes(name@, bus, vendor, product, version),
        bytes@.len() == DESCRIPTOR_LEN,
{
    let mut bytes: Vec<u8> = Vec::new();
    let mut i: usize = 0;
    while i < NAME_FIELD_LEN
        invariant
            i <= NAME_FIELD_LEN,
            bytes@.len() == i,
            forall|k: int| 0 <= k < i ==> bytes@[k] == name_field(name@)[k],
        decreases NAME_FIELD_LEN - i,
    {
        if i < name.len() {
            bytes.push(name[i]);
        } else {
            bytes.push(0u8);
        }
        i = i + 1;
    }
    assert(bytes@ =~= name_field(name@));
    push_u16(&mut bytes, bus);
    push_u16(&mut bytes, vendor);
    push_u16(&mut bytes, product);
    push_u16(&mut bytes, version);
    push_zeros(&mut bytes, 1028);
    bytes
}

/// A 16-bit field survives the trip through its bytes.
pub proof fn lemma_u16_round_trip(x: u16)
    ensures
        u16_le(x).len() == 2,
        u16_from_le(u16_le(x)) == x,
{
}

/// A 32-bit field survives the trip through its bytes.
pub proof fn lemma_u32_round_trip(x: u32)
    ensures
        u32_le(x).len() == 4,
        u32_from_le(u32_le(x)) == x,
{
}

/// Dividing by a power of 256 is dividing by 256 that many times.
proof fn lemma_byte_shifts(x: u64)
    ensures
        x / 0x1_0000 == x / 0x100 / 0x100,
        x / 0x100_0000 == x / 0x1_0000 / 0x100,
        x / 0x1_0000_0000 == x / 0x100_0000 / 0x100,
        x / 0x100_0000_0000 == x / 0x1_0000_0000 / 0x100,
        x / 0x1_0000_0000_0000 == x / 0x100_0000_0000 / 0x100,
        x / 0x100_0000_0000_0000 == x / 0x1_0000_0000_0000 / 0x100,
        x / 0x100_0000_0000_0000 < 0x100,
{
    assert(x / 0x1_0000 == x / 0x100 / 0x100) by (bit_vector);
    assert(x / 0x100_0000 == x / 0x1_0000 / 0x100) by (bit_vector);
    assert(x / 0x1_0000_0000 == x / 0x100_0000 / 0x100) by (bit_vector);
    assert(x / 0x100_0000_0000 == x / 0x1_0000_0000 / 0x100) by (bit_vector);
    assert(x / 0x1_0000_0000_0000 == x / 0x100_0000_0000 / 0x100) by (bit_vector);
    assert(x / 0x100_0000_0000_0000 == x / 0x1_0000_0000_0000 / 0x100) by (bit_vector);
    assert(x / 0x100_0000_0000_0000 < 0x100) by (bit_vector);
}

/// A 64-bit field survives the trip through its bytes.
pub proof fn lemma_u64_round_trip(x: u64)
    ensures
        u64_le(x).len() == 8,
        u64_from_le(u64_le(x)) == x,
{
    lemma_byte_shifts(x);
    let q1 = x / 0x100;
    let q2 = x / 0x1_0000;
    let q3 = x / 0x100_0000;
    let q4 = x / 0x1_0000_0000;
    let q5 = x / 0x100_0000_0000;
    let q6 = x / 0x1_0000_0000_0000;
    let q7 = x / 0x100_0000_0000_0000;
    assert(x == x % 256 + 0x100 * q1);
    assert(q1 == q1 % 256 + 0x100 * q2);
    assert(q2 == q2 % 256 + 0x100 * q3);
    assert(q3 == q3 % 256 + 0x100 * q4);
    assert(q4 == q4 % 256 + 0x100 * q5);
    assert(q5 == q5 % 256 + 0x100 * q6);
    assert(q6 == q6 % 256 + 0x100 * q7);
}

/// Eight bytes survive the trip through the 64-bit number they hold.
pub proof fn lemma_u64_bytes_round_trip(s: Seq<u8>)
    requires
        s.len() == 8,
    ensures
        u64_le(u64_from_le(s)) == s,
{
    let x = u64_from_le(s);
    lemma_byte_shifts(x);
    let t7 = s[7] as int;
    let t6 = s[6] as int + 0x100 * t7;
    let t5 = s[5] as int + 0x100 * t6;
    let t4 = s[4] as int + 0x100 * t5;
    let t3 = s[3] as int + 0x100 * t4;
    let t2 = s[2] as int + 0x100 * t3;
    let t1 = s[1] as int + 0x100 * t2;
    let t0 = s[0] as int + 0x100 * t1;
    assert(x == t0);
    assert(x / 0x100 == t1);
    assert(x / 0x1_0000 == t2);
    assert(x / 0x100_0000 == t3);
    assert(x / 0x1_0000_0000 == t4);
    assert(x / 0x100_0000_0000 == t5);
    assert(x / 0x1_0000_0000_0000 == t6);
    assert(x / 0x100_0000_0000_0000 == t7);
    assert(u64_le(x) =~= s);
}

/// Four bytes survive the trip through the 32-bit number they hold.
pub proof fn lemma_u32_bytes_round_trip(s: Seq<u8>)
    requires
        s.len() == 4,
    ensures
        u32_le(u32_from_le(s)) == s,
{
    let x = u32_from_le(s);
    let t3 = s[3] as int;
    let t2 = s[2] as int + 0x100 * t3;
    let t1 = s[1] as int + 0x100 * t2;
    let t0 = s[0] as int + 0x100 * t1;
    assert(x == t0);
    assert(x / 0x100 == t1);
    assert(x / 0x1_0000 == t2) by {
        assert(x / 0x1_0000 == x / 0x100 / 0x100) by (bit_vector);
    }
    assert(x / 0x100_0000 == t3) by {
        assert(x / 0x100_0000 == x / 0x1_0000 / 0x100) by (bit_vector);
    }
    assert(u32_le(x) =~= s);
}

/// Two bytes survive the trip through the 16-bit number they hold.
pub proof fn lemma_u16_bytes_round_trip(s: Seq<u8>)
    requires
        s.len() == 2,
    ensures
        u16_le(u16_from_le(s)) == s,
{
    assert(u16_le(u16_from_le(s)) =~= s);
}

/// Signed fields survive the trip through their two's complement.
pub proof fn lemma_signed_round_trip(a: i32, b: i64)
    ensures
        signed32(twos32(a)) == a,
        signed64(twos64(b)) == b,
{
}

/// Decoding the bytes of a record gives the record back, whatever its fields
/// hold.
pub proof fn lemma_raw_round_trip(ev: RawEvent)
    ensures
        raw_bytes(ev).len() == EVENT_RECORD_LEN,
        raw_of(raw_bytes(ev)) == ev,
{
    let s = raw_bytes(ev);
    assert(s.subrange(0, 8) =~= u64_le(twos64(ev.time.sec)));
    assert(s.subrange(8, 16) =~= u64_le(twos64(ev.time.usec)));
    assert(s.subrange(16, 18) =~= u16_le(ev.kind));
    assert(s.subrange(18, 20) =~= u16_le(ev.code));
    assert(s.subrange(20, 24) =~= u32_le(twos32(ev.value)));
    lemma_u64_round_trip(twos64(ev.time.sec));
    lemma_u64_round_trip(twos64(ev.time.usec));
    lemma_u16_round_trip(ev.kind);
    lemma_u16_round_trip(ev.code);
    lemma_u32_round_trip(twos32(ev.value));
    lemma_signed_round_trip(ev.value, ev.time.sec);
    lemma_signed_round_trip(ev.value, ev.time.usec);
}

/// Encoding the record that 24 bytes hold gives the same bytes back: no two
/// byte strings of that length stand for one record.
pub proof fn lemma_bytes_round_trip(s: Seq<u8>)
    requires
        s.len() == EVENT_RECORD_LEN,
    ensures
        raw_bytes(raw_of(s)) == s,
{
    let ev = raw_of(s);
    let a = u64_from_le(s.subrange(0, 8));
    let b = u64_from_le(s.subrange(8, 16));
    let c = u32_from_le(s.subrange(20, 24));
    assert(twos64(signed64(a)) == a);
    assert(twos64(signed64(b)) == b);
    assert(twos32(signed32(c)) == c);
    lemma_u64_bytes_round_trip(s.subrange(0, 8));
    lemma_u64_bytes_round_trip(s.subrange(8, 16));
    lemma_u16_bytes_round_trip(s.subrange(16, 18));
    lemma_u16_bytes_round_trip(s.subrange(18, 20));
    lemma_u32_bytes_round_trip(s.subrange(20, 24));
    assert(raw_bytes(ev) =~= s);
}

/// Decoding an encoded key event gives back the same code and the same
/// state, for every code, every state and every time.
pub proof fn lemma_key_event_round_trip(code: KeyCode, value: KeyValue, time: TimeStamp)
    ensures
        raw_bytes(key_record(code, value, time)).len() == EVENT_RECORD_LEN,
        key_event_of(raw_of(raw_bytes(key_record(code, value, time)))) == Some(
            KeyEvent { code, value },
        ),
{
    lemma_raw_round_trip(key_record(code, value, time));
}

/// The synchronization record is no key event, and its value is zero.
pub proof fn lemma_sync_is_no_key_event()
    ensures
        raw_of(raw_bytes(sync_record())) == sync_record(),
        key_event_of(sync_record()).is_none(),
        sync_record().value == 0,
{
    lemma_raw_round_trip(sync_record());
}

} // verus!
