//! The `flow_controller.v1` wire messages: `Downlink` (backend to device),
//! `Uplink` (device to backend) and the shared `ValveState` enum, with their
//! protobuf decoding, encoding and size computation.

use crate::wire::{
    int32_at, int32_bytes, int32_size, lemma_int32_round_trip, lemma_int32_size,
    lemma_one_byte_varint, lemma_varint_bytes_small, lemma_wire_lengths, pb_decode_int32, pb_decode_tag, pb_encode_int32, pb_encode_varint32,
    pb_sizeof_int32, pb_skip_wire_value, skip_error, skip_len, tag_at, varint_bytes, varint_error,
    varint_len, WireError,
};
use vstd::prelude::*;

verus! {

/// State of (or desired state of) the irrigation valve, as the protobuf
/// enum value on the wire. Values other than the named ones are kept as they
/// came.
#[derive(Debug, Clone, Copy, PartialEq, Eq, Hash, Structural)]
pub struct ValveState(pub i32);

impl ValveState {
    /// Maximum encoded size of the enum.
    pub const _MAX_SIZE: usize = 10usize;

    /// Field unset / no known state.
    #[allow(non_snake_case)]
    pub fn Unspecified() -> (v: ValveState)
        ensures
            v.0 == 0,
    {
        ValveState(0)
    }

    /// The valve is (or should be) open.
    #[allow(non_snake_case)]
    pub fn Open() -> (v: ValveState)
        ensures
            v.0 == 1,
    {
        ValveState(1)
    }

    /// The valve is (or should be) closed.
    #[allow(non_snake_case)]
    pub fn Closed() -> (v: ValveState)
        ensures
            v.0 == 2,
    {
        ValveState(2)
    }

    /// The device does not know the valve's position.
    #[allow(non_snake_case)]
    pub fn Unknown() -> (v: ValveState)
        ensures
            v.0 == 3,
    {
        ValveState(3)
    }
}

impl Default for ValveState {
    fn default() -> (v: Self)
        ensures
            v.0 == 0,
    {
        ValveState(0)
    }
}

impl From<i32> for ValveState {
    fn from(val: i32) -> (v: Self) {
        ValveState(val)
    }
}

impl vstd::std_specs::convert::FromSpecImpl<i32> for ValveState {
    open spec fn obeys_from_spec() -> bool {
        true
    }

    open spec fn from_spec(val: i32) -> Self {
        ValveState(val)
    }
}

// ----------------------------------------------------------------------------
// What the two messages look like on the wire.

/// Bytes of one `int32` field with the given tag varint, or nothing for the
/// default value `0` (proto3 implicit presence).
pub open spec fn field_bytes(tag: nat, value: i32) -> Seq<u8> {
    if value != 0 {
        varint_bytes(tag) + int32_bytes(value)
    } else {
        Seq::empty()
    }
}

/// Encoding of a `Downlink` whose `desired_state` is `desired`.
pub open spec fn downlink_bytes(desired: i32) -> Seq<u8> {
    field_bytes(8, desired)
}

/// Encoding of an `Uplink`: field 1 (`current_state`), then field 2
/// (`last_commanded_state`).
pub open spec fn uplink_bytes(current: i32, last_commanded: i32) -> Seq<u8> {
    field_bytes(8, current) + field_bytes(16, last_commanded)
}

/// Encoded size of one `int32` field: one tag byte plus the value.
pub open spec fn field_size(value: i32) -> nat {
    if value != 0 {
        1 + int32_size(value)
    } else {
        0
    }
}

/// Merging the fields of a `Downlink` encoding into the value `acc`.
///
/// `rest` is the input from the current field on and `budget` the number of
/// message bytes not yet read. The result says whether decoding succeeded
/// and gives `desired_state` after the fields read so far (a failed decode
/// keeps the fields merged before the failure, and the error says why).
/// Field 1 is read as an
/// `int32` whatever its wire type, and a `0` leaves the value as it was;
/// field 0 is an error; other fields are skipped by wire type.
pub open spec fn downlink_merge(rest: Seq<u8>, budget: int, acc: i32) -> (Result<(), WireError>, i32)
    decreases rest.len(),
{
    if budget <= 0 {
        (Ok::<(), WireError>(()), acc)
    } else {
        match tag_at(rest) {
            None => (Err(varint_error(rest)), acc),
            Some((field, wire, n)) => {
                proof {
                    lemma_wire_lengths(rest, wire);
                    lemma_wire_lengths(rest.skip(n as int), wire);
                }
                if field == 0 {
                    (Err(WireError::ZeroField), acc)
                } else if field == 1 {
                    match int32_at(rest.skip(n as int)) {
                        None => (Err(varint_error(rest.skip(n as int))), acc),
                        Some((v, m)) => downlink_merge(
                            rest.skip((n + m) as int),
                            budget - (n + m),
                            if v != 0 {
                                v
                            } else {
                                acc
                            },
                        ),
                    }
                } else {
                    match skip_len(rest.skip(n as int), wire) {
                        None => (Err(skip_error(rest.skip(n as int), wire)), acc),
                        Some(m) => downlink_merge(rest.skip((n + m) as int), budget - (n + m), acc),
                    }
                }
            },
        }
    }
}

/// Merging the fields of an `Uplink` encoding into `(current, last)`, as
/// [`downlink_merge`] does with fields 1 and 2.
pub open spec fn uplink_merge(rest: Seq<u8>, budget: int, current: i32, last: i32) -> (
    Result<(), WireError>,
    i32,
    i32,
)
    decreases rest.len(),
{
    if budget <= 0 {
        (Ok::<(), WireError>(()), current, last)
    } else {
        match tag_at(rest) {
            None => (Err(varint_error(rest)), current, last),
            Some((field, wire, n)) => {
                proof {
                    lemma_wire_lengths(rest, wire);
                    lemma_wire_lengths(rest.skip(n as int), wire);
                }
                if field == 0 {
                    (Err(WireError::ZeroField), current, last)
                } else if field == 1 || field == 2 {
                    match int32_at(rest.skip(n as int)) {
                        None => (Err(varint_error(rest.skip(n as int))), current, last),
                        Some((v, m)) => uplink_merge(
                            rest.skip((n + m) as int),
                            budget - (n + m),
                            if field == 1 && v != 0 {
                                v
                            } else {
                                current
                            },
                            if field == 2 && v != 0 {
                                v
                            } else {
                                last
                            },
                        ),
                    }
                } else {
                    match skip_len(rest.skip(n as int), wire) {
                        None => (Err(skip_error(rest.skip(n as int), wire)), current, last),
                        Some(m) => uplink_merge(
                            rest.skip((n + m) as int),
                            budget - (n + m),
                            current,
                            last,
                        ),
                    }
                }
            },
        }
    }
}

/// Appends the first `10 - unwritten` bytes of `scratch` to `out`.
fn append_written(out: &mut Vec<u8>, scratch: &[u8; 10], unwritten: usize)
    requires
        unwritten <= 10,
    ensures
        final(out)@ == old(out)@ + scratch@.take(10 - unwritten),
{
    let n: usize = 10 - unwritten;
    let mut i: usize = 0;
    while i < n
        invariant
            n == 10 - unwritten,
            i <= n,
            out@ == old(out)@ + scratch@.take(i as int),
        decreases n - i,
    {
        out.push(scratch[i]);
        assert(scratch@.take(i + 1) == scratch@.take(i as int).push(scratch@[i as int]));
        i = i + 1;
    }
}

/// Appends one `int32` field (tag varint, then value) to `out` unless the
/// value is `0`.
fn encode_int32_field(out: &mut Vec<u8>, tag: u32, value: i32)
    ensures
        final(out)@ == old(out)@ + field_bytes(tag as nat, value),
{
    if value != 0 {
        let (_, tag_buf, tag_rest) = pb_encode_varint32(tag);
        append_written(out, &tag_buf, tag_rest);
        let (_, val_buf, val_rest) = pb_encode_int32(value);
        append_written(out, &val_buf, val_rest);
        assert(final(out)@ == old(out)@ + field_bytes(tag as nat, value)) by {
            assert(old(out)@ + varint_bytes(tag as nat) + int32_bytes(value) == old(out)@ + (
            varint_bytes(tag as nat) + int32_bytes(value)));
        }
    } else {
        assert(old(out)@ + Seq::<u8>::empty() == old(out)@);
    }
}

/// Size of one `int32` field: a one-byte tag plus micropb's size of the
/// value, or nothing for `0`.
fn int32_field_size(value: i32) -> (n: usize)
    ensures
        n == field_size(value),
{
    if value != 0 {
        1 + pb_sizeof_int32(value)
    } else {
        0
    }
}

/// Sent by the backend on each Class-A poll. The device executes
/// `desired_state` and reports the result in the next Uplink. Backend sends
/// OPEN or CLOSED; an unset (UNSPECIFIED) desired_state is ignored.
#[derive(Debug, PartialEq, Clone, Copy)]
pub struct Downlink {
    pub desired_state: ValveState,
}

impl Default for Downlink {
    fn default() -> (d: Self)
        ensures
            d.desired_state.0 == 0,
    {
        Downlink { desired_state: ValveState(0) }
    }
}

impl Downlink {
    /// Largest encoding of a `Downlink`: a tag byte and a ten-byte `int32`.
    pub const MAX_SIZE: usize = 11;

    /// Return a reference to `desired_state`.
    pub fn desired_state(&self) -> (r: &ValveState)
        ensures
            *r == self.desired_state,
    {
        &self.desired_state
    }

    /// Return a mutable reference to `desired_state`.
    pub fn mut_desired_state(&mut self) -> (r: &mut ValveState)
        ensures
            *r == old(self).desired_state,
            final(self).desired_state == *final(r),
    {
        &mut self.desired_state
    }

    /// Set the value of `desired_state`.
    pub fn set_desired_state(&mut self, value: ValveState) -> (r: &mut Self)
        ensures
            *r == (Downlink { desired_state: value }),
            *final(self) == *final(r),
    {
        self.desired_state = value;
        self
    }

    /// Builder method that sets the value of `desired_state`.
    pub fn init_desired_state(self, value: ValveState) -> (r: Self)
        ensures
            r.desired_state == value,
    {
        let mut m = self;
        m.desired_state = value;
        m
    }

    /// Decodes `len` bytes of a `Downlink` encoding from the start of
    /// `bytes` and merges them into `self`.
    pub fn decode(&mut self, bytes: &[u8], len: usize) -> (r: Result<(), WireError>)
        ensures
            r == downlink_merge(bytes@, len as int, old(self).desired_state.0).0,
            final(self).desired_state.0 == downlink_merge(
                bytes@,
                len as int,
                old(self).desired_state.0,
            ).1,
    {
        let ghost start = self.desired_state.0;
        let mut pos: usize = 0;
        let total: usize = bytes.len();
        assert(bytes@.skip(0) == bytes@);
        while pos < len
            invariant
                total == bytes@.len(),
                start == old(self).desired_state.0,
                pos <= bytes@.len(),
                downlink_merge(bytes@, len as int, start) == downlink_merge(
                    bytes@.skip(pos as int),
                    len - pos,
                    self.desired_state.0,
                ),
            decreases bytes@.len() - pos,
        {
            let ghost rest = bytes@.skip(pos as int);
            let (field, wire, n) = match pb_decode_tag(bytes, pos) {
                Ok(t) => t,
                Err(e) => {
                    return Err(e);
                },
            };
            proof {
                lemma_wire_lengths(rest, wire);
                assert(rest.len() == bytes@.len() - pos);
                assert(pos + n <= bytes@.len());
                assert(bytes@.skip(pos + n) == rest.skip(n as int));
                lemma_wire_lengths(rest.skip(n as int), wire);
            }
            if field == 0 {
                return Err(WireError::ZeroField);
            } else if field == 1 {
                let (v, m) = match pb_decode_int32(bytes, pos + n) {
                    Ok(x) => x,
                    Err(e) => {
                        return Err(e);
                    },
                };
                if v != 0 {
                    self.desired_state = ValveState(v);
                }
                assert(bytes@.skip(pos + n + m) == rest.skip((n + m) as int));
                pos = pos + n + m;
            } else {
                let m = match pb_skip_wire_value(bytes, pos + n, wire) {
                    Ok(m) => m,
                    Err(e) => {
                        return Err(e);
                    },
                };
                assert(bytes@.skip(pos + n + m) == rest.skip((n + m) as int));
                pos = pos + n + m;
            }
        }
        Ok(())
    }

    /// Appends the encoding of this message to `out`.
    pub fn encode(&self, out: &mut Vec<u8>)
        ensures
            final(out)@ == old(out)@ + downlink_bytes(self.desired_state.0),
    {
        encode_int32_field(out, 8, self.desired_state.0);
    }

    /// Number of bytes that [`encode`](Self::encode) appends.
    pub fn compute_size(&self) -> (n: usize)
        ensures
            n == field_size(self.desired_state.0),
            n <= Self::MAX_SIZE,
    {
        int32_field_size(self.desired_state.0)
    }
}

/// Sent by the device on each scheduled uplink. `current_state` is what the
/// device believes the physical valve is in right now;
/// `last_commanded_state` is the most recent state the backend asked for.
/// They diverge while a command is in flight or if actuation failed.
#[derive(Debug, PartialEq, Clone, Copy)]
pub struct Uplink {
    pub current_state: ValveState,
    pub last_commanded_state: ValveState,
}

impl Default for Uplink {
    fn default() -> (u: Self)
        ensures
            u.current_state.0 == 0,
            u.last_commanded_state.0 == 0,
    {
        Uplink { current_state: ValveState(0), last_commanded_state: ValveState(0) }
    }
}

impl Uplink {
    /// Largest encoding of an `Uplink`: two fields of a tag byte and a
    /// ten-byte `int32` each.
    pub const MAX_SIZE: usize = 22;

    /// Return a reference to `current_state`.
    pub fn current_state(&self) -> (r: &ValveState)
        ensures
            *r == self.current_state,
    {
        &self.current_state
    }

    /// Return a mutable reference to `current_state`.
    pub fn mut_current_state(&mut self) -> (r: &mut ValveState)
        ensures
            *r == old(self).current_state,
            final(self).current_state == *final(r),
            final(self).last_commanded_state == old(self).last_commanded_state,
    {
        &mut self.current_state
    }

    /// Set the value of `current_state`.
    pub fn set_current_state(&mut self, value: ValveState) -> (r: &mut Self)
        ensures
            *r == (Uplink { current_state: value, ..*old(self) }),
            *final(self) == *final(r),
    {
        self.current_state = value;
        self
    }

    /// Builder method that sets the value of `current_state`.
    pub fn init_current_state(self, value: ValveState) -> (r: Self)
        ensures
            r == (Uplink { current_state: value, ..self }),
    {
        let mut m = self;
        m.current_state = value;
        m
    }

    /// Return a reference to `last_commanded_state`.
    pub fn last_commanded_state(&self) -> (r: &ValveState)
        ensures
            *r == self.last_commanded_state,
    {
        &self.last_commanded_state
    }

    /// Return a mutable reference to `last_commanded_state`.
    pub fn mut_last_commanded_state(&mut self) -> (r: &mut ValveState)
        ensures
            *r == old(self).last_commanded_state,
            final(self).last_commanded_state == *final(r),
            final(self).current_state == old(self).current_state,
    {
        &mut self.last_commanded_state
    }

    /// Set the value of `last_commanded_state`.
    pub fn set_last_commanded_state(&mut self, value: ValveState) -> (r: &mut Self)
        ensures
            *r == (Uplink { last_commanded_state: value, ..*old(self) }),
            *final(self) == *final(r),
    {
        self.last_commanded_state = value;
        self
    }

    /// Builder method that sets the value of `last_commanded_state`.
    pub fn init_last_commanded_state(self, value: ValveState) -> (r: Self)
        ensures
            r == (Uplink { last_commanded_state: value, ..self }),
    {
        let mut m = self;
        m.last_commanded_state = value;
        m
    }

    /// Decodes `len` bytes of an `Uplink` encoding from the start of `bytes`
    /// and merges them into `self`.
    pub fn decode(&mut self, bytes: &[u8], len: usize) -> (r: Result<(), WireError>)
        ensures
            ({
                let merged = uplink_merge(
                    bytes@,
                    len as int,
                    old(self).current_state.0,
                    old(self).last_commanded_state.0,
                );
                &&& r == merged.0
                &&& final(self).current_state.0 == merged.1
                &&& final(self).last_commanded_state.0 == merged.2
            }),
    {
        let ghost start_current = self.current_state.0;
        let ghost start_last = self.last_commanded_state.0;
        let mut pos: usize = 0;
        let total: usize = bytes.len();
        assert(bytes@.skip(0) == bytes@);
        while pos < len
            invariant
                total == bytes@.len(),
                start_current == old(self).current_state.0,
                start_last == old(self).last_commanded_state.0,
                pos <= bytes@.len(),
                uplink_merge(bytes@, len as int, start_current, start_last) == uplink_merge(
                    bytes@.skip(pos as int),
                    len - pos,
                    self.current_state.0,
                    self.last_commanded_state.0,
                ),
            decreases bytes@.len() - pos,
        {
            let ghost rest = bytes@.skip(pos as int);
            let (field, wire, n) = match pb_decode_tag(bytes, pos) {
                Ok(t) => t,
                Err(e) => {
                    return Err(e);
                },
            };
            proof {
                lemma_wire_lengths(rest, wire);
                assert(rest.len() == bytes@.len() - pos);
                assert(pos + n <= bytes@.len());
                assert(bytes@.skip(pos + n) == rest.skip(n as int));
                lemma_wire_lengths(rest.skip(n as int), wire);
            }
            if field == 0 {
                return Err(WireError::ZeroField);
            } else if field == 1 || field == 2 {
                let (v, m) = match pb_decode_int32(bytes, pos + n) {
                    Ok(x) => x,
                    Err(e) => {
                        return Err(e);
                    },
                };
                if v != 0 {
                    if field == 1 {
                        self.current_state = ValveState(v);
                    } else {
                        self.last_commanded_state = ValveState(v);
                    }
                }
                assert(bytes@.skip(pos + n + m) == rest.skip((n + m) as int));
                pos = pos + n + m;
            } else {
                let m = match pb_skip_wire_value(bytes, pos + n, wire) {
                    Ok(m) => m,
                    Err(e) => {
                        return Err(e);
                    },
                };
                assert(bytes@.skip(pos + n + m) == rest.skip((n + m) as int));
                pos = pos + n + m;
            }
        }
        Ok(())
    }

    /// Appends the encoding of this message to `out`.
    pub fn encode(&self, out: &mut Vec<u8>)
        ensures
            final(out)@ == old(out)@ + uplink_bytes(
                self.current_state.0,
                self.last_commanded_state.0,
            ),
    {
        let ghost start = out@;
        encode_int32_field(out, 8, self.current_state.0);
        encode_int32_field(out, 16, self.last_commanded_state.0);
        assert(out@ == start + uplink_bytes(self.current_state.0, self.last_commanded_state.0))
            by {
            assert(start + field_bytes(8, self.current_state.0) + field_bytes(
                16,
                self.last_commanded_state.0,
            ) == start + (field_bytes(8, self.current_state.0) + field_bytes(
                16,
                self.last_commanded_state.0,
            )));
        }
    }

    /// Number of bytes that [`encode`](Self::encode) appends.
    pub fn compute_size(&self) -> (n: usize)
        ensures
            n == field_size(self.current_state.0) + field_size(self.last_commanded_state.0),
            n <= Self::MAX_SIZE,
    {
        let a = int32_field_size(self.current_state.0);
        let b = int32_field_size(self.last_commanded_state.0);
        a + b
    }
}

/// No message is larger than its `MAX_SIZE`.
pub proof fn lemma_max_size(current: i32, last: i32)
    ensures
        field_size(current) <= Downlink::MAX_SIZE,
        uplink_bytes(current, last).len() <= Uplink::MAX_SIZE,
        downlink_bytes(current).len() <= Downlink::MAX_SIZE,
{
    lemma_size_matches_encoding(current, last);
}

/// The size a message reports is the length of its encoding.
pub proof fn lemma_size_matches_encoding(current: i32, last: i32)
    ensures
        field_size(current) == field_bytes(8, current).len(),
        uplink_bytes(current, last).len() == field_size(current) + field_size(last),
        downlink_bytes(current).len() == field_size(current),
{
    lemma_int32_size(current);
    lemma_int32_size(last);
    lemma_varint_bytes_small(8);
    lemma_varint_bytes_small(16);
}

/// Shape of one encoded `int32` field whose tag byte is `tag_byte`: the tag
/// reads as field `tag_byte / 8` with wire type 0, the value reads back, and
/// after it comes `tail`.
proof fn lemma_field_reads_back(tag_byte: u8, value: i32, tail: Seq<u8>)
    requires
        tag_byte == 8 || tag_byte == 16,
        value != 0,
    ensures
        ({
            let s = field_bytes(tag_byte as nat, value) + tail;
            let n = int32_bytes(value).len();
            &&& tag_at(s) == Some(((tag_byte / 8) as u32, 0u8, 1nat))
            &&& int32_at(s.skip(1)) == Some((value, n))
            &&& skip_len(s.skip(1), 0) == Some(n)
            &&& s.skip((1 + n) as int) == tail
            &&& s.len() == 1 + n + tail.len()
        }),
{
    let s = field_bytes(tag_byte as nat, value) + tail;
    lemma_varint_bytes_small(tag_byte as nat);
    assert(s[0] == tag_byte);
    lemma_one_byte_varint(s);
    assert(s.skip(1) == int32_bytes(value) + tail);
    lemma_int32_round_trip(value, tail);
    let n = int32_bytes(value).len();
    let v = if value >= 0 {
        value as nat
    } else {
        (value + crate::wire::two_pow_64()) as nat
    };
    crate::wire::lemma_varint32_round_trip(v, tail);
    crate::wire::lemma_varint_len_of_bytes(v, tail, 10);
    assert(varint_len(s.skip(1)) == Some(n));
    assert(s.skip((1 + n) as int) == tail);
}

/// Decoding the encoding of an `Uplink` into a default message gives back
/// both of its fields.
pub proof fn lemma_uplink_round_trip(current: i32, last: i32)
    ensures
        uplink_merge(
            uplink_bytes(current, last),
            uplink_bytes(current, last).len() as int,
            0,
            0,
        ) == (Ok::<(), WireError>(()), current, last),
{
    let f2 = field_bytes(16, last);
    let s = uplink_bytes(current, last);
    if last != 0 {
        lemma_field_reads_back(16, last, Seq::empty());
        assert(f2 + Seq::<u8>::empty() == f2);
        let n = int32_bytes(last).len();
        assert(uplink_merge(f2.skip((1 + n) as int), 0, current, last) == (Ok::<(), WireError>(()), current, last));
        assert(uplink_merge(f2, f2.len() as int, current, 0) == (Ok::<(), WireError>(()), current, last));
    } else {
        assert(f2 == Seq::<u8>::empty());
        assert(uplink_merge(f2, f2.len() as int, current, 0) == (Ok::<(), WireError>(()), current, last));
    }
    if current != 0 {
        lemma_field_reads_back(8, current, f2);
    } else {
        assert(s == f2);
    }
}

/// Decoding the encoding of a `Downlink` into a default message gives back
/// its `desired_state`.
pub proof fn lemma_downlink_round_trip(desired: i32)
    ensures
        downlink_merge(downlink_bytes(desired), downlink_bytes(desired).len() as int, 0) == (
            Ok::<(), WireError>(()),
            desired,
        ),
{
    let s = downlink_bytes(desired);
    if desired != 0 {
        lemma_field_reads_back(8, desired, Seq::empty());
        assert(s + Seq::<u8>::empty() == s);
        let n = int32_bytes(desired).len();
        assert(downlink_merge(s.skip((1 + n) as int), 0, desired) == (Ok::<(), WireError>(()), desired));
    }
}

/// An `Uplink` read as a `Downlink` gives its `current_state`: both put the
/// state in field 1, and the `Downlink` skips the unknown field 2.
pub proof fn lemma_uplink_reads_as_downlink(current: i32, last: i32)
    ensures
        downlink_merge(uplink_bytes(current, last), uplink_bytes(current, last).len() as int, 0)
            == (Ok::<(), WireError>(()), current),
{
    let f2 = field_bytes(16, last);
    let s = uplink_bytes(current, last);
    if last != 0 {
        lemma_field_reads_back(16, last, Seq::empty());
        assert(f2 + Seq::<u8>::empty() == f2);
        let n = int32_bytes(last).len();
        assert(downlink_merge(f2.skip((1 + n) as int), 0, current) == (Ok::<(), WireError>(()), current));
        assert(downlink_merge(f2, f2.len() as int, current) == (Ok::<(), WireError>(()), current));
    } else {
        assert(f2 == Seq::<u8>::empty());
        assert(downlink_merge(f2, f2.len() as int, current) == (Ok::<(), WireError>(()), current));
    }
    if current != 0 {
        lemma_field_reads_back(8, current, f2);
    } else {
        assert(s == f2);
    }
}

} // verus!
