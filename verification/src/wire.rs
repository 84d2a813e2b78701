//! Protobuf wire primitives: what a varint, a tag, an `int32` value and a
//! skipped field look like on the wire, and the calls into `micropb` that
//! read and write them.

use micropb::DecodeError as PbDecodeError;
use micropb::{PbDecoder, PbEncoder};
use vstd::prelude::*;

verus! {

/// Number of values a 32-bit word can hold.
pub open spec fn two_pow_32() -> int {
    0x1_0000_0000
}

/// Number of values a 64-bit word can hold.
pub open spec fn two_pow_64() -> int {
    0x1_0000_0000_0000_0000
}

/// The protobuf varint of `v`: little-endian groups of seven bits, every
/// byte but the last with its high bit set.
pub open spec fn varint_bytes(v: nat) -> Seq<u8>
    decreases v,
{
    if v < 128 {
        seq![v as u8]
    } else {
        seq![(v % 128 + 128) as u8] + varint_bytes(v / 128)
    }
}

/// The wire bytes of an `int32` value: a negative value is sign-extended to
/// 64 bits before it is written as a varint (ten bytes).
pub open spec fn int32_bytes(i: i32) -> Seq<u8> {
    if i >= 0 {
        varint_bytes(i as nat)
    } else {
        varint_bytes((i + two_pow_64()) as nat)
    }
}

/// Number of bytes that `micropb::size::sizeof_int32` reports for `i`.
pub open spec fn int32_size(i: i32) -> nat {
    if i < 0 {
        10
    } else if i <= 0x7F {
        1
    } else if i <= 0x3FFF {
        2
    } else if i <= 0x1F_FFFF {
        3
    } else if i <= 0xFFF_FFFF {
        4
    } else {
        5
    }
}

/// Length of the varint at the start of `s` when it may take at most
/// `budget` bytes: the varint ends at the first byte whose high bit is clear;
/// `None` when the input ends first or the budget runs out.
pub open spec fn varint_len_within(s: Seq<u8>, budget: nat) -> Option<nat>
    decreases budget,
{
    if budget == 0 || s.len() == 0 {
        None
    } else if s[0] < 128 {
        Some(1)
    } else {
        match varint_len_within(s.drop_first(), (budget - 1) as nat) {
            Some(n) => Some(n + 1),
            None => None,
        }
    }
}

/// Length of the varint at the start of `s`; micropb reads at most ten
/// bytes of one.
pub open spec fn varint_len(s: Seq<u8>) -> Option<nat> {
    varint_len_within(s, 10)
}

/// Value of the low seven bits of the first `k` bytes of `s`, little-endian.
pub open spec fn group_sum(s: Seq<u8>, k: nat) -> nat
    decreases k,
{
    if k == 0 || s.len() == 0 {
        0
    } else {
        (s[0] % 128) as nat + 128 * group_sum(s.drop_first(), (k - 1) as nat)
    }
}

/// The `uint32` varint at the start of `s` and its length: only the first
/// five groups count, and the value wraps to 32 bits.
pub open spec fn varint32_at(s: Seq<u8>) -> Option<(u32, nat)> {
    match varint_len(s) {
        Some(n) => Some(
            ((group_sum(s, if n < 5 { n } else { 5 }) % (two_pow_32() as nat)) as u32, n),
        ),
        None => None,
    }
}

/// The tag at the start of `s`: field number, wire type and length.
pub open spec fn tag_at(s: Seq<u8>) -> Option<(u32, u8, nat)> {
    match varint32_at(s) {
        Some((v, n)) => Some(((v / 8) as u32, (v % 8) as u8, n)),
        None => None,
    }
}

/// The `int32` value at the start of `s` and its length.
pub open spec fn int32_at(s: Seq<u8>) -> Option<(i32, nat)> {
    match varint32_at(s) {
        Some((v, n)) => Some((reinterpret_i32(v), n)),
        None => None,
    }
}

/// The `i32` with the same 32 bits as `v` (what `v as i32` gives).
pub open spec fn reinterpret_i32(v: u32) -> i32 {
    if v < 0x8000_0000 {
        v as i32
    } else {
        (v - two_pow_32()) as i32
    }
}

/// Number of bytes that a field value of wire type `wire` takes at the start
/// of `s`; `None` for a truncated value, a group (types 3 and 4) or an
/// unknown wire type.
pub open spec fn skip_len(s: Seq<u8>, wire: u8) -> Option<nat> {
    if wire == 0 {
        varint_len(s)
    } else if wire == 1 {
        if s.len() >= 8 {
            Some(8)
        } else {
            None
        }
    } else if wire == 2 {
        match varint32_at(s) {
            Some((l, n)) => if n + l <= s.len() {
                Some((n + l) as nat)
            } else {
                None
            },
            None => None,
        }
    } else if wire == 5 {
        if s.len() >= 4 {
            Some(4)
        } else {
            None
        }
    } else {
        None
    }
}

/// A varint found within a budget ends within the input and the budget.
pub proof fn lemma_varint_len_bounds(s: Seq<u8>, budget: nat)
    ensures
        varint_len_within(s, budget) matches Some(n) ==> 1 <= n <= s.len() && n <= budget,
    decreases budget,
{
    if budget > 0 && s.len() > 0 && s[0] >= 128 {
        lemma_varint_len_bounds(s.drop_first(), (budget - 1) as nat);
    }
}

/// Every value read from the wire takes at least one byte and lies within
/// the input.
pub proof fn lemma_wire_lengths(s: Seq<u8>, wire: u8)
    ensures
        varint_len(s) matches Some(n) ==> 1 <= n <= s.len(),
        varint32_at(s) matches Some((v, n)) ==> 1 <= n <= s.len(),
        tag_at(s) matches Some((f, w, n)) ==> 1 <= n <= s.len(),
        int32_at(s) matches Some((v, n)) ==> 1 <= n <= s.len(),
        skip_len(s, wire) matches Some(n) ==> 1 <= n <= s.len(),
{
    lemma_varint_len_bounds(s, 10);
}

/// A first byte without the continuation bit is a whole varint.
pub proof fn lemma_one_byte_varint(s: Seq<u8>)
    requires
        s.len() >= 1,
        s[0] < 128,
    ensures
        varint_len(s) == Some(1nat),
        varint32_at(s) == Some((s[0] as u32, 1nat)),
        int32_at(s) == Some((s[0] as i32, 1nat)),
        tag_at(s) == Some(((s[0] / 8) as u32, (s[0] % 8) as u8, 1nat)),
{
    assert(group_sum(s.drop_first(), 0) == 0);
    assert(group_sum(s, 1) == s[0] as nat);
    assert((s[0] as nat) % (two_pow_32() as nat) == s[0] as nat);
    assert(varint32_at(s) == Some((s[0] as u32, 1nat)));
}

/// The varint of a value below 128 is that value as one byte.
pub proof fn lemma_varint_bytes_small(v: nat)
    requires
        v < 128,
    ensures
        varint_bytes(v) == seq![v as u8],
{
}

/// Groups of seven bits needed for `v`.
pub open spec fn varint_groups(v: nat) -> nat
    decreases v,
{
    if v < 128 {
        1
    } else {
        1 + varint_groups(v / 128)
    }
}

/// The varint of `v` has one byte per group.
pub proof fn lemma_varint_bytes_len(v: nat)
    ensures
        varint_bytes(v).len() == varint_groups(v),
    decreases v,
{
    if v >= 128 {
        lemma_varint_bytes_len(v / 128);
    }
}

/// A value in `[128^(k-1), 128^k)` takes `k` groups.
pub proof fn lemma_varint_groups_range(v: nat, k: nat)
    requires
        k >= 1,
        v < pow128(k),
        k > 1 ==> pow128((k - 1) as nat) <= v,
    ensures
        varint_groups(v) == k,
    decreases k,
{
    if k > 1 {
        let p = pow128((k - 2) as nat);
        assert(pow128((k - 1) as nat) == 128 * p);
        assert(pow128(k) == 128 * pow128((k - 1) as nat));
        lemma_pow128_positive((k - 2) as nat);
        assert(v >= 128);
        assert(v / 128 >= p);
        assert(v / 128 < pow128((k - 1) as nat));
        lemma_varint_groups_range(v / 128, (k - 1) as nat);
        assert(varint_groups(v) == 1 + varint_groups(v / 128));
    } else {
        assert(pow128(0) == 1);
        assert(pow128(1) == 128);
    }
}

/// Powers of 128 are positive.
pub proof fn lemma_pow128_positive(k: nat)
    ensures
        pow128(k) >= 1,
    decreases k,
{
    if k > 0 {
        lemma_pow128_positive((k - 1) as nat);
    }
}

/// The size that micropb reports for an `int32` is the length of its bytes.
pub proof fn lemma_int32_size(i: i32)
    ensures
        int32_bytes(i).len() == int32_size(i),
{
    reveal_with_fuel(pow128, 11);
    assert(pow128(5) == 0x8_0000_0000);
    assert(pow128(9) == 0x8000_0000_0000_0000);
    assert(pow128(10) == 0x4_0000_0000_0000_0000_0);
    if i >= 0 {
        let v = i as nat;
        lemma_varint_bytes_len(v);
        if v <= 0x7F {
            lemma_varint_groups_range(v, 1);
        } else if v <= 0x3FFF {
            lemma_varint_groups_range(v, 2);
        } else if v <= 0x1F_FFFF {
            lemma_varint_groups_range(v, 3);
        } else if v <= 0xFFF_FFFF {
            lemma_varint_groups_range(v, 4);
        } else {
            lemma_varint_groups_range(v, 5);
        }
    } else {
        let v = (i + two_pow_64()) as nat;
        lemma_varint_bytes_len(v);
        lemma_varint_groups_range(v, 10);
    }
}

/// `128` to the power `k`.
pub open spec fn pow128(k: nat) -> nat
    decreases k,
{
    if k == 0 {
        1
    } else {
        128 * pow128((k - 1) as nat)
    }
}

/// A value takes no more groups than needed to stay below a power of 128.
pub proof fn lemma_varint_groups_at_most(v: nat, k: nat)
    requires
        k >= 1,
        v < pow128(k),
    ensures
        varint_groups(v) <= k,
    decreases k,
{
    if v >= 128 {
        assert(pow128(k) == 128 * pow128((k - 1) as nat));
        if k == 1 {
            assert(pow128(0) == 1);
        } else {
            assert(v / 128 < pow128((k - 1) as nat));
            lemma_varint_groups_at_most(v / 128, (k - 1) as nat);
        }
    }
}

/// A value lies below 128 to the power of its number of groups.
pub proof fn lemma_below_pow_groups(v: nat)
    ensures
        v < pow128(varint_groups(v)),
    decreases v,
{
    let g = varint_groups(v);
    if v < 128 {
        assert(pow128(1) == 128 * pow128(0));
        assert(pow128(0) == 1);
    } else {
        lemma_below_pow_groups(v / 128);
        assert(pow128(g) == 128 * pow128((g - 1) as nat));
    }
}

/// Reading a varint back finds exactly the bytes that were written for it.
pub proof fn lemma_varint_len_of_bytes(v: nat, tail: Seq<u8>, budget: nat)
    requires
        budget >= varint_groups(v),
    ensures
        varint_len_within(varint_bytes(v) + tail, budget) == Some(varint_groups(v)),
    decreases v,
{
    let s = varint_bytes(v) + tail;
    if v < 128 {
        assert(s[0] == v as u8);
    } else {
        assert(s[0] == (v % 128 + 128) as u8);
        assert(s.drop_first() == varint_bytes(v / 128) + tail);
        lemma_varint_len_of_bytes(v / 128, tail, (budget - 1) as nat);
    }
}

/// The low groups of a written varint add up to the value modulo a power of
/// 128.
pub proof fn lemma_group_sum_of_bytes(v: nat, tail: Seq<u8>, k: nat)
    requires
        k <= varint_groups(v),
    ensures
        group_sum(varint_bytes(v) + tail, k) == v % pow128(k),
    decreases k,
{
    let s = varint_bytes(v) + tail;
    if k == 0 {
        assert(pow128(0) == 1);
    } else {
        assert(pow128(k) == 128 * pow128((k - 1) as nat));
        if v < 128 {
            assert(k == 1);
            assert(pow128(0) == 1);
            assert(s[0] == v as u8);
            assert(group_sum(s.drop_first(), 0) == 0);
        } else {
            assert(s[0] == (v % 128 + 128) as u8);
            assert(s[0] % 128 == v % 128);
            assert(s.drop_first() == varint_bytes(v / 128) + tail);
            lemma_group_sum_of_bytes(v / 128, tail, (k - 1) as nat);
            lemma_pow128_positive((k - 1) as nat);
            vstd::arithmetic::div_mod::lemma_mod_breakdown(v as int, 128, pow128((k - 1) as nat) as int);
        }
    }
}

/// Decoding the varint written for a value below 2^64 gives the value
/// wrapped to 32 bits, and consumes exactly its bytes.
pub proof fn lemma_varint32_round_trip(v: nat, tail: Seq<u8>)
    requires
        v < two_pow_64(),
    ensures
        varint_bytes(v).len() == varint_groups(v),
        varint_groups(v) <= 10,
        varint32_at(varint_bytes(v) + tail) == Some(
            ((v % (two_pow_32() as nat)) as u32, varint_groups(v)),
        ),
{
    reveal_with_fuel(pow128, 11);
    assert(pow128(5) == 0x8_0000_0000);
    assert(pow128(10) == 0x4_0000_0000_0000_0000_0);
    lemma_varint_bytes_len(v);
    lemma_varint_groups_at_most(v, 10);
    let n = varint_groups(v);
    let s = varint_bytes(v) + tail;
    lemma_varint_len_of_bytes(v, tail, 10);
    if n < 5 {
        lemma_group_sum_of_bytes(v, tail, n);
        lemma_below_pow_groups(v);
        lemma_pow128_positive(n);
        vstd::arithmetic::div_mod::lemma_small_mod(v, pow128(n));
    } else {
        lemma_group_sum_of_bytes(v, tail, 5);
        vstd::arithmetic::div_mod::lemma_mod_mod(v as int, two_pow_32(), 8);
    }
}

/// Decoding the bytes written for an `int32` gives it back and consumes
/// exactly those bytes.
pub proof fn lemma_int32_round_trip(i: i32, tail: Seq<u8>)
    ensures
        int32_at(int32_bytes(i) + tail) == Some((i, int32_bytes(i).len())),
        1 <= int32_bytes(i).len() <= 10,
{
    if i >= 0 {
        let v = i as nat;
        lemma_varint32_round_trip(v, tail);
        vstd::arithmetic::div_mod::lemma_small_mod(v, two_pow_32() as nat);
    } else {
        let v = (i + two_pow_64()) as nat;
        lemma_varint32_round_trip(v, tail);
        let b = i + two_pow_32();
        assert(v == two_pow_32() * (two_pow_32() - 1) + b);
        vstd::arithmetic::div_mod::lemma_mod_multiples_vanish(
            two_pow_32() - 1,
            b,
            two_pow_32(),
        );
        vstd::arithmetic::div_mod::lemma_small_mod(b as nat, two_pow_32() as nat);
    }
    lemma_varint_bytes_len(if i >= 0 { i as nat } else { (i + two_pow_64()) as nat });
}

/// Why decoding protobuf bytes failed.
#[derive(Debug, Clone, Copy, PartialEq, Eq, Structural)]
pub enum WireError {
    /// A varint ran past ten bytes.
    VarIntLimit,
    /// The input ended in the middle of a value.
    UnexpectedEof,
    /// A field used the deprecated group wire types 3 or 4.
    Deprecation,
    /// A field used a wire type that protobuf does not define (6 or 7).
    UnknownWireType,
    /// A field had field number 0, which is not allowed.
    ZeroField,
}

/// Why no varint could be read at the start of `s`: its first ten bytes all
/// carry the continuation bit, or the input ends before a byte without it.
pub open spec fn varint_error(s: Seq<u8>) -> WireError {
    if s.len() >= 10 && forall|i: int| 0 <= i < 10 ==> #[trigger] s[i] >= 128 {
        WireError::VarIntLimit
    } else {
        WireError::UnexpectedEof
    }
}

/// Why a field value of wire type `wire` could not be skipped at the start
/// of `s`.
pub open spec fn skip_error(s: Seq<u8>, wire: u8) -> WireError {
    if wire == 3 || wire == 4 {
        WireError::Deprecation
    } else if wire > 5 {
        WireError::UnknownWireType
    } else if wire == 0 || (wire == 2 && varint32_at(s) is None) {
        varint_error(s)
    } else {
        WireError::UnexpectedEof
    }
}

/// Reads a tag with `micropb::PbDecoder::decode_tag` from `bytes[pos..]` and
/// splits it with `Tag::field_num` and `Tag::wire_type`. Claimed: it succeeds
/// exactly when a varint of at most ten bytes starts there, and returns the
/// field number, wire type and bytes read that [`tag_at`] gives; otherwise
/// micropb reports `VarIntLimit` or `UnexpectedEof` as [`varint_error`] says.
#[verifier::external_body]
pub(crate) fn pb_decode_tag(bytes: &[u8], pos: usize) -> (r: Result<(u32, u8, usize), WireError>)
    requires
        pos <= bytes@.len(),
    ensures
        r is Ok <==> tag_at(bytes@.skip(pos as int)) is Some,
        r matches Ok((f, w, n)) ==> tag_at(bytes@.skip(pos as int)) == Some((f, w, n as nat)),
        r matches Err(e) ==> e == varint_error(bytes@.skip(pos as int)),
{
    let mut decoder = PbDecoder::new(&bytes[pos..]);
    match decoder.decode_tag() {
        Ok(tag) => Ok((tag.field_num(), tag.wire_type(), decoder.bytes_read())),
        Err(PbDecodeError::VarIntLimit) => Err(WireError::VarIntLimit),
        Err(_) => Err(WireError::UnexpectedEof),
    }
}

/// Reads an `int32` with `micropb::PbDecoder::decode_int32` from
/// `bytes[pos..]`. Claimed: it succeeds exactly when a varint of at most ten
/// bytes starts there, and returns the value and bytes read that
/// [`int32_at`] gives; otherwise micropb reports `VarIntLimit` or
/// `UnexpectedEof` as [`varint_error`] says.
#[verifier::external_body]
pub(crate) fn pb_decode_int32(bytes: &[u8], pos: usize) -> (r: Result<(i32, usize), WireError>)
    requires
        pos <= bytes@.len(),
    ensures
        r is Ok <==> int32_at(bytes@.skip(pos as int)) is Some,
        r matches Ok((v, n)) ==> int32_at(bytes@.skip(pos as int)) == Some((v, n as nat)),
        r matches Err(e) ==> e == varint_error(bytes@.skip(pos as int)),
{
    let mut decoder = PbDecoder::new(&bytes[pos..]);
    match decoder.decode_int32() {
        Ok(v) => Ok((v, decoder.bytes_read())),
        Err(PbDecodeError::VarIntLimit) => Err(WireError::VarIntLimit),
        Err(_) => Err(WireError::UnexpectedEof),
    }
}

/// Skips one field value of wire type `wire` with
/// `micropb::PbDecoder::skip_wire_value` from `bytes[pos..]`. Claimed: it
/// succeeds exactly when [`skip_len`] gives a length, and reports that many
/// bytes read; otherwise micropb reports the error that [`skip_error`] gives
/// (`Deprecation` for groups, `UnknownWireType` for types above 5, and for a
/// short value `VarIntLimit` or `UnexpectedEof`).
#[verifier::external_body]
pub(crate) fn pb_skip_wire_value(bytes: &[u8], pos: usize, wire: u8) -> (r: Result<usize, WireError>)
    requires
        pos <= bytes@.len(),
    ensures
        r is Ok <==> skip_len(bytes@.skip(pos as int), wire) is Some,
        r matches Ok(n) ==> skip_len(bytes@.skip(pos as int), wire) == Some(n as nat),
        r matches Err(e) ==> e == skip_error(bytes@.skip(pos as int), wire),
{
    let mut decoder = PbDecoder::new(&bytes[pos..]);
    match decoder.skip_wire_value(wire) {
        Ok(()) => Ok(decoder.bytes_read()),
        Err(PbDecodeError::VarIntLimit) => Err(WireError::VarIntLimit),
        Err(PbDecodeError::Deprecation) => Err(WireError::Deprecation),
        Err(PbDecodeError::UnknownWireType) => Err(WireError::UnknownWireType),
        Err(_) => Err(WireError::UnexpectedEof),
    }
}

/// Writes `v` with `micropb::PbEncoder::encode_varint32` into a fresh
/// ten-byte slice writer; returns the write result, the buffer and how many
/// of its bytes stayed unwritten. Claimed: the write succeeds (a `uint32`
/// varint takes at most five bytes) and the written prefix is
/// [`varint_bytes`] of `v`.
#[verifier::external_body]
pub(crate) fn pb_encode_varint32(v: u32) -> (r: (Result<(), ()>, [u8; 10], usize))
    ensures
        r.0 is Ok,
        r.2 <= 10,
        r.1@.take(10 - r.2) == varint_bytes(v as nat),
{
    let mut scratch = [0u8; 10];
    let mut encoder = PbEncoder::new(&mut scratch[..]);
    let written = encoder.encode_varint32(v);
    let unwritten = encoder.into_writer().len();
    (written, scratch, unwritten)
}

/// Writes `i` with `micropb::PbEncoder::encode_int32` into a fresh ten-byte
/// slice writer; returns the write result, the buffer and how many of its
/// bytes stayed unwritten. Claimed: the write succeeds (an `int32` takes at
/// most ten bytes) and the written prefix is [`int32_bytes`] of `i`.
#[verifier::external_body]
pub(crate) fn pb_encode_int32(i: i32) -> (r: (Result<(), ()>, [u8; 10], usize))
    ensures
        r.0 is Ok,
        r.2 <= 10,
        r.1@.take(10 - r.2) == int32_bytes(i),
{
    let mut scratch = [0u8; 10];
    let mut encoder = PbEncoder::new(&mut scratch[..]);
    let written = encoder.encode_int32(i);
    let unwritten = encoder.into_writer().len();
    (written, scratch, unwritten)
}

/// `micropb::size::sizeof_int32`: the wire size of an `int32`, by the ranges
/// that its source lists (ten bytes for a negative value).
#[verifier::external_body]
pub(crate) fn pb_sizeof_int32(i: i32) -> (n: usize)
    ensures
        n == int32_size(i),
{
    micropb::size::sizeof_int32(i)
}

} // verus!
