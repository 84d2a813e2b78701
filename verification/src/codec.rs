//! Codec for the `Uplink` (encode) and `Downlink` (decode) wire messages:
//! bytes in, bytes out.

use crate::proto::{
    downlink_merge, field_size, lemma_size_matches_encoding, uplink_bytes, Downlink,
    Uplink,
};
use crate::types::{spec_from_proto, spec_to_proto, ValveState};
use vstd::prelude::*;

verus! {

/// A downlink payload could not be parsed as a `Downlink` message.
#[derive(Debug, Clone, Copy, PartialEq, Eq, Structural)]
pub struct DecodeError;

/// Size of the buffer that [`encode_uplink`] fills.
pub const UPLINK_BUF_LEN: usize = 32;

/// The state that a `Downlink` payload asks for, or `None` when the payload
/// does not parse. A payload without field 1 (or with `0` there) asks for
/// `Unspecified`, which reads as `Unknown`.
pub open spec fn spec_decode_downlink(payload: Seq<u8>) -> Option<ValveState> {
    let merged = downlink_merge(payload, payload.len() as int, 0);
    if merged.0 is Ok {
        Some(spec_from_proto(merged.1))
    } else {
        None
    }
}

/// Wire bytes of the `Uplink` that reports `current` and `last_commanded`.
pub open spec fn spec_uplink_wire(current: ValveState, last_commanded: ValveState) -> Seq<u8> {
    uplink_bytes(spec_to_proto(current), spec_to_proto(last_commanded))
}

/// Encode an `Uplink` into a stack buffer, returning the buffer and the
/// number of bytes written; the rest of the buffer stays zero.
pub fn encode_uplink(current: ValveState, last_commanded: ValveState) -> (r: (
    [u8; UPLINK_BUF_LEN],
    usize,
))
    ensures
        r.1 <= UPLINK_BUF_LEN,
        r.0@.take(r.1 as int) == spec_uplink_wire(current, last_commanded),
        forall|i: int| r.1 <= i < UPLINK_BUF_LEN ==> r.0@[i] == 0,
{
    let uplink = Uplink { current_state: current.to_proto(), last_commanded_state: last_commanded.to_proto() };
    let mut bytes: Vec<u8> = Vec::new();
    uplink.encode(&mut bytes);
    proof {
        lemma_size_matches_encoding(uplink.current_state.0, uplink.last_commanded_state.0);
        assert(field_size(uplink.current_state.0) <= 2);
        assert(field_size(uplink.last_commanded_state.0) <= 2);
    }
    let n: usize = bytes.len();
    let mut buf = [0u8; UPLINK_BUF_LEN];
    let mut i: usize = 0;
    while i < n
        invariant
            n == bytes@.len(),
            n <= UPLINK_BUF_LEN,
            i <= n,
            buf@.len() == UPLINK_BUF_LEN,
            forall|j: int| 0 <= j < i ==> buf@[j] == bytes@[j],
            forall|j: int| i <= j < UPLINK_BUF_LEN ==> buf@[j] == 0,
        decreases n - i,
    {
        buf[i] = bytes[i];
        i = i + 1;
    }
    assert(buf@.take(n as int) == bytes@);
    (buf, n)
}

/// Decode a `Downlink` payload into the desired valve state.
pub fn decode_downlink(payload: &[u8]) -> (r: Result<ValveState, DecodeError>)
    ensures
        match spec_decode_downlink(payload@) {
            Some(s) => r == Ok::<ValveState, DecodeError>(s),
            None => r == Err::<ValveState, DecodeError>(DecodeError),
        },
{
    let mut msg = Downlink::default();
    match msg.decode(payload, payload.len()) {
        Ok(()) => Ok(ValveState::from_proto(msg.desired_state)),
        Err(_) => Err(DecodeError),
    }
}

/// The whole `Uplink` that the device sends, read as a `Downlink`, asks for
/// the device's own current state: both messages put the state in field 1.
pub proof fn lemma_uplink_decodes_as_current(current: ValveState, last_commanded: ValveState)
    ensures
        spec_decode_downlink(spec_uplink_wire(current, last_commanded)) == Some(current),
{
    crate::proto::lemma_uplink_reads_as_downlink(
        spec_to_proto(current),
        spec_to_proto(last_commanded),
    );
    crate::types::lemma_proto_round_trip(current);
}

/// A `Downlink` that carries the wire value of a state decodes to that
/// state.
pub proof fn lemma_downlink_round_trip(desired: ValveState)
    ensures
        spec_decode_downlink(crate::proto::downlink_bytes(spec_to_proto(desired))) == Some(
            desired,
        ),
{
    crate::proto::lemma_downlink_round_trip(spec_to_proto(desired));
    crate::types::lemma_proto_round_trip(desired);
}

} // verus!
