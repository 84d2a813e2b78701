//! Flash record format: the pure pack/unpack of the persisted 40-byte record
//! (`MAGIC`, DevEUI, AppEUI, AppKey, valve state, three reserved bytes).

use crate::types::{spec_from_byte, spec_to_byte, LorawanKeys, ValveState};
use vstd::prelude::*;

verus! {

/// Record magic, `FCV1` (Flow Controller v1). Older keys-only `LORA`
/// records fail this check and read as "no record".
pub const MAGIC: [u8; 4] = [0x46u8, 0x43u8, 0x56u8, 0x31u8];

/// MAGIC(4) + DEVEUI(8) + APPEUI(8) + APPKEY(16) + VALVE_STATE(1) + RESERVED(3).
pub const RECORD_LEN: usize = 40;

/// Byte offset of the persisted [`ValveState`] within the record.
pub const VALVE_STATE_OFFSET: usize = 36;

/// The magic bytes, `FCV1`.
pub open spec fn spec_magic() -> Seq<u8> {
    seq![0x46u8, 0x43u8, 0x56u8, 0x31u8]
}

/// The record that holds `keys` and `state`: magic, the 32 key bytes, the
/// state byte and three zero bytes.
pub open spec fn record_bytes(keys: Seq<u8>, state: ValveState) -> Seq<u8> {
    spec_magic() + keys + seq![spec_to_byte(state), 0u8, 0u8, 0u8]
}

/// Whether a raw record carries the magic (an erased page does not).
pub open spec fn has_magic(raw: Seq<u8>) -> bool {
    raw.take(4) == spec_magic()
}

/// Keys and state that a raw record reads as, or `None` without the magic.
pub open spec fn spec_unpack(raw: Seq<u8>) -> Option<(Seq<u8>, ValveState)> {
    if has_magic(raw) {
        Some((raw.subrange(4, 36), spec_from_byte(raw[VALVE_STATE_OFFSET as int])))
    } else {
        None
    }
}

/// Copies `src` into `dst` from index `at` on.
fn copy_in(dst: &mut [u8; RECORD_LEN], at: usize, src: &[u8])
    requires
        at + src@.len() <= RECORD_LEN,
    ensures
        final(dst)@ == old(dst)@.take(at as int) + src@ + old(dst)@.skip(at + src@.len()),
{
    let n = src.len();
    let mut i: usize = 0;
    while i < n
        invariant
            n == src@.len(),
            at + n <= RECORD_LEN,
            i <= n,
            dst@.len() == RECORD_LEN,
            forall|j: int| 0 <= j < at ==> dst@[j] == old(dst)@[j],
            forall|j: int| 0 <= j < i ==> dst@[at + j] == src@[j],
            forall|j: int| at + i <= j < RECORD_LEN ==> dst@[j] == old(dst)@[j],
        decreases n - i,
    {
        dst[at + i] = src[i];
        i = i + 1;
    }
    assert(dst@ == old(dst)@.take(at as int) + src@ + old(dst)@.skip(at + src@.len()));
}

/// Copies `buf[at..at + N]` out into an array.
fn copy_out<const N: usize>(buf: &[u8; RECORD_LEN], at: usize) -> (r: [u8; N])
    requires
        at + N <= RECORD_LEN,
    ensures
        r@ == buf@.subrange(at as int, at + N),
{
    let mut out = [0u8; N];
    let mut i: usize = 0;
    while i < N
        invariant
            at + N <= RECORD_LEN,
            i <= N,
            out@.len() == N,
            forall|j: int| 0 <= j < i ==> out@[j] == buf@[at + j],
        decreases N - i,
    {
        out[i] = buf[at + i];
        i = i + 1;
    }
    assert(out@ == buf@.subrange(at as int, at + N));
    out
}

/// Serialize keys + valve state into the canonical 40-byte record.
///
/// Because flash erase is page-level, keys and valve state always share one
/// physical record; callers must supply both halves so a rewrite can never
/// silently drop the other.
pub fn pack_record(keys: &LorawanKeys, state: ValveState) -> (r: [u8; RECORD_LEN])
    ensures
        r@ == record_bytes(keys@, state),
{
    let mut buf = [0u8; RECORD_LEN];
    copy_in(&mut buf, 0, &MAGIC);
    copy_in(&mut buf, 4, &keys.deveui);
    copy_in(&mut buf, 12, &keys.appeui);
    copy_in(&mut buf, 20, &keys.appkey);
    buf[VALVE_STATE_OFFSET] = state.to_byte();
    // [37..40] reserved, left zero for a future schema version or small fields.
    assert(buf@ == record_bytes(keys@, state));
    buf
}

/// Parse a raw record, validating the magic. Returns `None` when no valid
/// record is present (wrong magic / erased page).
pub fn unpack_record(buf: &[u8; RECORD_LEN]) -> (r: Option<(LorawanKeys, ValveState)>)
    ensures
        match spec_unpack(buf@) {
            Some((keys, state)) => r matches Some((k, s)) && k@ == keys && s == state,
            None => r is None,
        },
{
    if buf[0] != MAGIC[0] || buf[1] != MAGIC[1] || buf[2] != MAGIC[2] || buf[3] != MAGIC[3] {
        assert(!has_magic(buf@)) by {
            if has_magic(buf@) {
                assert(buf@[0] == buf@.take(4)[0]);
                assert(buf@[1] == buf@.take(4)[1]);
                assert(buf@[2] == buf@.take(4)[2]);
                assert(buf@[3] == buf@.take(4)[3]);
            }
        }
        return None;
    }
    assert(buf@.take(4) == spec_magic());
    let deveui: [u8; 8] = copy_out(buf, 4);
    let appeui: [u8; 8] = copy_out(buf, 12);
    let appkey: [u8; 16] = copy_out(buf, 20);
    let keys = LorawanKeys { deveui, appeui, appkey };
    let state = ValveState::from_byte(buf[VALVE_STATE_OFFSET]);
    assert(keys@ == buf@.subrange(4, 36));
    Some((keys, state))
}

/// Reading back a packed record gives the keys and state that were packed.
pub proof fn lemma_pack_unpack(keys: LorawanKeys, state: ValveState)
    ensures
        spec_unpack(record_bytes(keys@, state)) == Some((keys@, state)),
{
    let r = record_bytes(keys@, state);
    assert(r.take(4) == spec_magic());
    assert(r.subrange(4, 36) == keys@);
    crate::types::lemma_byte_round_trip(state);
}

/// The valve state that a record holds, or `Unknown` when there is none:
/// what a key rewrite keeps.
pub open spec fn kept_state(raw: Seq<u8>) -> ValveState {
    match spec_unpack(raw) {
        Some((_, state)) => state,
        None => ValveState::Unknown,
    }
}

/// LoRaWAN keys held by the raw flash record. Returns `None` if no valid
/// record exists.
pub fn read_keys(record: &[u8; RECORD_LEN]) -> (r: Option<LorawanKeys>)
    ensures
        match spec_unpack(record@) {
            Some((keys, _)) => r matches Some(k) && k@ == keys,
            None => r is None,
        },
{
    match unpack_record(record) {
        Some((keys, _)) => Some(keys),
        None => None,
    }
}

/// The persisted valve state held by the raw flash record. Returns `None` if
/// no valid record exists.
pub fn read_valve_state(record: &[u8; RECORD_LEN]) -> (r: Option<ValveState>)
    ensures
        match spec_unpack(record@) {
            Some((_, state)) => r == Some(state),
            None => r is None,
        },
{
    match unpack_record(record) {
        Some((_, state)) => Some(state),
        None => None,
    }
}

/// The record to write when new keys arrive: the new keys with the valve
/// state **kept** from the current record (`Unknown` when there is none),
/// since provisioning has no notion of valve state.
pub fn rekey_record(existing: &[u8; RECORD_LEN], keys: &LorawanKeys) -> (r: [u8; RECORD_LEN])
    ensures
        r@ == record_bytes(keys@, kept_state(existing@)),
{
    let state = match read_valve_state(existing) {
        Some(s) => s,
        None => ValveState::Unknown,
    };
    pack_record(keys, state)
}

/// Rewriting the keys keeps the persisted valve state and stores the new
/// keys.
pub proof fn lemma_rekey_keeps_state(existing: Seq<u8>, keys: LorawanKeys)
    ensures
        spec_unpack(record_bytes(keys@, kept_state(existing))) == Some(
            (keys@, kept_state(existing)),
        ),
{
    lemma_pack_unpack(keys, kept_state(existing));
}

} // verus!
