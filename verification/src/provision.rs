//! Key provisioning over BLE: the 32-byte payload that the host CLI builds
//! from hex strings (`DevEUI[8] || AppEUI[8] || AppKey[16]`), how the device
//! reads it back, and whether the device must rewrite its flash record.

use crate::record::{
    kept_state, read_keys, record_bytes, rekey_record, spec_unpack, RECORD_LEN,
};
use crate::types::LorawanKeys;
use hex::FromHexError;
use vstd::prelude::*;

verus! {

/// Length of the provisioning payload.
pub const PAYLOAD_LEN: usize = 32;

/// The hex crate's decoding error, carried through opaque.
#[verifier::external_type_specification]
#[verifier::external_body]
pub struct ExFromHexError(FromHexError);

/// Whether `c` is a hex digit (either case).
pub open spec fn is_hex_digit(c: char) -> bool {
    ('0' as int <= c as int <= '9' as int) || ('a' as int <= c as int <= 'f' as int) || (
    'A' as int <= c as int <= 'F' as int)
}

/// Value of a hex digit.
pub open spec fn hex_value(c: char) -> int {
    if '0' as int <= c as int <= '9' as int {
        c as int - '0' as int
    } else if 'a' as int <= c as int <= 'f' as int {
        c as int - 'a' as int + 10
    } else {
        c as int - 'A' as int + 10
    }
}

/// The bytes that a hex string stands for, two digits per byte, high digit
/// first; `None` for an odd length or a character that is not a hex digit.
pub open spec fn spec_hex_decode(text: Seq<char>) -> Option<Seq<u8>> {
    if text.len() % 2 == 0 && forall|i: int| 0 <= i < text.len() ==> is_hex_digit(#[trigger] text[i]) {
        Some(
            Seq::new(
                text.len() / 2,
                |i: int| (hex_value(text[2 * i]) * 16 + hex_value(text[2 * i + 1])) as u8,
            ),
        )
    } else {
        None
    }
}

/// `hex::decode` on the UTF-8 bytes of `text`. Claimed, as its source shows:
/// it succeeds exactly when the string has an even number of characters, all
/// of them hex digits in either case, and then gives one byte per pair of
/// digits, high digit first.
#[verifier::external_body]
fn hex_decode(text: &str) -> (r: Result<Vec<u8>, FromHexError>)
    ensures
        match spec_hex_decode(text@) {
            Some(bytes) => r matches Ok(v) && v@ == bytes,
            None => r is Err,
        },
{
    hex::decode(text)
}

/// Why a provisioning payload could not be built.
#[derive(Debug, Clone, Copy, PartialEq)]
pub enum ProvisionError {
    /// An input is not a hex string.
    InvalidHex(FromHexError),
    /// DevEUI must be 8 bytes (16 hex chars); this many were given.
    DevEuiLength(usize),
    /// AppEUI must be 8 bytes (16 hex chars); this many were given.
    AppEuiLength(usize),
    /// AppKey must be 16 bytes (32 hex chars); this many were given.
    AppKeyLength(usize),
}

/// The payload for three hex strings: each is decoded first (the first bad
/// one fails), then the lengths are checked in the order DevEUI, AppEUI,
/// AppKey.
pub open spec fn spec_provision_payload(deveui: Seq<char>, appeui: Seq<char>, appkey: Seq<char>) -> Option<
    Result<Seq<u8>, ProvisionError>,
> {
    match (spec_hex_decode(deveui), spec_hex_decode(appeui), spec_hex_decode(appkey)) {
        (Some(d), Some(a), Some(k)) => Some(
            if d.len() != 8 {
                Err(ProvisionError::DevEuiLength(d.len() as usize))
            } else if a.len() != 8 {
                Err(ProvisionError::AppEuiLength(a.len() as usize))
            } else if k.len() != 16 {
                Err(ProvisionError::AppKeyLength(k.len() as usize))
            } else {
                Ok(d + a + k)
            },
        ),
        _ => None,
    }
}

/// Copies `src` into `dst` from index `at` on.
fn copy_in_payload(dst: &mut [u8; PAYLOAD_LEN], at: usize, src: &Vec<u8>)
    requires
        at + src@.len() <= PAYLOAD_LEN,
    ensures
        final(dst)@ == old(dst)@.take(at as int) + src@ + old(dst)@.skip(at + src@.len()),
{
    let n = src.len();
    let mut i: usize = 0;
    while i < n
        invariant
            n == src@.len(),
            at + n <= PAYLOAD_LEN,
            i <= n,
            dst@.len() == PAYLOAD_LEN,
            forall|j: int| 0 <= j < at ==> dst@[j] == old(dst)@[j],
            forall|j: int| 0 <= j < i ==> dst@[at + j] == src@[j],
            forall|j: int| at + i <= j < PAYLOAD_LEN ==> dst@[j] == old(dst)@[j],
        decreases n - i,
    {
        dst[at + i] = src[i];
        i = i + 1;
    }
    assert(dst@ == old(dst)@.take(at as int) + src@ + old(dst)@.skip(at + src@.len()));
}

/// Builds the 32-byte provisioning payload `DevEUI || AppEUI || AppKey` from
/// hex strings, validating each length (8, 8 and 16 bytes).
pub fn provision_payload(deveui: &str, appeui: &str, appkey: &str) -> (r: Result<
    [u8; PAYLOAD_LEN],
    ProvisionError,
>)
    ensures
        match spec_provision_payload(deveui@, appeui@, appkey@) {
            None => r matches Err(ProvisionError::InvalidHex(_)),
            Some(Ok(bytes)) => r matches Ok(p) && p@ == bytes,
            Some(Err(e)) => r == Err::<[u8; PAYLOAD_LEN], ProvisionError>(e),
        },
{
    let deveui_bytes = match hex_decode(deveui) {
        Ok(b) => b,
        Err(e) => {
            return Err(ProvisionError::InvalidHex(e));
        },
    };
    let appeui_bytes = match hex_decode(appeui) {
        Ok(b) => b,
        Err(e) => {
            return Err(ProvisionError::InvalidHex(e));
        },
    };
    let appkey_bytes = match hex_decode(appkey) {
        Ok(b) => b,
        Err(e) => {
            return Err(ProvisionError::InvalidHex(e));
        },
    };
    if deveui_bytes.len() != 8 {
        return Err(ProvisionError::DevEuiLength(deveui_bytes.len()));
    }
    if appeui_bytes.len() != 8 {
        return Err(ProvisionError::AppEuiLength(appeui_bytes.len()));
    }
    if appkey_bytes.len() != 16 {
        return Err(ProvisionError::AppKeyLength(appkey_bytes.len()));
    }
    let mut payload = [0u8; PAYLOAD_LEN];
    copy_in_payload(&mut payload, 0, &deveui_bytes);
    copy_in_payload(&mut payload, 8, &appeui_bytes);
    copy_in_payload(&mut payload, 16, &appkey_bytes);
    assert(payload@ == deveui_bytes@ + appeui_bytes@ + appkey_bytes@);
    Ok(payload)
}

/// Copies `data[at..at + N]` out into an array.
fn slice_out<const N: usize>(data: &[u8], at: usize) -> (r: [u8; N])
    requires
        at + N <= data.len(),
    ensures
        r@ == data@.subrange(at as int, at + N),
{
    let mut out = [0u8; N];
    let mut i: usize = 0;
    while i < N
        invariant
            at + N <= data.len(),
            i <= N,
            out@.len() == N,
            forall|j: int| 0 <= j < i ==> out@[j] == data@[at + j],
        decreases N - i,
    {
        out[i] = data[at + i];
        i = i + 1;
    }
    assert(out@ == data@.subrange(at as int, at + N));
    out
}

/// Reads the keys from a provisioning write: exactly 32 bytes are
/// `DevEUI || AppEUI || AppKey`; any other length is rejected.
pub fn keys_from_payload(data: &[u8]) -> (r: Option<LorawanKeys>)
    ensures
        data@.len() == PAYLOAD_LEN ==> (r matches Some(k) && k@ == data@),
        data@.len() != PAYLOAD_LEN ==> r is None,
{
    if data.len() != PAYLOAD_LEN {
        return None;
    }
    let deveui: [u8; 8] = slice_out(data, 0);
    let appeui: [u8; 8] = slice_out(data, 8);
    let appkey: [u8; 16] = slice_out(data, 16);
    let keys = LorawanKeys { deveui, appeui, appkey };
    assert(keys@ == data@);
    Some(keys)
}

/// Whether two byte arrays hold the same bytes.
fn same_bytes<const N: usize>(a: &[u8; N], b: &[u8; N]) -> (r: bool)
    ensures
        r == (a@ == b@),
{
    let mut i: usize = 0;
    while i < N
        invariant
            i <= N,
            a@.len() == N,
            b@.len() == N,
            forall|j: int| 0 <= j < i ==> a@[j] == b@[j],
        decreases N - i,
    {
        if a[i] != b[i] {
            return false;
        }
        i = i + 1;
    }
    assert(a@ == b@);
    true
}

/// Whether two sets of keys hold the same bytes.
pub fn same_keys(a: &LorawanKeys, b: &LorawanKeys) -> (r: bool)
    ensures
        r == (a@ == b@),
{
    let r = same_bytes(&a.deveui, &b.deveui) && same_bytes(&a.appeui, &b.appeui) && same_bytes(
        &a.appkey,
        &b.appkey,
    );
    proof {
        if a@ == b@ {
            assert(a.deveui@ == a@.subrange(0, 8));
            assert(b.deveui@ == b@.subrange(0, 8));
            assert(a.appeui@ == a@.subrange(8, 16));
            assert(b.appeui@ == b@.subrange(8, 16));
            assert(a.appkey@ == a@.subrange(16, 32));
            assert(b.appkey@ == b@.subrange(16, 32));
        }
    }
    r
}

/// What a provisioning write does to the flash record: `None` when nothing
/// is to be written (the payload is not 32 bytes, or it holds the keys that
/// the record already has); otherwise the new keys and the record to write,
/// which keeps the persisted valve state.
pub open spec fn spec_provisioning(existing: Seq<u8>, payload: Seq<u8>) -> Option<(Seq<u8>, Seq<u8>)> {
    if payload.len() != PAYLOAD_LEN {
        None
    } else if spec_unpack(existing) matches Some((keys, _)) && keys == payload {
        None
    } else {
        Some((payload, record_bytes(payload, kept_state(existing))))
    }
}

/// Decides what a provisioning write to the keys characteristic does: the
/// keys to hand to the LoRaWAN task and the record to write to flash, or
/// `None` when the payload is malformed or the keys are unchanged.
pub fn apply_provisioning(existing: &[u8; RECORD_LEN], payload: &[u8]) -> (r: Option<
    (LorawanKeys, [u8; RECORD_LEN]),
>)
    ensures
        match spec_provisioning(existing@, payload@) {
            None => r is None,
            Some((keys, record)) => r matches Some((k, rec)) && k@ == keys && rec@ == record,
        },
{
    let keys = match keys_from_payload(payload) {
        Some(k) => k,
        None => {
            return None;
        },
    };
    if let Some(current) = read_keys(existing) {
        if same_keys(&current, &keys) {
            return None;
        }
    }
    let record = rekey_record(existing, &keys);
    Some((keys, record))
}

/// What the host sends is what the device reads: a payload built from hex
/// strings parses back into keys holding exactly the decoded bytes.
pub proof fn lemma_payload_round_trip(deveui: Seq<char>, appeui: Seq<char>, appkey: Seq<char>)
    requires
        spec_provision_payload(deveui, appeui, appkey) matches Some(Ok(_)),
    ensures
        spec_provision_payload(deveui, appeui, appkey) == Some(
            Ok::<Seq<u8>, ProvisionError>(
                spec_hex_decode(deveui).unwrap() + spec_hex_decode(appeui).unwrap()
                    + spec_hex_decode(appkey).unwrap(),
            ),
        ),
        (spec_hex_decode(deveui).unwrap() + spec_hex_decode(appeui).unwrap() + spec_hex_decode(
            appkey,
        ).unwrap()).len() == PAYLOAD_LEN,
{
}

/// Provisioning the same keys twice writes flash only once: after the first
/// write, the same payload asks for nothing.
pub proof fn lemma_provisioning_idempotent(existing: Seq<u8>, payload: Seq<u8>)
    requires
        spec_provisioning(existing, payload) is Some,
    ensures
        spec_provisioning(spec_provisioning(existing, payload).unwrap().1, payload) is None,
{
    let record = record_bytes(payload, kept_state(existing));
    let r = record;
    assert(r.take(4) == crate::record::spec_magic());
    assert(r.subrange(4, 36) == payload);
}

/// For a 32-byte payload, provisioning writes nothing only when the flash
/// holds a valid record whose 32 key bytes (DevEUI, AppEUI and AppKey) are
/// exactly the payload; any difference in any byte gives the payload as the
/// new keys and a record that reads back as those keys with the valve state
/// that the old record held (`Unknown` when there was none).
pub proof fn lemma_provisioning_decision(existing: Seq<u8>, payload: Seq<u8>)
    requires
        payload.len() == PAYLOAD_LEN,
    ensures
        spec_provisioning(existing, payload) is None <==> (existing.take(4) == seq![
            0x46u8,
            0x43u8,
            0x56u8,
            0x31u8,
        ] && existing.subrange(4, 36) == payload),
        spec_provisioning(existing, payload) matches Some((keys, record)) ==> {
            &&& keys == payload
            &&& spec_unpack(record) == Some(
                (
                    payload,
                    if existing.take(4) == seq![0x46u8, 0x43u8, 0x56u8, 0x31u8] {
                        crate::types::spec_from_byte(existing[36])
                    } else {
                        crate::types::ValveState::Unknown
                    },
                ),
            )
        },
{
    if let Some((keys, record)) = spec_provisioning(existing, payload) {
        assert(record.take(4) == crate::record::spec_magic());
        assert(record.subrange(4, 36) == payload);
        let st = kept_state(existing);
        crate::types::lemma_byte_round_trip(st);
        assert(record[36] == crate::types::spec_to_byte(st));
    }
}

/// A provisioning write that is not exactly 32 bytes writes nothing.
pub proof fn lemma_provisioning_needs_full_payload(existing: Seq<u8>, payload: Seq<u8>)
    requires
        payload.len() != PAYLOAD_LEN,
    ensures
        spec_provisioning(existing, payload) is None,
{
}

} // verus!
