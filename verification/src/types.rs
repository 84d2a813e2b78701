//! Domain types shared by the codec, the record format and the state machine.

use crate::proto;
use vstd::prelude::*;

verus! {

/// Domain valve state.
///
/// Kept apart from the wire newtype `proto::ValveState` so that control logic
/// can `match` on it; the conversions live at the protocol and persistence
/// boundaries below.
#[derive(Debug, Clone, Copy, PartialEq, Eq, Structural)]
pub enum ValveState {
    Open,
    Closed,
    Unknown,
}

/// The persisted byte for a state.
pub open spec fn spec_to_byte(s: ValveState) -> u8 {
    match s {
        ValveState::Open => 1u8,
        ValveState::Closed => 2u8,
        ValveState::Unknown => 3u8,
    }
}

/// The state that a persisted byte reads as: anything but `1` and `2`
/// (including the `0xFF` of erased flash) is `Unknown`.
pub open spec fn spec_from_byte(b: u8) -> ValveState {
    if b == 1 {
        ValveState::Open
    } else if b == 2 {
        ValveState::Closed
    } else {
        ValveState::Unknown
    }
}

/// Wire value of a state: the same integer as its flash byte.
pub open spec fn spec_to_proto(s: ValveState) -> i32 {
    match s {
        ValveState::Open => 1i32,
        ValveState::Closed => 2i32,
        ValveState::Unknown => 3i32,
    }
}

/// The state that a wire value reads as: `Unknown` (`3`), `Unspecified`
/// (`0`, the proto default) and every unrecognized value collapse to
/// `Unknown`.
pub open spec fn spec_from_proto(p: i32) -> ValveState {
    if p == 1 {
        ValveState::Open
    } else if p == 2 {
        ValveState::Closed
    } else {
        ValveState::Unknown
    }
}

impl ValveState {
    /// Map to the wire enum, which shares its integer values with the
    /// persisted byte.
    pub fn to_proto(self) -> (p: proto::ValveState)
        ensures
            p.0 == spec_to_proto(self),
    {
        match self {
            ValveState::Open => proto::ValveState::Open(),
            ValveState::Closed => proto::ValveState::Closed(),
            ValveState::Unknown => proto::ValveState::Unknown(),
        }
    }

    /// Map from the wire enum. `Unspecified` (the proto default, `0`) and
    /// any unrecognized value collapse to `Unknown`.
    pub fn from_proto(p: proto::ValveState) -> (s: ValveState)
        ensures
            s == spec_from_proto(p.0),
    {
        match p.0 {
            1 => ValveState::Open,
            2 => ValveState::Closed,
            _ => ValveState::Unknown,
        }
    }

    /// Persisted single-byte representation. Shares integer values with the
    /// wire enum, but is an independent on-flash contract.
    pub fn to_byte(self) -> (b: u8)
        ensures
            b == spec_to_byte(self),
    {
        match self {
            ValveState::Open => 1,
            ValveState::Closed => 2,
            ValveState::Unknown => 3,
        }
    }

    /// Inverse of [`to_byte`](Self::to_byte). Unrecognized bytes, including
    /// `0` and the `0xFF` of erased flash, read as `Unknown`.
    pub fn from_byte(b: u8) -> (s: ValveState)
        ensures
            s == spec_from_byte(b),
    {
        match b {
            1 => ValveState::Open,
            2 => ValveState::Closed,
            _ => ValveState::Unknown,
        }
    }
}

/// Reading back the byte written for a state gives that state.
pub proof fn lemma_byte_round_trip(s: ValveState)
    ensures
        spec_from_byte(spec_to_byte(s)) == s,
{
}

/// Reading back the wire value sent for a state gives that state.
pub proof fn lemma_proto_round_trip(s: ValveState)
    ensures
        spec_from_proto(spec_to_proto(s)) == s,
{
}

/// LoRaWAN OTAA credentials received via BLE provisioning.
#[derive(Debug, Clone, PartialEq, Eq)]
pub struct LorawanKeys {
    pub deveui: [u8; 8],
    pub appeui: [u8; 8],
    pub appkey: [u8; 16],
}

impl View for LorawanKeys {
    /// The 32 key bytes, `DevEUI || AppEUI || AppKey`: the layout of both the
    /// provisioning payload and the key part of the flash record.
    type V = Seq<u8>;

    open spec fn view(&self) -> Seq<u8> {
        self.deveui@ + self.appeui@ + self.appkey@
    }
}

} // verus!
