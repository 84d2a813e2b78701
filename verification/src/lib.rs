//! Client-side logic of a LoRaWAN-controlled irrigation valve: the wire codec
//! for the `Uplink` / `Downlink` protobuf messages, the persisted flash record,
//! the valve state machine, the sans-IO body of one Class-A cycle, and the
//! pure parts of key provisioning and join backoff.
#![allow(non_upper_case_globals)]

pub mod types;
pub mod wire;
pub mod proto;
pub mod codec;
pub mod record;
pub mod state;
pub mod runtime;
pub mod provision;
pub mod backoff;
pub mod link;

pub use types::{LorawanKeys, ValveState};

pub use wire::WireError;
pub use codec::{decode_downlink, encode_uplink, DecodeError};
pub use record::{pack_record, unpack_record};
pub use runtime::{Action, Event, Iteration, NetError, Phase};
pub use link::{Link, LinkAction, LinkEvent, LinkPhase};
pub use state::{on_actuated, on_downlink, ClientState, DownlinkOutcome};
