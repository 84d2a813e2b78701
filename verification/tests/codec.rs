use flow_controller::proto::{Downlink, Uplink};
use flow_controller::wire::WireError;
use flow_controller::{decode_downlink, encode_uplink, proto, DecodeError, ValveState};

#[test]
fn uplink_wire_format() {
    let (buf, n) = encode_uplink(ValveState::Open, ValveState::Open);
    assert_eq!(&buf[..n], &[0x08, 0x01, 0x10, 0x01]);

    let (buf, n) = encode_uplink(ValveState::Unknown, ValveState::Unknown);
    assert_eq!(&buf[..n], &[0x08, 0x03, 0x10, 0x03]);

    let (buf, n) = encode_uplink(ValveState::Closed, ValveState::Open);
    assert_eq!(&buf[..n], &[0x08, 0x02, 0x10, 0x01]);
}

#[test]
fn downlink_decodes() {
    assert_eq!(decode_downlink(&[0x08, 0x01]), Ok(ValveState::Open));
    assert_eq!(decode_downlink(&[0x08, 0x02]), Ok(ValveState::Closed));
    // Empty payload = default Downlink = Unspecified -> Unknown.
    assert_eq!(decode_downlink(&[]), Ok(ValveState::Unknown));
}

#[test]
fn truncated_payload_is_error() {
    // Tag says field 1 is a varint, but the value byte is missing.
    assert_eq!(decode_downlink(&[0x08]), Err(DecodeError));
}

#[test]
fn encode_decode_round_trip() {
    // A Downlink{OPEN} and the Uplink's current_state field share tag 0x08.
    let (buf, n) = encode_uplink(ValveState::Closed, ValveState::Unknown);
    // First field of the uplink is current_state; decode it as a Downlink.
    assert_eq!(decode_downlink(&buf[..n.min(2)]), Ok(ValveState::Closed));
}

#[test]
fn unknown_state_goes_out_as_three() {
    let (buf, n) = encode_uplink(ValveState::Unknown, ValveState::Closed);
    assert_eq!(&buf[..n], &[0x08, 0x03, 0x10, 0x02]);
    assert!(buf[n..].iter().all(|b| *b == 0));
    assert_eq!(buf.len(), 32);
}

#[test]
fn whole_uplink_reads_as_downlink_of_current() {
    for cur in [ValveState::Open, ValveState::Closed, ValveState::Unknown] {
        for last in [ValveState::Open, ValveState::Closed, ValveState::Unknown] {
            let (buf, n) = encode_uplink(cur, last);
            assert_eq!(decode_downlink(&buf[..n]), Ok(cur));
        }
    }
}

#[test]
fn downlink_edge_cases() {
    // Zero field number is an error.
    assert_eq!(decode_downlink(&[0x00, 0x01]), Err(DecodeError));
    // Unknown fields of every skippable wire type are skipped.
    assert_eq!(decode_downlink(&[0x10, 0x05, 0x08, 0x02]), Ok(ValveState::Closed));
    assert_eq!(decode_downlink(&[0x1a, 0x02, 0xAA, 0xBB, 0x08, 0x01]), Ok(ValveState::Open));
    assert_eq!(decode_downlink(&[0x1d, 1, 2, 3, 4, 0x08, 0x01]), Ok(ValveState::Open));
    assert_eq!(decode_downlink(&[0x19, 1, 2, 3, 4, 5, 6, 7, 8]), Ok(ValveState::Unknown));
    // Truncated skipped values and groups are errors.
    assert_eq!(decode_downlink(&[0x1a, 0x05, 0xAA]), Err(DecodeError));
    assert_eq!(decode_downlink(&[0x1b]), Err(DecodeError));
    assert_eq!(decode_downlink(&[0x1f, 0x00]), Err(DecodeError));
    // A later value wins; a 0 leaves the earlier one.
    assert_eq!(decode_downlink(&[0x08, 0x01, 0x08, 0x02]), Ok(ValveState::Closed));
    assert_eq!(decode_downlink(&[0x08, 0x01, 0x08, 0x00]), Ok(ValveState::Open));
    // Multi-byte varints, and an over-long one.
    assert_eq!(decode_downlink(&[0x08, 0x81, 0x00]), Ok(ValveState::Open));
    assert_eq!(decode_downlink(&[0x08, 0xFF, 0xFF, 0xFF, 0xFF, 0xFF, 0xFF, 0xFF, 0xFF, 0xFF, 0xFF, 0x01]), Err(DecodeError));
}

#[test]
fn uplink_message_round_trip() {
    for (cur, last) in [(0, 0), (1, 2), (-1, 300), (i32::MIN, i32::MAX), (127, 128), (0, -5)] {
        let msg = Uplink::default()
            .init_current_state(proto::ValveState(cur))
            .init_last_commanded_state(proto::ValveState(last));
        let mut bytes = Vec::new();
        msg.encode(&mut bytes);
        assert_eq!(bytes.len(), msg.compute_size());
        let mut back = Uplink::default();
        assert_eq!(back.decode(&bytes, bytes.len()), Ok(()));
        assert_eq!(back, msg);
    }
}

#[test]
fn negative_int32_is_ten_bytes() {
    let mut bytes = Vec::new();
    Downlink::default().init_desired_state(proto::ValveState(-1)).encode(&mut bytes);
    assert_eq!(bytes, vec![0x08, 0xFF, 0xFF, 0xFF, 0xFF, 0xFF, 0xFF, 0xFF, 0xFF, 0xFF, 0x01]);
    let mut d = Downlink::default();
    assert_eq!(d.decode(&bytes, bytes.len()), Ok(()));
    assert_eq!(d.desired_state, proto::ValveState(-1));
    assert_eq!(d.compute_size(), 11);
}

#[test]
fn message_accessors() {
    let mut d = Downlink::default();
    assert_eq!(*d.desired_state(), proto::ValveState(0));
    d.set_desired_state(proto::ValveState::Open());
    assert_eq!(d.desired_state, proto::ValveState(1));
    *d.mut_desired_state() = proto::ValveState::Closed();
    assert_eq!(d.desired_state, proto::ValveState(2));

    let mut u = Uplink::default();
    u.set_current_state(proto::ValveState(1)).set_last_commanded_state(proto::ValveState(2));
    assert_eq!(*u.current_state(), proto::ValveState(1));
    assert_eq!(*u.last_commanded_state(), proto::ValveState(2));
    *u.mut_current_state() = proto::ValveState(2);
    *u.mut_last_commanded_state() = proto::ValveState(0);
    assert_eq!(u, Uplink { current_state: proto::ValveState(2), last_commanded_state: proto::ValveState(0) });
    assert_eq!(u.compute_size(), 2);
}

#[test]
fn merge_into_existing_and_partial_failure() {
    // Decoding merges: fields absent from the input keep their values.
    let mut u = Uplink { current_state: proto::ValveState(1), last_commanded_state: proto::ValveState(2) };
    assert_eq!(u.decode(&[0x10, 0x01], 2), Ok(()));
    assert_eq!(u, Uplink { current_state: proto::ValveState(1), last_commanded_state: proto::ValveState(1) });
    // A failure keeps the fields read before it.
    let mut u = Uplink::default();
    assert_eq!(u.decode(&[0x08, 0x02, 0x10], 3), Err(WireError::UnexpectedEof));
    assert_eq!(u.current_state, proto::ValveState(2));
    // Only `len` bytes are read.
    let mut d = Downlink::default();
    assert_eq!(d.decode(&[0x08, 0x01, 0x08, 0x02], 2), Ok(()));
    assert_eq!(d.desired_state, proto::ValveState(1));
}

#[test]
fn decode_error_kinds() {
    let mut u = Uplink::default();
    assert_eq!(u.decode(&[0x00, 0x01], 2), Err(WireError::ZeroField));
    let mut u = Uplink::default();
    assert_eq!(u.decode(&[0x10], 1), Err(WireError::UnexpectedEof));
    let mut d = Downlink::default();
    assert_eq!(d.decode(&[0x1b], 1), Err(WireError::Deprecation));
    assert_eq!(d.decode(&[0x1c], 1), Err(WireError::Deprecation));
    assert_eq!(d.decode(&[0x1e, 0x00], 2), Err(WireError::UnknownWireType));
    assert_eq!(d.decode(&[0x1f, 0x00], 2), Err(WireError::UnknownWireType));
    assert_eq!(d.decode(&[0xFF; 12], 12), Err(WireError::VarIntLimit));
    assert_eq!(d.decode(&[0xFF; 9], 9), Err(WireError::UnexpectedEof));
    assert_eq!(
        d.decode(&[0x08, 0x80, 0x80, 0x80, 0x80, 0x80, 0x80, 0x80, 0x80, 0x80, 0x80], 11),
        Err(WireError::VarIntLimit)
    );
    assert_eq!(d.decode(&[0x18, 0x80], 2), Err(WireError::UnexpectedEof));
    assert_eq!(d.decode(&[0x1a, 0xFF, 0xFF, 0xFF, 0xFF, 0xFF, 0xFF, 0xFF, 0xFF, 0xFF, 0xFF], 11), Err(WireError::VarIntLimit));
    assert_eq!(d.decode(&[0x1a, 0x03, 0x01], 3), Err(WireError::UnexpectedEof));
    assert_eq!(d.decode(&[0x19, 0x01], 2), Err(WireError::UnexpectedEof));
    assert_eq!(d.decode(&[0x1d, 0x01], 2), Err(WireError::UnexpectedEof));
    // The codec collapses every kind into one error.
    assert_eq!(decode_downlink(&[0x00, 0x01]), Err(DecodeError));
}

#[test]
fn max_sizes() {
    assert_eq!(Downlink::MAX_SIZE, 11);
    assert_eq!(Uplink::MAX_SIZE, 22);
    let u = Uplink { current_state: proto::ValveState(-1), last_commanded_state: proto::ValveState(i32::MIN) };
    assert_eq!(u.compute_size(), Uplink::MAX_SIZE);
    let mut bytes = Vec::new();
    u.encode(&mut bytes);
    assert_eq!(bytes.len(), 22);
}
