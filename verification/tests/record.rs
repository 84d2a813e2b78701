use flow_controller::record::{
    pack_record, read_keys, read_valve_state, rekey_record, unpack_record, MAGIC, RECORD_LEN,
};
use flow_controller::{LorawanKeys, ValveState};

fn sample_keys() -> LorawanKeys {
    LorawanKeys {
        deveui: [1, 2, 3, 4, 5, 6, 7, 8],
        appeui: [9, 10, 11, 12, 13, 14, 15, 16],
        appkey: [0xAA; 16],
    }
}

#[test]
fn pack_unpack_round_trip() {
    let keys = sample_keys();
    for state in [ValveState::Open, ValveState::Closed, ValveState::Unknown] {
        let buf = pack_record(&keys, state);
        let (k, s) = unpack_record(&buf).expect("valid record");
        assert_eq!(k, keys);
        assert_eq!(s, state);
    }
}

#[test]
fn bad_magic_reads_as_none() {
    let mut buf = pack_record(&sample_keys(), ValveState::Open);
    buf[0] = b'X';
    assert!(unpack_record(&buf).is_none());
    // Erased flash (all 0xFF) is also "no record".
    assert!(unpack_record(&[0xFF; RECORD_LEN]).is_none());
}

#[test]
fn record_layout() {
    let buf = pack_record(&sample_keys(), ValveState::Closed);
    assert_eq!(&buf[0..4], b"FCV1");
    assert_eq!(MAGIC, *b"FCV1");
    assert_eq!(&buf[4..12], &[1, 2, 3, 4, 5, 6, 7, 8]);
    assert_eq!(&buf[12..20], &[9, 10, 11, 12, 13, 14, 15, 16]);
    assert_eq!(&buf[20..36], &[0xAA; 16]);
    assert_eq!(buf[36], 2);
    assert_eq!(&buf[37..40], &[0, 0, 0]);
}

#[test]
fn legacy_magic_reads_as_none() {
    let mut buf = pack_record(&sample_keys(), ValveState::Open);
    buf[0..4].copy_from_slice(b"LORA");
    assert!(unpack_record(&buf).is_none());
    assert_eq!(read_keys(&buf), None);
    assert_eq!(read_valve_state(&buf), None);
}

#[test]
fn unrecognized_state_byte_reads_as_unknown() {
    let mut buf = pack_record(&sample_keys(), ValveState::Open);
    buf[36] = 0xFF;
    assert_eq!(read_valve_state(&buf), Some(ValveState::Unknown));
    assert_eq!(read_keys(&buf), Some(sample_keys()));
}

#[test]
fn rekey_keeps_valve_state() {
    let old = pack_record(&sample_keys(), ValveState::Closed);
    let new_keys = LorawanKeys { deveui: [7; 8], appeui: [6; 8], appkey: [5; 16] };
    let rec = rekey_record(&old, &new_keys);
    assert_eq!(read_valve_state(&rec), Some(ValveState::Closed));
    assert_eq!(read_keys(&rec), Some(new_keys.clone()));
    // No record yet: the state starts out Unknown.
    let rec = rekey_record(&[0xFF; RECORD_LEN], &new_keys);
    assert_eq!(unpack_record(&rec), Some((new_keys, ValveState::Unknown)));
}
