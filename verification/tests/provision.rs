use flow_controller::backoff::{copy_downlink, generate_delay};
use flow_controller::provision::{
    apply_provisioning, keys_from_payload, provision_payload, same_keys, ProvisionError,
};
use flow_controller::record::{pack_record, read_keys, read_valve_state, RECORD_LEN};
use flow_controller::{LorawanKeys, ValveState};

#[test]
fn payload_from_hex() {
    let p = provision_payload("024B00D87ED5B370", "0000000000000000", "00112233445566778899aabbccddeeff")
        .unwrap();
    assert_eq!(&p[0..8], &[0x02, 0x4B, 0x00, 0xD8, 0x7E, 0xD5, 0xB3, 0x70]);
    assert_eq!(&p[8..16], &[0; 8]);
    assert_eq!(&p[16..32], &[0x00, 0x11, 0x22, 0x33, 0x44, 0x55, 0x66, 0x77, 0x88, 0x99, 0xAA, 0xBB, 0xCC, 0xDD, 0xEE, 0xFF]);
    // Upper and lower case mix.
    let q = provision_payload("024b00d87Ed5B370", "0000000000000000", "00112233445566778899AABBCCDDEEFF")
        .unwrap();
    assert_eq!(p, q);
}

#[test]
fn payload_errors() {
    assert!(matches!(
        provision_payload("0", "0000000000000000", "00112233445566778899aabbccddeeff"),
        Err(ProvisionError::InvalidHex(_))
    ));
    assert!(matches!(
        provision_payload("024B00D87ED5B370", "zz00000000000000", "00112233445566778899aabbccddeeff"),
        Err(ProvisionError::InvalidHex(_))
    ));
    // Hex errors come before length errors.
    assert!(matches!(provision_payload("00", "00", "xy"), Err(ProvisionError::InvalidHex(_))));
    assert_eq!(
        provision_payload("0011", "0000000000000000", "00112233445566778899aabbccddeeff"),
        Err(ProvisionError::DevEuiLength(2))
    );
    assert_eq!(
        provision_payload("024B00D87ED5B370", "00", "00112233445566778899aabbccddeeff"),
        Err(ProvisionError::AppEuiLength(1))
    );
    assert_eq!(
        provision_payload("024B00D87ED5B370", "0000000000000000", ""),
        Err(ProvisionError::AppKeyLength(0))
    );
    assert_eq!(provision_payload("00", "00", "00"), Err(ProvisionError::DevEuiLength(1)));
}

#[test]
fn payload_reads_back_as_keys() {
    let p = provision_payload("0102030405060708", "090a0b0c0d0e0f10", "aaaaaaaaaaaaaaaaaaaaaaaaaaaaaaaa").unwrap();
    let k = keys_from_payload(&p).unwrap();
    assert_eq!(k, LorawanKeys { deveui: [1, 2, 3, 4, 5, 6, 7, 8], appeui: [9, 10, 11, 12, 13, 14, 15, 16], appkey: [0xAA; 16] });
    assert_eq!(keys_from_payload(&p[..31]), None);
    assert_eq!(keys_from_payload(&[0u8; 33]), None);
}

#[test]
fn provisioning_writes_only_new_keys() {
    let k1 = LorawanKeys { deveui: [1; 8], appeui: [2; 8], appkey: [3; 16] };
    let existing = pack_record(&k1, ValveState::Open);
    let mut same = [0u8; 32];
    same[..8].copy_from_slice(&k1.deveui);
    same[8..16].copy_from_slice(&k1.appeui);
    same[16..].copy_from_slice(&k1.appkey);
    // Unchanged keys: nothing to write.
    assert_eq!(apply_provisioning(&existing, &same), None);
    // Wrong length: nothing to write.
    assert_eq!(apply_provisioning(&existing, &same[..20]), None);
    // New keys keep the valve state.
    let mut other = same;
    other[0] = 9;
    let (k2, rec) = apply_provisioning(&existing, &other).unwrap();
    assert_eq!(k2.deveui, [9, 1, 1, 1, 1, 1, 1, 1]);
    assert_eq!(read_keys(&rec), Some(k2.clone()));
    assert_eq!(read_valve_state(&rec), Some(ValveState::Open));
    // After the write, the same payload is a no-op.
    assert_eq!(apply_provisioning(&rec, &other), None);
    // A blank device takes any keys, with an unknown valve state.
    let (k3, rec) = apply_provisioning(&[0xFF; RECORD_LEN], &same).unwrap();
    assert!(same_keys(&k3, &k1));
    assert_eq!(read_valve_state(&rec), Some(ValveState::Unknown));
}

#[test]
fn join_delay() {
    // Base 10 s, jitter 2 s: delays in 10..=12.
    assert_eq!(generate_delay(0, 0), 10);
    assert_eq!(generate_delay(1, 0), 11);
    assert_eq!(generate_delay(2, 0), 12);
    assert_eq!(generate_delay(3, 0), 10);
    // Base 110 s, jitter 22 s.
    assert_eq!(generate_delay(22, 10), 132);
    assert_eq!(generate_delay(23, 10), 110);
    // Capped at an hour plus 720 s of jitter.
    assert_eq!(generate_delay(720, 1000), 4320);
    assert_eq!(generate_delay(u32::MAX, 6552), 3600 + (u32::MAX % 721) as u16);
    for r in 0..2000u32 {
        for retries in [0u16, 1, 5, 100, 359, 360, 6000] {
            let base = core::cmp::min(10 + 10 * retries, 3600);
            let d = generate_delay(r, retries);
            assert!(base <= d && d <= base + base / 5);
        }
    }
}

#[test]
fn downlink_is_truncated_to_buffer() {
    let mut buf = [0xEEu8; 4];
    assert_eq!(copy_downlink(&[1, 2], &mut buf), 2);
    assert_eq!(buf, [1, 2, 0xEE, 0xEE]);
    assert_eq!(copy_downlink(&[5, 6, 7, 8, 9, 10], &mut buf), 4);
    assert_eq!(buf, [5, 6, 7, 8]);
    assert_eq!(copy_downlink(&[], &mut buf), 0);
}
