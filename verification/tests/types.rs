use flow_controller::proto;
use flow_controller::ValveState;

#[test]
fn proto_round_trip() {
    for s in [ValveState::Open, ValveState::Closed, ValveState::Unknown] {
        assert_eq!(ValveState::from_proto(s.to_proto()), s);
    }
}

#[test]
fn byte_round_trip() {
    for s in [ValveState::Open, ValveState::Closed, ValveState::Unknown] {
        assert_eq!(ValveState::from_byte(s.to_byte()), s);
    }
}

#[test]
fn unspecified_and_erased_read_as_unknown() {
    // proto default (0) and erased flash (0xFF) both collapse to Unknown.
    assert_eq!(ValveState::from_proto(proto::ValveState::Unspecified()), ValveState::Unknown);
    assert_eq!(ValveState::from_byte(0), ValveState::Unknown);
    assert_eq!(ValveState::from_byte(0xFF), ValveState::Unknown);
}

#[test]
fn wire_and_flash_values() {
    assert_eq!(ValveState::Open.to_proto(), proto::ValveState(1));
    assert_eq!(ValveState::Closed.to_proto(), proto::ValveState(2));
    assert_eq!(ValveState::Unknown.to_proto(), proto::ValveState(3));
    assert_eq!(proto::ValveState::Unknown(), proto::ValveState(3));
    assert_eq!(ValveState::Open.to_byte(), 1);
    assert_eq!(ValveState::Closed.to_byte(), 2);
    assert_eq!(ValveState::Unknown.to_byte(), 3);
    // Unknown goes on the wire and to flash as 3, and 3 reads back as Unknown;
    // other unrecognized values read as Unknown too.
    assert_eq!(ValveState::from_proto(proto::ValveState(3)), ValveState::Unknown);
    assert_eq!(ValveState::from_proto(proto::ValveState(-1)), ValveState::Unknown);
    assert_eq!(ValveState::from_byte(3), ValveState::Unknown);
}

#[test]
fn proto_constants_and_conversions() {
    assert_eq!(proto::ValveState::Unspecified(), proto::ValveState(0));
    assert_eq!(proto::ValveState::Open(), proto::ValveState(1));
    assert_eq!(proto::ValveState::Closed(), proto::ValveState(2));
    assert_eq!(proto::ValveState::default(), proto::ValveState(0));
    assert_eq!(proto::ValveState::from(7), proto::ValveState(7));
    assert_eq!(proto::ValveState::_MAX_SIZE, 10);
}
