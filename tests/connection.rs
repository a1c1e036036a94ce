use ntex_mqtt::connection::{connect_ack, ConnectAck, ConnectAckReason, Outbound};
use ntex_mqtt::packet::PacketType;

#[test]
fn rejection_return_codes() {
    for (reason, code) in [
        (ConnectAckReason::BadUserNameOrPassword, 4u8),
        (ConnectAckReason::IdentifierRejected, 2),
        (ConnectAckReason::NotAuthorized, 5),
        (ConnectAckReason::ServiceUnavailable, 3),
        (ConnectAckReason::ConnectionAccepted, 0),
        (ConnectAckReason::UnacceptableProtocolVersion, 1),
    ] {
        let ack = connect_ack(reason);
        assert_eq!(ack, ConnectAck { session_present: false, return_code: reason });
        assert_eq!(ack.return_code.as_u8(), code);
        assert_eq!(ConnectAckReason::from_u8(code), Some(reason));
    }
    assert_eq!(ConnectAckReason::from_u8(6), None);
}

#[test]
fn nothing_before_connack() {
    let mut o = Outbound::new();
    assert!(!o.may_write(PacketType::PublishAck));
    assert!(!o.write(PacketType::Publish));
    assert!(o.write(PacketType::ConnectAck));
    assert!(!o.write(PacketType::ConnectAck));
    assert!(o.write(PacketType::PublishAck));
    assert!(o.write(PacketType::PingResponse));
}
