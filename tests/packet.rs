use ntex_mqtt::packet::{PacketType, QoS};

#[test]
fn qos_levels() {
    assert_eq!(QoS::from_u8(0), Some(QoS::AtMostOnce));
    assert_eq!(QoS::from_u8(2), Some(QoS::ExactlyOnce));
    assert_eq!(QoS::from_u8(3), None);
    assert_eq!(QoS::AtLeastOnce.as_u8(), 1);
    assert!(QoS::AtLeastOnce.within(QoS::ExactlyOnce));
    assert!(!QoS::ExactlyOnce.within(QoS::AtLeastOnce));
}

#[test]
fn packet_types_from_header() {
    assert_eq!(PacketType::from_header_byte(0x10), Some(PacketType::Connect));
    assert_eq!(PacketType::from_header_byte(0x32), Some(PacketType::Publish));
    assert_eq!(PacketType::from_header_byte(0xC0), Some(PacketType::PingRequest));
    assert_eq!(PacketType::from_header_byte(0xE0), Some(PacketType::Disconnect));
    assert_eq!(PacketType::from_header_byte(0x00), None);
    assert_eq!(PacketType::from_header_byte(0xF0), None);
    assert_eq!(PacketType::Subscribe.as_u8(), 8);
}
