use ntex_mqtt::ack_queue::AckKind;
use ntex_mqtt::dispatcher::{Action, Dispatcher, DispatcherConfig, Inbound, Phase, Violation};
use ntex_mqtt::packet::{PacketType, QoS};

fn config(max_qos: QoS, after: Option<QoS>) -> DispatcherConfig {
    DispatcherConfig { max_qos, handle_qos_after_disconnect: after }
}

#[test]
fn max_qos_violation_ends_session() {
    let mut d = Dispatcher::new(config(QoS::AtMostOnce, None));
    let r = d.on_packet(Inbound::Publish { qos: QoS::AtLeastOnce, packet_id: 1, dup: false });
    assert_eq!(r, Action::Violation(Violation::MaxQosViolated(QoS::AtLeastOnce)));
    assert_eq!(d.phase_now(), Phase::Draining);
    assert_eq!(d.on_packet(Inbound::PingRequest), Action::Drop);
}

#[test]
fn requests_take_answer_slots() {
    let mut d = Dispatcher::new(config(QoS::ExactlyOnce, None));
    assert_eq!(
        d.on_packet(Inbound::Publish { qos: QoS::AtLeastOnce, packet_id: 1, dup: false }),
        Action::DeliverAndAnswer(AckKind::PublishAck(1))
    );
    assert_eq!(d.on_packet(Inbound::Subscribe(2)), Action::Control(AckKind::SubscribeAck(2)));
    assert_eq!(d.on_packet(Inbound::Unsubscribe(4)), Action::Control(AckKind::UnsubscribeAck(4)));
    assert_eq!(d.on_packet(Inbound::PingRequest), Action::Control(AckKind::PingResponse));
    assert_eq!(
        d.on_packet(Inbound::Publish { qos: QoS::AtMostOnce, packet_id: 0, dup: false }),
        Action::Deliver
    );
    assert_eq!(d.on_packet(Inbound::PublishAck(7)), Action::ToSink(7));
}

#[test]
fn exactly_once_flow_keeps_id() {
    let mut d = Dispatcher::new(config(QoS::ExactlyOnce, None));
    assert_eq!(
        d.on_packet(Inbound::Publish { qos: QoS::ExactlyOnce, packet_id: 5, dup: false }),
        Action::DeliverAndAnswer(AckKind::PublishReceived(5))
    );
    d.on_received_written(5);
    assert!(d.is_awaiting_release(5));
    assert_eq!(
        d.on_packet(Inbound::Publish { qos: QoS::ExactlyOnce, packet_id: 5, dup: true }),
        Action::Answer(AckKind::PublishReceived(5))
    );
    assert_eq!(d.on_packet(Inbound::PublishRelease(5)), Action::Answer(AckKind::PublishComplete(5)));
    assert!(!d.is_awaiting_release(5));
    assert_eq!(
        d.on_packet(Inbound::Publish { qos: QoS::ExactlyOnce, packet_id: 5, dup: true }),
        Action::DeliverAndAnswer(AckKind::PublishReceived(5))
    );
}

#[test]
fn publishes_after_disconnect_follow_policy() {
    let mut d = Dispatcher::new(config(QoS::ExactlyOnce, Some(QoS::AtLeastOnce)));
    assert_eq!(d.on_packet(Inbound::Disconnect), Action::ClientDisconnect);
    assert_eq!(
        d.on_packet(Inbound::Publish { qos: QoS::AtLeastOnce, packet_id: 3, dup: false }),
        Action::DeliverAndAnswer(AckKind::PublishAck(3))
    );
    assert_eq!(
        d.on_packet(Inbound::Publish { qos: QoS::ExactlyOnce, packet_id: 4, dup: false }),
        Action::Drop
    );
    let mut d = Dispatcher::new(config(QoS::ExactlyOnce, None));
    d.on_packet(Inbound::Disconnect);
    assert_eq!(
        d.on_packet(Inbound::Publish { qos: QoS::AtMostOnce, packet_id: 0, dup: false }),
        Action::Drop
    );
}

#[test]
fn unexpected_packets_are_violations() {
    let mut d = Dispatcher::new(config(QoS::ExactlyOnce, None));
    assert_eq!(d.on_packet(Inbound::Connect), Action::Violation(Violation::UnexpectedPacket(PacketType::Connect)));
    let mut d = Dispatcher::new(config(QoS::ExactlyOnce, None));
    assert_eq!(
        d.on_packet(Inbound::Publish { qos: QoS::AtLeastOnce, packet_id: 0, dup: false }),
        Action::Violation(Violation::ZeroPacketId)
    );
    let mut d = Dispatcher::new(config(QoS::ExactlyOnce, None));
    assert_eq!(
        d.on_packet(Inbound::ServerOnly(PacketType::SubscribeAck)),
        Action::Violation(Violation::UnexpectedPacket(PacketType::SubscribeAck))
    );
    d.close();
    assert_eq!(d.phase_now(), Phase::Closed);
}

#[test]
fn shutdown_drains() {
    let mut d = Dispatcher::new(config(QoS::AtLeastOnce, None));
    d.shutdown();
    assert_eq!(d.phase_now(), Phase::Draining);
    assert_eq!(d.on_packet(Inbound::Subscribe(1)), Action::Drop);
}
