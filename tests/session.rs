use ntex_mqtt::ack_queue::AckKind;
use ntex_mqtt::dispatcher::{Action, DispatcherConfig, Inbound, Phase, Violation};
use ntex_mqtt::packet::QoS;
use ntex_mqtt::session::{Routed, Session};

fn session(max_qos: QoS) -> Session {
    Session::new(DispatcherConfig { max_qos, handle_qos_after_disconnect: None })
}

#[test]
fn session_answers_in_arrival_order() {
    let mut s = session(QoS::ExactlyOnce);
    let first = s.on_packet(Inbound::Publish { qos: QoS::AtLeastOnce, packet_id: 1, dup: false });
    let sub = s.on_packet(Inbound::Subscribe(2));
    let third = s.on_packet(Inbound::Publish { qos: QoS::AtLeastOnce, packet_id: 3, dup: false });
    assert_eq!(first, Routed { action: Action::DeliverAndAnswer(AckKind::PublishAck(1)), slot: Some(0) });
    assert_eq!(sub, Routed { action: Action::Control(AckKind::SubscribeAck(2)), slot: Some(1) });
    // the subscribe and the second publish finish before the first publish
    assert!(s.complete(2, vec![]));
    assert!(s.complete(1, vec![1]));
    assert!(s.flush().is_empty());
    assert!(s.complete(first.slot.unwrap(), vec![]));
    assert_eq!(
        s.flush(),
        vec![
            (AckKind::PublishAck(1), vec![]),
            (AckKind::SubscribeAck(2), vec![1]),
            (AckKind::PublishAck(3), vec![]),
        ]
    );
    assert_eq!(third.slot, Some(2));
}

#[test]
fn session_ping_is_answered_in_turn() {
    let mut s = session(QoS::AtLeastOnce);
    let p = s.on_packet(Inbound::Publish { qos: QoS::AtLeastOnce, packet_id: 9, dup: false });
    let ping = s.on_packet(Inbound::PingRequest);
    assert_eq!(ping.action, Action::Control(AckKind::PingResponse));
    assert!(s.complete(ping.slot.unwrap(), vec![]));
    assert!(s.flush().is_empty());
    assert!(s.complete(p.slot.unwrap(), vec![]));
    assert_eq!(s.flush(), vec![(AckKind::PublishAck(9), vec![]), (AckKind::PingResponse, vec![])]);
}

#[test]
fn session_exactly_once_flow() {
    let mut s = session(QoS::ExactlyOnce);
    let p = s.on_packet(Inbound::Publish { qos: QoS::ExactlyOnce, packet_id: 5, dup: false });
    assert!(s.complete(p.slot.unwrap(), vec![]));
    assert!(!s.is_awaiting_release(5));
    assert_eq!(s.flush(), vec![(AckKind::PublishReceived(5), vec![])]);
    assert!(s.is_awaiting_release(5));
    // a duplicate is answered again at once, without a handler
    let dup = s.on_packet(Inbound::Publish { qos: QoS::ExactlyOnce, packet_id: 5, dup: true });
    assert_eq!(dup.action, Action::Answer(AckKind::PublishReceived(5)));
    assert_eq!(s.flush(), vec![(AckKind::PublishReceived(5), vec![])]);
    let rel = s.on_packet(Inbound::PublishRelease(5));
    assert_eq!(rel.action, Action::Answer(AckKind::PublishComplete(5)));
    assert!(!s.is_awaiting_release(5));
    assert_eq!(s.flush(), vec![(AckKind::PublishComplete(5), vec![])]);
}

#[test]
fn session_max_qos_violation() {
    let mut s = session(QoS::AtMostOnce);
    let r = s.on_packet(Inbound::Publish { qos: QoS::AtLeastOnce, packet_id: 1, dup: false });
    assert_eq!(r, Routed { action: Action::Violation(Violation::MaxQosViolated(QoS::AtLeastOnce)), slot: None });
    assert_eq!(s.phase_now(), Phase::Draining);
    assert!(s.flush().is_empty());
}
