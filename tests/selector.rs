use ntex_mqtt::packet::PacketType;
use ntex_mqtt::selector::{
    accept_first_packet, seconds_to_millis, FirstRead, HandshakeError, Readiness, Selection, Selector,
    ServiceReadiness, VariantReply,
};

#[test]
fn selector_defaults() {
    let s: Selector<&str> = Selector::new();
    assert_eq!(s.servers.len(), 0);
    assert_eq!(s.max_size, 0);
    assert_eq!(s.connect_timeout, 10000);
}

#[test]
fn selector_builder_keeps_order_and_settings() {
    let s = Selector::new().connect_timeout(5).max_size(1024).variant("a").variant("b");
    assert_eq!(s.connect_timeout, 5000);
    assert_eq!(s.max_size, 1024);
    assert_eq!(s.servers, vec!["a", "b"]);
    let svc = s.create_service(vec![1u8, 2u8]);
    assert_eq!(svc.servers, vec![1u8, 2u8]);
    assert_eq!(svc.max_size, 1024);
    assert_eq!(svc.connect_timeout, 5000);
}

#[test]
fn seconds_convert_to_millis() {
    assert_eq!(seconds_to_millis(0), 0);
    assert_eq!(seconds_to_millis(10), 10000);
    assert_eq!(seconds_to_millis(65535), 65535000);
}

#[test]
fn poll_ready_combines_servers() {
    let svc = Selector::new().variant(()).variant(()).variant(()).create_service(vec![(), (), ()]);
    assert_eq!(svc.poll_ready(&vec![Readiness::Ready, Readiness::Ready, Readiness::Ready]), ServiceReadiness::Ready);
    assert_eq!(svc.poll_ready(&vec![Readiness::Ready, Readiness::Pending, Readiness::Ready]), ServiceReadiness::Pending);
    assert_eq!(
        svc.poll_ready(&vec![Readiness::Pending, Readiness::Failed, Readiness::Failed]),
        ServiceReadiness::Failed(1)
    );
    assert_eq!(svc.poll_ready(&vec![]), ServiceReadiness::Ready);
    assert!(svc.poll_shutdown(&vec![true, true, true]));
    assert!(!svc.poll_shutdown(&vec![true, false, true]));
}

#[test]
fn first_packet_must_be_connect() {
    assert_eq!(accept_first_packet(FirstRead::Packet(PacketType::Connect)), Ok(()));
    assert_eq!(accept_first_packet(FirstRead::TimedOut), Err(HandshakeError::Timeout));
    assert_eq!(accept_first_packet(FirstRead::Closed), Err(HandshakeError::Disconnected));
    assert_eq!(accept_first_packet(FirstRead::IoFailed), Err(HandshakeError::Disconnected));
    assert_eq!(accept_first_packet(FirstRead::DecodeFailed), Err(HandshakeError::Decode));
    assert_eq!(
        accept_first_packet(FirstRead::Packet(PacketType::PingRequest)),
        Err(HandshakeError::UnexpectedPacket(PacketType::PingRequest))
    );
}

#[test]
fn servers_are_tried_in_order() {
    let svc = Selector::new().variant(()).variant(()).variant(()).create_service(vec![(), (), ()]);
    assert_eq!(svc.start_selection(), Selection::Offer(0));
    assert_eq!(svc.on_reply(0, VariantReply::Declined), Selection::Offer(1));
    assert_eq!(svc.on_reply(1, VariantReply::Handled), Selection::Handled);
    assert_eq!(svc.on_reply(1, VariantReply::Failed), Selection::Failed(1));
    assert_eq!(svc.on_reply(2, VariantReply::Declined), Selection::Rejected);
}

#[test]
fn no_servers_rejects_connect() {
    let svc = Selector::<()>::new().create_service(Vec::<()>::new());
    assert_eq!(svc.start_selection(), Selection::Rejected);
}
