use ntex_mqtt::sink::{Completion, SendError, Sink, UnknownPacketId};

#[test]
fn no_block_publishes_are_observed() {
    let mut s = Sink::new();
    s.publish_ack_cb();
    assert_eq!(s.send_at_least_once_no_block(), Ok(1));
    assert_eq!(s.send_at_least_once_no_block(), Ok(2));
    assert_eq!(
        s.on_publish_ack(1),
        Ok(Completion { id: 1, wake_waiter: false, notify_observer: true, disconnected: false })
    );
    assert_eq!(
        s.on_publish_ack(2),
        Ok(Completion { id: 2, wake_waiter: false, notify_observer: true, disconnected: false })
    );
    assert_eq!(s.send_at_least_once_no_block(), Ok(3));
}

#[test]
fn puback_completes_one_waiter_once() {
    let mut s = Sink::new();
    assert_eq!(s.send_at_least_once(), Ok(1));
    assert_eq!(
        s.on_publish_ack(1),
        Ok(Completion { id: 1, wake_waiter: true, notify_observer: false, disconnected: false })
    );
    assert_eq!(s.on_publish_ack(1), Err(UnknownPacketId(1)));
    assert_eq!(s.in_flight(), 0);
}

#[test]
fn dropped_waiter_still_reaches_observer() {
    let mut s = Sink::new();
    s.publish_ack_cb();
    let id = s.send_at_least_once().unwrap();
    s.drop_waiter(id);
    assert!(s.contains(id));
    assert_eq!(
        s.on_publish_ack(id),
        Ok(Completion { id, wake_waiter: false, notify_observer: true, disconnected: false })
    );
}

#[test]
fn ids_skip_those_in_flight() {
    let mut s = Sink::new();
    assert_eq!(s.send_at_least_once(), Ok(1));
    assert_eq!(s.send_at_least_once(), Ok(2));
    assert_eq!(s.send_at_least_once(), Ok(3));
    assert!(s.on_publish_ack(2).is_ok());
    assert_eq!(s.send_at_least_once(), Ok(4));
}

#[test]
fn ids_wrap_past_zero() {
    let mut s = Sink::new();
    assert_eq!(s.send_at_least_once(), Ok(1));
    for expected in 2u32..=65535 {
        let id = s.send_at_least_once_no_block().unwrap();
        assert_eq!(id as u32, expected);
        assert!(s.on_publish_ack(id).is_ok());
    }
    // id 1 is still in flight, so the next id after 65535 is 2
    assert_eq!(s.send_at_least_once(), Ok(2));
    assert_eq!(s.next_free_id(), Some(3));
}

#[test]
fn force_close_fails_every_waiter() {
    let mut s = Sink::new();
    s.publish_ack_cb();
    assert_eq!(s.send_at_least_once(), Ok(1));
    assert_eq!(s.send_at_least_once_no_block(), Ok(2));
    let done = s.force_close();
    assert_eq!(
        done,
        vec![
            Completion { id: 1, wake_waiter: true, notify_observer: true, disconnected: true },
            Completion { id: 2, wake_waiter: false, notify_observer: true, disconnected: true },
        ]
    );
    assert!(s.is_closed());
    assert_eq!(s.send_at_least_once(), Err(SendError::Disconnected));
    assert_eq!(s.send_at_most_once(), Err(SendError::Disconnected));
}

#[test]
fn open_sink_sends_at_most_once() {
    let s = Sink::new();
    assert_eq!(s.send_at_most_once(), Ok(()));
}

#[test]
fn graceful_close_waits_for_acks() {
    let mut s = Sink::new();
    assert!(s.close());
    let mut s = Sink::new();
    assert_eq!(s.send_at_least_once(), Ok(1));
    assert!(!s.close());
    assert_eq!(s.send_at_least_once(), Err(SendError::Disconnected));
    assert!(s.on_publish_ack(1).is_ok());
    assert_eq!(s.in_flight(), 0);
    assert!(s.force_close().is_empty());
}
