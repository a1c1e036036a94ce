use ntex_mqtt::timers::{keep_alive_expired, keep_alive_timeout, FrameProgress, ReadRate};

#[test]
fn keep_alive_is_one_and_a_half_times() {
    assert_eq!(keep_alive_timeout(0), None);
    assert_eq!(keep_alive_timeout(10), Some(15000));
    assert_eq!(keep_alive_timeout(65535), Some(98302500));
    assert!(!keep_alive_expired(10, 14999));
    assert!(keep_alive_expired(10, 15000));
    assert!(!keep_alive_expired(0, u64::MAX));
}

#[test]
fn slow_frame_times_out() {
    let rate = ReadRate::new(1, 2, 10);
    assert_eq!(rate, ReadRate { window_ms: 1000, max_stall_ms: 2000, min_chunk: 10 });
    let mut f = FrameProgress::start(0);
    f.on_bytes(5);
    f.on_bytes(10);
    assert!(!f.on_window_end(&rate, 1000));
    f.on_bytes(12);
    assert!(!f.on_window_end(&rate, 2000));
    assert!(!f.on_window_end(&rate, 3000));
    assert!(f.on_window_end(&rate, 4000));
}

#[test]
fn window_bytes_saturate() {
    let mut f = FrameProgress::start(7);
    f.on_bytes(u64::MAX);
    f.on_bytes(1);
    assert_eq!(f, FrameProgress { stall_since_ms: 7, window_bytes: u64::MAX });
}
