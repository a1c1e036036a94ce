use ntex_mqtt::codec::{
    check_frame_size, decode_remaining_length, encode_remaining_length, MaxSizeExceeded, RemainingLength,
};

#[test]
fn remaining_length_decodes() {
    assert_eq!(decode_remaining_length(&[0x00]), RemainingLength::Complete { value: 0, len: 1 });
    assert_eq!(decode_remaining_length(&[0x7F, 0x10]), RemainingLength::Complete { value: 127, len: 1 });
    assert_eq!(decode_remaining_length(&[0x80, 0x01]), RemainingLength::Complete { value: 128, len: 2 });
    assert_eq!(decode_remaining_length(&[0xC1, 0x02]), RemainingLength::Complete { value: 321, len: 2 });
    assert_eq!(decode_remaining_length(&[0xFF, 0x7F]), RemainingLength::Complete { value: 16383, len: 2 });
    assert_eq!(
        decode_remaining_length(&[0x80, 0x80, 0x01]),
        RemainingLength::Complete { value: 16384, len: 3 }
    );
    assert_eq!(
        decode_remaining_length(&[0xFF, 0xFF, 0xFF, 0x7F]),
        RemainingLength::Complete { value: 268435455, len: 4 }
    );
}

#[test]
fn remaining_length_incomplete_or_malformed() {
    assert_eq!(decode_remaining_length(&[]), RemainingLength::NeedMore);
    assert_eq!(decode_remaining_length(&[0x80]), RemainingLength::NeedMore);
    assert_eq!(decode_remaining_length(&[0xFF, 0xFF, 0xFF]), RemainingLength::NeedMore);
    assert_eq!(decode_remaining_length(&[0xFF, 0xFF, 0xFF, 0xFF]), RemainingLength::Malformed);
    assert_eq!(decode_remaining_length(&[0x80, 0x80, 0x80, 0x80, 0x01]), RemainingLength::Malformed);
}

#[test]
fn remaining_length_encodes_shortest() {
    assert_eq!(encode_remaining_length(0), vec![0x00]);
    assert_eq!(encode_remaining_length(127), vec![0x7F]);
    assert_eq!(encode_remaining_length(128), vec![0x80, 0x01]);
    assert_eq!(encode_remaining_length(321), vec![0xC1, 0x02]);
    assert_eq!(encode_remaining_length(16384), vec![0x80, 0x80, 0x01]);
    assert_eq!(encode_remaining_length(268435455), vec![0xFF, 0xFF, 0xFF, 0x7F]);
}

#[test]
fn remaining_length_round_trips() {
    for v in [0u32, 1, 127, 128, 200, 16383, 16384, 2097151, 2097152, 268435455] {
        let mut buf = encode_remaining_length(v);
        let n = buf.len();
        buf.extend_from_slice(&[0xFF, 0x00]);
        assert_eq!(decode_remaining_length(&buf), RemainingLength::Complete { value: v, len: n });
    }
}

#[test]
fn frame_size_limit() {
    assert_eq!(check_frame_size(0, 4, 268435455), Ok(268435460));
    assert_eq!(check_frame_size(11, 1, 9), Ok(11));
    assert_eq!(check_frame_size(10, 1, 9), Err(MaxSizeExceeded { size: 11 }));
}
