//! Framing of MQTT packets: the variable-length "remaining length" field of
//! the fixed header, and the limit on inbound frame size.
use vstd::prelude::*;

verus! {

/// Largest value the remaining-length field can carry (four bytes).
pub const MAX_REMAINING_LENGTH: u32 = 268435455;

/// The seven value bits of one length byte.
pub open spec fn digit(b: u8) -> nat {
    (b % 128) as nat
}

/// Whether a length byte is followed by another.
pub open spec fn continues(b: u8) -> bool {
    b >= 128
}

/// The value of length bytes, least significant group first.
pub open spec fn length_value(s: Seq<u8>) -> nat
    decreases s.len(),
{
    if s.len() == 0 {
        0
    } else {
        digit(s[0]) + 128 * length_value(s.skip(1))
    }
}

/// Whether `s` is a complete remaining-length field: one to four bytes, each
/// but the last with its continuation bit set.
pub open spec fn is_length_field(s: Seq<u8>) -> bool {
    &&& 1 <= s.len() <= 4
    &&& forall|i: int| 0 <= i < s.len() - 1 ==> continues(#[trigger] s[i])
    &&& !continues(s[s.len() - 1])
}

/// What the bytes at the start of a buffer say about the remaining length.
#[derive(Clone, Copy, Debug, PartialEq, Eq, Structural)]
pub enum RemainingLength {
    /// The field takes `len` bytes and holds `value`.
    Complete { value: u32, len: usize },
    /// The field is not complete yet.
    NeedMore,
    /// Four bytes all ask for another one.
    Malformed,
}

/// A frame over the configured size.
#[derive(Clone, Copy, Debug, PartialEq, Eq, Structural)]
pub struct MaxSizeExceeded {
    pub size: u64,
}

proof fn lemma_value_steps(s: Seq<u8>)
    requires
        1 <= s.len() <= 4,
    ensures
        s.len() == 1 ==> length_value(s) == digit(s[0]),
        s.len() == 2 ==> length_value(s) == digit(s[0]) + 128 * digit(s[1]),
        s.len() == 3 ==> length_value(s) == digit(s[0]) + 128 * digit(s[1]) + 16384 * digit(s[2]),
        s.len() == 4 ==> length_value(s) == digit(s[0]) + 128 * digit(s[1]) + 16384 * digit(s[2])
            + 2097152 * digit(s[3]),
{
    let s1 = s.skip(1);
    let s2 = s1.skip(1);
    let s3 = s2.skip(1);
    let s4 = s3.skip(1);
    assert(s4.len() == 0 ==> length_value(s4) == 0);
    if s.len() >= 2 {
        assert(s1[0] == s[1]);
    }
    if s.len() >= 3 {
        assert(s2[0] == s[2]);
    }
    if s.len() == 4 {
        assert(s3[0] == s[3]);
    }
    if s.len() == 1 {
        assert(length_value(s1) == 0);
    } else if s.len() == 2 {
        assert(length_value(s2) == 0);
        assert(length_value(s1) == digit(s1[0]));
    } else if s.len() == 3 {
        assert(length_value(s3) == 0);
        assert(length_value(s2) == digit(s2[0]));
        assert(length_value(s1) == digit(s1[0]) + 128 * digit(s2[0]));
    } else {
        assert(length_value(s4) == 0);
        assert(length_value(s3) == digit(s3[0]));
        assert(length_value(s2) == digit(s2[0]) + 128 * digit(s3[0]));
        assert(length_value(s1) == digit(s1[0]) + 128 * digit(s2[0]) + 16384 * digit(s3[0]));
    }
}

/// Reads the remaining-length field at the start of `buf`.
pub fn decode_remaining_length(buf: &[u8]) -> (r: RemainingLength)
    ensures
        r matches RemainingLength::Complete { value, len } ==> len <= buf@.len() && is_length_field(
            buf@.take(len as int),
        ) && value == length_value(buf@.take(len as int)),
        r == RemainingLength::NeedMore <==> buf@.len() < 4 && forall|i: int|
            0 <= i < buf@.len() ==> continues(#[trigger] buf@[i]),
        r == RemainingLength::Malformed <==> buf@.len() >= 4 && forall|i: int|
            0 <= i < 4 ==> continues(#[trigger] buf@[i]),
{
    let n = buf.len();
    if n == 0 {
        return RemainingLength::NeedMore;
    }
    let b0 = buf[0];
    if b0 < 128 {
        proof {
            lemma_value_steps(buf@.take(1));
        }
        return RemainingLength::Complete { value: b0 as u32, len: 1 };
    }
    if n == 1 {
        return RemainingLength::NeedMore;
    }
    let b1 = buf[1];
    if b1 < 128 {
        proof {
            lemma_value_steps(buf@.take(2));
        }
        return RemainingLength::Complete { value: (b0 % 128) as u32 + 128 * b1 as u32, len: 2 };
    }
    if n == 2 {
        return RemainingLength::NeedMore;
    }
    let b2 = buf[2];
    if b2 < 128 {
        proof {
            lemma_value_steps(buf@.take(3));
        }
        return RemainingLength::Complete {
            value: (b0 % 128) as u32 + 128 * (b1 % 128) as u32 + 16384 * b2 as u32,
            len: 3,
        };
    }
    if n == 3 {
        return RemainingLength::NeedMore;
    }
    let b3 = buf[3];
    if b3 < 128 {
        proof {
            lemma_value_steps(buf@.take(4));
        }
        return RemainingLength::Complete {
            value: (b0 % 128) as u32 + 128 * (b1 % 128) as u32 + 16384 * (b2 % 128) as u32 + 2097152
                * b3 as u32,
            len: 4,
        };
    }
    RemainingLength::Malformed
}

/// Writes `value` as a remaining-length field, in as few bytes as it takes.
pub fn encode_remaining_length(value: u32) -> (r: Vec<u8>)
    requires
        value <= MAX_REMAINING_LENGTH,
    ensures
        is_length_field(r@),
        length_value(r@) == value,
        r@.len() == if value < 128 {
            1int
        } else if value < 16384 {
            2
        } else if value < 2097152 {
            3
        } else {
            4
        },
{
    let mut out: Vec<u8> = Vec::new();
    if value < 128 {
        out.push(value as u8);
    } else if value < 16384 {
        out.push((value % 128) as u8 + 128);
        out.push((value / 128) as u8);
    } else if value < 2097152 {
        out.push((value % 128) as u8 + 128);
        out.push((value / 128 % 128) as u8 + 128);
        out.push((value / 16384) as u8);
    } else {
        out.push((value % 128) as u8 + 128);
        out.push((value / 128 % 128) as u8 + 128);
        out.push((value / 16384 % 128) as u8 + 128);
        out.push((value / 2097152) as u8);
    }
    proof {
        lemma_value_steps(out@);
    }
    out
}

/// Size of a whole frame: the type byte, the length field and the rest.
pub open spec fn frame_size(header_len: nat, remaining: nat) -> nat {
    1 + header_len + remaining
}

/// Checks a frame against the inbound limit; `0` means unlimited. Returns
/// the frame's size.
pub fn check_frame_size(max_size: u32, header_len: usize, remaining: u32) -> (r: Result<
    u64,
    MaxSizeExceeded,
>)
    requires
        header_len <= 4,
    ensures
        r is Err <==> max_size != 0 && frame_size(header_len as nat, remaining as nat) > max_size,
        r matches Ok(size) ==> size == frame_size(header_len as nat, remaining as nat),
        r matches Err(e) ==> e.size == frame_size(header_len as nat, remaining as nat),
{
    let size: u64 = 1 + header_len as u64 + remaining as u64;
    if max_size != 0 && size > max_size as u64 {
        Err(MaxSizeExceeded { size })
    } else {
        Ok(size)
    }
}

/// A length field is read back as written: in a buffer that starts with a
/// length field, that field is the only prefix that is one, and the buffer
/// is neither incomplete nor malformed, so [`decode_remaining_length`]
/// returns its value and its length in bytes.
pub proof fn lemma_length_round_trip(bytes: Seq<u8>, rest: Seq<u8>)
    requires
        is_length_field(bytes),
    ensures
        forall|n: int|
            0 <= n <= (bytes + rest).len() && is_length_field(#[trigger] (bytes + rest).take(n)) ==> n
                == bytes.len(),
        (bytes + rest).take(bytes.len() as int) == bytes,
        !((bytes + rest).len() < 4 && forall|i: int|
            0 <= i < (bytes + rest).len() ==> continues(#[trigger] (bytes + rest)[i])),
        !((bytes + rest).len() >= 4 && forall|i: int| 0 <= i < 4 ==> continues(#[trigger] (bytes + rest)[i])),
{
    let buf = bytes + rest;
    let last = bytes.len() - 1;
    assert(buf[last] == bytes[last]);
    assert(buf.take(bytes.len() as int) =~= bytes);
    assert forall|n: int| 0 <= n <= buf.len() && is_length_field(#[trigger] buf.take(n)) implies n
        == bytes.len() by {
        let t = buf.take(n);
        if n < bytes.len() {
            assert(t[n - 1] == bytes[n - 1]);
            assert(continues(bytes[n - 1]));
        } else if n > bytes.len() {
            assert(t[last] == buf[last]);
            assert(continues(t[last]));
        }
    }
}

} // verus!
