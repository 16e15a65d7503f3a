//! The byte-stuffing frame codec.
//!
//! A frame is `marker | length (2 bytes, big-endian) | escaped message |
//! checksum | marker`. Length and checksum both describe the escaped message,
//! never the raw one.

use vstd::prelude::*;
use crate::error::ProtocolError;

verus! {

/// Opens and closes every frame.
pub const FRAME_MARKER: u8 = 0x5A;

/// Introduces a two-byte escape sequence inside a frame.
pub const ESCAPE_MARKER: u8 = 0x5B;

/// The longest escaped message that the length field can describe.
pub const MAX_PAYLOAD: usize = 0xFFFF;

/// What one raw byte becomes inside a frame.
pub open spec fn escape_byte(b: u8) -> Seq<u8> {
    if b == FRAME_MARKER {
        seq![ESCAPE_MARKER, 0x01u8]
    } else if b == ESCAPE_MARKER {
        seq![ESCAPE_MARKER, 0x02u8]
    } else {
        seq![b]
    }
}

/// The escaped form of a raw message: each byte replaced by its `escape_byte`.
pub open spec fn escape(data: Seq<u8>) -> Seq<u8>
    decreases data.len(),
{
    if data.len() == 0 {
        Seq::empty()
    } else {
        escape(data.drop_last()) + escape_byte(data.last())
    }
}

/// The raw message that an escaped payload stands for, if it stands for one.
///
/// A payload stands for nothing where it holds a bare frame marker, or an
/// escape marker that is not followed by `0x01` or `0x02`.
pub open spec fn unescape(payload: Seq<u8>) -> Option<Seq<u8>>
    decreases payload.len(),
{
    if payload.len() == 0 {
        Some(Seq::empty())
    } else if payload[0] == FRAME_MARKER {
        None
    } else if payload[0] == ESCAPE_MARKER {
        if payload.len() >= 2 && (payload[1] == 0x01 || payload[1] == 0x02) {
            match unescape(payload.skip(2)) {
                Some(rest) => Some(
                    seq![if payload[1] == 0x01 { FRAME_MARKER } else { ESCAPE_MARKER }] + rest,
                ),
                None => None,
            }
        } else {
            None
        }
    } else {
        match unescape(payload.skip(1)) {
            Some(rest) => Some(seq![payload[0]] + rest),
            None => None,
        }
    }
}

/// The plain sum of the bytes.
pub open spec fn byte_sum(data: Seq<u8>) -> int
    decreases data.len(),
{
    if data.len() == 0 {
        0
    } else {
        byte_sum(data.drop_last()) + data.last() as int
    }
}

/// The frame checksum: the sum of the bytes modulo 256.
pub open spec fn checksum(data: Seq<u8>) -> u8 {
    (byte_sum(data) % 256) as u8
}

/// The frame that carries `message`.
pub open spec fn frame_of(message: Seq<u8>) -> Seq<u8> {
    let payload = escape(message);
    seq![FRAME_MARKER, (payload.len() / 256) as u8, (payload.len() % 256) as u8] + payload
        + seq![checksum(payload), FRAME_MARKER]
}

/// The message that `frame` carries, if `frame` is a well-formed frame.
pub open spec fn message_of(frame: Seq<u8>) -> Option<Seq<u8>> {
    if frame.len() < 5 {
        None
    } else {
        let payload = frame.subrange(3, frame.len() - 2);
        if frame[0] == FRAME_MARKER && frame[frame.len() - 1] == FRAME_MARKER && payload.len()
            == frame[1] as int * 256 + frame[2] as int && frame[frame.len() - 2] == checksum(
            payload,
        ) {
            unescape(payload)
        } else {
            None
        }
    }
}

/// Escaping goes byte by byte: one more raw byte adds its own escaped form
/// at the end.
pub proof fn lemma_escape_push(data: Seq<u8>, b: u8)
    ensures
        escape(data.push(b)) == escape(data) + escape_byte(b),
{
    assert(data.push(b).drop_last() =~= data);
}

/// The escaped form of two messages joined is their escaped forms joined.
pub proof fn lemma_escape_concat(a: Seq<u8>, b: Seq<u8>)
    ensures
        escape(a + b) == escape(a) + escape(b),
    decreases b.len(),
{
    if b.len() == 0 {
        assert(a + b =~= a);
        assert(escape(a) + escape(b) =~= escape(a));
    } else {
        lemma_escape_concat(a, b.drop_last());
        assert((a + b).drop_last() =~= a + b.drop_last());
        assert(escape(a + b) =~= escape(a) + escape(b));
    }
}

/// Escaping never shortens a message and at most doubles it.
pub proof fn lemma_escape_len(data: Seq<u8>)
    ensures
        data.len() <= escape(data).len() <= 2 * data.len(),
    decreases data.len(),
{
    if data.len() > 0 {
        lemma_escape_len(data.drop_last());
    }
}

/// Escapes `data` byte by byte.
pub fn escape_data(data: &[u8]) -> (result: Vec<u8>)
    ensures
        result@ == escape(data@),
{
    let mut result: Vec<u8> = Vec::with_capacity(data.len());
    let mut i: usize = 0;
    while i < data.len()
        invariant
            i <= data.len(),
            result@ == escape(data@.take(i as int)),
        decreases data.len() - i,
    {
        let b: u8 = data[i];
        proof {
            lemma_escape_push(data@.take(i as int), b);
            assert(data@.take(i as int).push(b) =~= data@.take(i + 1));
        }
        if b == FRAME_MARKER {
            result.push(ESCAPE_MARKER);
            result.push(0x01);
        } else if b == ESCAPE_MARKER {
            result.push(ESCAPE_MARKER);
            result.push(0x02);
        } else {
            result.push(b);
        }
        i = i + 1;
    }
    assert(data@.take(i as int) =~= data@);
    result
}

/// The 8-bit sum of `data`, with wraparound.
pub fn calc_crc(data: &[u8]) -> (crc: u8)
    ensures
        crc == checksum(data@),
{
    let mut acc: u8 = 0;
    let mut i: usize = 0;
    while i < data.len()
        invariant
            i <= data.len(),
            acc as int == byte_sum(data@.take(i as int)) % 256,
        decreases data.len() - i,
    {
        proof {
            assert(data@.take(i + 1).drop_last() =~= data@.take(i as int));
        }
        acc = acc.wrapping_add(data[i]);
        i = i + 1;
    }
    assert(data@.take(i as int) =~= data@);
    acc
}

/// Builds the frame that carries `message`.
///
/// Fails where the escaped message is longer than `MAX_PAYLOAD` bytes, and
/// only there.
pub fn build_frame(message: &[u8]) -> (result: Result<Vec<u8>, ProtocolError>)
    ensures
        match result {
            Ok(frame) => escape(message@).len() <= MAX_PAYLOAD && frame@ == frame_of(message@),
            Err(e) => escape(message@).len() > MAX_PAYLOAD && e == ProtocolError::PayloadTooLong,
        },
{
    let escaped = escape_data(message);
    let length: usize = escaped.len();
    if length > MAX_PAYLOAD {
        return Err(ProtocolError::PayloadTooLong);
    }
    let crc: u8 = calc_crc(escaped.as_slice());
    let mut frame: Vec<u8> = Vec::with_capacity(length + 5);
    frame.push(FRAME_MARKER);
    frame.push((length / 256) as u8);
    frame.push((length % 256) as u8);
    let mut i: usize = 0;
    while i < length
        invariant
            i <= length,
            length == escaped@.len(),
            frame@ == seq![FRAME_MARKER, (length / 256) as u8, (length % 256) as u8]
                + escaped@.take(i as int),
        decreases length - i,
    {
        frame.push(escaped[i]);
        assert(escaped@.take(i as int).push(escaped@[i as int]) =~= escaped@.take(i + 1));
        i = i + 1;
    }
    assert(escaped@.take(i as int) =~= escaped@);
    frame.push(crc);
    frame.push(FRAME_MARKER);
    Ok(frame)
}

/// Undoes `escape_data`: the raw message that `payload` stands for, or
/// `None` where it stands for none.
pub fn unescape_data(payload: &[u8]) -> (result: Option<Vec<u8>>)
    ensures
        match result {
            Some(data) => unescape(payload@) == Some(data@),
            None => unescape(payload@) is None,
        },
{
    let mut out: Vec<u8> = Vec::with_capacity(payload.len());
    let mut i: usize = 0;
    proof {
        assert(payload@.skip(0) =~= payload@);
        match unescape(payload@) {
            Some(rest) => {
                assert(out@ + rest =~= rest);
            },
            None => {},
        }
    }
    while i < payload.len()
        invariant
            i <= payload.len(),
            unescape(payload@) == match unescape(payload@.skip(i as int)) {
                Some(rest) => Some(out@ + rest),
                None => None,
            },
        decreases payload.len() - i,
    {
        let ghost tail = payload@.skip(i as int);
        let b: u8 = payload[i];
        assert(tail[0] == b);
        if b == FRAME_MARKER {
            return None;
        } else if b == ESCAPE_MARKER {
            if i + 1 >= payload.len() {
                return None;
            }
            let code: u8 = payload[i + 1];
            assert(tail[1] == code);
            if code != 0x01 && code != 0x02 {
                return None;
            }
            proof {
                assert(tail.skip(2) =~= payload@.skip(i + 2));
                let raw: u8 = if code == 0x01 { FRAME_MARKER } else { ESCAPE_MARKER };
                match unescape(payload@.skip(i + 2)) {
                    Some(rest) => {
                        assert(out@ + (seq![raw] + rest) =~= out@.push(raw) + rest);
                    },
                    None => {},
                }
            }
            if code == 0x01 {
                out.push(FRAME_MARKER);
            } else {
                out.push(ESCAPE_MARKER);
            }
            i = i + 2;
        } else {
            proof {
                assert(tail.skip(1) =~= payload@.skip(i + 1));
                match unescape(payload@.skip(i + 1)) {
                    Some(rest) => {
                        assert(out@ + (seq![b] + rest) =~= out@.push(b) + rest);
                    },
                    None => {},
                }
            }
            out.push(b);
            i = i + 1;
        }
    }
    assert(out@ + Seq::<u8>::empty() =~= out@);
    Some(out)
}

/// Reads one frame: the message it carries, or `None` where `frame` is not a
/// well-formed frame.
pub fn decode_frame(frame: &[u8]) -> (result: Option<Vec<u8>>)
    ensures
        match result {
            Some(message) => message_of(frame@) == Some(message@),
            None => message_of(frame@) is None,
        },
{
    let n: usize = frame.len();
    if n < 5 {
        return None;
    }
    if frame[0] != FRAME_MARKER || frame[n - 1] != FRAME_MARKER {
        return None;
    }
    let declared: usize = frame[1] as usize * 256 + frame[2] as usize;
    if declared != n - 5 {
        return None;
    }
    let payload = vstd::slice::slice_subrange(frame, 3, n - 2);
    if calc_crc(payload) != frame[n - 2] {
        return None;
    }
    unescape_data(payload)
}


/// Unescaping undoes escaping: every raw message comes back from its
/// escaped form.
pub proof fn lemma_unescape_escape(data: Seq<u8>)
    ensures
        unescape(escape(data)) == Some(data),
    decreases data.len(),
{
    if data.len() == 0 {
        assert(unescape(escape(data)).unwrap() =~= data);
    } else {
        let rest = data.skip(1);
        let head = seq![data[0]];
        assert(head + rest =~= data);
        assert(escape(head.drop_last()) =~= Seq::<u8>::empty());
        assert(escape(head) =~= escape_byte(data[0]));
        lemma_escape_concat(head, rest);
        lemma_unescape_escape(rest);
        let payload = escape_byte(data[0]) + escape(rest);
        if data[0] == FRAME_MARKER || data[0] == ESCAPE_MARKER {
            assert(payload.skip(2) =~= escape(rest));
        } else {
            assert(payload.skip(1) =~= escape(rest));
        }
    }
}

/// The only payload that unescapes to a message is that message's escaped
/// form.
pub proof fn lemma_escape_unescape(payload: Seq<u8>)
    requires
        unescape(payload) is Some,
    ensures
        escape(unescape(payload).unwrap()) == payload,
    decreases payload.len(),
{
    if payload.len() == 0 {
        assert(escape(unescape(payload).unwrap()) =~= payload);
    } else if payload[0] == ESCAPE_MARKER {
        let tail = payload.skip(2);
        lemma_escape_unescape(tail);
        let raw: u8 = if payload[1] == 0x01 { FRAME_MARKER } else { ESCAPE_MARKER };
        let head = seq![raw];
        assert(escape(head.drop_last()) =~= Seq::<u8>::empty());
        assert(escape(head) =~= escape_byte(raw));
        lemma_escape_concat(head, unescape(tail).unwrap());
        assert(escape_byte(raw) + tail =~= payload);
    } else {
        let tail = payload.skip(1);
        lemma_escape_unescape(tail);
        let head = seq![payload[0]];
        assert(escape(head.drop_last()) =~= Seq::<u8>::empty());
        assert(escape(head) =~= escape_byte(payload[0]));
        lemma_escape_concat(head, unescape(tail).unwrap());
        assert(escape_byte(payload[0]) + tail =~= payload);
    }
}

/// Escaping is injective: two messages with the same escaped form are the
/// same message.
pub proof fn lemma_escape_injective(a: Seq<u8>, b: Seq<u8>)
    requires
        escape(a) == escape(b),
    ensures
        a == b,
{
    lemma_unescape_escape(a);
    lemma_unescape_escape(b);
}

/// Whether the byte after position `i` of `payload` is one of the two codes
/// that may follow an escape marker.
pub open spec fn escape_code_follows(payload: Seq<u8>, i: int) -> bool {
    i + 1 < payload.len() && (payload[i + 1] == 0x01 || payload[i + 1] == 0x02)
}

/// An escaped message holds no frame marker, and each escape marker in it is
/// followed at once by `0x01` or `0x02`: neither reserved byte stands bare.
pub proof fn lemma_escape_no_bare_marker(data: Seq<u8>)
    ensures
        forall|i: int| 0 <= i < escape(data).len() ==> escape(data)[i] != FRAME_MARKER,
        forall|i: int|
            0 <= i < escape(data).len() && #[trigger] escape(data)[i] == ESCAPE_MARKER
                ==> escape_code_follows(escape(data), i),
    decreases data.len(),
{
    if data.len() > 0 {
        lemma_escape_no_bare_marker(data.drop_last());
        let front = escape(data.drop_last());
        let whole = escape(data);
        assert forall|i: int| 0 <= i < whole.len() implies whole[i] != FRAME_MARKER by {
            if i < front.len() {
                assert(whole[i] == front[i]);
            }
        }
        assert forall|i: int|
            0 <= i < whole.len() && #[trigger] whole[i] == ESCAPE_MARKER implies escape_code_follows(
            whole,
            i,
        ) by {
            if i < front.len() {
                assert(whole[i] == front[i]);
                assert(escape_code_follows(front, i));
                assert(whole[i + 1] == front[i + 1]);
            }
        }
    }
}

/// The checksum depends on the byte values alone: equal payloads have equal
/// checksums, however often it is computed.
pub proof fn lemma_checksum_deterministic(a: Seq<u8>, b: Seq<u8>)
    requires
        a =~= b,
    ensures
        checksum(a) == checksum(b),
{
}

/// A frame opens and closes with the same marker, its length field counts
/// the bytes of the escaped message, which follow it, and the byte before
/// the closing marker is their checksum.
pub proof fn lemma_frame_shape(message: Seq<u8>)
    requires
        escape(message).len() <= MAX_PAYLOAD,
    ensures
        frame_of(message).len() == escape(message).len() + 5,
        frame_of(message)[0] == FRAME_MARKER,
        frame_of(message).last() == FRAME_MARKER,
        frame_of(message)[1] as int * 256 + frame_of(message)[2] as int == escape(message).len(),
        frame_of(message).subrange(3, frame_of(message).len() - 2) == escape(message),
        frame_of(message)[frame_of(message).len() - 2] == checksum(escape(message)),
{
    let payload = escape(message);
    let frame = frame_of(message);
    assert(frame.subrange(3, frame.len() - 2) =~= payload);
}

/// Decoding undoes framing: a message that fits in a frame comes back from
/// that frame.
pub proof fn lemma_decode_frame(message: Seq<u8>)
    requires
        escape(message).len() <= MAX_PAYLOAD,
    ensures
        message_of(frame_of(message)) == Some(message),
{
    lemma_frame_shape(message);
    lemma_unescape_escape(message);
}

/// The only frame that carries a message is the one built for it.
pub proof fn lemma_frame_unique(frame: Seq<u8>)
    requires
        message_of(frame) is Some,
    ensures
        frame_of(message_of(frame).unwrap()) == frame,
{
    let payload = frame.subrange(3, frame.len() - 2);
    lemma_escape_unescape(payload);
    assert(frame_of(message_of(frame).unwrap()) =~= frame);
}

} // verus!
