//! The frame codec: every message travels as one fixed-width binary frame.
//!
//! A message's UTF-8 bytes are truncated to the frame width or zero-padded on
//! the right; decoding takes the bytes before the first zero byte (or the
//! whole frame if none) and reads them as UTF-8.

use vstd::prelude::*;
use vstd::utf8::{decode_utf8, encode_utf8, valid_utf8};

verus! {

/// Width of every wire frame, in bytes.
pub const MSG_SIZE: usize = 32;

/// A message's bytes made exactly one frame wide: truncated to `MSG_SIZE`
/// bytes, or zero-padded on the right up to `MSG_SIZE` bytes.
pub open spec fn pad_spec(b: Seq<u8>) -> Seq<u8> {
    if b.len() >= MSG_SIZE {
        b.take(MSG_SIZE as int)
    } else {
        b + Seq::new((MSG_SIZE - b.len()) as nat, |i: int| 0u8)
    }
}

/// Index of the first zero byte, or the length when none occurs.
pub open spec fn first_zero(b: Seq<u8>) -> int
    decreases b.len(),
{
    if b.len() == 0 {
        0
    } else if b[0] == 0 {
        0
    } else {
        1 + first_zero(b.drop_first())
    }
}

/// The content region of a frame: the bytes before the first zero byte.
pub open spec fn content_spec(b: Seq<u8>) -> Seq<u8> {
    b.take(first_zero(b))
}

pub proof fn lemma_first_zero(b: Seq<u8>)
    ensures
        0 <= first_zero(b) <= b.len(),
        forall|i: int| 0 <= i < first_zero(b) ==> b[i] != 0,
        first_zero(b) < b.len() ==> b[first_zero(b)] == 0,
    decreases b.len(),
{
    if b.len() == 0 {
    } else if b[0] == 0 {
    } else {
        lemma_first_zero(b.drop_first());
        assert forall|i: int| 0 <= i < first_zero(b) implies b[i] != 0 by {
            if i > 0 {
                assert(b.drop_first()[i - 1] == b[i]);
            }
        }
    }
}

/// The first zero byte's index is the one position with no zero before it
/// that either carries a zero or is the end.
pub proof fn lemma_first_zero_is(b: Seq<u8>, k: int)
    requires
        0 <= k <= b.len(),
        forall|i: int| 0 <= i < k ==> b[i] != 0,
        k < b.len() ==> b[k] == 0,
    ensures
        first_zero(b) == k,
{
    lemma_first_zero(b);
}

/// One fixed-width wire frame.
pub struct Frame {
    bytes: Vec<u8>,
}

impl View for Frame {
    type V = Seq<u8>;

    closed spec fn view(&self) -> Seq<u8> {
        self.bytes@
    }
}

/// Decoding never fails on length; only malformed UTF-8 is refused.
#[derive(Clone, Copy, Debug, PartialEq, Eq, Structural)]
pub enum DecodeError {
    InvalidUtf8,
}

/// What decoding a frame's bytes yields: its content region read as UTF-8,
/// or nothing when that region is not valid UTF-8.
pub open spec fn decode_spec(frame: Seq<u8>) -> Option<Seq<char>> {
    if valid_utf8(content_spec(frame)) {
        Some(decode_utf8(content_spec(frame)))
    } else {
        None
    }
}

impl Frame {
    /// Every frame holds exactly `MSG_SIZE` bytes.
    pub open spec fn wf(&self) -> bool {
        self@.len() == MSG_SIZE
    }

    pub fn from_vec(bytes: Vec<u8>) -> (f: Frame)
        requires
            bytes@.len() == MSG_SIZE,
        ensures
            f@ == bytes@,
            f.wf(),
    {
        Frame { bytes }
    }

    /// The raw bytes, for the caller that puts the frame on the wire.
    pub fn bytes(&self) -> (r: &Vec<u8>)
        ensures
            r@ == self@,
    {
        &self.bytes
    }
}

/// Relies on `String::from_utf8`: returns the string whose character sequence
/// the given bytes encode, or nothing when they are not valid UTF-8.
#[verifier::external_body]
fn string_from_utf8(bytes: Vec<u8>) -> (r: Option<String>)
    ensures
        match r {
            Some(s) => valid_utf8(bytes@) && s@ == decode_utf8(bytes@),
            None => !valid_utf8(bytes@),
        },
{
    String::from_utf8(bytes).ok()
}

/// Encode a message into one frame: copy at most `MSG_SIZE` bytes of its
/// UTF-8 encoding, zero-fill the remainder. Never fails; a long message is
/// truncated.
pub fn encode(text: &str) -> (f: Frame)
    ensures
        f.wf(),
        f@ == pad_spec(encode_utf8(text@)),
{
    let b: &[u8] = text.as_bytes();
    let n = if b.len() < MSG_SIZE {
        b.len()
    } else {
        MSG_SIZE
    };
    let mut out: Vec<u8> = Vec::new();
    let mut i: usize = 0;
    while i < n
        invariant
            i <= n,
            n <= b@.len(),
            n <= MSG_SIZE,
            out@ == b@.take(i as int),
        decreases n - i,
    {
        out.push(b[i]);
        proof {
            assert(out@ =~= b@.take(i + 1));
        }
        i += 1;
    }
    while out.len() < MSG_SIZE
        invariant
            n <= out@.len() <= MSG_SIZE,
            out@.take(n as int) == b@.take(n as int),
            forall|j: int| n <= j < out@.len() ==> out@[j] == 0,
        decreases MSG_SIZE - out@.len(),
    {
        proof {
            let ghost prev = out@;
            assert(prev.push(0u8).take(n as int) =~= prev.take(n as int));
        }
        out.push(0);
    }
    proof {
        assert forall|j: int| 0 <= j < n implies out@[j] == b@[j] by {
            assert(out@.take(n as int)[j] == b@.take(n as int)[j]);
        }
        assert(out@ =~= pad_spec(b@));
    }
    Frame { bytes: out }
}

/// Decode a frame: take the bytes before its first zero byte and read them
/// as UTF-8. Fails exactly when that prefix is not valid UTF-8.
pub fn decode(f: &Frame) -> (r: Result<String, DecodeError>)
    requires
        f.wf(),
    ensures
        match r {
            Ok(s) => decode_spec(f@) == Some(s@),
            Err(e) => e == DecodeError::InvalidUtf8 && decode_spec(f@) is None,
        },
{
    let n = f.bytes.len();
    let mut end: usize = 0;
    while end < n && f.bytes[end] != 0
        invariant
            n == f@.len(),
            end <= n,
            forall|j: int| 0 <= j < end ==> f@[j] != 0,
        decreases n - end,
    {
        end += 1;
    }
    proof {
        lemma_first_zero_is(f@, end as int);
    }
    let mut content: Vec<u8> = Vec::new();
    let mut i: usize = 0;
    while i < end
        invariant
            end <= f@.len(),
            i <= end,
            content@ == f@.take(i as int),
        decreases end - i,
    {
        content.push(f.bytes[i]);
        proof {
            assert(content@ =~= f@.take(i + 1));
        }
        i += 1;
    }
    match string_from_utf8(content) {
        Some(s) => Ok(s),
        None => Err(DecodeError::InvalidUtf8),
    }
}

/// Law: a message whose UTF-8 encoding is at most one frame wide and holds no
/// zero byte decodes back from its encoded frame unchanged.
pub proof fn lemma_round_trip(s: Seq<char>)
    requires
        encode_utf8(s).len() <= MSG_SIZE,
        forall|i: int| 0 <= i < encode_utf8(s).len() ==> encode_utf8(s)[i] != 0,
    ensures
        decode_spec(pad_spec(encode_utf8(s))) == Some(s),
{
    let b = encode_utf8(s);
    let padded = pad_spec(b);
    assert forall|i: int| 0 <= i < b.len() implies padded[i] != 0 by {
        assert(padded[i] == b[i]);
    }
    lemma_first_zero_is(padded, b.len() as int);
    assert(content_spec(padded) =~= b);
    vstd::utf8::encode_utf8_valid_utf8(s);
    vstd::utf8::encode_utf8_decode_utf8(s);
}

/// Law: a message at least one frame wide, with no zero byte among its first
/// `MSG_SIZE` bytes, decodes from its encoded frame to exactly those bytes.
pub proof fn lemma_truncation_bytes(b: Seq<u8>)
    requires
        b.len() >= MSG_SIZE,
        forall|i: int| 0 <= i < MSG_SIZE ==> b[i] != 0,
    ensures
        content_spec(pad_spec(b)) == b.take(MSG_SIZE as int),
{
    let padded = pad_spec(b);
    assert forall|i: int| 0 <= i < MSG_SIZE implies padded[i] != 0 by {
        assert(padded[i] == b[i]);
    }
    lemma_first_zero_is(padded, MSG_SIZE as int);
    assert(content_spec(padded) =~= b.take(MSG_SIZE as int));
}

/// Law: an ASCII message at least one frame wide, holding no NUL character,
/// decodes from its encoded frame to exactly its first `MSG_SIZE` characters.
pub proof fn lemma_truncation_ascii(s: Seq<char>)
    requires
        vstd::utf8::is_ascii_chars(s),
        s.len() >= MSG_SIZE,
        forall|i: int| 0 <= i < s.len() ==> s[i] != '\0',
    ensures
        decode_spec(pad_spec(encode_utf8(s))) == Some(s.take(MSG_SIZE as int)),
{
    let b = encode_utf8(s);
    vstd::utf8::is_ascii_chars_encode_utf8(s);
    assert forall|i: int| 0 <= i < MSG_SIZE implies b[i] != 0 by {
        assert(b[i] == s[i] as u8);
        vstd::utf8::char_u32_cast(s[i], s[i] as u32);
        vstd::utf8::char_u32_cast('\0', '\0' as u32);
    }
    lemma_truncation_bytes(b);
    let s_head = s.take(MSG_SIZE as int);
    assert(vstd::utf8::is_ascii_chars(s_head));
    vstd::utf8::is_ascii_chars_encode_utf8(s_head);
    assert(encode_utf8(s_head) =~= b.take(MSG_SIZE as int));
    vstd::utf8::encode_utf8_valid_utf8(s_head);
    vstd::utf8::encode_utf8_decode_utf8(s_head);
}

} // verus!
