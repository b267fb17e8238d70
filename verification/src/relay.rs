//! The relay's per-step decisions: what a peer connection handler does with
//! one read outcome, and what one broadcast cycle writes and to whom. The
//! surrounding loop performs the reads, writes and sleeps these steps call
//! for.

use vstd::prelude::*;
use vstd::utf8::encode_utf8;
use crate::codec::{decode, decode_spec, encode, pad_spec, DecodeError, Frame, MSG_SIZE};
use crate::registry::Registry;

verus! {

/// The outcome of one attempted frame read on a peer's connection.
pub enum ReadEvent {
    /// A full frame arrived.
    Frame(Frame),
    /// No data yet: the non-blocking read would block.
    WouldBlock,
    /// The read failed for any other reason, a clean close included.
    Closed,
}

impl ReadEvent {
    pub open spec fn wf(&self) -> bool {
        match self {
            ReadEvent::Frame(f) => f.wf(),
            _ => true,
        }
    }
}

/// What the handler's loop does next with one read outcome.
pub enum HandlerAction {
    /// Hand the decoded text to the router, then keep reading.
    Publish(String),
    /// The frame was not valid UTF-8: drop it, keep the connection open.
    Discard,
    /// Sleep one poll interval, then retry the read.
    Yield,
    /// Leave the loop; the connection is gone.
    Close,
}

/// One step of a peer connection handler's read loop: a decoded frame is
/// published, a malformed one is discarded without closing, a would-block
/// outcome yields, and any other read failure closes the connection.
pub fn handler_step(ev: ReadEvent) -> (a: HandlerAction)
    requires
        ev.wf(),
    ensures
        match ev {
            ReadEvent::Frame(f) => (match a {
                HandlerAction::Publish(t) => decode_spec(f@) == Some(t@),
                HandlerAction::Discard => decode_spec(f@) is None,
                _ => false,
            }),
            ReadEvent::WouldBlock => a is Yield,
            ReadEvent::Closed => a is Close,
        },
{
    match ev {
        ReadEvent::Frame(f) => match decode(&f) {
            Ok(t) => HandlerAction::Publish(t),
            Err(DecodeError::InvalidUtf8) => HandlerAction::Discard,
        },
        ReadEvent::WouldBlock => HandlerAction::Yield,
        ReadEvent::Closed => HandlerAction::Close,
    }
}

/// One fan-out step for a drained message: the message is encoded once, and
/// the very same frame is to be written to every registered peer — the sender
/// included — in registry order. When the message's UTF-8 encoding fits one
/// frame and holds no zero byte, the frame every peer receives decodes back
/// to the message.
pub fn plan_broadcast(reg: &Registry, msg: &str) -> (p: (Frame, Vec<u64>))
    ensures
        p.0.wf(),
        p.0@ == pad_spec(encode_utf8(msg@)),
        p.1@ == reg@,
        (encode_utf8(msg@).len() <= MSG_SIZE && (forall|i: int|
            0 <= i < encode_utf8(msg@).len() ==> encode_utf8(msg@)[i] != 0)) ==> decode_spec(p.0@)
            == Some(msg@),
{
    let f = encode(msg);
    proof {
        if encode_utf8(msg@).len() <= MSG_SIZE && (forall|i: int|
            0 <= i < encode_utf8(msg@).len() ==> encode_utf8(msg@)[i] != 0) {
            crate::codec::lemma_round_trip(msg@);
        }
    }
    (f, reg.targets())
}

} // verus!
