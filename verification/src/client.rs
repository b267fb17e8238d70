//! The client side of the wire protocol: each input line is trimmed; the
//! literal commands `:quit` and `:q` end the send loop without transmitting a
//! frame, and any other line is sent as one encoded frame. A background read
//! loop decodes incoming frames and shows their text.

use vstd::prelude::*;
use vstd::utf8::encode_utf8;
use crate::codec::{decode_spec, encode, pad_spec, Frame};
use crate::relay::ReadEvent;

verus! {

/// A character with Unicode's White_Space property, the set `str::trim`
/// removes at the ends of a line.
pub open spec fn is_space_char(c: char) -> bool {
    let u = c as u32;
    u == 0x20 || (0x9 <= u && u <= 0xd) || u == 0x85 || u == 0xa0 || u == 0x1680 || (0x2000 <= u
        && u <= 0x200a) || u == 0x2028 || u == 0x2029 || u == 0x202f || u == 0x205f || u == 0x3000
}

pub open spec fn trim_start_spec(s: Seq<char>) -> Seq<char>
    decreases s.len(),
{
    if s.len() > 0 && is_space_char(s[0]) {
        trim_start_spec(s.drop_first())
    } else {
        s
    }
}

pub open spec fn trim_end_spec(s: Seq<char>) -> Seq<char>
    decreases s.len(),
{
    if s.len() > 0 && is_space_char(s.last()) {
        trim_end_spec(s.drop_last())
    } else {
        s
    }
}

/// A line without its leading and trailing whitespace.
pub open spec fn trim_spec(s: Seq<char>) -> Seq<char> {
    trim_end_spec(trim_start_spec(s))
}

/// Relies on `str::trim`: returns the line with leading and trailing
/// whitespace removed, whitespace being Unicode's White_Space set.
#[verifier::external_body]
fn trim_str(s: &str) -> (r: &str)
    ensures
        r@ == trim_spec(s@),
{
    s.trim()
}

/// A line as the client sends it: surrounding whitespace removed.
pub fn clean_line(line: &str) -> (r: String)
    ensures
        r@ == trim_spec(line@),
{
    trim_str(line).to_owned()
}

/// Byte-for-byte equality of two slices.
fn bytes_eq(a: &[u8], b: &[u8]) -> (r: bool)
    ensures
        r == (a@ == b@),
{
    if a.len() != b.len() {
        return false;
    }
    let n = a.len();
    let mut i: usize = 0;
    while i < n
        invariant
            n == a@.len(),
            a@.len() == b@.len(),
            i <= n,
            forall|j: int| 0 <= j < i ==> a@[j] == b@[j],
        decreases n - i,
    {
        if a[i] != b[i] {
            return false;
        }
        i += 1;
    }
    proof {
        assert(a@ =~= b@);
    }
    true
}

/// The lines that end the client, once trimmed.
pub open spec fn is_quit_msg(s: Seq<char>) -> bool {
    s == ":quit"@ || s == ":q"@
}

/// True exactly when the (already trimmed) line is one of the quit commands.
pub fn is_quit_command(msg: &str) -> (r: bool)
    ensures
        r == is_quit_msg(msg@),
{
    proof {
        vstd::utf8::encode_utf8_decode_utf8(msg@);
        vstd::utf8::encode_utf8_decode_utf8(":quit"@);
        vstd::utf8::encode_utf8_decode_utf8(":q"@);
    }
    if bytes_eq(msg.as_bytes(), ":quit".as_bytes()) {
        true
    } else {
        bytes_eq(msg.as_bytes(), ":q".as_bytes())
    }
}

/// What the client's send loop does with one input line.
pub enum SendAction {
    /// The line was a quit command: leave the loop, send nothing.
    Quit,
    /// Write this frame to the server.
    Send(Frame),
}

/// One step of the client's send loop: trim the line; a quit command ends the
/// loop without a frame, any other line becomes exactly one encoded frame.
pub fn client_send_step(line: &str) -> (a: SendAction)
    ensures
        match a {
            SendAction::Quit => is_quit_msg(trim_spec(line@)),
            SendAction::Send(f) => !is_quit_msg(trim_spec(line@)) && f.wf() && f@ == pad_spec(
                encode_utf8(trim_spec(line@)),
            ),
        },
{
    let msg = clean_line(line);
    if is_quit_command(msg.as_str()) {
        SendAction::Quit
    } else {
        SendAction::Send(encode(msg.as_str()))
    }
}

/// What the client's receive loop does with one read outcome.
pub enum RecvAction {
    /// Show the decoded text, then keep reading.
    Show(String),
    /// The frame was not valid UTF-8: report it, keep reading.
    Ignore,
    /// The connection is gone: leave the loop.
    Stop,
}

/// One step of the client's receive loop: a decoded frame is shown, a
/// malformed one is reported and skipped, and any read failure — a would-block
/// state included, since the client reads blockingly — stops the loop.
pub fn client_recv_step(ev: ReadEvent) -> (a: RecvAction)
    requires
        ev.wf(),
    ensures
        match ev {
            ReadEvent::Frame(f) => (match a {
                RecvAction::Show(t) => decode_spec(f@) == Some(t@),
                RecvAction::Ignore => decode_spec(f@) is None,
                RecvAction::Stop => false,
            }),
            ReadEvent::WouldBlock => a is Stop,
            ReadEvent::Closed => a is Stop,
        },
{
    match ev {
        ReadEvent::Frame(f) => match crate::codec::decode(&f) {
            Ok(t) => RecvAction::Show(t),
            Err(_) => RecvAction::Ignore,
        },
        ReadEvent::WouldBlock => RecvAction::Stop,
        ReadEvent::Closed => RecvAction::Stop,
    }
}

} // verus!
