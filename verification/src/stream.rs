//! Reading what stands on a stream: first the HTTP head, up to the separator,
//! then messages, each behind its length.

use vstd::prelude::*;

use crate::message::{
    client_bytes, decode_client, decode_server, frame, law_client_message_round_trip,
    law_server_message_round_trip, parse_client_message, parse_server_message, server_bytes,
    ClientMessage, ClientMessageView, ServerMessage, ServerMessageView,
};
use crate::text::{decimal, number_text};
use crate::wire::{
    le_bytes, lemma_le_bytes_len, lemma_take_size, read_usize, take_size, usize_fault,
};

verus! {

/// The longest message that is read; a longer one ends the stream.
pub const MAX_MESSAGE_LEN: usize = 100_000;

/// The bytes of a message's length.
pub const HEADER_LEN: usize = 8;

/// Why there is no message (yet) at the front of a buffer.
#[derive(Debug, PartialEq, Eq)]
pub enum ReadStop {
    /// So many more bytes have to be read first.
    NeedMore(usize),
    /// The length in front is over [`MAX_MESSAGE_LEN`].
    TooLong(usize),
    /// The bytes are no message, for this reason.
    Malformed(String),
}

impl ReadStop {
    /// The reason in words.
    pub fn text(&self) -> (r: String)
        ensures
            match *self {
                ReadStop::NeedMore(_) => r@ == "incomplete message"@,
                ReadStop::TooLong(len) => r@ == "invalid message len size. "@ + decimal(
                    len as nat,
                ) + " is too big"@,
                ReadStop::Malformed(reason) => r@ == reason@,
            },
    {
        match self {
            ReadStop::NeedMore(_) => "incomplete message".to_owned(),
            ReadStop::TooLong(len) => {
                let mut text = "invalid message len size. ".to_owned();
                text.append(number_text(*len).as_str());
                text.append(" is too big");
                text
            },
            ReadStop::Malformed(reason) => reason.clone(),
        }
    }
}

// ---------------------------------------------------------------------------
// Messages
// ---------------------------------------------------------------------------

/// What stands at the front of a buffer.
pub enum FrameView {
    NeedMore(nat),
    TooLong(nat),
    Malformed(Seq<char>),
    /// A whole message, without its length.
    Body(Seq<u8>),
}

pub open spec fn read_frame(b: Seq<u8>) -> FrameView {
    if b.len() < HEADER_LEN {
        FrameView::NeedMore((HEADER_LEN - b.len()) as nat)
    } else {
        match take_size(b) {
            None => FrameView::Malformed(usize_fault(b)),
            Some((len, rest)) => if len > MAX_MESSAGE_LEN {
                FrameView::TooLong(len)
            } else if rest.len() < len {
                FrameView::NeedMore((len - rest.len()) as nat)
            } else {
                FrameView::Body(rest.take(len as int))
            },
        }
    }
}

/// The length of the message whole at the front of the buffer.
fn frame_len(buffer: &[u8]) -> (r: Result<usize, ReadStop>)
    ensures
        match read_frame(buffer@) {
            FrameView::NeedMore(n) => r matches Err(ReadStop::NeedMore(k)) && k == n,
            FrameView::TooLong(n) => r matches Err(ReadStop::TooLong(k)) && k == n,
            FrameView::Malformed(text) => r matches Err(ReadStop::Malformed(t)) && t@ == text,
            FrameView::Body(body) => r matches Ok(len) && len == body.len() && HEADER_LEN + len
                <= buffer@.len() && buffer@.subrange(HEADER_LEN as int, HEADER_LEN + len) == body,
        },
{
    if buffer.len() < HEADER_LEN {
        return Err(ReadStop::NeedMore(HEADER_LEN - buffer.len()));
    }
    match read_usize(buffer) {
        Err(text) => Err(ReadStop::Malformed(text)),
        Ok(len) => {
            let have: usize = buffer.len() - HEADER_LEN;
            if len > MAX_MESSAGE_LEN {
                Err(ReadStop::TooLong(len))
            } else if have < len {
                Err(ReadStop::NeedMore(len - have))
            } else {
                proof {
                    let rest = buffer@.skip(HEADER_LEN as int);
                    assert(rest.take(len as int) =~= buffer@.subrange(
                        HEADER_LEN as int,
                        HEADER_LEN + len,
                    ));
                }
                Ok(len)
            }
        },
    }
}

/// The client message at the front of the buffer, and how many bytes it takes.
/// The caller reads as many bytes as `NeedMore` asks for and tries again.
pub fn read_client_message(buffer: &[u8]) -> (r: Result<(ClientMessage, usize), ReadStop>)
    ensures
        match read_frame(buffer@) {
            FrameView::NeedMore(n) => r matches Err(ReadStop::NeedMore(k)) && k == n,
            FrameView::TooLong(n) => r matches Err(ReadStop::TooLong(k)) && k == n,
            FrameView::Malformed(text) => r matches Err(ReadStop::Malformed(t)) && t@ == text,
            FrameView::Body(body) => match decode_client(body) {
                Err(text) => r matches Err(ReadStop::Malformed(t)) && t@ == text,
                Ok(m) => r matches Ok((msg, used)) && msg@ == m && used == HEADER_LEN
                    + body.len(),
            },
        },
{
    let len = frame_len(buffer)?;
    let (front, _) = buffer.split_at(HEADER_LEN + len);
    let (_, body) = front.split_at(HEADER_LEN);
    proof {
        assert(body@ =~= buffer@.subrange(HEADER_LEN as int, HEADER_LEN + len));
    }
    match parse_client_message(body) {
        Ok(msg) => Ok((msg, HEADER_LEN + len)),
        Err(e) => Err(ReadStop::Malformed(e.text)),
    }
}

/// The server message at the front of the buffer, and how many bytes it takes.
/// The caller reads as many bytes as `NeedMore` asks for and tries again.
pub fn read_server_message(buffer: &[u8]) -> (r: Result<(ServerMessage, usize), ReadStop>)
    ensures
        match read_frame(buffer@) {
            FrameView::NeedMore(n) => r matches Err(ReadStop::NeedMore(k)) && k == n,
            FrameView::TooLong(n) => r matches Err(ReadStop::TooLong(k)) && k == n,
            FrameView::Malformed(text) => r matches Err(ReadStop::Malformed(t)) && t@ == text,
            FrameView::Body(body) => match decode_server(body) {
                Err(text) => r matches Err(ReadStop::Malformed(t)) && t@ == text,
                Ok(m) => r matches Ok((msg, used)) && msg@ == m && used == HEADER_LEN
                    + body.len(),
            },
        },
{
    let len = frame_len(buffer)?;
    let (front, _) = buffer.split_at(HEADER_LEN + len);
    let (_, body) = front.split_at(HEADER_LEN);
    proof {
        assert(body@ =~= buffer@.subrange(HEADER_LEN as int, HEADER_LEN + len));
    }
    match parse_server_message(body) {
        Ok(msg) => Ok((msg, HEADER_LEN + len)),
        Err(e) => Err(ReadStop::Malformed(e.text)),
    }
}

// ---------------------------------------------------------------------------
// The separator
// ---------------------------------------------------------------------------

/// How much of the separator is matched after one more byte. A byte stands for
/// the character with its number. A mismatch starts over with the next byte.
pub open spec fn match_step(target: Seq<char>, matched: nat, byte: u8) -> nat {
    if byte as char == target[matched as int] {
        matched + 1
    } else {
        0
    }
}

/// How many bytes of `b` are read until the separator is matched, if it is;
/// `matched` of its characters were matched before.
pub open spec fn body_start(target: Seq<char>, matched: nat, b: Seq<u8>) -> Option<nat>
    decreases b.len(),
{
    if b.len() == 0 {
        None
    } else {
        let now = match_step(target, matched, b[0]);
        if now >= target.len() {
            Some(1)
        } else {
            match body_start(target, now, b.drop_first()) {
                Some(n) => Some(n + 1),
                None => None,
            }
        }
    }
}

/// A wait for the separator, fed byte by byte.
pub struct BodyWait {
    pub target: Vec<char>,
    pub matched_idx: usize,
}

impl BodyWait {
    /// The separator is not matched yet.
    pub open spec fn well_formed(self) -> bool {
        self.matched_idx < self.target@.len()
    }

    /// Nothing is matched yet. The separator must not be empty.
    pub fn new(target: Vec<char>) -> (r: BodyWait)
        requires
            target@.len() > 0,
        ensures
            r.well_formed(),
            r.target == target,
            r.matched_idx == 0,
    {
        BodyWait { target, matched_idx: 0 }
    }

    /// Takes one byte; whether it completes the separator. It then waits anew.
    pub fn feed(&mut self, byte: u8) -> (reached: bool)
        requires
            old(self).well_formed(),
        ensures
            final(self).well_formed(),
            final(self).target == old(self).target,
            ({
                let now = match_step(old(self).target@, old(self).matched_idx as nat, byte);
                &&& reached == (now >= old(self).target@.len())
                &&& final(self).matched_idx == if reached {
                    0
                } else {
                    now
                }
            }),
    {
        let len: usize = self.target.len();
        if byte as char == self.target[self.matched_idx] {
            self.matched_idx = self.matched_idx + 1;
        } else {
            self.matched_idx = 0;
        }
        if self.matched_idx >= len {
            self.matched_idx = 0;
            true
        } else {
            false
        }
    }
}

/// How many of the bytes stand before the body: all up to and with the separator;
/// `None` if it is not there. The separator must not be empty.
pub fn wait_for_body(target: &Vec<char>, bytes: &[u8]) -> (r: Option<usize>)
    requires
        target@.len() > 0,
    ensures
        match body_start(target@, 0, bytes@) {
            Some(n) => r matches Some(k) && k == n,
            None => r is None,
        },
{
    let mut wait = BodyWait::new(target.clone());
    let mut i: usize = 0;
    assert(bytes@.skip(0) =~= bytes@);
    while i < bytes.len()
        invariant
            i <= bytes@.len(),
            wait.well_formed(),
            wait.target@ == target@,
            body_start(target@, 0, bytes@) == match body_start(
                target@,
                wait.matched_idx as nat,
                bytes@.skip(i as int),
            ) {
                Some(n) => Some(n + i as nat),
                None => None,
            },
        decreases bytes@.len() - i,
    {
        assert(bytes@.skip(i as int).drop_first() =~= bytes@.skip(i + 1));
        let reached = wait.feed(bytes[i]);
        i = i + 1;
        if reached {
            return Some(i);
        }
    }
    None
}

// ---------------------------------------------------------------------------
// Laws
// ---------------------------------------------------------------------------

/// Whether `s` is the separator `target`, byte for character.
pub open spec fn spells(s: Seq<u8>, target: Seq<char>) -> bool {
    &&& s.len() == target.len()
    &&& forall|i: int| 0 <= i < s.len() ==> #[trigger] s[i] as char == target[i]
}

proof fn lemma_body_start_sound(target: Seq<char>, matched: nat, b: Seq<u8>)
    requires
        matched < target.len(),
        body_start(target, matched, b) is Some,
    ensures
        ({
            let n = body_start(target, matched, b)->Some_0;
            &&& 0 < n <= b.len()
            &&& n + matched == target.len() || n > target.len()
            &&& forall|p: int|
                0 <= p < n && n - target.len() <= p ==> #[trigger] b[p] as char == target[p - n
                    + target.len()]
        }),
    decreases b.len(),
{
    let now = match_step(target, matched, b[0]);
    let n = body_start(target, matched, b)->Some_0;
    if now < target.len() {
        let rest = b.drop_first();
        lemma_body_start_sound(target, now, rest);
        let k = body_start(target, now, rest)->Some_0;
        assert forall|p: int| 0 <= p < n && n - target.len() <= p implies #[trigger] b[p] as char
            == target[p - n + target.len()] by {
            if p > 0 {
                assert(rest[p - 1] as char == target[(p - 1) - k + target.len()]);
            }
        }
    }
}

/// Where a body begins, the separator stands right before it.
pub proof fn law_separator_precedes_body(target: Seq<char>, b: Seq<u8>)
    requires
        target.len() > 0,
        body_start(target, 0, b) is Some,
    ensures
        ({
            let n = body_start(target, 0, b)->Some_0;
            target.len() <= n <= b.len() && spells(b.subrange(n - target.len(), n as int), target)
        }),
{
    lemma_body_start_sound(target, 0, b);
    let n = body_start(target, 0, b)->Some_0;
    let s = b.subrange(n - target.len(), n as int);
    assert forall|i: int| 0 <= i < s.len() implies #[trigger] s[i] as char == target[i] by {
        assert(b[n - target.len() + i] as char == target[i]);
    }
}

/// Where a body begins does not depend on what stands behind that place.
pub proof fn law_body_start_stable(target: Seq<char>, matched: nat, b: Seq<u8>, more: Seq<u8>)
    requires
        body_start(target, matched, b) is Some,
    ensures
        body_start(target, matched, b + more) == body_start(target, matched, b),
    decreases b.len(),
{
    let now = match_step(target, matched, b[0]);
    assert((b + more).drop_first() =~= b.drop_first() + more);
    if now < target.len() {
        law_body_start_stable(target, now, b.drop_first(), more);
    }
}

/// How much of the separator is matched after these bytes.
pub open spec fn matched_after(target: Seq<char>, matched: nat, b: Seq<u8>) -> nat
    decreases b.len(),
{
    if b.len() == 0 {
        matched
    } else {
        matched_after(target, match_step(target, matched, b[0]), b.drop_first())
    }
}

/// A wait that is not over goes on with the next bytes where it stopped.
pub proof fn law_wait_goes_on(target: Seq<char>, matched: nat, b: Seq<u8>, more: Seq<u8>)
    requires
        body_start(target, matched, b) is None,
    ensures
        body_start(target, matched, b + more) == match body_start(
            target,
            matched_after(target, matched, b),
            more,
        ) {
            Some(n) => Some(n + b.len()),
            None => None,
        },
    decreases b.len(),
{
    if b.len() == 0 {
        assert(b + more =~= more);
    } else {
        assert((b + more).drop_first() =~= b.drop_first() + more);
        law_wait_goes_on(target, match_step(target, matched, b[0]), b.drop_first(), more);
    }
}

/// After a byte that does not occur in the separator nothing is matched.
pub proof fn lemma_stray_byte_resets(target: Seq<char>, matched: nat, b: Seq<u8>)
    requires
        matched < target.len(),
        body_start(target, matched, b) is None,
        b.len() > 0,
        forall|i: int| 0 <= i < target.len() ==> #[trigger] target[i] != b.last() as char,
    ensures
        matched_after(target, matched, b) == 0,
    decreases b.len(),
{
    let now = match_step(target, matched, b[0]);
    if b.len() == 1 {
        assert(target[matched as int] != b[0] as char);
        assert(matched_after(target, now, b.drop_first()) == now);
    } else {
        lemma_stray_byte_resets(target, now, b.drop_first());
    }
}

proof fn lemma_separator_completes(target: Seq<char>, matched: nat, s: Seq<u8>)
    requires
        spells(s, target),
        matched < target.len(),
    ensures
        body_start(target, matched, s.skip(matched as int)) == Some(
            (target.len() - matched) as nat,
        ),
    decreases target.len() - matched,
{
    let b = s.skip(matched as int);
    assert(b[0] == s[matched as int]);
    if matched + 1 < target.len() {
        assert(b.drop_first() =~= s.skip((matched + 1) as int));
        lemma_separator_completes(target, matched + 1, s);
    }
}

/// A head in which no byte is the separator's first character is read up to the
/// end of the separator that follows it, and no further.
pub proof fn law_separator_found(target: Seq<char>, head: Seq<u8>, s: Seq<u8>, rest: Seq<u8>)
    requires
        target.len() > 0,
        spells(s, target),
        forall|i: int| 0 <= i < head.len() ==> #[trigger] head[i] as char != target[0],
    ensures
        body_start(target, 0, head + s + rest) == Some(head.len() + target.len()),
    decreases head.len(),
{
    if head.len() == 0 {
        assert(s.skip(0) =~= s);
        lemma_separator_completes(target, 0, s);
        law_body_start_stable(target, 0, s, rest);
        assert(head + s + rest =~= s + rest);
    } else {
        let tail = head.drop_first();
        assert forall|i: int| 0 <= i < tail.len() implies #[trigger] tail[i] as char
            != target[0] by {
            assert(head[i + 1] as char != target[0]);
        }
        law_separator_found(target, tail, s, rest);
        assert((head + s + rest).drop_first() =~= tail + s + rest);
        assert((head + s + rest)[0] == head[0]);
    }
}

/// A whole message of acceptable length is found at the front of a stream,
/// whatever follows it.
pub proof fn law_frame_read(body: Seq<u8>, rest: Seq<u8>)
    requires
        body.len() <= MAX_MESSAGE_LEN,
    ensures
        read_frame(frame(body) + rest) == FrameView::Body(body),
        frame(body).len() == HEADER_LEN + body.len(),
        (frame(body) + rest).skip((HEADER_LEN + body.len()) as int) == rest,
{
    lemma_le_bytes_len(body.len(), 8);
    assert(frame(body) + rest =~= le_bytes(body.len(), 8) + (body + rest));
    lemma_take_size(body.len(), body + rest);
    assert((body + rest).take(body.len() as int) =~= body);
    assert((frame(body) + rest).skip((HEADER_LEN + body.len()) as int) =~= rest);
}

/// A message over the limit is refused as soon as its length is read.
pub proof fn law_long_frame_refused(body: Seq<u8>, rest: Seq<u8>)
    requires
        MAX_MESSAGE_LEN < body.len() <= usize::MAX,
    ensures
        read_frame(le_bytes(body.len(), 8) + rest) == FrameView::TooLong(body.len()),
        read_frame(frame(body) + rest) == FrameView::TooLong(body.len()),
{
    lemma_le_bytes_len(body.len(), 8);
    assert(frame(body) + rest =~= le_bytes(body.len(), 8) + (body + rest));
    lemma_take_size(body.len(), body + rest);
    lemma_take_size(body.len(), rest);
}

/// A message that is not there in full is waited for, and never for more bytes
/// than it still lacks: reading one message takes nothing of the next.
pub proof fn law_partial_frame_waits(body: Seq<u8>, have: nat)
    requires
        body.len() <= MAX_MESSAGE_LEN,
        have < frame(body).len(),
    ensures
        read_frame(frame(body).take(have as int)) matches FrameView::NeedMore(n) && 0 < n && have
            + n <= frame(body).len(),
{
    lemma_le_bytes_len(body.len(), 8);
    let b = frame(body).take(have as int);
    if have >= HEADER_LEN {
        let rest = body.take(have - HEADER_LEN);
        assert(b =~= le_bytes(body.len(), 8) + rest);
        lemma_take_size(body.len(), rest);
    }
}

/// The server reads back, message by message, what the client wrote.
pub proof fn law_client_frame_round_trip(m: ClientMessageView, rest: Seq<u8>)
    requires
        m.well_formed(),
        client_bytes(m).len() <= MAX_MESSAGE_LEN,
    ensures
        read_frame(frame(client_bytes(m)) + rest) == FrameView::Body(client_bytes(m)),
        decode_client(client_bytes(m)) == Ok::<_, Seq<char>>(m.as_received()),
        (frame(client_bytes(m)) + rest).skip((HEADER_LEN + client_bytes(m).len()) as int) == rest,
{
    law_frame_read(client_bytes(m), rest);
    law_client_message_round_trip(m, Seq::empty());
    assert(client_bytes(m) + Seq::empty() =~= client_bytes(m));
}

/// The client reads back, message by message, what the server wrote.
pub proof fn law_server_frame_round_trip(m: ServerMessageView, rest: Seq<u8>)
    requires
        m.well_formed(),
        server_bytes(m).len() <= MAX_MESSAGE_LEN,
    ensures
        read_frame(frame(server_bytes(m)) + rest) == FrameView::Body(server_bytes(m)),
        decode_server(server_bytes(m)) == Ok::<_, Seq<char>>(m.as_received()),
        (frame(server_bytes(m)) + rest).skip((HEADER_LEN + server_bytes(m).len()) as int) == rest,
{
    law_frame_read(server_bytes(m), rest);
    law_server_message_round_trip(m, Seq::empty());
    assert(server_bytes(m) + Seq::empty() =~= server_bytes(m));
}

} // verus!
