//! What is found on a stream: the separator, and messages behind their length.

use vstd::prelude::*;

use crate::laws::messages::begins_with;
use crate::laws::wire::law_bytes_of_value;
use crate::message::frame;
use crate::stream::{
    body_start, match_step, matched_after, read_frame, spells, BodyWait, FrameView, HEADER_LEN,
    MAX_MESSAGE_LEN,
};
use crate::wire::{integer_fault, le_value};

verus! {

/// What is at the front of a stream, by the number in its first eight bytes: more
/// is waited for exactly as long as the message is not whole, a number over the
/// limit is refused, and a whole message is found as it stands.
pub proof fn law_frame_found(b: Seq<u8>)
    ensures
        ({
            let said = le_value(b.take(8));
            match read_frame(b) {
                FrameView::NeedMore(n) => if b.len() < 8 {
                    n == 8 - b.len()
                } else {
                    said <= 100_000 && b.len() < 8 + said && n == 8 + said - b.len()
                },
                FrameView::TooLong(n) => b.len() >= 8 && n == said && 100_000 < n <= usize::MAX,
                FrameView::Malformed(text) => b.len() >= 8 && said > usize::MAX && text
                    == integer_fault(said, "usize"@),
                FrameView::Body(body) => b.len() >= 8 + said && body.len() == said && said
                    <= 100_000 && begins_with(b, frame(body)) && body == b.subrange(
                    8,
                    8int + said,
                ),
            }
        }),
{
    if read_frame(b) is Body {
        let body = read_frame(b)->Body_0;
        let header = b.take(8);
        law_bytes_of_value(header);
        assert(body =~= b.subrange(8, 8int + le_value(header)));
        assert(b.take(frame(body).len() as int) =~= frame(body));
    }
}

/// The limits of a message.
pub proof fn law_message_limits()
    ensures
        MAX_MESSAGE_LEN == 100_000,
        HEADER_LEN == 8,
{
}

/// A byte that continues the separator is counted; any other starts over.
pub proof fn law_one_byte_more(target: Seq<char>, matched: nat, b: Seq<u8>, x: u8)
    ensures
        matched_after(target, matched, Seq::empty()) == matched,
        x as char == target[matched_after(target, matched, b) as int] ==> matched_after(
            target,
            matched,
            b.push(x),
        ) == matched_after(target, matched, b) + 1,
        x as char != target[matched_after(target, matched, b) as int] ==> matched_after(
            target,
            matched,
            b.push(x),
        ) == 0,
        x as char == target[matched as int] ==> match_step(target, matched, x) == matched + 1,
        x as char != target[matched as int] ==> match_step(target, matched, x) == 0,
    decreases b.len(),
{
    let all = b.push(x);
    if b.len() == 0 {
        assert(all.drop_first() =~= Seq::empty());
        assert(all[0] == x);
        assert(matched_after(target, match_step(target, matched, x), all.drop_first())
            == match_step(target, matched, x));
    } else {
        assert(all.drop_first() =~= b.drop_first().push(x));
        law_one_byte_more(target, match_step(target, matched, b[0]), b.drop_first(), x);
    }
}

/// The body begins behind the first byte with which the whole separator is matched,
/// and if there is no such byte it does not begin.
pub proof fn law_body_starts_once_matched(target: Seq<char>, matched: nat, b: Seq<u8>)
    requires
        matched < target.len(),
    ensures
        match body_start(target, matched, b) {
            Some(n) => 0 < n <= b.len() && matched_after(target, matched, b.take(n as int))
                == target.len() && forall|k: int|
                0 <= k < n ==> matched_after(target, matched, #[trigger] b.take(k)) < target.len(),
            None => forall|k: int|
                0 <= k <= b.len() ==> matched_after(target, matched, #[trigger] b.take(k))
                    < target.len(),
        },
    decreases b.len(),
{
    assert(b.take(0) =~= Seq::empty());
    if b.len() > 0 {
        let now = match_step(target, matched, b[0]);
        let rest = b.drop_first();
        assert forall|k: int| 1 <= k <= b.len() implies matched_after(
            target,
            matched,
            #[trigger] b.take(k),
        ) == matched_after(target, now, rest.take(k - 1)) by {
            assert(b.take(k).drop_first() =~= rest.take(k - 1));
        }
        assert(rest.take(0) =~= Seq::empty());
        if now < target.len() {
            law_body_starts_once_matched(target, now, rest);
            if body_start(target, now, rest) is Some {
                let n = body_start(target, now, rest)->Some_0;
                assert(matched_after(target, matched, b.take(n + 1int)) == target.len());
            }
        } else {
            assert(matched_after(target, matched, b.take(1)) == target.len());
        }
    }
}

/// What counts as matched has been read last.
pub proof fn law_matched_is_spelled(target: Seq<char>, b: Seq<u8>)
    requires
        target.len() > 0,
        forall|k: int|
            0 <= k < b.len() ==> matched_after(target, 0, #[trigger] b.take(k)) < target.len(),
    ensures
        matched_after(target, 0, b) <= b.len(),
        matched_after(target, 0, b) <= target.len(),
        spells(
            b.skip(b.len() - matched_after(target, 0, b)),
            target.take(matched_after(target, 0, b) as int),
        ),
    decreases b.len(),
{
    if b.len() > 0 {
        let front = b.drop_last();
        let x = b.last();
        assert forall|k: int| 0 <= k < front.len() implies matched_after(
            target,
            0,
            #[trigger] front.take(k),
        ) < target.len() by {
            assert(front.take(k) =~= b.take(k));
        }
        law_matched_is_spelled(target, front);
        law_one_byte_more(target, 0, front, x);
        assert(front.push(x) =~= b);
        assert(b.take(b.len() - 1) =~= front);
        let m = matched_after(target, 0, b);
        if m > 0 {
            let s = b.skip(b.len() - m);
            let before = front.skip(front.len() - (m - 1));
            assert forall|i: int| 0 <= i < s.len() implies #[trigger] s[i] as char == target.take(
                m as int,
            )[i] by {
                if i < m - 1 {
                    assert(before[i] as char == target.take(m - 1)[i]);
                }
            }
        }
    }
}

/// A wait is well-formed exactly while the separator is not matched.
pub proof fn law_wait_well_formed(wait: BodyWait)
    ensures
        wait.well_formed() <==> wait.matched_idx < wait.target@.len(),
{
}

} // verus!
