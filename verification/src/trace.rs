//! What a record of the traffic with the remote board shows: a long body cut
//! short, and of a credential only its two ends.

use vstd::prelude::*;
use vstd::string::StringSliceAdditionalSpecFns;
use vstd::utf8::*;
use crate::text::chars_of;
use crate::text::count_of;
use crate::text::digits;
use crate::text::joined;
use crate::text::matches_at;
use crate::text::occurs_at;
use crate::text::string_of;

verus! {

/// The last place at or below `max` at which the bytes of a text can be cut
/// between two characters.
pub open spec fn cut_at(bytes: Seq<u8>, max: int) -> int
    decreases max,
{
    if max <= 0 {
        0
    } else if is_char_boundary(bytes, max) {
        max
    } else {
        cut_at(bytes, max - 1)
    }
}

/// The mark that stands for `left` bytes that were cut off.
pub open spec fn cut_mark(left: int) -> Seq<char> {
    "…(+"@ + digits(left) + " bytes)"@
}

/// A text cut to at most `max` bytes: one that is no longer is itself; of a
/// longer one the characters that fit stay, and a mark says how many bytes
/// were left out.
pub open spec fn shortened(text: Seq<char>, max: int) -> Seq<char> {
    let bytes = encode_utf8(text);
    if bytes.len() <= max {
        text
    } else {
        let cut = cut_at(bytes, max);
        decode_utf8(bytes.subrange(0, cut)) + cut_mark(bytes.len() - cut)
    }
}

/// The text cut to at most `max` bytes.
pub fn truncate(s: &str, max: usize) -> (r: String)
    ensures
        r@ == shortened(s@, max as int),
{
    broadcast use encode_utf8_valid_utf8, is_char_boundary_start_end_of_seq;

    let ghost bytes = encode_utf8(s@);
    let len = s.as_bytes().len();
    if len <= max {
        return s.to_owned();
    }
    let mut cut: usize = max;
    while !s.is_char_boundary(cut)
        invariant
            cut <= max < len,
            bytes == encode_utf8(s@),
            bytes.len() == len,
            valid_utf8(bytes),
            cut_at(bytes, max as int) == cut_at(bytes, cut as int),
        decreases cut,
    {
        assert(is_char_boundary(bytes, 0));
        cut = cut - 1;
    }
    let (head, _) = s.split_at(cut);
    proof {
        broadcast use encode_utf8_decode_utf8;

        assert(encode_utf8(head@) == bytes.subrange(0, cut as int));
        assert(decode_utf8(encode_utf8(head@)) == head@);
    }
    let left = count_of(len - cut);
    let mark = joined(joined("…(+", left.as_str()).as_str(), " bytes)");
    joined(head, mark.as_str())
}

/// The word that opens a credential.
pub open spec fn bearer_word(v: Seq<char>) -> bool {
    occurs_at(v, "Bearer "@, 0) || occurs_at(v, "bearer "@, 0)
}

/// What is shown of a token: its first six characters and its last four.
pub open spec fn token_ends(token: Seq<char>) -> Seq<char> {
    let head = if token.len() < 6 {
        token
    } else {
        token.take(6)
    };
    let tail = if token.len() < 4 {
        token
    } else {
        token.skip(token.len() - 4)
    };
    head + "…"@ + tail
}

/// What is shown of a credential: of a bearer token its two ends, of
/// anything else nothing at all.
pub open spec fn masked(v: Seq<char>) -> Seq<char> {
    if bearer_word(v) {
        "Bearer "@ + token_ends(v.skip(7))
    } else {
        "*****"@
    }
}

/// What is shown of a credential.
pub fn mask_bearer(v: &str) -> (r: String)
    ensures
        r@ == masked(v@),
{
    let chars = chars_of(v);
    let upper = chars_of("Bearer ");
    let lower = chars_of("bearer ");
    assert(upper@.len() == 7 && lower@.len() == 7) by {
        reveal_strlit("Bearer ");
        reveal_strlit("bearer ");
    }
    if chars.len() < 7 || !(matches_at(&chars, &upper, 0) || matches_at(&chars, &lower, 0)) {
        return "*****".to_owned();
    }
    let count = chars.len() - 7;
    let head = string_of(
        &chars,
        7,
        if count < 6 {
            chars.len()
        } else {
            13
        },
    );
    let tail = string_of(
        &chars,
        if count < 4 {
            7
        } else {
            chars.len() - 4
        },
        chars.len(),
    );
    proof {
        let token = v@.skip(7);
        assert(token.len() == count);
        if count < 6 {
            assert(head@ =~= token);
        } else {
            assert(head@ =~= token.take(6));
        }
        if count < 4 {
            assert(tail@ =~= token);
        } else {
            assert(tail@ =~= token.skip(token.len() - 4));
        }
    }
    let ends = joined(joined(head.as_str(), "…").as_str(), tail.as_str());
    joined("Bearer ", ends.as_str())
}

} // verus!
