//! What goes over the wire to the remote board as plain text: the address of
//! a request, the credential that it carries, and whether an answer is data
//! at all.

use vstd::prelude::*;
use crate::find::first_where;
use crate::find::is_first;
use crate::find::is_last;
use crate::find::last_where;
use crate::find::lemma_first_absent;
use crate::find::lemma_first_found;
use crate::find::lemma_last_absent;
use crate::find::lemma_last_found;
use crate::text::chars_of;
use crate::text::is_white;
use crate::text::joined;
use crate::text::string_of;
use crate::text::white_space;

verus! {

/// Whether an answer is a page of markup rather than data: the first of its
/// characters that is not white space is `<`.
pub open spec fn page(text: Seq<char>) -> bool {
    let inked = |c: char| !white_space(c);
    match first_where(text, inked) {
        Some(i) => text[i] == '<',
        None => false,
    }
}

/// Whether an answer is a page of markup rather than data.
pub fn is_page(text: &str) -> (r: bool)
    ensures
        r == page(text@),
{
    let chars = chars_of(text);
    let ghost inked = |c: char| !white_space(c);
    let mut i: usize = 0;
    while i < chars.len() && is_white(chars[i])
        invariant
            i <= chars.len(),
            forall|j: int| 0 <= j < i ==> white_space(#[trigger] chars@[j]),
        decreases chars.len() - i,
    {
        i = i + 1;
    }
    if i < chars.len() {
        proof {
            assert(inked(chars@[i as int]));
            assert(is_first(chars@, inked, i as int));
            lemma_first_found(chars@, inked, i as int);
        }
        chars[i] == '<'
    } else {
        proof {
            lemma_first_absent(chars@, inked);
        }
        false
    }
}

/// An address without the slashes at its end.
pub open spec fn without_slashes(base: Seq<char>) -> Seq<char> {
    let named = |c: char| c != '/';
    match last_where(base, named) {
        Some(i) => base.take(i + 1),
        None => Seq::empty(),
    }
}

/// The address of a request: the path behind the address of the service,
/// which is taken without the slashes at its end.
pub open spec fn address(base: Seq<char>, path: Seq<char>) -> Seq<char> {
    without_slashes(base) + path
}

/// The address of a request.
pub fn endpoint(base: &str, path: &str) -> (r: String)
    ensures
        r@ == address(base@, path@),
{
    let chars = chars_of(base);
    let ghost named = |c: char| c != '/';
    let mut end: usize = chars.len();
    while end > 0 && chars[end - 1] == '/'
        invariant
            end <= chars.len(),
            forall|j: int| end <= j < chars.len() ==> chars@[j] == '/',
        decreases end,
    {
        end = end - 1;
    }
    proof {
        if end > 0 {
            assert(named(chars@[end - 1]));
            assert(is_last(chars@, named, end - 1));
            lemma_last_found(chars@, named, end - 1);
            assert(chars@.subrange(0, end as int) =~= chars@.take(end as int));
        } else {
            lemma_last_absent(chars@, named);
            assert(chars@.subrange(0, 0) =~= Seq::empty());
        }
    }
    let head = string_of(&chars, 0, end);
    joined(head.as_str(), path)
}

/// The credential that a request carries for a session's token.
pub open spec fn bearer(token: Seq<char>) -> Seq<char> {
    "Bearer "@ + token
}

/// The credential that a request carries for a session's token.
pub fn auth_header(token: &str) -> (r: String)
    ensures
        r@ == bearer(token@),
{
    joined("Bearer ", token)
}

} // verus!
