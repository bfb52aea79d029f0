//! Helpers on strings, stated over their character sequences.

use vstd::prelude::*;
use crate::find::first_where;
use crate::find::is_first;
use crate::find::is_last;
use crate::find::last_where;
use crate::find::lemma_first_absent;
use crate::find::lemma_first_found;
use crate::find::lemma_first_where;
use crate::find::lemma_last_found;
use crate::find::lemma_some_first;
use crate::find::lemma_some_last;
use vstd::string::StringExecFns;

verus! {

/// The model of a text that was asked for, or the message that refuses it.
pub open spec fn text_outcome(r: Result<String, String>) -> Result<Seq<char>, Seq<char>> {
    match r {
        Ok(t) => Ok(t@),
        Err(e) => Err(e@),
    }
}

/// Copies an optional string.
pub fn clone_opt(s: &Option<String>) -> (r: Option<String>)
    ensures
        r.deep_view() == s.deep_view(),
{
    match s {
        Some(t) => Some(t.clone()),
        None => None,
    }
}

/// Whether an optional string is present and equal to `b`.
pub fn opt_is(a: &Option<String>, b: &String) -> (r: bool)
    ensures
        r == (a.deep_view() == Some(b@)),
{
    match a {
        Some(s) => *s == *b,
        None => false,
    }
}

/// Whether two optional strings agree: both absent, or both present and equal.
pub fn opt_same(a: &Option<String>, b: &Option<String>) -> (r: bool)
    ensures
        r == (a.deep_view() == b.deep_view()),
{
    match a {
        Some(s) => opt_is(b, s),
        None => b.is_none(),
    }
}

/// The two texts, one after the other.
pub fn joined(a: &str, b: &str) -> (r: String)
    ensures
        r@ == a@ + b@,
{
    a.to_owned().concat(b)
}

/// The characters of a string, in order.
pub fn chars_of(s: &str) -> (v: Vec<char>)
    ensures
        v@ == s@,
{
    let mut v: Vec<char> = Vec::new();
    for c in it: s.chars()
        invariant
            it.seq() == s@,
            v@ == s@.take(it.index()),
    {
        v.push(c);
    }
    v
}

/// `String::push`: the character is appended at the end.
#[verifier::external_body]
fn push_char(s: &mut String, c: char)
    ensures
        final(s)@ == old(s)@.push(c),
{
    s.push(c);
}

/// The string made of the characters `v[from..to]`.
pub fn string_of(v: &Vec<char>, from: usize, to: usize) -> (s: String)
    requires
        from <= to <= v.len(),
    ensures
        s@ == v@.subrange(from as int, to as int),
{
    let mut s = String::new();
    let mut i: usize = from;
    while i < to
        invariant
            from <= i <= to <= v.len(),
            s@ == v@.subrange(from as int, i as int),
        decreases to - i,
    {
        push_char(&mut s, v[i]);
        assert(v@.subrange(from as int, i + 1) =~= v@.subrange(from as int, i as int).push(
            v@[i as int],
        ));
        i = i + 1;
    }
    s
}

/// Whether the character is white space as Unicode defines it: one of the
/// code points with the property `White_Space`.
pub open spec fn white_space(c: char) -> bool {
    ('\u{9}' <= c && c <= '\u{d}') || c == ' ' || c == '\u{85}' || c == '\u{a0}' || c == '\u{1680}'
        || ('\u{2000}' <= c && c <= '\u{200a}') || c == '\u{2028}' || c == '\u{2029}' || c
        == '\u{202f}' || c == '\u{205f}' || c == '\u{3000}'
}

/// Whether the character is white space.
pub fn is_white(c: char) -> (r: bool)
    ensures
        r == white_space(c),
{
    ('\u{9}' <= c && c <= '\u{d}') || c == ' ' || c == '\u{85}' || c == '\u{a0}' || c == '\u{1680}'
        || ('\u{2000}' <= c && c <= '\u{200a}') || c == '\u{2028}' || c == '\u{2029}' || c
        == '\u{202f}' || c == '\u{205f}' || c == '\u{3000}'
}

/// The lower-case form that `str::to_lowercase` gives a text.
pub uninterp spec fn lowercase_of(s: Seq<char>) -> Seq<char>;

/// `str::to_lowercase`: the text in lower case as Unicode defines it.
#[verifier::external_body]
pub(crate) fn lowercase(s: &str) -> (r: String)
    ensures
        r@ == lowercase_of(s@),
{
    s.to_lowercase()
}

/// A text without the white space at its two ends.
pub open spec fn trimmed(s: Seq<char>) -> Seq<char> {
    let inked = |c: char| !white_space(c);
    match (first_where(s, inked), last_where(s, inked)) {
        (Some(a), Some(b)) => s.subrange(a, b + 1),
        _ => Seq::empty(),
    }
}

/// Whether a text is empty or all white space.
pub open spec fn blank(s: Seq<char>) -> bool {
    forall|i: int| 0 <= i < s.len() ==> white_space(#[trigger] s[i])
}

/// A text is blank exactly when nothing is left of it once trimmed.
pub proof fn lemma_blank_trimmed(s: Seq<char>)
    ensures
        blank(s) <==> trimmed(s).len() == 0,
{
    let inked = |c: char| !white_space(c);
    lemma_first_where(s, inked);
    if blank(s) {
        lemma_first_absent(s, inked);
    } else {
        let i = choose|i: int| 0 <= i < s.len() && !white_space(#[trigger] s[i]);
        assert(inked(s[i]));
        lemma_some_first(s, inked, i);
        lemma_some_last(s, inked, i);
        let a = first_where(s, inked)->0;
        let b = last_where(s, inked)->0;
        assert(is_last(s, inked, b));
        if b < a {
            assert(!inked(s[a]));
        }
    }
}

/// The text without the white space at its two ends.
pub fn trim(s: &str) -> (r: String)
    ensures
        r@ == trimmed(s@),
{
    let chars = chars_of(s);
    let ghost inked = |c: char| !white_space(c);
    let mut start: usize = 0;
    while start < chars.len() && is_white(chars[start])
        invariant
            start <= chars.len(),
            forall|j: int| 0 <= j < start ==> white_space(#[trigger] chars@[j]),
        decreases chars.len() - start,
    {
        start = start + 1;
    }
    let mut end: usize = chars.len();
    while end > start && is_white(chars[end - 1])
        invariant
            start <= end <= chars.len(),
            forall|j: int| end <= j < chars.len() ==> white_space(#[trigger] chars@[j]),
        decreases end,
    {
        end = end - 1;
    }
    proof {
        if start < chars.len() {
            assert(inked(chars@[start as int]));
            assert(is_first(chars@, inked, start as int));
            lemma_first_found(chars@, inked, start as int);
            assert(end > start);
            assert(inked(chars@[end - 1]));
            assert(is_last(chars@, inked, end - 1));
            lemma_last_found(chars@, inked, end - 1);
        } else {
            lemma_first_absent(chars@, inked);
            assert(chars@.subrange(start as int, end as int) =~= Seq::empty());
        }
    }
    string_of(&chars, start, end)
}

/// Whether a text is empty or all white space.
pub fn is_blank(s: &str) -> (r: bool)
    ensures
        r == blank(s@),
{
    let chars = chars_of(s);
    let mut i: usize = 0;
    while i < chars.len()
        invariant
            i <= chars.len(),
            chars@ == s@,
            forall|j: int| 0 <= j < i ==> white_space(#[trigger] chars@[j]),
        decreases chars.len() - i,
    {
        if !is_white(chars[i]) {
            assert(!white_space(s@[i as int]));
            return false;
        }
        i = i + 1;
    }
    true
}

/// Whether `needle` stands in `hay` at position `i`.
pub open spec fn occurs_at(hay: Seq<char>, needle: Seq<char>, i: int) -> bool {
    0 <= i && i + needle.len() <= hay.len() && hay.subrange(i, i + needle.len()) == needle
}

/// Whether `needle` stands somewhere in `hay`.
pub open spec fn contains_text(hay: Seq<char>, needle: Seq<char>) -> bool {
    exists|i: int| occurs_at(hay, needle, i)
}

/// Whether `needle` stands in `hay` at position `i`.
pub(crate) fn matches_at(hay: &Vec<char>, needle: &Vec<char>, i: usize) -> (r: bool)
    requires
        i + needle.len() <= hay.len(),
    ensures
        r == occurs_at(hay@, needle@, i as int),
{
    let mut k: usize = 0;
    while k < needle.len()
        invariant
            k <= needle.len(),
            i + needle.len() <= hay.len(),
            forall|j: int| 0 <= j < k ==> hay@[i + j] == needle@[j],
        decreases needle.len() - k,
    {
        if hay[i + k] != needle[k] {
            assert(hay@.subrange(i as int, i + needle.len())[k as int] != needle@[k as int]);
            return false;
        }
        k = k + 1;
    }
    assert(hay@.subrange(i as int, i + needle.len()) =~= needle@);
    true
}

/// Whether `needle` stands somewhere in `hay`.
pub fn contains_chars(hay: &Vec<char>, needle: &Vec<char>) -> (r: bool)
    ensures
        r == contains_text(hay@, needle@),
{
    if needle.len() > hay.len() {
        return false;
    }
    let last = hay.len() - needle.len();
    let mut i: usize = 0;
    while i < last
        invariant
            i <= last,
            last + needle.len() == hay.len(),
            forall|j: int| 0 <= j < i ==> !occurs_at(hay@, needle@, j),
        decreases last - i,
    {
        if matches_at(hay, needle, i) {
            return true;
        }
        i = i + 1;
    }
    matches_at(hay, needle, last)
}

/// Whether `needle` stands somewhere in `hay`.
pub fn contains(hay: &str, needle: &str) -> (r: bool)
    ensures
        r == contains_text(hay@, needle@),
{
    let h = chars_of(hay);
    let n = chars_of(needle);
    contains_chars(&h, &n)
}

/// An ASCII capital as its small letter; any other character as it is.
pub open spec fn ascii_lower(c: char) -> char {
    if 'A' <= c <= 'Z' {
        ((c as u8) + 32) as char
    } else {
        c
    }
}

/// An ASCII capital as its small letter; any other character as it is.
pub fn to_ascii_lower(c: char) -> (r: char)
    ensures
        r == ascii_lower(c),
{
    if 'A' <= c && c <= 'Z' {
        ((c as u8) + 32) as char
    } else {
        c
    }
}

/// Whether two texts are the same but for the case of their ASCII letters.
pub open spec fn same_ignoring_ascii_case(a: Seq<char>, b: Seq<char>) -> bool {
    a.len() == b.len() && forall|i: int|
        0 <= i < a.len() ==> ascii_lower(#[trigger] a[i]) == ascii_lower(b[i])
}

/// Whether two texts are the same but for the case of their ASCII letters.
pub fn eq_ignore_ascii_case(a: &str, b: &str) -> (r: bool)
    ensures
        r == same_ignoring_ascii_case(a@, b@),
{
    let x = chars_of(a);
    let y = chars_of(b);
    if x.len() != y.len() {
        return false;
    }
    let mut i: usize = 0;
    while i < x.len()
        invariant
            i <= x.len(),
            x.len() == y.len(),
            x@ == a@,
            y@ == b@,
            forall|j: int| 0 <= j < i ==> ascii_lower(#[trigger] x@[j]) == ascii_lower(y@[j]),
        decreases x.len() - i,
    {
        if to_ascii_lower(x[i]) != to_ascii_lower(y[i]) {
            assert(ascii_lower(a@[i as int]) != ascii_lower(b@[i as int]));
            return false;
        }
        i = i + 1;
    }
    true
}

/// A text without its spaces.
pub open spec fn without_spaces(s: Seq<char>) -> Seq<char> {
    s.filter(|c: char| c != ' ')
}

/// The characters of a text without its spaces.
pub fn strip_spaces(v: &Vec<char>) -> (r: Vec<char>)
    ensures
        r@ == without_spaces(v@),
{
    let ghost p = |c: char| c != ' ';
    let mut r: Vec<char> = Vec::new();
    let mut i: usize = 0;
    assert(v@.take(0) =~= Seq::empty());
    while i < v.len()
        invariant
            i <= v.len(),
            p == |c: char| c != ' ',
            r@ == v@.take(i as int).filter(p),
        decreases v.len() - i,
    {
        proof {
            assert(v@.take(i + 1) =~= v@.take(i as int).push(v@[i as int]));
            v@.take(i as int).lemma_filter_push(v@[i as int], p);
        }
        if v[i] != ' ' {
            r.push(v[i]);
        }
        i = i + 1;
    }
    assert(v@.take(i as int) =~= v@);
    r
}

/// Whether two texts are the same.
pub fn same(a: &str, b: &str) -> (r: bool)
    ensures
        r == (a@ == b@),
{
    a.to_owned() == b.to_owned()
}

/// Whether a text ends with another.
pub open spec fn ends_with(s: Seq<char>, end: Seq<char>) -> bool {
    end.len() <= s.len() && s.subrange(s.len() - end.len(), s.len() as int) == end
}

/// Whether the characters end with the given ones.
pub fn has_suffix(v: &Vec<char>, end: &Vec<char>, len: usize) -> (r: bool)
    requires
        len <= v.len(),
    ensures
        r == ends_with(v@.take(len as int), end@),
{
    let ghost s = v@.take(len as int);
    if end.len() > len {
        return false;
    }
    let from = len - end.len();
    let mut k: usize = 0;
    while k < end.len()
        invariant
            k <= end.len(),
            from + end.len() == len,
            len <= v.len(),
            s == v@.take(len as int),
            forall|j: int| 0 <= j < k ==> v@[from + j] == end@[j],
        decreases end.len() - k,
    {
        if v[from + k] != end[k] {
            assert(s.subrange(from as int, len as int)[k as int] == v@[from + k]);
            return false;
        }
        k = k + 1;
    }
    assert(s.subrange(from as int, len as int) =~= end@);
    true
}

/// A text without the given ending, as often as it stands there.
pub open spec fn without_ending(s: Seq<char>, end: Seq<char>) -> Seq<char>
    decreases s.len(),
{
    if end.len() > 0 && ends_with(s, end) {
        without_ending(s.take(s.len() - end.len()), end)
    } else {
        s
    }
}

/// The length of what is left of the first `len` characters once the given
/// ending is taken off as often as it stands there.
pub fn strip_ending(v: &Vec<char>, end: &Vec<char>, len: usize) -> (r: usize)
    requires
        len <= v.len(),
    ensures
        r <= len,
        v@.take(r as int) == without_ending(v@.take(len as int), end@),
{
    let mut n: usize = len;
    while end.len() > 0 && has_suffix(v, end, n)
        invariant
            n <= len <= v.len(),
            without_ending(v@.take(n as int), end@) == without_ending(v@.take(len as int), end@),
        decreases n,
    {
        assert(v@.take(n as int).take(n - end.len()) =~= v@.take(n - end.len()));
        n = n - end.len();
    }
    n
}

/// The state of cutting a text into words after its first `i` characters:
/// the words that are complete, and the word that is being read.
pub open spec fn scanned(s: Seq<char>, i: int) -> (Seq<Seq<char>>, Seq<char>)
    decreases i,
{
    if i <= 0 {
        (Seq::empty(), Seq::empty())
    } else {
        let (words, word) = scanned(s, i - 1);
        if white_space(s[i - 1]) {
            if word.len() > 0 {
                (words.push(word), Seq::empty())
            } else {
                (words, word)
            }
        } else {
            (words, word.push(s[i - 1]))
        }
    }
}

/// The words of a text: its longest stretches without white space, in their
/// order.
pub open spec fn words_of(s: Seq<char>) -> Seq<Seq<char>> {
    let (words, word) = scanned(s, s.len() as int);
    if word.len() > 0 {
        words.push(word)
    } else {
        words
    }
}

/// The words of a text.
pub fn split_words(s: &str) -> (r: Vec<String>)
    ensures
        r.deep_view() == words_of(s@),
{
    let chars = chars_of(s);
    let mut words: Vec<String> = Vec::new();
    let mut start: usize = 0;
    let mut i: usize = 0;
    assert(words.deep_view() =~= Seq::empty());
    assert(chars@.subrange(0, 0) =~= Seq::empty());
    while i < chars.len()
        invariant
            start <= i <= chars.len(),
            chars@ == s@,
            scanned(s@, i as int) == (words.deep_view(), chars@.subrange(start as int, i as int)),
        decreases chars.len() - i,
    {
        let ghost before = words.deep_view();
        if is_white(chars[i]) {
            if i > start {
                words.push(string_of(&chars, start, i));
                assert(words.deep_view() =~= before.push(chars@.subrange(start as int, i as int)));
            }
            start = i + 1;
            assert(chars@.subrange(start as int, i + 1) =~= Seq::empty());
        } else {
            assert(chars@.subrange(start as int, i + 1) =~= chars@.subrange(
                start as int,
                i as int,
            ).push(chars@[i as int]));
        }
        i = i + 1;
    }
    if i > start {
        let ghost before = words.deep_view();
        words.push(string_of(&chars, start, i));
        assert(words.deep_view() =~= before.push(chars@.subrange(start as int, i as int)));
    }
    words
}

/// Whether every character of a text is a decimal digit.
pub open spec fn all_digits(s: Seq<char>) -> bool {
    forall|i: int| 0 <= i < s.len() ==> '0' <= #[trigger] s[i] <= '9'
}

/// The number that decimal digits stand for.
pub open spec fn value_of(s: Seq<char>) -> int
    decreases s.len(),
{
    if s.len() == 0 {
        0
    } else {
        value_of(s.drop_last()) * 10 + (s.last() as int - '0' as int)
    }
}

/// The whole number that a text stands for: decimal digits, at least one,
/// behind a plus or minus sign or none, where the number can be held in 64
/// bits.
pub open spec fn number_read(s: Seq<char>) -> Option<i64> {
    let signed = s.len() > 0 && (s[0] == '-' || s[0] == '+');
    let figures = if signed {
        s.skip(1)
    } else {
        s
    };
    let value = if signed && s[0] == '-' {
        -value_of(figures)
    } else {
        value_of(figures)
    };
    if figures.len() > 0 && all_digits(figures) && i64::MIN <= value <= i64::MAX {
        Some(value as i64)
    } else {
        None
    }
}

/// The number that digits stand for does not shrink as digits follow.
proof fn lemma_value_grows(s: Seq<char>, k: int)
    requires
        all_digits(s),
        0 <= k <= s.len(),
    ensures
        0 <= value_of(s.take(k)) <= value_of(s),
    decreases s.len() - k,
{
    if k == s.len() {
        assert(s.take(k) =~= s);
        lemma_value_not_negative(s);
    } else {
        lemma_value_grows(s, k + 1);
        assert(s.take(k + 1).drop_last() =~= s.take(k));
        assert(s.take(k + 1).last() == s[k]);
        lemma_value_not_negative(s.take(k));
    }
}

/// Digits stand for a number that is not negative.
proof fn lemma_value_not_negative(s: Seq<char>)
    requires
        all_digits(s),
    ensures
        0 <= value_of(s),
    decreases s.len(),
{
    if s.len() > 0 {
        assert(all_digits(s.drop_last())) by {
            assert forall|i: int| 0 <= i < s.drop_last().len() implies '0' <= #[trigger] s.drop_last()[i]
                <= '9' by {
                assert(s.drop_last()[i] == s[i]);
            }
        }
        lemma_value_not_negative(s.drop_last());
    }
}

/// The whole number that a text stands for.
pub fn read_number(s: &str) -> (r: Option<i64>)
    ensures
        r == number_read(s@),
{
    let chars = chars_of(s);
    let signed = chars.len() > 0 && (chars[0] == '-' || chars[0] == '+');
    let negative = signed && chars[0] == '-';
    let start: usize = if signed {
        1
    } else {
        0
    };
    let ghost figures = chars@.skip(start as int);
    assert(chars@.skip(0) =~= chars@);
    if chars.len() == start {
        return None;
    }
    // The size of the number is gathered; it may reach the size of the least
    // number that 64 bits hold, and no more.
    let limit: u64 = 0x8000_0000_0000_0000;
    let mut size: u64 = 0;
    let mut i: usize = start;
    assert(figures.take(0) =~= Seq::empty());
    while i < chars.len()
        invariant
            start <= i <= chars.len(),
            limit == 0x8000_0000_0000_0000,
            chars@ == s@,
            signed == (s@.len() > 0 && (s@[0] == '-' || s@[0] == '+')),
            negative == (signed && s@[0] == '-'),
            figures == (if signed {
                s@.skip(1)
            } else {
                s@
            }),
            figures.len() == chars.len() - start,
            figures.len() > 0,
            forall|j: int| 0 <= j < figures.len() ==> figures[j] == chars@[start + j],
            all_digits(figures.take(i - start)),
            size == value_of(figures.take(i - start)),
            size <= limit,
        decreases chars.len() - i,
    {
        let c = chars[i];
        let ghost seen = figures.take(i - start);
        let ghost more = figures.take(i - start + 1);
        proof {
            assert(figures[i - start] == c);
            assert(more.drop_last() =~= seen);
            assert(more.last() == c);
        }
        if !('0' <= c && c <= '9') {
            assert(!all_digits(figures));
            return None;
        }
        let d: u64 = (c as u8 - '0' as u8) as u64;
        proof {
            assert forall|j: int| 0 <= j < more.len() implies '0' <= #[trigger] more[j] <= '9' by {
                if j < seen.len() {
                    assert(more[j] == seen[j]);
                }
            }
        }
        if size > (limit - d) / 10 {
            proof {
                assert(value_of(more) == size * 10 + d);
                assert(size * 10 + d > limit) by (nonlinear_arith)
                    requires
                        size > (limit - d) / 10,
                        0 <= d <= 9,
                        limit == 0x8000_0000_0000_0000,
                ;
                if all_digits(figures) {
                    lemma_value_grows(figures, i - start + 1);
                }
            }
            return None;
        }
        assert(size * 10 + d <= limit) by (nonlinear_arith)
            requires
                size <= (limit - d) / 10,
                0 <= d <= 9,
                limit == 0x8000_0000_0000_0000,
        ;
        size = size * 10 + d;
        i = i + 1;
    }
    assert(figures.take(i - start) =~= figures);
    if negative {
        if size == limit {
            Some(i64::MIN)
        } else {
            Some(-(size as i64))
        }
    } else if size == limit {
        None
    } else {
        Some(size as i64)
    }
}

/// The character of a decimal digit.
pub open spec fn digit(d: int) -> char {
    ('0' as u8 + d) as char
}

/// A number that is not negative as it is written in decimal.
pub open spec fn digits(n: int) -> Seq<char>
    decreases n,
{
    if n < 10 {
        seq![digit(n)]
    } else {
        digits(n / 10).push(digit(n % 10))
    }
}

/// A whole number as it is written in decimal, with a minus sign where it
/// is negative.
pub open spec fn decimal(n: int) -> Seq<char> {
    if n < 0 {
        seq!['-'] + digits(-n)
    } else {
        digits(n)
    }
}

/// A whole number as it is written in decimal.
pub fn decimal_of(n: i32) -> (r: String)
    ensures
        r@ == decimal(n as int),
{
    if n < 0 {
        let size = (-(n as i64)) as u64;
        let r = written(size, true);
        assert(r@ =~= decimal(n as int));
        r
    } else {
        let r = written(n as u64, false);
        assert(r@ =~= decimal(n as int));
        r
    }
}

/// A count as it is written in decimal.
pub fn count_of(n: usize) -> (r: String)
    ensures
        r@ == digits(n as int),
{
    let r = written(n as u64, false);
    assert(r@ =~= digits(n as int));
    r
}

/// The sign of a number as it is written: a minus, or nothing.
pub open spec fn sign_of(negative: bool) -> Seq<char> {
    if negative {
        seq!['-']
    } else {
        Seq::empty()
    }
}

/// A number as it is written in decimal, from its size and its sign.
fn written(size: u64, negative: bool) -> (r: String)
    ensures
        r@ == sign_of(negative) + digits(size as int),
{
    let mut rest: u64 = size;
    let ghost whole = rest as int;
    // The digits are found from the last to the first.
    let mut found: Vec<char> = Vec::new();
    found.push((('0' as u8) + ((rest % 10) as u8)) as char);
    rest = rest / 10;
    while rest > 0
        invariant
            0 <= rest <= whole,
            found.len() > 0,
            ({
                let tail = found@.reverse();
                if rest == 0 {
                    digits(whole) == tail
                } else {
                    digits(whole) == digits(rest as int) + tail
                }
            }),
        decreases rest,
    {
        let ghost before = found@;
        let ghost r0 = rest as int;
        found.push((('0' as u8) + ((rest % 10) as u8)) as char);
        rest = rest / 10;
        proof {
            let d = seq![digit(r0 % 10)];
            assert(found@.reverse() =~= d + before.reverse());
            if r0 < 10 {
                assert(digits(r0) =~= d);
            } else {
                assert(digits(r0) =~= digits(r0 / 10) + d);
                assert(digits(r0) + before.reverse() =~= digits(r0 / 10) + (d + before.reverse()));
            }
        }
    }
    let mut r = String::new();
    if negative {
        push_char(&mut r, '-');
    }
    let ghost sign = r@;
    assert(sign =~= sign_of(negative));
    let mut i: usize = found.len();
    while i > 0
        invariant
            i <= found.len(),
            r@ == sign + found@.reverse().take(found.len() - i),
        decreases i,
    {
        i = i - 1;
        push_char(&mut r, found[i]);
        assert(found@.reverse().take(found.len() - i) =~= found@.reverse().take(
            found.len() - i - 1,
        ).push(found@[i as int]));
    }
    assert(found@.reverse().take(found.len() as int) =~= found@.reverse());
    r
}

} // verus!
