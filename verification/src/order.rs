//! The order of texts, and lists kept in it.
//!
//! Texts are ordered as strings are: character by character, by code point,
//! a text before every longer text that begins with it.

use vstd::prelude::*;
use crate::text::chars_of;
use crate::find::first_where;
use crate::find::lemma_first_absent;
use crate::find::lemma_first_found;
use crate::find::lemma_first_where;
use crate::text::lowercase;
use crate::text::lowercase_of;

verus! {

/// Where two texts stand to each other.
#[derive(Clone, Copy, Debug, PartialEq, Eq, Structural)]
pub enum Place {
    Before,
    Same,
    After,
}

/// Whether `i` is a position that puts `a` before `b`: the two agree up to
/// `i`, and there `a` ends while `b` goes on, or holds the smaller character.
pub open spec fn before_at(a: Seq<char>, b: Seq<char>, i: int) -> bool {
    &&& 0 <= i <= a.len()
    &&& i <= b.len()
    &&& a.take(i) == b.take(i)
    &&& (i == a.len() && i < b.len()) || (i < a.len() && i < b.len() && a[i] < b[i])
}

/// Whether `a` comes before `b`.
pub open spec fn before(a: Seq<char>, b: Seq<char>) -> bool {
    exists|i: int| before_at(a, b, i)
}

/// No text comes before itself.
pub proof fn lemma_before_irreflexive(a: Seq<char>)
    ensures
        !before(a, a),
{
}

/// Two texts that agree up to `i` agree up to every position before it.
proof fn lemma_take_agrees(a: Seq<char>, b: Seq<char>, i: int, j: int)
    requires
        0 <= j <= i <= a.len(),
        i <= b.len(),
        a.take(i) == b.take(i),
    ensures
        a.take(j) == b.take(j),
        j < i ==> a[j] == b[j],
{
    assert forall|k: int| 0 <= k < j implies a.take(j)[k] == b.take(j)[k] by {
        assert(a.take(i)[k] == a[k]);
        assert(b.take(i)[k] == b[k]);
    }
    assert(a.take(j) =~= b.take(j));
    if j < i {
        assert(a.take(i)[j] == a[j]);
        assert(b.take(i)[j] == b[j]);
    }
}

/// What comes before a text that comes before a third, comes before the
/// third.
pub proof fn lemma_before_transitive(a: Seq<char>, b: Seq<char>, c: Seq<char>)
    requires
        before(a, b),
        before(b, c),
    ensures
        before(a, c),
{
    let i = choose|i: int| before_at(a, b, i);
    let j = choose|j: int| before_at(b, c, j);
    if i < j {
        lemma_take_agrees(b, c, j, i);
        assert(before_at(a, c, i));
    } else if i == j {
        assert(before_at(a, c, i));
    } else {
        lemma_take_agrees(a, b, i, j);
        assert(before_at(a, c, j));
    }
}

/// Of two texts only one comes before the other.
pub proof fn lemma_before_asymmetric(a: Seq<char>, b: Seq<char>)
    requires
        before(a, b),
    ensures
        !before(b, a),
        a != b,
{
    if before(b, a) {
        lemma_before_transitive(a, b, a);
    }
}

/// Where two texts stand to each other.
pub fn compare(a: &Vec<char>, b: &Vec<char>) -> (r: Place)
    ensures
        r == Place::Before <==> before(a@, b@),
        r == Place::Same <==> a@ == b@,
        r == Place::After <==> before(b@, a@),
{
    let mut i: usize = 0;
    assert(a@.take(0) =~= b@.take(0));
    while i < a.len() && i < b.len()
        invariant
            i <= a.len(),
            i <= b.len(),
            a@.take(i as int) == b@.take(i as int),
        decreases a.len() - i,
    {
        let x = a[i];
        let y = b[i];
        if x < y {
            proof {
                assert(before_at(a@, b@, i as int));
                lemma_before_asymmetric(a@, b@);
            }
            return Place::Before;
        }
        if y < x {
            proof {
                assert(before_at(b@, a@, i as int));
                lemma_before_asymmetric(b@, a@);
            }
            return Place::After;
        }
        assert(a@[i as int] == b@[i as int]);
        assert(a@.take(i + 1) =~= a@.take(i as int).push(a@[i as int]));
        assert(b@.take(i + 1) =~= b@.take(i as int).push(b@[i as int]));
        i = i + 1;
    }
    if i < b.len() {
        proof {
            assert(before_at(a@, b@, i as int));
            lemma_before_asymmetric(a@, b@);
        }
        Place::Before
    } else if i < a.len() {
        proof {
            assert(before_at(b@, a@, i as int));
            lemma_before_asymmetric(b@, a@);
        }
        Place::After
    } else {
        proof {
            assert(a@.take(i as int) =~= a@);
            assert(b@.take(i as int) =~= b@);
            lemma_before_irreflexive(a@);
        }
        Place::Same
    }
}

/// Whether every text of the list comes before those behind it. Such a list
/// holds no text twice.
pub open spec fn ascending(s: Seq<Seq<char>>) -> bool {
    forall|i: int, j: int| 0 <= i < j < s.len() ==> before(#[trigger] s[i], #[trigger] s[j])
}

/// Puts a text into an ascending list, at its place, unless the list holds
/// it already.
pub fn insert_ascending(v: &mut Vec<String>, name: String)
    requires
        ascending(old(v).deep_view()),
    ensures
        ascending(final(v).deep_view()),
        forall|x: Seq<char>|
            final(v).deep_view().contains(x) <==> old(v).deep_view().contains(x) || x == name@,
{
    let key = chars_of(name.as_str());
    let ghost s = v.deep_view();
    let mut i: usize = 0;
    while i < v.len()
        invariant
            i <= v.len(),
            s == v.deep_view(),
            *v == *old(v),
            key@ == name@,
            ascending(s),
            forall|j: int| 0 <= j < i ==> before(#[trigger] s[j], name@),
        decreases v.len() - i,
    {
        let other = chars_of(v[i].as_str());
        assert(s[i as int] == v[i as int]@);
        match compare(&other, &key) {
            Place::Before => {},
            Place::Same => {
                assert(s.contains(name@));
                return ;
            },
            Place::After => {
                proof {
                    assert forall|j: int| i <= j < s.len() implies before(
                        name@,
                        #[trigger] s[j],
                    ) by {
                        if j > i {
                            assert(before(s[i as int], s[j]));
                            lemma_before_transitive(name@, s[i as int], s[j]);
                        }
                    }
                }
                v.insert(i, name);
                let ghost t = v.deep_view();
                assert(t =~= s.insert(i as int, name@));
                assert forall|a: int, b: int| 0 <= a < b < t.len() implies before(
                    #[trigger] t[a],
                    #[trigger] t[b],
                ) by {
                    if b < i {
                        assert(before(s[a], s[b]));
                    } else if b == i {
                        assert(before(s[a], name@));
                    } else if a < i {
                        assert(before(s[a], s[b - 1]));
                    } else if a == i {
                        assert(before(name@, s[b - 1]));
                    } else {
                        assert(before(s[a - 1], s[b - 1]));
                    }
                }
                assert forall|x: Seq<char>| t.contains(x) <==> s.contains(x) || x == name@ by {
                    if s.contains(x) {
                        let k = choose|k: int| 0 <= k < s.len() && s[k] == x;
                        if k < i {
                            assert(t[k] == x);
                        } else {
                            assert(t[k + 1] == x);
                        }
                    }
                    if x == name@ {
                        assert(t[i as int] == x);
                    }
                    if t.contains(x) {
                        let k = choose|k: int| 0 <= k < t.len() && t[k] == x;
                        if k < i {
                            assert(s[k] == x);
                        } else if k > i {
                            assert(s[k - 1] == x);
                        }
                    }
                }
                return ;
            },
        }
        i = i + 1;
    }
    v.push(name);
    let ghost t = v.deep_view();
    assert(t =~= s.push(name@));
    assert forall|a: int, b: int| 0 <= a < b < t.len() implies before(
        #[trigger] t[a],
        #[trigger] t[b],
    ) by {
        if b < s.len() {
            assert(before(s[a], s[b]));
        } else {
            assert(before(s[a], name@));
        }
    }
    assert forall|x: Seq<char>| t.contains(x) <==> s.contains(x) || x == name@ by {
        if s.contains(x) {
            let k = choose|k: int| 0 <= k < s.len() && s[k] == x;
            assert(t[k] == x);
        }
        if x == name@ {
            assert(t[s.len() as int] == x);
        }
        if t.contains(x) {
            let k = choose|k: int| 0 <= k < t.len() && t[k] == x;
            if k < s.len() {
                assert(s[k] == x);
            }
        }
    }
}

/// Two ascending lists that hold the same texts are the same list.
pub proof fn lemma_ascending_unique(s: Seq<Seq<char>>, t: Seq<Seq<char>>)
    requires
        ascending(s),
        ascending(t),
        forall|x: Seq<char>| s.contains(x) <==> t.contains(x),
    ensures
        s == t,
    decreases s.len(),
{
    if s.len() == 0 {
        if t.len() > 0 {
            assert(t.contains(t[0]));
        }
        assert(s =~= t);
    } else if t.len() == 0 {
        assert(s.contains(s[0]));
    } else {
        // The first of each list is its least text, so the two are the same.
        assert(s.contains(s[0]));
        assert(t.contains(t[0]));
        let i = choose|i: int| 0 <= i < t.len() && t[i] == s[0];
        let j = choose|j: int| 0 <= j < s.len() && s[j] == t[0];
        if i > 0 {
            assert(before(t[0], t[i]));
            if j > 0 {
                assert(before(s[0], s[j]));
                lemma_before_asymmetric(t[0], s[0]);
            } else {
                lemma_before_irreflexive(s[0]);
            }
        }
        assert(s[0] == t[0]);
        let s1 = s.skip(1);
        let t1 = t.skip(1);
        assert forall|x: Seq<char>| s1.contains(x) <==> t1.contains(x) by {
            if s1.contains(x) {
                let k = choose|k: int| 0 <= k < s1.len() && s1[k] == x;
                assert(s[k + 1] == x);
                assert(before(s[0], s[k + 1]));
                lemma_before_asymmetric(s[0], x);
                assert(s.contains(x));
                let m = choose|m: int| 0 <= m < t.len() && t[m] == x;
                assert(m > 0);
                assert(t1[m - 1] == x);
            }
            if t1.contains(x) {
                let k = choose|k: int| 0 <= k < t1.len() && t1[k] == x;
                assert(t[k + 1] == x);
                assert(before(t[0], t[k + 1]));
                lemma_before_asymmetric(t[0], x);
                assert(t.contains(x));
                let m = choose|m: int| 0 <= m < s.len() && s[m] == x;
                assert(m > 0);
                assert(s1[m - 1] == x);
            }
        }
        assert forall|a: int, b: int| 0 <= a < b < s1.len() implies before(
            #[trigger] s1[a],
            #[trigger] s1[b],
        ) by {
            assert(before(s[a + 1], s[b + 1]));
        }
        assert forall|a: int, b: int| 0 <= a < b < t1.len() implies before(
            #[trigger] t1[a],
            #[trigger] t1[b],
        ) by {
            assert(before(t[a + 1], t[b + 1]));
        }
        lemma_ascending_unique(s1, t1);
        assert(s =~= seq![s[0]] + s1);
        assert(t =~= seq![t[0]] + t1);
    }
}

/// What a named choice is ordered by: its name in lower case.
pub open spec fn sort_key(e: (Seq<char>, Seq<char>)) -> Seq<char> {
    lowercase_of(e.1)
}

/// Whether the choice `e` has its place behind the choice `x`.
pub open spec fn comes_after(e: (Seq<char>, Seq<char>), x: (Seq<char>, Seq<char>)) -> bool {
    before(sort_key(x), sort_key(e))
}

/// The place of a new choice in an ordered list: in front of the first
/// choice that comes after it, so behind every choice with the same key.
pub open spec fn slot(s: Seq<(Seq<char>, Seq<char>)>, x: (Seq<char>, Seq<char>)) -> int {
    match first_where(s, |e: (Seq<char>, Seq<char>)| comes_after(e, x)) {
        Some(i) => i,
        None => s.len() as int,
    }
}

/// An ordered list with a new choice at its place.
pub open spec fn placed(s: Seq<(Seq<char>, Seq<char>)>, x: (Seq<char>, Seq<char>)) -> Seq<
    (Seq<char>, Seq<char>),
> {
    s.insert(slot(s, x), x)
}

/// The choices, each given as an id and a name, in the order of their names
/// in lower case. Choices with the same key keep the order they came in.
pub open spec fn in_order(s: Seq<(Seq<char>, Seq<char>)>) -> Seq<(Seq<char>, Seq<char>)>
    decreases s.len(),
{
    if s.len() == 0 {
        Seq::empty()
    } else {
        placed(in_order(s.drop_last()), s.last())
    }
}

/// Whether no choice of the list comes after one behind it.
pub open spec fn by_key(s: Seq<(Seq<char>, Seq<char>)>) -> bool {
    forall|i: int, j: int|
        0 <= i < j < s.len() ==> !before(sort_key(#[trigger] s[j]), sort_key(#[trigger] s[i]))
}

/// Placing a choice keeps a list in order, and adds just that choice.
pub proof fn lemma_placed(s: Seq<(Seq<char>, Seq<char>)>, x: (Seq<char>, Seq<char>))
    requires
        by_key(s),
    ensures
        by_key(placed(s, x)),
        placed(s, x).len() == s.len() + 1,
        placed(s, x).to_multiset() == s.to_multiset().insert(x),
        0 <= slot(s, x) <= s.len(),
{
    let p = |e: (Seq<char>, Seq<char>)| comes_after(e, x);
    lemma_first_where(s, p);
    let k = slot(s, x);
    let t = placed(s, x);
    assert forall|i: int, j: int| 0 <= i < j < t.len() implies !before(
        sort_key(#[trigger] t[j]),
        sort_key(#[trigger] t[i]),
    ) by {
        if j < k {
            assert(!before(sort_key(s[j]), sort_key(s[i])));
        } else if j == k {
            assert(!p(s[i]));
        } else if i < k {
            assert(!before(sort_key(s[j - 1]), sort_key(s[i])));
        } else if i == k {
            assert(p(s[k]));
            if j - 1 > k {
                assert(!before(sort_key(s[j - 1]), sort_key(s[k])));
                if before(sort_key(s[j - 1]), sort_key(x)) {
                    lemma_before_transitive(sort_key(s[j - 1]), sort_key(x), sort_key(s[k]));
                }
            } else {
                lemma_before_asymmetric(sort_key(x), sort_key(s[k]));
            }
        } else {
            assert(!before(sort_key(s[j - 1]), sort_key(s[i - 1])));
        }
    }
    vstd::seq_lib::to_multiset_insert(s, k, x);
}

/// The choices put in order are in order, and are the same choices.
pub proof fn lemma_in_order(s: Seq<(Seq<char>, Seq<char>)>)
    ensures
        by_key(in_order(s)),
        in_order(s).len() == s.len(),
        in_order(s).to_multiset() == s.to_multiset(),
    decreases s.len(),
{
    if s.len() == 0 {
        assert(s =~= Seq::empty());
    } else {
        lemma_in_order(s.drop_last());
        lemma_placed(in_order(s.drop_last()), s.last());
        assert(s =~= s.drop_last().push(s.last()));
        vstd::seq_lib::to_multiset_build(s.drop_last(), s.last());
    }
}

/// Puts the choices, each given as an id and a name, in the order of their
/// names in lower case.
pub fn sort_by_name(v: Vec<(String, String)>) -> (r: Vec<(String, String)>)
    ensures
        r.deep_view() == in_order(v.deep_view()),
{
    let mut v = v;
    let ghost all = v.deep_view();
    let ghost n = all.len();
    let mut r: Vec<(String, String)> = Vec::new();
    let mut keys: Vec<Vec<char>> = Vec::new();
    let ghost mut done: int = 0;
    assert(all.take(0) =~= Seq::empty());
    assert(r.deep_view() =~= Seq::empty());
    while v.len() > 0
        invariant
            0 <= done <= all.len(),
            v.deep_view() == all.skip(done),
            r.deep_view() == in_order(all.take(done)),
            keys.len() == r.len(),
            forall|j: int| 0 <= j < r.len() ==> (#[trigger] keys[j])@ == sort_key(r.deep_view()[j]),
        decreases v.len(),
    {
        let ghost before_v = v.deep_view();
        let ghost first = v@[0];
        assert(before_v.len() == v.len());
        assert(all.skip(done).len() == all.len() - done);
        assert(before_v[0] == (first.0@, first.1@));
        assert(all.skip(done)[0] == all[done]);
        let x = v.remove(0);
        assert(v.deep_view() =~= before_v.remove(0));
        let ghost xm = (x.0@, x.1@);
        assert(xm == all[done]);
        let key = chars_of(lowercase(x.1.as_str()).as_str());
        let ghost s = r.deep_view();
        let ghost p = |e: (Seq<char>, Seq<char>)| comes_after(e, xm);
        let mut i: usize = 0;
        while i < r.len() && compare(&key, &keys[i]) != Place::Before
            invariant
                i <= r.len(),
                keys.len() == r.len(),
                s == r.deep_view(),
                key@ == sort_key(xm),
                p == |e: (Seq<char>, Seq<char>)| comes_after(e, xm),
                forall|j: int| 0 <= j < r.len() ==> (#[trigger] keys[j])@ == sort_key(s[j]),
                forall|j: int| 0 <= j < i ==> !p(#[trigger] s[j]),
            decreases r.len() - i,
        {
            i = i + 1;
        }
        proof {
            if i < r.len() {
                assert(p(s[i as int]));
                lemma_first_found(s, p, i as int);
            } else {
                lemma_first_absent(s, p);
            }
            assert(slot(s, xm) == i);
            assert(all.take(done + 1).drop_last() =~= all.take(done));
            assert(all.take(done + 1).last() == xm);
        }
        r.insert(i, x);
        keys.insert(i, key);
        assert(r.deep_view() =~= s.insert(i as int, xm));
        proof {
            assert(v.deep_view() =~= all.skip(done + 1));
            done = done + 1;
        }
    }
    assert(all.take(done) =~= all);
    r
}

} // verus!
