//! Ordering: a stable sort, and the order of texts.

use vstd::prelude::*;

verus! {

/// A type whose values have a place relative to one another: a strict weak
/// order.
pub trait Ranked: Sized {
    /// Whether `self` has to stand before `other`.
    spec fn precedes(self, other: Self) -> bool;

    fn is_before(&self, other: &Self) -> (r: bool)
        ensures
            r == self.precedes(*other),
    ;

    proof fn asymmetric(a: Self, b: Self)
        requires
            a.precedes(b),
        ensures
            !b.precedes(a),
    ;

    /// Not standing before is transitive.
    proof fn weakly_transitive(a: Self, b: Self, c: Self)
        requires
            !a.precedes(b),
            !b.precedes(c),
        ensures
            !a.precedes(c),
    ;
}

/// A sequence with `x` placed behind everything it need not precede, counted
/// from the end.
pub open spec fn place<T: Ranked>(s: Seq<T>, x: T) -> Seq<T>
    decreases s.len(),
{
    if s.len() == 0 || !x.precedes(s.last()) {
        s.push(x)
    } else {
        place(s.drop_last(), x).push(s.last())
    }
}

/// A sequence in order, with equals in the order they had.
pub open spec fn sorted<T: Ranked>(s: Seq<T>) -> Seq<T>
    decreases s.len(),
{
    if s.len() == 0 {
        s
    } else {
        place(sorted(s.drop_last()), s.last())
    }
}

/// Whether nothing in a sequence stands behind something it has to precede.
pub open spec fn in_order<T: Ranked>(s: Seq<T>) -> bool {
    forall|i: int, j: int| 0 <= i < j < s.len() ==> !(#[trigger] s[j]).precedes(#[trigger] s[i])
}

proof fn lemma_place<T: Ranked>(s: Seq<T>, x: T)
    ensures
        place(s, x).len() == s.len() + 1,
        place(s, x).to_multiset() == s.to_multiset().insert(x),
        in_order(s) ==> in_order(place(s, x)),
    decreases s.len(),
{
    broadcast use vstd::seq_lib::group_to_multiset_ensures;

    let r = place(s, x);
    if s.len() == 0 || !x.precedes(s.last()) {
        if in_order(s) {
            assert forall|i: int, j: int| 0 <= i < j < r.len() implies !(#[trigger] r[j]).precedes(
                #[trigger] r[i],
            ) by {
                if j == s.len() && i < s.len() - 1 {
                    T::weakly_transitive(x, s.last(), s[i]);
                }
            }
        }
    } else {
        let t = s.drop_last();
        let y = s.last();
        lemma_place(t, x);
        assert(s =~= t.push(y));
        assert(r.to_multiset() =~= s.to_multiset().insert(x));
        if in_order(s) {
            assert(in_order(t));
            let u = place(t, x);
            assert forall|i: int, j: int| 0 <= i < j < r.len() implies !(#[trigger] r[j]).precedes(
                #[trigger] r[i],
            ) by {
                if j == u.len() {
                    assert(u.contains(u[i]));
                    assert(u.to_multiset().count(u[i]) > 0);
                    if u[i] == x {
                        T::asymmetric(x, y);
                    } else {
                        assert(t.to_multiset().count(u[i]) > 0);
                        assert(t.contains(u[i]));
                        let k = choose|k: int| 0 <= k < t.len() && t[k] == u[i];
                        assert(!s[s.len() - 1].precedes(s[k]));
                    }
                }
            }
        }
    }
}

/// Sorting loses nothing, adds nothing, and puts everything in order.
pub proof fn sorted_is_ordered<T: Ranked>(s: Seq<T>)
    ensures
        sorted(s).len() == s.len(),
        sorted(s).to_multiset() == s.to_multiset(),
        in_order(sorted(s)),
    decreases s.len(),
{
    broadcast use vstd::seq_lib::group_to_multiset_ensures;

    if s.len() > 0 {
        sorted_is_ordered(s.drop_last());
        lemma_place(sorted(s.drop_last()), s.last());
        assert(s =~= s.drop_last().push(s.last()));
    }
}

proof fn lemma_place_behind_first<T: Ranked>(s: Seq<T>, x: T)
    requires
        s.len() > 0,
        !x.precedes(s[0]),
    ensures
        place(s, x).len() > 0,
        place(s, x)[0] == s[0],
    decreases s.len(),
{
    if x.precedes(s.last()) {
        lemma_place_behind_first(s.drop_last(), x);
    }
}

/// What nothing has to precede and stands first stays first.
pub proof fn sorted_keeps_first<T: Ranked>(s: Seq<T>)
    requires
        s.len() > 0,
        forall|i: int| 0 <= i < s.len() ==> !(#[trigger] s[i]).precedes(s[0]),
    ensures
        sorted(s).len() > 0,
        sorted(s)[0] == s[0],
    decreases s.len(),
{
    let t = s.drop_last();
    if t.len() > 0 {
        assert forall|i: int| 0 <= i < t.len() implies !(#[trigger] t[i]).precedes(t[0]) by {
            assert(t[i] == s[i]);
        }
        sorted_keeps_first(t);
        lemma_place_behind_first(sorted(t), s.last());
    } else {
        assert(sorted(t) =~= Seq::<T>::empty());
    }
}

/// What stands in a sorted sequence is what stood in the sequence.
pub proof fn sorted_contains<T: Ranked>(s: Seq<T>, x: T)
    ensures
        sorted(s).contains(x) <==> s.contains(x),
{
    broadcast use vstd::seq_lib::group_to_multiset_ensures;

    sorted_is_ordered(s);
    assert(sorted(s).contains(x) <==> sorted(s).to_multiset().count(x) > 0);
    assert(s.contains(x) <==> s.to_multiset().count(x) > 0);
}

proof fn lemma_place_at<T: Ranked>(s: Seq<T>, x: T, j: int)
    requires
        0 <= j <= s.len(),
        forall|k: int| j <= k < s.len() ==> x.precedes(#[trigger] s[k]),
        j == 0 || !x.precedes(s[j - 1]),
    ensures
        place(s, x) == s.insert(j, x),
    decreases s.len(),
{
    if j == s.len() {
        assert(s.push(x) =~= s.insert(j, x));
    } else {
        let t = s.drop_last();
        assert(x.precedes(s[s.len() - 1]));
        assert forall|k: int| j <= k < t.len() implies x.precedes(#[trigger] t[k]) by {
            assert(x.precedes(s[k]));
        }
        lemma_place_at(t, x, j);
        assert(t.insert(j, x).push(s.last()) =~= s.insert(j, x));
    }
}

/// Sorts, leaving equals in the order they had.
pub fn sort<T: Ranked>(v: &mut Vec<T>)
    ensures
        final(v)@ == sorted(old(v)@),
{
    let ghost s = v@;
    let n: usize = v.len();
    let mut i: usize = 0;
    assert(sorted(s.take(0)) + s.skip(0) =~= s);
    while i < n
        invariant
            n == s.len(),
            i <= n,
            v@ == sorted(s.take(i as int)) + s.skip(i as int),
        decreases n - i,
    {
        let ghost done = sorted(s.take(i as int));
        proof {
            sorted_is_ordered(s.take(i as int));
        }
        let x = v.remove(i);
        assert(x == s[i as int]);
        assert(v@ =~= done + s.skip(i + 1));
        let mut j: usize = i;
        while j > 0 && x.is_before(&v[j - 1])
            invariant
                j <= i < n,
                n == s.len(),
                done.len() == i,
                v@ == done + s.skip(i + 1),
                forall|k: int| j <= k < i ==> x.precedes(#[trigger] done[k]),
            decreases j,
        {
            assert(v@[j - 1] == done[j - 1]);
            j -= 1;
        }
        proof {
            if j > 0 {
                assert(v@[j - 1] == done[j - 1]);
            }
            lemma_place_at(done, x, j as int);
            assert(s.take(i + 1).drop_last() =~= s.take(i as int));
            assert(sorted(s.take(i + 1)) == place(done, x));
        }
        v.insert(j, x);
        assert(v@ =~= sorted(s.take(i + 1)) + s.skip(i + 1));
        i += 1;
    }
    assert(s.take(n as int) =~= s);
    assert(v@ =~= sorted(s));
}

// --- the order of texts ---

/// Whether one text comes before another, character by character.
pub open spec fn text_before(a: Seq<char>, b: Seq<char>) -> bool
    decreases a.len(),
{
    if b.len() == 0 {
        false
    } else if a.len() == 0 {
        true
    } else if a[0] == b[0] {
        text_before(a.drop_first(), b.drop_first())
    } else {
        a[0] < b[0]
    }
}

pub proof fn lemma_text_asymmetric(a: Seq<char>, b: Seq<char>)
    requires
        text_before(a, b),
    ensures
        !text_before(b, a),
    decreases a.len(),
{
    if a.len() > 0 && a[0] == b[0] {
        lemma_text_asymmetric(a.drop_first(), b.drop_first());
    }
}

/// Of two different texts one comes first.
pub proof fn lemma_text_total(a: Seq<char>, b: Seq<char>)
    ensures
        text_before(a, b) || text_before(b, a) || a == b,
    decreases a.len(),
{
    if a.len() == 0 || b.len() == 0 {
        if a.len() == b.len() {
            assert(a =~= b);
        }
    } else if a[0] == b[0] {
        lemma_text_total(a.drop_first(), b.drop_first());
        if a.drop_first() == b.drop_first() {
            assert(a =~= seq![a[0]] + a.drop_first());
            assert(b =~= seq![b[0]] + b.drop_first());
        }
    }
}

pub proof fn lemma_text_weak(a: Seq<char>, b: Seq<char>, c: Seq<char>)
    requires
        !text_before(a, b),
        !text_before(b, c),
    ensures
        !text_before(a, c),
    decreases a.len(),
{
    if a.len() > 0 && b.len() > 0 && c.len() > 0 && a[0] == b[0] && b[0] == c[0] {
        lemma_text_weak(a.drop_first(), b.drop_first(), c.drop_first());
    }
}

/// Whether the first text comes before the second.
pub fn is_text_before(a: &str, b: &str) -> (r: bool)
    ensures
        r == text_before(a@, b@),
{
    let v = crate::text::chars_of(a);
    let w = crate::text::chars_of(b);
    let mut i: usize = 0;
    assert(v@.skip(0) =~= v@);
    assert(w@.skip(0) =~= w@);
    while i < v.len() && i < w.len() && v[i] == w[i]
        invariant
            v@ == a@,
            w@ == b@,
            i <= v@.len(),
            i <= w@.len(),
            text_before(a@, b@) == text_before(v@.skip(i as int), w@.skip(i as int)),
        decreases v@.len() - i,
    {
        assert(v@.skip(i as int).drop_first() =~= v@.skip(i + 1));
        assert(w@.skip(i as int).drop_first() =~= w@.skip(i + 1));
        i += 1;
    }
    if i == w.len() {
        false
    } else if i == v.len() {
        true
    } else {
        v[i] < w[i]
    }
}

impl Ranked for String {
    open spec fn precedes(self, other: Self) -> bool {
        text_before(self@, other@)
    }

    fn is_before(&self, other: &Self) -> (r: bool) {
        is_text_before(self, other)
    }

    proof fn asymmetric(a: Self, b: Self) {
        lemma_text_asymmetric(a@, b@);
    }

    proof fn weakly_transitive(a: Self, b: Self, c: Self) {
        lemma_text_weak(a@, b@, c@);
    }
}

impl Ranked for u32 {
    open spec fn precedes(self, other: Self) -> bool {
        self < other
    }

    fn is_before(&self, other: &Self) -> (r: bool) {
        *self < *other
    }

    proof fn asymmetric(a: Self, b: Self) {
    }

    proof fn weakly_transitive(a: Self, b: Self, c: Self) {
    }
}

/// What is in order already stays as it is, equals in the order they had.
pub proof fn ordered_stays_as_it_is<T: Ranked>(s: Seq<T>)
    requires
        forall|i: int, j: int|
            0 <= i < j < s.len() ==> !(#[trigger] s[j]).precedes(#[trigger] s[i]),
    ensures
        sorted(s) == s,
    decreases s.len(),
{
    if s.len() > 0 {
        let t = s.drop_last();
        assert forall|i: int, j: int| 0 <= i < j < t.len() implies !(#[trigger] t[j]).precedes(
            #[trigger] t[i],
        ) by {
            assert(!s[j].precedes(s[i]));
        }
        ordered_stays_as_it_is(t);
        if t.len() > 0 {
            assert(!s[s.len() - 1].precedes(s[t.len() - 1]));
        }
        assert(t.push(s.last()) =~= s);
    }
}

/// Texts stand by their first different character, and a text stands before what
/// it begins.
pub proof fn texts_stand_by_their_first_difference(
    head: Seq<char>,
    a: char,
    b: char,
    x: Seq<char>,
    y: Seq<char>,
)
    ensures
        a < b ==> text_before(head + seq![a] + x, head + seq![b] + y),
        text_before(head, head + seq![a] + x),
        !text_before(head, head),
    decreases head.len(),
{
    let (s, t) = (head + seq![a] + x, head + seq![b] + y);
    if head.len() == 0 {
        assert(s[0] == a && t[0] == b);
    } else {
        let rest = head.drop_first();
        assert(s[0] == head[0] && t[0] == head[0]);
        assert(s.drop_first() =~= rest + seq![a] + x);
        assert(t.drop_first() =~= rest + seq![b] + y);
        texts_stand_by_their_first_difference(rest, a, b, x, y);
    }
}

} // verus!
