//! Tables: rows kept in the order they were declared, and the handful of
//! operations the store is built from, each stated as what it does to the
//! sequence of rows.

use vstd::prelude::*;

verus! {

/// A value that can be copied exactly.
pub trait Row: Sized {
    fn copied(&self) -> (r: Self)
        ensures
            r == *self,
    ;
}

impl Row for String {
    fn copied(&self) -> (r: Self) {
        self.clone()
    }
}

/// An optional text, copied.
pub fn copy_text(t: &Option<String>) -> (r: Option<String>)
    ensures
        r == *t,
{
    match t {
        Some(s) => Some(s.clone()),
        None => None,
    }
}

/// An optional text as the view of one.
pub open spec fn opt_text(t: Option<String>) -> Option<Seq<char>> {
    match t {
        Some(s) => Some(s@),
        None => None,
    }
}

/// An optional borrowed text as the view of one.
pub open spec fn opt_str(t: Option<&str>) -> Option<Seq<char>> {
    match t {
        Some(s) => Some(s@),
        None => None,
    }
}

/// An optional text, owned.
pub fn own_text(t: Option<&str>) -> (r: Option<String>)
    ensures
        opt_text(r) == opt_str(t),
{
    match t {
        Some(s) => Some(s.to_owned()),
        None => None,
    }
}

// --- what the operations mean ---

/// The first row that satisfies `p`.
pub open spec fn first_where<T>(s: Seq<T>, p: spec_fn(T) -> bool) -> Option<T>
    decreases s.len(),
{
    if s.len() == 0 {
        None
    } else if p(s[0]) {
        Some(s[0])
    } else {
        first_where(s.drop_first(), p)
    }
}

/// Whether some row satisfies `p`.
pub open spec fn any_where<T>(s: Seq<T>, p: spec_fn(T) -> bool) -> bool {
    exists|i: int| 0 <= i < s.len() && p(#[trigger] s[i])
}

/// The rows with `f` applied to those that satisfy `p`.
pub open spec fn update_where<T>(
    s: Seq<T>,
    p: spec_fn(T) -> bool,
    f: spec_fn(T) -> T,
) -> Seq<T> {
    s.map_values(
        |x: T|
            if p(x) {
                f(x)
            } else {
                x
            },
    )
}

/// The rows without those that satisfy `p`.
pub open spec fn delete_where<T>(s: Seq<T>, p: spec_fn(T) -> bool) -> Seq<T> {
    s.filter(|x: T| !p(x))
}

/// Whether `t` is `s` with one row added at the end.
pub open spec fn appended<T>(s: Seq<T>, t: Seq<T>) -> bool {
    t.len() == s.len() + 1 && t.drop_last() == s
}

/// Whether no two rows have the same key.
pub open spec fn distinct<T, K>(s: Seq<T>, key: spec_fn(T) -> K) -> bool {
    forall|i: int, j: int| 0 <= i < j < s.len() ==> key(#[trigger] s[i]) != key(#[trigger] s[j])
}

// --- facts about them ---

pub proof fn lemma_first_where<T>(s: Seq<T>, p: spec_fn(T) -> bool)
    ensures
        first_where(s, p) is Some <==> any_where(s, p),
        first_where(s, p) matches Some(x) ==> p(x) && s.contains(x),
    decreases s.len(),
{
    if s.len() > 0 && !p(s[0]) {
        let t = s.drop_first();
        lemma_first_where(t, p);
        assert forall|i: int| 0 <= i < s.len() && p(#[trigger] s[i]) implies any_where(t, p) by {
            assert(p(t[i - 1]));
        }
        if any_where(t, p) {
            let i = choose|i: int| 0 <= i < t.len() && p(#[trigger] t[i]);
            assert(p(s[i + 1]));
        }
        if let Some(x) = first_where(t, p) {
            let i = choose|i: int| 0 <= i < t.len() && t[i] == x;
            assert(s[i + 1] == x);
        }
    }
}

/// Where keys are distinct, the row with a key is the only one.
pub proof fn lemma_first_is<T, K>(s: Seq<T>, key: spec_fn(T) -> K, p: spec_fn(T) -> bool, i: int)
    requires
        distinct(s, key),
        0 <= i < s.len(),
        forall|x: T| #[trigger] p(x) <==> key(x) == key(s[i]),
    ensures
        first_where(s, p) == Some(s[i]),
    decreases s.len(),
{
    if i == 0 {
        assert(p(s[0]));
    } else {
        assert(!p(s[0]));
        let t = s.drop_first();
        assert(t[i - 1] == s[i]);
        assert(distinct(t, key)) by {
            assert forall|a: int, b: int| 0 <= a < b < t.len() implies key(#[trigger] t[a]) != key(
                #[trigger] t[b],
            ) by {
                assert(t[a] == s[a + 1] && t[b] == s[b + 1]);
            }
        }
        lemma_first_is(t, key, p, i - 1);
    }
}

/// Keys that an update leaves alone stay distinct.
pub proof fn lemma_update_distinct<T, K>(
    s: Seq<T>,
    key: spec_fn(T) -> K,
    p: spec_fn(T) -> bool,
    f: spec_fn(T) -> T,
)
    requires
        distinct(s, key),
        forall|x: T| #[trigger] key(f(x)) == key(x),
    ensures
        distinct(update_where(s, p, f), key),
{
    let t = update_where(s, p, f);
    assert forall|i: int, j: int| 0 <= i < j < t.len() implies key(#[trigger] t[i]) != key(
        #[trigger] t[j],
    ) by {
        assert(key(f(s[i])) == key(s[i]));
        assert(key(f(s[j])) == key(s[j]));
        assert(key(s[i]) != key(s[j]));
    }
}

/// Dropping rows keeps keys distinct.
pub proof fn lemma_filter_distinct<T, K>(s: Seq<T>, key: spec_fn(T) -> K, p: spec_fn(T) -> bool)
    requires
        distinct(s, key),
    ensures
        distinct(s.filter(p), key),
        forall|i: int|
            0 <= i < s.filter(p).len() ==> s.contains(#[trigger] s.filter(p)[i]) && p(
                s.filter(p)[i],
            ),
    decreases s.len(),
{
    reveal(Seq::filter);
    if s.len() > 0 {
        let t = s.drop_last();
        lemma_filter_distinct(t, key, p);
        let u = s.filter(p);
        assert forall|i: int| 0 <= i < u.len() implies s.contains(#[trigger] u[i]) && p(u[i]) by {
            if i < t.filter(p).len() {
                assert(u[i] == t.filter(p)[i]);
                let k = choose|k: int| 0 <= k < t.len() && t[k] == u[i];
                assert(s[k] == u[i]);
            } else {
                assert(s[s.len() - 1] == u[i]);
            }
        }
        assert forall|i: int, j: int| 0 <= i < j < u.len() implies key(#[trigger] u[i]) != key(
            #[trigger] u[j],
        ) by {
            let a = t.filter(p);
            if j < a.len() {
                assert(u[i] == a[i] && u[j] == a[j]);
            } else {
                assert(u[j] == s.last());
                assert(u[i] == a[i]);
                let k = choose|k: int| 0 <= k < t.len() && t[k] == a[i];
                assert(key(s[k]) != key(s[s.len() - 1]));
            }
        }
    }
}

/// A row with a new key keeps keys distinct.
pub proof fn lemma_push_distinct<T, K>(s: Seq<T>, key: spec_fn(T) -> K, x: T)
    requires
        distinct(s, key),
        forall|i: int| 0 <= i < s.len() ==> key(#[trigger] s[i]) != key(x),
    ensures
        distinct(s.push(x), key),
{
}

/// A row is in the filtered table exactly where it was in the table and
/// satisfies the filter.
pub proof fn lemma_filter_contains<T>(s: Seq<T>, p: spec_fn(T) -> bool, x: T)
    ensures
        s.filter(p).contains(x) <==> s.contains(x) && p(x),
    decreases s.len(),
{
    reveal(Seq::filter);
    if s.len() > 0 {
        let t = s.drop_last();
        lemma_filter_contains(t, p, x);
        let u = s.filter(p);
        let a = t.filter(p);
        if a.contains(x) {
            let k = choose|k: int| 0 <= k < a.len() && a[k] == x;
            assert(u[k] == x);
        }
        if t.contains(x) {
            let k = choose|k: int| 0 <= k < t.len() && t[k] == x;
            assert(s[k] == x);
        }
        if s.contains(x) && !t.contains(x) {
            let k = choose|k: int| 0 <= k < s.len() && s[k] == x;
            if k < t.len() {
                assert(t[k] == x);
            }
            assert(x == s.last());
            if p(x) {
                assert(u[a.len() as int] == x);
            }
        }
        if u.contains(x) {
            let k = choose|k: int| 0 <= k < u.len() && u[k] == x;
            if k < a.len() {
                assert(a[k] == x);
            } else {
                assert(x == s.last());
                assert(s[s.len() - 1] == x);
            }
        }
    }
}

pub proof fn lemma_filter_push<T>(s: Seq<T>, p: spec_fn(T) -> bool, x: T)
    ensures
        s.push(x).filter(p) == if p(x) {
            s.filter(p).push(x)
        } else {
            s.filter(p)
        },
{
    reveal(Seq::filter);
    assert(s.push(x).drop_last() =~= s);
}

/// The first row that satisfies `q`, once the rows that satisfy `p` are
/// changed in a way that leaves `q` alone.
pub proof fn lemma_first_updated<T>(
    s: Seq<T>,
    q: spec_fn(T) -> bool,
    p: spec_fn(T) -> bool,
    f: spec_fn(T) -> T,
)
    requires
        forall|x: T| #[trigger] p(x) ==> q(f(x)) == q(x),
    ensures
        first_where(update_where(s, p, f), q) == match first_where(s, q) {
            Some(x) => Some(
                if p(x) {
                    f(x)
                } else {
                    x
                },
            ),
            None => None,
        },
    decreases s.len(),
{
    if s.len() > 0 {
        let t = update_where(s, p, f);
        assert(p(s[0]) || !p(s[0]));
        assert(t.drop_first() =~= update_where(s.drop_first(), p, f));
        lemma_first_updated(s.drop_first(), q, p, f);
    }
}

/// The first row that satisfies `q`, once a row is added behind the others.
pub proof fn lemma_first_pushed<T>(s: Seq<T>, q: spec_fn(T) -> bool, x: T)
    ensures
        first_where(s.push(x), q) == match first_where(s, q) {
            Some(y) => Some(y),
            None => if q(x) {
                Some(x)
            } else {
                None
            },
        },
    decreases s.len(),
{
    if s.len() > 0 {
        assert(s.push(x).drop_first() =~= s.drop_first().push(x));
        lemma_first_pushed(s.drop_first(), q, x);
    } else {
        assert(s.push(x).drop_first() =~= s);
    }
}

/// The first row that satisfies `q`, once the rows that satisfy `p` are gone.
pub proof fn lemma_first_deleted<T>(s: Seq<T>, q: spec_fn(T) -> bool, p: spec_fn(T) -> bool)
    ensures
        (forall|x: T| #[trigger] q(x) ==> !p(x)) ==> first_where(delete_where(s, p), q)
            == first_where(s, q),
        (forall|x: T| #[trigger] q(x) ==> p(x)) ==> first_where(delete_where(s, p), q) is None,
    decreases s.len(),
{
    reveal(Seq::filter);
    let keep = |x: T| !p(x);
    if s.len() > 0 {
        let t = s.drop_last();
        lemma_first_deleted(t, q, p);
        lemma_first_pushed(t, q, s.last());
        lemma_first_pushed(delete_where(t, p), q, s.last());
        assert(s =~= t.push(s.last()));
        lemma_filter_push(t, keep, s.last());
    }
}

/// An update that matches nothing changes nothing.
pub proof fn lemma_update_none<T>(s: Seq<T>, p: spec_fn(T) -> bool, f: spec_fn(T) -> T)
    requires
        !any_where(s, p),
    ensures
        update_where(s, p, f) == s,
{
    assert forall|i: int| 0 <= i < s.len() implies !p(#[trigger] s[i]) by {}
    assert(update_where(s, p, f) =~= s);
}

/// A row whose key no other row has keeps keys distinct.
pub proof fn lemma_append_distinct<T, K>(
    s: Seq<T>,
    key: spec_fn(T) -> K,
    p: spec_fn(T) -> bool,
    x: T,
)
    requires
        distinct(s, key),
        !any_where(s, p),
        forall|y: T| #[trigger] p(y) <==> key(y) == key(x),
    ensures
        distinct(s.push(x), key),
{
    assert forall|i: int| 0 <= i < s.len() implies key(#[trigger] s[i]) != key(x) by {
        assert(!p(s[i]));
    }
    lemma_push_distinct(s, key, x);
}

/// Deleting rows keeps keys distinct.
pub proof fn lemma_delete_distinct<T, K>(s: Seq<T>, key: spec_fn(T) -> K, p: spec_fn(T) -> bool)
    requires
        distinct(s, key),
    ensures
        distinct(delete_where(s, p), key),
{
    lemma_filter_distinct(s, key, |x: T| !p(x));
}

/// No row that an operation deleted is left.
pub proof fn lemma_delete_leaves_none<T>(s: Seq<T>, p: spec_fn(T) -> bool)
    ensures
        !any_where(delete_where(s, p), p),
{
    let keep = |x: T| !p(x);
    let t = delete_where(s, p);
    assert forall|i: int| 0 <= i < t.len() implies !p(#[trigger] t[i]) by {
        lemma_filter_contains(s, keep, t[i]);
        assert(t.contains(t[i]));
    }
}

/// A filter that every row passes keeps every row.
pub proof fn lemma_filter_all<T>(s: Seq<T>, p: spec_fn(T) -> bool)
    requires
        forall|x: T| #[trigger] p(x),
    ensures
        s.filter(p) == s,
    decreases s.len(),
{
    reveal(Seq::filter);
    if s.len() > 0 {
        lemma_filter_all(s.drop_last(), p);
        assert(s =~= s.drop_last().push(s.last()));
    }
}

// --- the operations ---

/// The index of the first row that satisfies the test.
pub fn position<T, F: Fn(&T) -> bool>(rows: &Vec<T>, test: F, Ghost(p): Ghost<
    spec_fn(T) -> bool,
>) -> (r: Option<usize>)
    requires
        forall|x: T| #[trigger] test.requires((&x,)),
        forall|x: T, b: bool| #[trigger] test.ensures((&x,), b) ==> b == p(x),
    ensures
        match r {
            Some(i) => {
                &&& i < rows@.len()
                &&& p(rows@[i as int])
                &&& first_where(rows@, p) == Some(rows@[i as int])
            },
            None => first_where(rows@, p) is None && !any_where(rows@, p),
        },
{
    let mut i: usize = 0;
    assert(rows@.skip(0) =~= rows@);
    while i < rows.len()
        invariant
            i <= rows@.len(),
            forall|x: T| #[trigger] test.requires((&x,)),
            forall|x: T, b: bool| #[trigger] test.ensures((&x,), b) ==> b == p(x),
            first_where(rows@, p) == first_where(rows@.skip(i as int), p),
        decreases rows@.len() - i,
    {
        let hit: bool = test(&rows[i]);
        if hit {
            return Some(i);
        }
        assert(rows@.skip(i as int).drop_first() =~= rows@.skip(i + 1));
        i += 1;
    }
    proof {
        lemma_first_where(rows@, p);
    }
    None
}

/// A copy of the first row that satisfies the test.
pub fn find<T: Row, F: Fn(&T) -> bool>(rows: &Vec<T>, test: F, Ghost(p): Ghost<
    spec_fn(T) -> bool,
>) -> (r: Option<T>)
    requires
        forall|x: T| #[trigger] test.requires((&x,)),
        forall|x: T, b: bool| #[trigger] test.ensures((&x,), b) ==> b == p(x),
    ensures
        r == first_where(rows@, p),
{
    match position(rows, test, Ghost(p)) {
        Some(i) => Some(rows[i].copied()),
        None => None,
    }
}

/// Whether some row satisfies the test.
pub fn any<T, F: Fn(&T) -> bool>(rows: &Vec<T>, test: F, Ghost(p): Ghost<
    spec_fn(T) -> bool,
>) -> (r: bool)
    requires
        forall|x: T| #[trigger] test.requires((&x,)),
        forall|x: T, b: bool| #[trigger] test.ensures((&x,), b) ==> b == p(x),
    ensures
        r == any_where(rows@, p),
{
    proof {
        lemma_first_where(rows@, p);
    }
    position(rows, test, Ghost(p)).is_some()
}

/// Copies of the rows that satisfy the test, in order.
pub fn select<T: Row, F: Fn(&T) -> bool>(rows: &Vec<T>, test: F, Ghost(p): Ghost<
    spec_fn(T) -> bool,
>) -> (r: Vec<T>)
    requires
        forall|x: T| #[trigger] test.requires((&x,)),
        forall|x: T, b: bool| #[trigger] test.ensures((&x,), b) ==> b == p(x),
    ensures
        r@ == rows@.filter(p),
{
    let mut out: Vec<T> = Vec::new();
    let mut i: usize = 0;
    assert(rows@.take(0).filter(p) =~= Seq::<T>::empty()) by {
        reveal(Seq::filter);
    }
    while i < rows.len()
        invariant
            i <= rows@.len(),
            forall|x: T| #[trigger] test.requires((&x,)),
            forall|x: T, b: bool| #[trigger] test.ensures((&x,), b) ==> b == p(x),
            out@ == rows@.take(i as int).filter(p),
        decreases rows@.len() - i,
    {
        proof {
            lemma_filter_push(rows@.take(i as int), p, rows@[i as int]);
            assert(rows@.take(i + 1) =~= rows@.take(i as int).push(rows@[i as int]));
        }
        if test(&rows[i]) {
            out.push(rows[i].copied());
        }
        i += 1;
    }
    assert(rows@.take(i as int) =~= rows@);
    out
}

/// Removes the rows that satisfy the test; whether there was one.
pub fn delete<T: Row, F: Fn(&T) -> bool>(rows: &mut Vec<T>, test: F, Ghost(p): Ghost<
    spec_fn(T) -> bool,
>) -> (r: bool)
    requires
        forall|x: T| #[trigger] test.requires((&x,)),
        forall|x: T, b: bool| #[trigger] test.ensures((&x,), b) ==> b == p(x),
    ensures
        final(rows)@ == delete_where(old(rows)@, p),
        r == any_where(old(rows)@, p),
{
    let ghost s = rows@;
    let ghost q = |x: T| !p(x);
    let mut out: Vec<T> = Vec::new();
    let mut hit = false;
    let mut i: usize = 0;
    assert(s.take(0).filter(q) =~= Seq::<T>::empty()) by {
        reveal(Seq::filter);
    }
    while i < rows.len()
        invariant
            rows@ == s,
            i <= s.len(),
            q == |x: T| !p(x),
            forall|x: T| #[trigger] test.requires((&x,)),
            forall|x: T, b: bool| #[trigger] test.ensures((&x,), b) ==> b == p(x),
            out@ == s.take(i as int).filter(q),
            hit == exists|k: int| 0 <= k < i && p(#[trigger] s[k]),
        decreases s.len() - i,
    {
        proof {
            lemma_filter_push(s.take(i as int), q, s[i as int]);
            assert(s.take(i + 1) =~= s.take(i as int).push(s[i as int]));
        }
        if test(&rows[i]) {
            assert(p(s[i as int]));
            hit = true;
        } else {
            out.push(rows[i].copied());
        }
        i += 1;
    }
    assert(s.take(i as int) =~= s);
    *rows = out;
    hit
}

/// Applies a change to the rows that satisfy the test; whether there was one.
pub fn update<T, F: Fn(&T) -> bool, G: Fn(&T) -> T>(
    rows: &mut Vec<T>,
    test: F,
    change: G,
    Ghost(p): Ghost<spec_fn(T) -> bool>,
    Ghost(f): Ghost<spec_fn(T) -> T>,
) -> (r: bool)
    requires
        forall|x: T| #[trigger] test.requires((&x,)),
        forall|x: T, b: bool| #[trigger] test.ensures((&x,), b) ==> b == p(x),
        forall|x: T| #[trigger] change.requires((&x,)),
        forall|x: T, y: T| #[trigger] change.ensures((&x,), y) ==> y == f(x),
    ensures
        final(rows)@ == update_where(old(rows)@, p, f),
        r == any_where(old(rows)@, p),
{
    let ghost s = rows@;
    let mut hit = false;
    let mut i: usize = 0;
    while i < rows.len()
        invariant
            rows@.len() == s.len(),
            i <= s.len(),
            forall|x: T| #[trigger] test.requires((&x,)),
            forall|x: T, b: bool| #[trigger] test.ensures((&x,), b) ==> b == p(x),
            forall|x: T| #[trigger] change.requires((&x,)),
            forall|x: T, y: T| #[trigger] change.ensures((&x,), y) ==> y == f(x),
            forall|k: int| 0 <= k < i ==> rows@[k] == update_where(s, p, f)[k],
            forall|k: int| i <= k < s.len() ==> rows@[k] == s[k],
            hit == exists|k: int| 0 <= k < i && p(#[trigger] s[k]),
        decreases s.len() - i,
    {
        if test(&rows[i]) {
            assert(p(s[i as int]));
            let next = change(&rows[i]);
            rows.set(i, next);
            hit = true;
        }
        i += 1;
    }
    assert(rows@ =~= update_where(s, p, f));
    hit
}

/// The first row that fits is the one with none before it that does; it is changed
/// where the rows that fit are, and gone where they are deleted, and every row that
/// does not fit stays.
pub proof fn rows_are_looked_through_in_order<T>(s: Seq<T>, p: spec_fn(T) -> bool, f: spec_fn(T) -> T, i: int)
    requires
        0 <= i < s.len(),
        forall|j: int| 0 <= j < i ==> !p(#[trigger] s[j]),
        p(s[i]),
    ensures
        first_where(s, p) == Some(s[i]),
        any_where(s, p),
        update_where(s, p, f)[i] == f(s[i]),
        forall|j: int| 0 <= j < i ==> #[trigger] update_where(s, p, f)[j] == s[j],
        update_where(s, p, f).len() == s.len(),
        !delete_where(s, p).contains(s[i]),
        forall|x: T| s.contains(x) && !p(x) ==> #[trigger] delete_where(s, p).contains(x),
    decreases s.len(),
{
    if i > 0 {
        let t = s.drop_first();
        assert(!p(s[0]));
        assert forall|j: int| 0 <= j < i - 1 implies !p(#[trigger] t[j]) by {
            assert(t[j] == s[j + 1]);
        }
        assert(t[i - 1] == s[i]);
        rows_are_looked_through_in_order(t, p, f, i - 1);
    }
    let kept = |x: T| !p(x);
    lemma_filter_contains(s, kept, s[i]);
    assert forall|x: T| s.contains(x) && !p(x) implies #[trigger] delete_where(s, p).contains(x) by {
        lemma_filter_contains(s, kept, x);
    }
}

/// A text that may be missing is there exactly where it is.
pub proof fn missing_texts_are_missing(t: String)
    ensures
        opt_text(Some(t)) == Some(t@),
        opt_text(None) is None,
        opt_str(None) is None,
{
}

} // verus!
