//! A small fixed-window rate limiter: at most so many charges per window and
//! key. Coarse, but enough to keep the server from adding guessing power to
//! the servers it talks to.

use crate::table::{
    delete_where, distinct, first_where, lemma_filter_contains, lemma_filter_distinct,
    lemma_filter_push, lemma_first_pushed, lemma_first_where, select, Row,
};
use crate::text::same;
use crate::util::{clock_start, nanos_since};
use std::time::Instant;
use vstd::prelude::*;

verus! {

/// Above this many windows, those that are over are dropped.
pub const PRUNE_ABOVE: usize = 4096;

/// The count of a key within its window.
pub struct Window {
    pub key: String,
    /// Charges in the window.
    pub count: u32,
    /// When the window is over, in nanoseconds.
    pub reset_at: u128,
}

impl Row for Window {
    fn copied(&self) -> (r: Self) {
        Window { key: self.key.clone(), count: self.count, reset_at: self.reset_at }
    }
}

/// A fixed-window limiter: at most `max` charges per window and key.
pub struct RateLimiter {
    pub windows: Vec<Window>,
    pub max: u32,
    /// The length of a window, in nanoseconds.
    pub window: u128,
    pub started: Instant,
}

pub open spec fn window_key() -> spec_fn(Window) -> Seq<char> {
    |w: Window| w.key@
}

pub open spec fn window_is(key: Seq<char>) -> spec_fn(Window) -> bool {
    |w: Window| w.key@ == key
}

pub open spec fn window_open(now: int) -> spec_fn(Window) -> bool {
    |w: Window| w.reset_at > now
}

impl RateLimiter {
    /// No key has two windows, and at least one charge is allowed.
    pub open spec fn wf(&self) -> bool {
        &&& distinct(self.windows@, window_key())
        &&& self.max >= 1
    }

    /// The window of a key that is open at a time: its charges, and when it is
    /// over.
    pub open spec fn open_window(&self, key: Seq<char>, now: int) -> Option<(u32, u128)> {
        match first_where(self.windows@, window_is(key)) {
            Some(w) => if w.reset_at > now {
                Some((w.count, w.reset_at))
            } else {
                None
            },
            None => None,
        }
    }

    /// When a window begun at a time is over.
    pub open spec fn window_end(&self, now: int) -> int {
        if now + self.window > u128::MAX {
            u128::MAX as int
        } else {
            now + self.window
        }
    }

    /// Builds a limiter that allows `max` charges, and at least one, per
    /// window of so many nanoseconds and key.
    pub fn new(max: u32, window: u128) -> (r: RateLimiter)
        ensures
            r.wf(),
            r.max == (if max < 1 {
                1
            } else {
                max
            }),
            r.window == window,
            forall|key: Seq<char>, now: int| #[trigger] r.open_window(key, now) is None,
    {
        RateLimiter {
            windows: Vec::new(),
            max: if max < 1 {
                1
            } else {
                max
            },
            window,
            started: clock_start(),
        }
    }

    /// The windows that are held on to at a time: all of them, or the open ones
    /// once there are too many.
    pub open spec fn held(self, now: int) -> Seq<Window> {
        if self.windows@.len() > PRUNE_ABOVE {
            self.windows@.filter(window_open(now))
        } else {
            self.windows@
        }
    }

    /// What charging a key at a time does. The charges of its open window, or
    /// of a new one, decide; a charge that is allowed is counted, one that is
    /// not tells how long the window still lasts. Other keys are left alone, but
    /// where there are too many windows, those that are over are dropped.
    pub open spec fn charges(
        self,
        after: RateLimiter,
        key: Seq<char>,
        now: u128,
        r: Result<(), u128>,
    ) -> bool {
        let (count, end) = match self.open_window(key, now as int) {
            Some((count, end)) => (count as int, end as int),
            None => (0int, self.window_end(now as int)),
        };
        let charged = if count < self.max {
            count + 1
        } else {
            count
        };
        &&& after.max == self.max
        &&& after.window == self.window
        &&& after.started == self.started
        &&& delete_where(after.windows@, window_is(key)) == delete_where(
            self.held(now as int),
            window_is(key),
        )
        &&& r == (if count < self.max {
            Ok(())
        } else {
            Err((end - now) as u128)
        })
        &&& forall|t: int|
            t >= now ==> #[trigger] after.open_window(key, t) == if end > t {
                Some((charged as u32, end as u128))
            } else {
                None
            }
        &&& forall|other: Seq<char>, t: int|
            other != key && t >= now ==> #[trigger] after.open_window(other, t)
                == self.open_window(other, t)
    }

    /// Drops the windows that are over, and keeps the others as they are, in
    /// their order.
    fn prune(&mut self, now: u128)
        requires
            old(self).wf(),
        ensures
            final(self).wf(),
            final(self).windows@ == old(self).windows@.filter(window_open(now as int)),
            final(self).max == old(self).max,
            final(self).window == old(self).window,
            final(self).started == old(self).started,
            forall|key: Seq<char>, t: int|
                t >= now ==> #[trigger] final(self).open_window(key, t) == old(self).open_window(
                    key,
                    t,
                ),
    {
        let test = |w: &Window| -> (b: bool)
            ensures
                b == (w.reset_at > now),
        {
            w.reset_at > now
        };
        let ghost open = window_open(now as int);
        let kept = select(&self.windows, test, Ghost(open));
        proof {
            lemma_filter_distinct(self.windows@, window_key(), open);
            assert forall|key: Seq<char>, t: int| t >= now implies #[trigger] Self::at(
                kept@,
                key,
                t,
            ) == Self::at(self.windows@, key, t) by {
                lemma_pruned(self.windows@, key, now as int, t);
            }
        }
        self.windows = kept;
        assert forall|key: Seq<char>, t: int| t >= now implies #[trigger] self.open_window(key, t)
            == old(self).open_window(key, t) by {
            assert(Self::at(kept@, key, t) == Self::at(old(self).windows@, key, t));
        }
    }

    spec fn at(windows: Seq<Window>, key: Seq<char>, now: int) -> Option<(u32, u128)> {
        match first_where(windows, window_is(key)) {
            Some(w) => if w.reset_at > now {
                Some((w.count, w.reset_at))
            } else {
                None
            },
            None => None,
        }
    }

    /// Charges one attempt against a key at a time. Allowed while the key has
    /// charges left in its window; else the time until the window is over.
    pub fn check_at(&mut self, key: &str, now: u128) -> (r: Result<(), u128>)
        requires
            old(self).wf(),
        ensures
            final(self).wf(),
            old(self).charges(*final(self), key@, now, r),
    {
        if self.windows.len() > PRUNE_ABOVE {
            self.prune(now);
        }
        let ghost before = *self;
        let end: u128 = if self.window > u128::MAX - now {
            u128::MAX
        } else {
            now + self.window
        };
        let test = |w: &Window| -> (b: bool)
            ensures
                b == (w.key@ == key@),
        {
            same(w.key.as_str(), key)
        };
        let ghost p = window_is(key@);
        match crate::table::position(&self.windows, test, Ghost(p)) {
            None => {
                let row = Window { key: key.to_owned(), count: 1, reset_at: end };
                proof {
                    lemma_filter_push(before.windows@, |w: Window| !p(w), row);
                    crate::table::lemma_append_distinct(before.windows@, window_key(), p, row);
                    assert forall|other: Seq<char>| #[trigger]
                        first_where(before.windows@.push(row), window_is(other)) == (
                    match first_where(before.windows@, window_is(other)) {
                        Some(w) => Some(w),
                        None => if other == key@ {
                            Some(row)
                        } else {
                            None
                        },
                    }) by {
                        lemma_first_pushed(before.windows@, window_is(other), row);
                    }
                }
                self.windows.push(row);
                proof {
                    assert(old(self).open_window(key@, now as int) == before.open_window(
                        key@,
                        now as int,
                    ));
                    assert forall|other: Seq<char>, t: int|
                        other != key@ && t >= now implies #[trigger] self.open_window(other, t)
                        == old(self).open_window(other, t) by {
                        assert(before.open_window(other, t) == old(self).open_window(other, t));
                    }
                    assert(first_where(self.windows@, window_is(key@)) == Some(row));
                }
                Ok(())
            },
            Some(i) => {
                let live = self.windows[i].reset_at > now;
                let count: u32 = if live {
                    self.windows[i].count
                } else {
                    0
                };
                let until: u128 = if live {
                    self.windows[i].reset_at
                } else {
                    end
                };
                let allowed = count < self.max;
                let charged: u32 = if allowed {
                    count + 1
                } else {
                    count
                };
                let row = Window { key: self.windows[i].key.clone(), count: charged, reset_at: until };
                proof {
                    lemma_replaced(before.windows@, i as int, row);
                    lemma_delete_updated(before.windows@, i as int, row, p);
                }
                self.windows.set(i, row);
                proof {
                    assert(before.windows@[i as int].key@ == key@);
                    assert(first_where(before.windows@, window_is(key@)) == Some(
                        before.windows@[i as int],
                    ));
                    assert(old(self).open_window(key@, now as int) == before.open_window(
                        key@,
                        now as int,
                    ));
                    assert forall|other: Seq<char>, t: int|
                        other != key@ && t >= now implies #[trigger] self.open_window(other, t)
                        == old(self).open_window(other, t) by {
                        assert(before.open_window(other, t) == old(self).open_window(other, t));
                    }
                    assert(first_where(self.windows@, window_is(key@)) == Some(row));
                }
                if allowed {
                    Ok(())
                } else {
                    Err(until - now)
                }
            },
        }
    }

    /// Charges one attempt against a key, now.
    pub fn check(&mut self, key: &str) -> (r: Result<(), u128>)
        requires
            old(self).wf(),
        ensures
            final(self).wf(),
            exists|now: u128| #[trigger] old(self).charges(*final(self), key@, now, r),
    {
        let now: u128 = nanos_since(&self.started);
        self.check_at(key, now)
    }
}

/// Dropping the windows that are over changes no open one.
proof fn lemma_pruned(windows: Seq<Window>, key: Seq<char>, now: int, t: int)
    requires
        distinct(windows, window_key()),
        t >= now,
    ensures
        RateLimiter::at(windows.filter(window_open(now)), key, t) == RateLimiter::at(
            windows,
            key,
            t,
        ),
    decreases windows.len(),
{
    reveal(Seq::filter);
    let p = window_is(key);
    let open = window_open(now);
    if windows.len() > 0 {
        let rest = windows.drop_last();
        let last = windows.last();
        assert(windows =~= rest.push(last));
        lemma_pruned(rest, key, now, t);
        lemma_first_pushed(rest, p, last);
        lemma_first_pushed(rest.filter(open), p, last);
        lemma_first_where(rest, p);
        if p(last) {
            assert forall|i: int| 0 <= i < rest.len() implies !p(#[trigger] rest[i]) by {
                assert(windows[i] == rest[i]);
                assert(window_key()(windows[i]) != window_key()(windows[windows.len() - 1]));
            }
            lemma_filter_none(rest, p, open);
        }
    }
}

proof fn lemma_filter_none<T>(s: Seq<T>, p: spec_fn(T) -> bool, q: spec_fn(T) -> bool)
    requires
        forall|i: int| 0 <= i < s.len() ==> !p(#[trigger] s[i]),
    ensures
        first_where(s.filter(q), p) is None,
{
    lemma_first_where(s.filter(q), p);
    assert forall|i: int| 0 <= i < s.filter(q).len() implies !p(#[trigger] s.filter(q)[i]) by {
        assert(s.filter(q).contains(s.filter(q)[i]));
        lemma_filter_contains(s, q, s.filter(q)[i]);
        let k = choose|k: int| 0 <= k < s.len() && s[k] == s.filter(q)[i];
        assert(!p(s[k]));
    }
}

/// Renewing the window of a key leaves the windows of other keys alone.
proof fn lemma_replaced(windows: Seq<Window>, i: int, row: Window)
    requires
        distinct(windows, window_key()),
        0 <= i < windows.len(),
        row.key@ == windows[i].key@,
    ensures
        distinct(windows.update(i, row), window_key()),
        first_where(windows.update(i, row), window_is(row.key@)) == Some(row),
        forall|other: Seq<char>|
            other != row.key@ ==> #[trigger] first_where(windows.update(i, row), window_is(other))
                == first_where(windows, window_is(other)),
{
    let next = windows.update(i, row);
    assert(distinct(next, window_key())) by {
        assert forall|a: int, b: int| 0 <= a < b < next.len() implies window_key()(
            #[trigger] next[a],
        ) != window_key()(#[trigger] next[b]) by {
            assert(window_key()(windows[a]) != window_key()(windows[b]));
        }
    }
    crate::table::lemma_first_is(next, window_key(), window_is(row.key@), i);
    assert forall|other: Seq<char>| other != row.key@ implies #[trigger] first_where(
        next,
        window_is(other),
    ) == first_where(windows, window_is(other)) by {
        lemma_update_elsewhere(windows, i, row, window_is(other));
    }
}

/// Deleting a row that was changed is deleting the row.
proof fn lemma_delete_updated<T>(s: Seq<T>, i: int, x: T, p: spec_fn(T) -> bool)
    requires
        0 <= i < s.len(),
        p(s[i]),
        p(x),
    ensures
        delete_where(s.update(i, x), p) == delete_where(s, p),
    decreases s.len(),
{
    reveal(Seq::filter);
    let t = s.drop_last();
    if i < t.len() {
        lemma_delete_updated(t, i, x, p);
        assert(s.update(i, x).drop_last() =~= t.update(i, x));
    } else {
        assert(s.update(i, x).drop_last() =~= t);
    }
}

proof fn lemma_update_elsewhere<T>(s: Seq<T>, i: int, x: T, p: spec_fn(T) -> bool)
    requires
        0 <= i < s.len(),
        !p(s[i]),
        !p(x),
    ensures
        first_where(s.update(i, x), p) == first_where(s, p),
    decreases s.len(),
{
    if i == 0 {
        assert(s.update(i, x).drop_first() =~= s.drop_first());
    } else {
        assert(s.update(i, x).drop_first() =~= s.drop_first().update(i - 1, x));
        lemma_update_elsewhere(s.drop_first(), i - 1, x, p);
    }
}

/// Whether a key is charged at these times, one after the other, with these
/// results.
pub open spec fn charged_at(
    states: Seq<RateLimiter>,
    key: Seq<char>,
    times: Seq<u128>,
    results: Seq<Result<(), u128>>,
) -> bool {
    &&& states.len() == times.len() + 1
    &&& results.len() == times.len()
    &&& forall|i: int|
        0 <= i < times.len() ==> states[i].charges(
            states[i + 1],
            key,
            times[i],
            #[trigger] results[i],
        )
    &&& forall|i: int, j: int| 0 <= i <= j < times.len() ==> times[i] <= times[j]
}

/// Within one window a key is charged `max` times and no more: of the charges
/// made before the first one's window is over, the first `max` are allowed and
/// all others refused.
pub proof fn window_allows_max_charges(
    states: Seq<RateLimiter>,
    key: Seq<char>,
    times: Seq<u128>,
    results: Seq<Result<(), u128>>,
    i: int,
)
    requires
        charged_at(states, key, times, results),
        0 <= i < times.len(),
        states[0].open_window(key, times[0] as int) is None,
        times[i] < states[0].window_end(times[0] as int),
    ensures
        results[i] is Ok <==> i < states[0].max,
{
    lemma_charges_so_far(states, key, times, results, i);
    assert(states[i].charges(states[i + 1], key, times[i], results[i]));
}

/// What the charges so far have left of the window that the first one began.
proof fn lemma_charges_so_far(
    states: Seq<RateLimiter>,
    key: Seq<char>,
    times: Seq<u128>,
    results: Seq<Result<(), u128>>,
    i: int,
)
    requires
        charged_at(states, key, times, results),
        0 <= i < times.len(),
        states[0].open_window(key, times[0] as int) is None,
        times[i] < states[0].window_end(times[0] as int),
    ensures
        states[i].max == states[0].max,
        i > 0 ==> states[i].open_window(key, times[i] as int) == Some(
            (
                (if i < states[0].max {
                    i
                } else {
                    states[0].max as int
                }) as u32,
                states[0].window_end(times[0] as int) as u128,
            ),
        ),
    decreases i,
{
    if i > 0 {
        lemma_charges_so_far(states, key, times, results, i - 1);
        assert(states[i - 1].charges(states[i], key, times[i - 1], results[i - 1]));
        assert(times[i - 1] <= times[i]);
    }
}

/// The first charge of a key is allowed and opens a window of the set length: it
/// is open until just before its end, and over from then on.
pub proof fn windows_last_as_long_as_set(
    before: RateLimiter,
    after: RateLimiter,
    key: Seq<char>,
    now: u128,
    r: Result<(), u128>,
)
    requires
        before.max >= 1,
        before.charges(after, key, now, r),
        before.open_window(key, now as int) is None,
        now + before.window <= u128::MAX,
        before.window >= 1,
    ensures
        r is Ok,
        after.open_window(key, now + before.window - 1) == Some(
            (1u32, (now + before.window) as u128),
        ),
        after.open_window(key, now + before.window) is None,
{
}

/// A charge that is refused says how long to wait: the key's window is open until
/// just before then, the charge counts for nothing, and a charge made once the
/// wait is over is allowed.
pub proof fn refused_charges_say_how_long_to_wait(
    before: RateLimiter,
    after: RateLimiter,
    later: RateLimiter,
    key: Seq<char>,
    now: u128,
    wait: u128,
    then: u128,
    r: Result<(), u128>,
)
    requires
        before.max >= 1,
        before.charges(after, key, now, Err::<(), u128>(wait)),
        after.charges(later, key, then, r),
        then >= now + wait,
    ensures
        wait >= 1,
        before.open_window(key, now as int) matches Some((count, end)) && count >= before.max && end
            == now + wait,
        after.open_window(key, now as int) == before.open_window(key, now as int),
        r is Ok,
{
    let t = now as int;
    assert(after.open_window(key, t) == before.open_window(key, t));
    assert(after.open_window(key, then as int) is None);
}

/// An allowed charge counts once against its key, and against no other.
pub proof fn charges_count_for_their_key(
    before: RateLimiter,
    after: RateLimiter,
    key: Seq<char>,
    now: u128,
    r: Result<(), u128>,
    other: Seq<char>,
)
    requires
        before.charges(after, key, now, r),
        before.open_window(key, now as int) is Some,
    ensures
        after.open_window(key, now as int) is Some,
        before.open_window(key, now as int) matches Some((was, _)) && (after.open_window(
            key,
            now as int,
        ) matches Some((is, _)) && is == (if r is Ok {
            was + 1
        } else {
            was as int
        }) && (r is Ok <==> was < before.max)),
        other != key ==> after.open_window(other, now as int) == before.open_window(
            other,
            now as int,
        ),
        after.max == before.max,
        after.window == before.window,
{
    let t = now as int;
    assert(after.open_window(key, t) is Some);
}

/// A charge leaves the windows of other keys alone, open or over, until there are
/// more than four thousand and ninety-six; from then on it keeps those alone that
/// are still open.
pub proof fn windows_that_are_over_are_dropped(
    before: RateLimiter,
    after: RateLimiter,
    key: Seq<char>,
    now: u128,
    r: Result<(), u128>,
    w: Window,
)
    requires
        before.charges(after, key, now, r),
        w.key@ != key,
    ensures
        before.windows@.len() <= 4096 ==> (after.windows@.contains(w)
            <==> before.windows@.contains(w)),
        before.windows@.len() > 4096 ==> (after.windows@.contains(w) <==> before.windows@.contains(w)
            && w.reset_at > now),
{
    let other = |x: Window| !window_is(key)(x);
    let held = before.held(now as int);
    crate::table::lemma_filter_contains(after.windows@, other, w);
    crate::table::lemma_filter_contains(held, other, w);
    crate::table::lemma_filter_contains(before.windows@, window_open(now as int), w);
}

} // verus!
