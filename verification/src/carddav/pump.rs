//! Polling an address book: what changed since the last checkpoint becomes
//! events, and the next checkpoint is kept.

use crate::carddav::session::{resource_id, resource_of, SyncPollError};
use crate::event::{ChangeEvent, ChangeKind};
use crate::random::is_id;
use crate::table::{copy_text, opt_text};
use crate::text::same;
use vstd::prelude::*;

verus! {

/// What changed, as the server tells it.
#[derive(Debug)]
pub struct SyncDelta {
    /// The paths of what was created or edited.
    pub changed: Vec<String>,
    /// The paths of what is gone.
    pub vanished: Vec<String>,
    /// The next checkpoint, if the server tells one.
    pub sync_token: Option<String>,
    /// Whether there is more.
    pub truncated: bool,
}

/// A poll under way.
#[derive(Debug)]
pub struct Poll {
    /// Whether this is the first poll ever, whose members are not told.
    pub baseline: bool,
    /// The checkpoint to ask from.
    pub cursor: Option<String>,
}

/// How a poll goes on.
#[derive(Debug)]
pub enum PollNext {
    /// Ask again, from the poll's cursor.
    Again,
    /// It is over; this is the checkpoint to keep.
    Done(Option<String>),
    /// It failed.
    Failed(String),
}

/// What a poll makes of an answer.
#[derive(Debug)]
pub struct PollStep {
    pub events: Vec<ChangeEvent>,
    pub next: PollNext,
}

/// Whether events tell members, one for each path, in order.
pub open spec fn tell_members(
    events: Seq<ChangeEvent>,
    watch: Seq<char>,
    kind: ChangeKind,
    hrefs: Seq<String>,
) -> bool {
    events.len() == hrefs.len() && forall|i: int|
        0 <= i < hrefs.len() ==> (#[trigger] events[i]).tells(
            watch,
            kind,
            0,
            Some(resource_of(hrefs[i]@)),
        ) && is_id(events[i].id@)
}

/// Whether events tell what changed: first what was created or edited, which a
/// poll cannot tell apart, then what is gone.
pub open spec fn tell_delta(events: Seq<ChangeEvent>, watch: Seq<char>, delta: SyncDelta) -> bool {
    let n = delta.changed@.len() as int;
    events.len() == n + delta.vanished@.len() && tell_members(
        events.take(n),
        watch,
        ChangeKind::Changed,
        delta.changed@,
    ) && tell_members(events.skip(n), watch, ChangeKind::Removed, delta.vanished@)
}

/// The checkpoint after an answer: the server's, else the one asked from.
pub open spec fn next_token(delta: SyncDelta, cursor: Option<Seq<char>>) -> Option<Seq<char>> {
    match delta.sync_token {
        Some(t) => Some(t@),
        None => cursor,
    }
}

/// Whether there is more to ask for: the answer was cut short, and a new
/// checkpoint leads on.
pub open spec fn goes_on(delta: SyncDelta, cursor: Option<Seq<char>>) -> bool {
    delta.truncated && next_token(delta, cursor) is Some && next_token(delta, cursor) != cursor
}

/// Whether an optional text is another.
pub fn same_opt(a: &Option<String>, b: &Option<String>) -> (r: bool)
    ensures
        r == (opt_text(*a) == opt_text(*b)),
{
    match (a, b) {
        (Some(x), Some(y)) => same(x.as_str(), y.as_str()),
        (None, None) => true,
        _ => false,
    }
}

fn add_members(events: &mut Vec<ChangeEvent>, watch: &str, kind: ChangeKind, hrefs: &Vec<String>)
    ensures
        final(events)@.len() == old(events)@.len() + hrefs@.len(),
        final(events)@.take(old(events)@.len() as int) == old(events)@,
        tell_members(final(events)@.skip(old(events)@.len() as int), watch@, kind, hrefs@),
{
    let ghost before = events@;
    let ghost n = before.len() as int;
    let mut i: usize = 0;
    assert(events@.take(n) =~= before);
    while i < hrefs.len()
        invariant
            n == before.len(),
            i <= hrefs@.len(),
            events@.len() == n + i,
            events@.take(n) == before,
            forall|k: int|
                0 <= k < i ==> (#[trigger] events@[n + k]).tells(
                    watch@,
                    kind,
                    0,
                    Some(resource_of(hrefs@[k]@)),
                ) && is_id(events@[n + k].id@),
        decreases hrefs@.len() - i,
    {
        let ghost earlier = events@;
        let resource = resource_id(hrefs[i].as_str());
        events.push(ChangeEvent::carddav(watch, kind, resource.as_str()));
        assert(events@.take(n) =~= earlier.take(n));
        assert forall|k: int| 0 <= k < i + 1 implies (#[trigger] events@[n + k]).tells(
            watch@,
            kind,
            0,
            Some(resource_of(hrefs@[k]@)),
        ) && is_id(events@[n + k].id@) by {
            if k < i {
                assert(events@[n + k] == earlier[n + k]);
            }
        }
        i += 1;
    }
    assert forall|k: int| 0 <= k < hrefs@.len() implies (#[trigger] events@.skip(n)[k]).tells(
        watch@,
        kind,
        0,
        Some(resource_of(hrefs@[k]@)),
    ) && is_id(events@.skip(n)[k].id@) by {
        assert(events@.skip(n)[k] == events@[n + k]);
    }
}

impl Poll {
    /// Begins a poll from the last checkpoint. Without one, what is there is
    /// taken as given: a fresh watch would else tell every member.
    pub fn start(token: Option<String>) -> (r: Poll)
        ensures
            r == (Poll { baseline: token is None, cursor: token }),
    {
        Poll { baseline: token.is_none(), cursor: token }
    }

    /// What is done with an answer.
    pub open spec fn takes(
        self,
        after: Poll,
        watch: Seq<char>,
        answer: Result<SyncDelta, SyncPollError>,
        r: PollStep,
    ) -> bool {
        match answer {
            Ok(delta) => {
                &&& after.baseline == self.baseline
                &&& if self.baseline {
                    r.events@.len() == 0
                } else {
                    tell_delta(r.events@, watch, delta)
                }
                &&& if goes_on(delta, opt_text(self.cursor)) {
                    r.next == PollNext::Again && opt_text(after.cursor) == next_token(
                        delta,
                        opt_text(self.cursor),
                    )
                } else {
                    after == self && (r.next matches PollNext::Done(t) && opt_text(t) == next_token(
                        delta,
                        opt_text(self.cursor),
                    ))
                }
            },
            Err(SyncPollError::InvalidToken) => after == self && r.events@.len() == 0 && r.next
                == PollNext::Done(None),
            Err(SyncPollError::Other(e)) => after == self && r.events@.len() == 0 && r.next
                == PollNext::Failed(e),
        }
    }

    /// Takes an answer. A rejected checkpoint makes the next poll a first one;
    /// an answer that was cut short is asked on at once.
    pub fn on_delta(&mut self, watch_id: &str, answer: Result<SyncDelta, SyncPollError>) -> (r:
        PollStep)
        ensures
            old(self).takes(*final(self), watch_id@, answer, r),
    {
        let mut events: Vec<ChangeEvent> = Vec::new();
        let delta = match answer {
            Ok(delta) => delta,
            Err(SyncPollError::InvalidToken) => return PollStep {
                events,
                next: PollNext::Done(None),
            },
            Err(SyncPollError::Other(e)) => return PollStep { events, next: PollNext::Failed(e) },
        };
        if !self.baseline {
            let ghost n = delta.changed@.len() as int;
            add_members(&mut events, watch_id, ChangeKind::Changed, &delta.changed);
            let ghost first = events@;
            assert(first.skip(0) =~= first);
            add_members(&mut events, watch_id, ChangeKind::Removed, &delta.vanished);
            assert(events@.take(n) == first);
        }
        let next = match &delta.sync_token {
            Some(t) => Some(t.clone()),
            None => copy_text(&self.cursor),
        };
        if delta.truncated && next.is_some() && !same_opt(&next, &self.cursor) {
            self.cursor = next;
            return PollStep { events, next: PollNext::Again };
        }
        PollStep { events, next: PollNext::Done(next) }
    }
}

/// The first poll of an address book tells nothing, however many answers it
/// takes: each leaves the poll a first one.
pub proof fn first_poll_tells_nothing(
    poll: Poll,
    after: Poll,
    watch: Seq<char>,
    answer: Result<SyncDelta, SyncPollError>,
    r: PollStep,
)
    requires
        poll.baseline,
        poll.takes(after, watch, answer, r),
    ensures
        r.events@.len() == 0,
        after.baseline,
{
}

/// A later poll tells every member that changed and every one that vanished, by
/// name and nothing more, and nothing else.
pub proof fn every_change_is_told(
    poll: Poll,
    after: Poll,
    watch: Seq<char>,
    delta: SyncDelta,
    r: PollStep,
)
    requires
        !poll.baseline,
        poll.takes(after, watch, Ok::<SyncDelta, SyncPollError>(delta), r),
    ensures
        r.events@.len() == delta.changed@.len() + delta.vanished@.len(),
        forall|i: int|
            0 <= i < delta.changed@.len() ==> (#[trigger] r.events@[i]).tells(
                watch,
                ChangeKind::Changed,
                0,
                Some(resource_of(delta.changed@[i]@)),
            ),
        forall|i: int|
            0 <= i < delta.vanished@.len() ==> r.events@[delta.changed@.len() + i].tells(
                watch,
                ChangeKind::Removed,
                0,
                Some(resource_of((#[trigger] delta.vanished@[i])@)),
            ),
{
    let n = delta.changed@.len() as int;
    assert forall|i: int| 0 <= i < n implies (#[trigger] r.events@[i]).tells(
        watch,
        ChangeKind::Changed,
        0,
        Some(resource_of(delta.changed@[i]@)),
    ) by {
        assert(r.events@.take(n)[i] == r.events@[i]);
    }
    assert forall|i: int| 0 <= i < delta.vanished@.len() implies r.events@[n + i].tells(
        watch,
        ChangeKind::Removed,
        0,
        Some(resource_of((#[trigger] delta.vanished@[i])@)),
    ) by {
        assert(r.events@.skip(n)[i] == r.events@[n + i]);
    }
}

/// A member that was created or edited is told as `changed` and one that is gone
/// as `removed`, each by its own name and without a UID, the changed ones first.
pub proof fn members_are_told_by_name(
    poll: Poll,
    after: Poll,
    watch: Seq<char>,
    delta: SyncDelta,
    r: PollStep,
    i: int,
)
    requires
        !poll.baseline,
        poll.takes(after, watch, Ok::<SyncDelta, SyncPollError>(delta), r),
        0 <= i < r.events@.len(),
    ensures
        ({
            let n = delta.changed@.len() as int;
            let e = r.events@[i];
            &&& e.account@ == watch
            &&& e.uid == 0
            &&& i < n ==> e.event.name() == "changed"@ && opt_text(e.resource) == Some(
                resource_of(delta.changed@[i]@),
            )
            &&& i >= n ==> e.event.name() == "removed"@ && opt_text(e.resource) == Some(
                resource_of(delta.vanished@[i - n]@),
            )
        }),
{
    every_change_is_told(poll, after, watch, delta, r);
    let n = delta.changed@.len() as int;
    if i < n {
        assert(r.events@[i].tells(
            watch,
            ChangeKind::Changed,
            0,
            Some(resource_of(delta.changed@[i]@)),
        ));
    } else {
        let v = delta.vanished@[i - n];
        assert(r.events@[n + (i - n)].tells(
            watch,
            ChangeKind::Removed,
            0,
            Some(resource_of(v@)),
        ));
    }
}

/// A poll is over with the checkpoint that the server told, or the one it was
/// asked from where it told none; only an answer that was cut short and leads on
/// is asked on, from the checkpoint that it told.
pub proof fn polls_end_at_the_servers_checkpoint(
    poll: Poll,
    after: Poll,
    watch: Seq<char>,
    delta: SyncDelta,
    r: PollStep,
)
    requires
        poll.takes(after, watch, Ok::<SyncDelta, SyncPollError>(delta), r),
    ensures
        !delta.truncated ==> r.next is Done,
        delta.sync_token is None ==> r.next is Done,
        opt_text(delta.sync_token) == opt_text(poll.cursor) ==> r.next is Done,
        r.next matches PollNext::Done(t) ==> after == poll && (match delta.sync_token {
            Some(token) => opt_text(t) == Some(token@),
            None => opt_text(t) == opt_text(poll.cursor),
        }),
        r.next is Again ==> opt_text(after.cursor) == opt_text(delta.sync_token),
        delta.truncated && delta.sync_token is Some && opt_text(delta.sync_token) != opt_text(
            poll.cursor,
        ) ==> r.next is Again,
        !(r.next is Failed),
        after.baseline == poll.baseline,
{
}

/// A checkpoint that the server does not know any more is dropped, so that the
/// next poll takes what is there as given; any other failure fails the poll. In
/// either case nothing is told.
pub proof fn rejected_checkpoints_are_dropped(
    poll: Poll,
    after: Poll,
    watch: Seq<char>,
    why: String,
    r: PollStep,
)
    ensures
        poll.takes(after, watch, Err::<SyncDelta, SyncPollError>(SyncPollError::InvalidToken), r)
            ==> r.next == PollNext::Done(None) && r.events@.len() == 0 && after == poll,
        poll.takes(after, watch, Err::<SyncDelta, SyncPollError>(SyncPollError::Other(why)), r)
            ==> r.next == PollNext::Failed(why) && r.events@.len() == 0 && after == poll,
{
}

} // verus!
