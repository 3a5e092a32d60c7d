//! What a watcher does with what a mailbox's server says: how long it waits,
//! when it starts over, and which messages are new.

use crate::event::{ChangeEvent, ChangeKind};
use crate::random::is_id;
use crate::sort::{sort, sorted, sorted_contains};
use crate::text::{decimal_of, decimal_u64};
use vstd::prelude::*;

verus! {

/// The size of a read, in bytes.
pub const READ_BUF: usize = 8192;

/// How long a connection may be silent before it is replaced, in seconds.
pub const IDLE_REFRESH_SECS: u64 = 900;

/// Why a watcher lost its session.
#[derive(Clone, Copy, Debug, PartialEq, Eq, Structural)]
pub enum PumpError {
    /// The server closed the connection.
    Closed,
    ReadFailed,
    WriteFailed,
    /// Nobody takes the events any more.
    ChannelClosed,
    /// New mail cannot be told without the next UID.
    NoUidNext,
}

impl PumpError {
    pub open spec fn text(self) -> Seq<char> {
        match self {
            PumpError::Closed => "connection closed by peer"@,
            PumpError::ReadFailed => "read failed"@,
            PumpError::WriteFailed => "write failed"@,
            PumpError::ChannelClosed => "delivery channel closed"@,
            PumpError::NoUidNext =>
                "server did not report UIDNEXT; cannot track new mail without QRESYNC"@,
        }
    }

    /// What to report.
    pub fn message(&self) -> (r: &'static str)
        ensures
            r@ == self.text(),
    {
        match self {
            PumpError::Closed => "connection closed by peer",
            PumpError::ReadFailed => "read failed",
            PumpError::WriteFailed => "write failed",
            PumpError::ChannelClosed => "delivery channel closed",
            PumpError::NoUidNext =>
                "server did not report UIDNEXT; cannot track new mail without QRESYNC",
        }
    }
}

/// What came of a read.
#[derive(Clone, Copy, Debug, PartialEq, Eq, Structural)]
pub enum ReadEvent {
    /// So many bytes.
    Read(usize),
    Failed,
    /// Nothing, for as long as a connection may be silent.
    Elapsed,
}

/// What to do after a read.
#[derive(Clone, Copy, Debug, PartialEq, Eq, Structural)]
pub enum ReadStep {
    /// Hand on so many bytes.
    Feed(usize),
    /// Start over with a fresh connection.
    Refresh,
    Fail(PumpError),
}

/// What to do after a read. A read of nothing means that the server closed.
pub fn on_read(event: ReadEvent) -> (r: ReadStep)
    ensures
        r == (match event {
            ReadEvent::Read(n) => if n == 0 {
                ReadStep::Fail(PumpError::Closed)
            } else {
                ReadStep::Feed(n)
            },
            ReadEvent::Failed => ReadStep::Fail(PumpError::ReadFailed),
            ReadEvent::Elapsed => ReadStep::Refresh,
        }),
{
    match event {
        ReadEvent::Read(n) => if n == 0 {
            ReadStep::Fail(PumpError::Closed)
        } else {
            ReadStep::Feed(n)
        },
        ReadEvent::Failed => ReadStep::Fail(PumpError::ReadFailed),
        ReadEvent::Elapsed => ReadStep::Refresh,
    }
}

// --- waiting for a push ---

/// How a wait ended.
#[derive(Clone, Copy, Debug, PartialEq, Eq, Structural)]
pub enum IdleOutcome {
    /// Something changed.
    Data,
    /// Nothing did; start over with a fresh connection.
    Refresh,
    /// The watcher has to stop.
    Shutdown,
}

/// What happens during a wait.
#[derive(Clone, Copy, Debug, PartialEq, Eq, Structural)]
pub enum IdleEvent {
    /// It is about to begin.
    Start,
    /// The server sent something.
    Data,
    /// What the server still had to say was read after that.
    Drained,
    /// The server ended the wait.
    Complete,
}

/// How a wait goes on.
#[derive(Clone, Copy, Debug, PartialEq, Eq, Structural)]
pub enum IdleStep {
    Continue,
    /// End the wait, and read what the server still has to say.
    Drain,
    Done(IdleOutcome),
}

/// How a wait goes on, after an event, with or without a request to stop.
pub open spec fn idle_step_of(event: IdleEvent, shutdown: bool) -> IdleStep {
    match event {
        IdleEvent::Start => if shutdown {
            IdleStep::Done(IdleOutcome::Shutdown)
        } else {
            IdleStep::Continue
        },
        IdleEvent::Data => if shutdown {
            IdleStep::Continue
        } else {
            IdleStep::Drain
        },
        IdleEvent::Drained => IdleStep::Done(
            if shutdown {
                IdleOutcome::Shutdown
            } else {
                IdleOutcome::Data
            },
        ),
        IdleEvent::Complete => IdleStep::Done(
            if shutdown {
                IdleOutcome::Shutdown
            } else {
                IdleOutcome::Refresh
            },
        ),
    }
}

/// How a wait goes on.
pub fn idle_step(event: IdleEvent, shutdown: bool) -> (r: IdleStep)
    ensures
        r == idle_step_of(event, shutdown),
{
    match event {
        IdleEvent::Start => if shutdown {
            IdleStep::Done(IdleOutcome::Shutdown)
        } else {
            IdleStep::Continue
        },
        IdleEvent::Data => if shutdown {
            IdleStep::Continue
        } else {
            IdleStep::Drain
        },
        IdleEvent::Drained => if shutdown {
            IdleStep::Done(IdleOutcome::Shutdown)
        } else {
            IdleStep::Done(IdleOutcome::Data)
        },
        IdleEvent::Complete => if shutdown {
            IdleStep::Done(IdleOutcome::Shutdown)
        } else {
            IdleStep::Done(IdleOutcome::Refresh)
        },
    }
}

/// A watcher that has to stop never takes a wait's end for news.
pub proof fn shutdown_reports_nothing(event: IdleEvent)
    ensures
        idle_step_of(event, true) == IdleStep::Done(IdleOutcome::Shutdown) || idle_step_of(
            event,
            true,
        ) == IdleStep::Continue,
{
}

// --- new mail ---

/// Where a mailbox stands, for a server that cannot tell every change: the UID
/// that its next message will get.
#[derive(Clone, Copy, Debug, PartialEq, Eq, Structural)]
pub struct NewMail {
    pub next_uid: u32,
}

/// UIDs, from the first to the last.
#[derive(Clone, Copy, Debug, PartialEq, Eq, Structural)]
pub struct UidRange {
    pub first: u32,
    pub last: u32,
}

impl UidRange {
    pub open spec fn text(self) -> Seq<char> {
        decimal_of(self.first as int) + ":"@ + decimal_of(self.last as int)
    }

    /// The range as the server is asked for it.
    pub fn to_text(&self) -> (r: String)
        ensures
            r@ == self.text(),
    {
        let mut out = decimal_u64(self.first as u64);
        out.append(":");
        let last = decimal_u64(self.last as u64);
        out.append(last.as_str());
        out
    }
}

/// The UIDs that are new: no earlier than a mark, in order.
pub open spec fn new_uids(next_uid: u32, fetched: Seq<u32>) -> Seq<u32> {
    sorted(fetched.filter(|uid: u32| uid >= next_uid))
}

/// Whether events tell new messages, one for each UID, in order.
pub open spec fn tell_new(events: Seq<ChangeEvent>, account: Seq<char>, uids: Seq<u32>) -> bool {
    events.len() == uids.len() && forall|i: int|
        0 <= i < uids.len() ==> (#[trigger] events[i]).tells(account, ChangeKind::New, uids[i], None)
            && is_id(events[i].id@)
}

impl NewMail {
    /// Where a mailbox stands at first. A server that does not tell the next
    /// UID cannot be watched like this.
    pub fn start(uid_next: Option<u32>) -> (r: Result<NewMail, PumpError>)
        ensures
            r == (match uid_next {
                Some(uid) => Ok::<NewMail, PumpError>(NewMail { next_uid: uid }),
                None => Err(PumpError::NoUidNext),
            }),
    {
        match uid_next {
            Some(next_uid) => Ok(NewMail { next_uid }),
            None => Err(PumpError::NoUidNext),
        }
    }

    /// The UIDs to fetch, now that the next UID is this: those that came since.
    /// None where the mailbox changed in some other way.
    pub open spec fn range(self, uid_next: Option<u32>) -> Option<UidRange> {
        match uid_next {
            Some(next) => if next <= self.next_uid {
                None
            } else {
                Some(UidRange { first: self.next_uid, last: (next - 1) as u32 })
            },
            None => None,
        }
    }

    /// The UIDs to fetch. The range ends at the last of them: an open one
    /// would bring the last message where nothing is new.
    pub fn on_examine(&self, uid_next: Option<u32>) -> (r: Option<UidRange>)
        ensures
            r == self.range(uid_next),
    {
        match uid_next {
            Some(next) => if next <= self.next_uid {
                None
            } else {
                Some(UidRange { first: self.next_uid, last: next - 1 })
            },
            None => None,
        }
    }

    /// Takes what was fetched: one event for each new message, by UID, and the
    /// mailbox stands where it said.
    pub fn on_fetch(&mut self, account: &str, new_next: u32, fetched: &Vec<u32>) -> (r: Vec<
        ChangeEvent,
    >)
        ensures
            final(self).next_uid == new_next,
            tell_new(r@, account@, new_uids(old(self).next_uid, fetched@)),
    {
        let ghost keep = |uid: u32| uid >= old(self).next_uid;
        let mut uids: Vec<u32> = Vec::new();
        let mut i: usize = 0;
        assert(fetched@.take(0).filter(keep) =~= Seq::<u32>::empty()) by {
            reveal(Seq::filter);
        }
        while i < fetched.len()
            invariant
                i <= fetched@.len(),
                keep == (|uid: u32| uid >= self.next_uid),
                uids@ == fetched@.take(i as int).filter(keep),
            decreases fetched@.len() - i,
        {
            proof {
                crate::table::lemma_filter_push(fetched@.take(i as int), keep, fetched@[i as int]);
                assert(fetched@.take(i + 1) =~= fetched@.take(i as int).push(fetched@[i as int]));
            }
            if fetched[i] >= self.next_uid {
                uids.push(fetched[i]);
            }
            i += 1;
        }
        assert(fetched@.take(i as int) =~= fetched@);
        sort(&mut uids);
        assert(uids@ == new_uids(old(self).next_uid, fetched@));
        self.next_uid = new_next;
        let mut out: Vec<ChangeEvent> = Vec::new();
        let mut k: usize = 0;
        while k < uids.len()
            invariant
                k <= uids@.len(),
                tell_new(out@, account@, uids@.take(k as int)),
            decreases uids@.len() - k,
        {
            let ghost before = out@;
            out.push(ChangeEvent::new_mail(account, uids[k]));
            assert forall|j: int| 0 <= j < k + 1 implies (#[trigger] out@[j]).tells(
                account@,
                ChangeKind::New,
                uids@.take(k + 1)[j],
                None,
            ) && is_id(out@[j].id@) by {
                if j < k {
                    assert(out@[j] == before[j]);
                    assert(uids@.take(k as int)[j] == uids@[j]);
                }
            }
            k += 1;
        }
        assert(uids@.take(k as int) =~= uids@);
        out
    }
}

/// A message that one wake told is not told by the next: whatever the server
/// hands out then, what is told lies behind what was asked for before.
pub proof fn new_mail_is_told_once(
    before: NewMail,
    new_next: u32,
    range: UidRange,
    uid: u32,
    fetched: Seq<u32>,
)
    requires
        before.range(Some(new_next)) == Some(range),
        range.first <= uid <= range.last,
    ensures
        !new_uids(new_next, fetched).contains(uid),
{
    let kept = fetched.filter(|uid: u32| uid >= new_next);
    sorted_contains(kept, uid);
    if kept.contains(uid) {
        let k = choose|k: int| 0 <= k < kept.len() && kept[k] == uid;
        fetched.lemma_filter_pred(|uid: u32| uid >= new_next, k);
    }
}

/// A message that came since the last wake, and that the server hands out, is
/// told.
pub proof fn new_mail_is_told(before: NewMail, fetched: Seq<u32>, uid: u32)
    requires
        fetched.contains(uid),
        uid >= before.next_uid,
    ensures
        new_uids(before.next_uid, fetched).contains(uid),
{
    let p = |uid: u32| uid >= before.next_uid;
    let k = choose|k: int| 0 <= k < fetched.len() && fetched[k] == uid;
    crate::table::lemma_filter_contains(fetched, p, fetched[k]);
    sorted_contains(fetched.filter(p), uid);
}

/// A wait goes on until the server says something, which ends it; then what was
/// said is read, and that is news. A wait that the server ends is over for a
/// fresh connection.
pub proof fn waits_end_with_news_or_a_fresh_start(event: IdleEvent)
    ensures
        idle_step_of(IdleEvent::Start, false) == IdleStep::Continue,
        idle_step_of(IdleEvent::Data, false) == IdleStep::Drain,
        idle_step_of(IdleEvent::Drained, false) == IdleStep::Done(IdleOutcome::Data),
        idle_step_of(IdleEvent::Complete, false) == IdleStep::Done(IdleOutcome::Refresh),
        event != IdleEvent::Data ==> idle_step_of(event, true) == IdleStep::Done(
            IdleOutcome::Shutdown,
        ),
        IDLE_REFRESH_SECS == 15 * 60,
{
}

/// The messages that came since the last wake are asked for, all of them and no
/// others: from the one that was next then to the one before what is next now.
pub proof fn arrived_messages_are_asked_for(before: NewMail, next: u32, uid: u32)
    ensures
        next > before.next_uid ==> (before.range(Some(next)) matches Some(range) && (range.first
            <= uid <= range.last <==> before.next_uid <= uid < next) && range.text() == decimal_of(
            before.next_uid as int,
        ) + ":"@ + decimal_of(next - 1)),
        next <= before.next_uid ==> before.range(Some(next)) is None,
        before.range(None) is None,
{
}

/// What is told of fetched messages are those that came since the last wake, each
/// of them and no other, by UID, as `new`.
pub proof fn fetched_messages_are_told_in_order(
    events: Seq<ChangeEvent>,
    account: Seq<char>,
    next_uid: u32,
    fetched: Seq<u32>,
    i: int,
)
    requires
        tell_new(events, account, new_uids(next_uid, fetched)),
        0 <= i < events.len(),
    ensures
        events[i].event.name() == "new"@,
        events[i].account@ == account,
        events[i].uid >= next_uid,
        fetched.contains(events[i].uid),
        events[i].resource is None,
        forall|j: int| i < j < events.len() ==> events[i].uid <= (#[trigger] events[j]).uid,
{
    let p = |uid: u32| uid >= next_uid;
    let kept = fetched.filter(p);
    let uids = new_uids(next_uid, fetched);
    assert(events[i].tells(account, ChangeKind::New, uids[i], None));
    assert(uids.contains(uids[i]));
    sorted_contains(kept, uids[i]);
    crate::table::lemma_filter_contains(fetched, p, uids[i]);
    crate::sort::sorted_is_ordered(kept);
    assert forall|j: int| i < j < events.len() implies events[i].uid <= (#[trigger] events[j]).uid by {
        assert(events[j].tells(account, ChangeKind::New, uids[j], None));
        assert(!crate::sort::Ranked::precedes(uids[j], uids[i]));
    }
}

/// No message that came since the last wake and was fetched is left out.
pub proof fn no_fetched_message_is_left_out(
    events: Seq<ChangeEvent>,
    account: Seq<char>,
    next_uid: u32,
    fetched: Seq<u32>,
    uid: u32,
)
    requires
        tell_new(events, account, new_uids(next_uid, fetched)),
        fetched.contains(uid),
        uid >= next_uid,
    ensures
        exists|i: int| 0 <= i < events.len() && (#[trigger] events[i]).uid == uid,
{
    let uids = new_uids(next_uid, fetched);
    new_mail_is_told(NewMail { next_uid }, fetched, uid);
    let i = choose|i: int| 0 <= i < uids.len() && uids[i] == uid;
    assert(events[i].tells(account, ChangeKind::New, uids[i], None));
    assert(events[i].uid == uid);
}

/// Why a session was lost is told in words.
pub proof fn lost_sessions_have_their_words()
    ensures
        PumpError::Closed.text() == "connection closed by peer"@,
        PumpError::ReadFailed.text() == "read failed"@,
        PumpError::WriteFailed.text() == "write failed"@,
        PumpError::ChannelClosed.text() == "delivery channel closed"@,
        PumpError::NoUidNext.text() == "server did not report UIDNEXT; cannot track new mail without QRESYNC"@,
{
}

/// A range is asked for by its first and its last UID, with a colon between.
pub proof fn ranges_are_asked_for_by_their_ends(range: UidRange)
    ensures
        range.text() == decimal_of(range.first as int) + ":"@ + decimal_of(range.last as int),
{
}

} // verus!
