//! The change event: that something changed and which one, never the sender,
//! the subject or the body.
//!
//! The id lets a receiver drop what it has seen; the time is signed. Both are
//! stamped once, so that every attempt to deliver an event carries the same.

use crate::json::{
    fields_of, int_field, json_object, json_text, text_field, Field, JsonView,
};
use crate::random::{is_id, new_id};
use crate::table::{copy_text, opt_text};
use crate::util::now_secs;
use vstd::prelude::*;

verus! {

/// The kind of change observed.
#[derive(Debug, Clone, Copy, PartialEq, Eq, Structural)]
pub enum ChangeKind {
    /// A message appeared.
    New,
    /// A resource was created or modified, where the two cannot be told apart.
    Changed,
    /// Flags were set on a message.
    FlagsAdded,
    /// Flags were cleared on a message.
    FlagsRemoved,
    /// A message or a resource went.
    Removed,
}

impl ChangeKind {
    /// The wire name.
    pub open spec fn name(self) -> Seq<char> {
        match self {
            ChangeKind::New => "new"@,
            ChangeKind::Changed => "changed"@,
            ChangeKind::FlagsAdded => "flags_added"@,
            ChangeKind::FlagsRemoved => "flags_removed"@,
            ChangeKind::Removed => "removed"@,
        }
    }

    /// The wire name, as in the `event` field of the payload.
    pub fn as_str(&self) -> (r: &'static str)
        ensures
            r@ == self.name(),
    {
        match self {
            ChangeKind::New => "new",
            ChangeKind::Changed => "changed",
            ChangeKind::FlagsAdded => "flags_added",
            ChangeKind::FlagsRemoved => "flags_removed",
            ChangeKind::Removed => "removed",
        }
    }
}

/// A change a mailbox reports, as far as it is passed on.
#[derive(Debug, Clone, Copy, PartialEq, Eq, Structural)]
pub enum MailboxChange {
    EnvelopeAdded { uid: u32 },
    FlagsAdded { uid: u32 },
    FlagsRemoved { uid: u32 },
    EnvelopeRemoved { uid: u32 },
}

impl MailboxChange {
    pub open spec fn kind(self) -> ChangeKind {
        match self {
            MailboxChange::EnvelopeAdded { .. } => ChangeKind::New,
            MailboxChange::FlagsAdded { .. } => ChangeKind::FlagsAdded,
            MailboxChange::FlagsRemoved { .. } => ChangeKind::FlagsRemoved,
            MailboxChange::EnvelopeRemoved { .. } => ChangeKind::Removed,
        }
    }

    pub open spec fn number(self) -> u32 {
        match self {
            MailboxChange::EnvelopeAdded { uid } => uid,
            MailboxChange::FlagsAdded { uid } => uid,
            MailboxChange::FlagsRemoved { uid } => uid,
            MailboxChange::EnvelopeRemoved { uid } => uid,
        }
    }
}

/// What is signed and posted to a service's endpoint.
#[derive(Debug)]
pub struct ChangeEvent {
    /// Unique id (128 random bits), the same on every attempt.
    pub id: String,
    /// Unix time the event was made, the same on every attempt.
    pub ts: i64,
    /// The service the change belongs to.
    pub account: String,
    /// What changed.
    pub event: ChangeKind,
    /// The message's UID; `0` where a resource is named instead.
    pub uid: u32,
    /// The resource's opaque name, where there is one.
    pub resource: Option<String>,
}

impl Clone for ChangeEvent {
    fn clone(&self) -> (r: Self)
        ensures
            r == *self,
    {
        ChangeEvent {
            id: self.id.clone(),
            ts: self.ts,
            account: self.account.clone(),
            event: self.event,
            uid: self.uid,
            resource: copy_text(&self.resource),
        }
    }
}

/// Whether a UID is the one that stands for none.
pub fn is_zero(uid: &u32) -> (r: bool)
    ensures
        r == (*uid == 0),
{
    *uid == 0
}

impl ChangeEvent {
    /// Whether the event tells of this change.
    pub open spec fn tells(
        self,
        account: Seq<char>,
        kind: ChangeKind,
        number: u32,
        name: Option<Seq<char>>,
    ) -> bool {
        &&& self.account@ == account
        &&& self.event == kind
        &&& self.uid == number
        &&& opt_text(self.resource) == name
    }

    /// An event with a given id and time.
    pub fn stamped(
        id: String,
        ts: i64,
        account: &str,
        event: ChangeKind,
        uid: u32,
        resource: Option<String>,
    ) -> (r: ChangeEvent)
        ensures
            r.tells(account@, event, uid, opt_text(resource)),
            r.id == id,
            r.ts == ts,
    {
        ChangeEvent { id, ts, account: account.to_owned(), event, uid, resource }
    }

    /// An event with a fresh id and the current time.
    pub fn build(account: &str, event: ChangeKind, uid: u32, resource: Option<String>) -> (r: ChangeEvent)
        ensures
            r.tells(account@, event, uid, opt_text(resource)),
            is_id(r.id@),
    {
        let id = new_id();
        let ts: i64 = now_secs();
        Self::stamped(id, ts, account, event, uid, resource)
    }

    /// The event for a change a mailbox reports.
    pub fn from_watch(account: &str, change: &MailboxChange) -> (r: ChangeEvent)
        ensures
            r.tells(account@, change.kind(), change.number(), None),
            is_id(r.id@),
    {
        let (kind, uid): (ChangeKind, u32) = match change {
            MailboxChange::EnvelopeAdded { uid } => (ChangeKind::New, *uid),
            MailboxChange::FlagsAdded { uid } => (ChangeKind::FlagsAdded, *uid),
            MailboxChange::FlagsRemoved { uid } => (ChangeKind::FlagsRemoved, *uid),
            MailboxChange::EnvelopeRemoved { uid } => (ChangeKind::Removed, *uid),
        };
        Self::build(account, kind, uid, None)
    }

    /// The event for a new message.
    pub fn new_mail(account: &str, uid: u32) -> (r: ChangeEvent)
        ensures
            r.tells(account@, ChangeKind::New, uid, None),
            is_id(r.id@),
    {
        Self::build(account, ChangeKind::New, uid, None)
    }

    /// The event for a change in an address book: no UID, the resource's name.
    pub fn carddav(account: &str, event: ChangeKind, resource: &str) -> (r: ChangeEvent)
        ensures
            r.tells(account@, event, 0, Some(resource@)),
            is_id(r.id@),
    {
        Self::build(account, event, 0, Some(resource.to_owned()))
    }

    /// What a receiver is sent: the id, the time, the service, the kind of
    /// change, and the UID or the resource where there is one.
    pub open spec fn fields(self) -> Seq<(Seq<char>, JsonView)> {
        let head = seq![
            ("id"@, JsonView::Text(self.id@)),
            ("ts"@, JsonView::Int(self.ts as int)),
            ("account"@, JsonView::Text(self.account@)),
            ("event"@, JsonView::Text(self.event.name())),
        ];
        let uid = if self.uid == 0 {
            Seq::empty()
        } else {
            seq![("uid"@, JsonView::Int(self.uid as int))]
        };
        let resource = match self.resource {
            Some(name) => seq![("resource"@, JsonView::Text(name@))],
            None => Seq::empty(),
        };
        head + uid + resource
    }

    /// The body a receiver is sent.
    pub fn payload(&self) -> (r: String)
        ensures
            r@ == json_text(self.fields()),
    {
        let mut out: Vec<Field> = Vec::new();
        out.push(text_field("id", self.id.as_str()));
        out.push(int_field("ts", self.ts));
        out.push(text_field("account", self.account.as_str()));
        out.push(text_field("event", self.event.as_str()));
        if !is_zero(&self.uid) {
            out.push(int_field("uid", self.uid as i64));
        }
        if let Some(name) = &self.resource {
            out.push(text_field("resource", name.as_str()));
        }
        assert(fields_of(out@) =~= self.fields());
        json_object(&out)
    }
}

/// The payload is content-free: whatever changed, a receiver is told nothing
/// but an id, a time, the service, the kind of change, and a UID or a
/// resource name.
pub proof fn payload_is_content_free(event: ChangeEvent, i: int)
    requires
        0 <= i < event.fields().len(),
    ensures
        ({
            let name = event.fields()[i].0;
            ||| name == "id"@
            ||| name == "ts"@
            ||| name == "account"@
            ||| name == "event"@
            ||| name == "uid"@ && event.uid != 0
            ||| name == "resource"@ && event.resource is Some
        }),
{
}

/// A receiver is told by name what happened to a message, and to which one: an
/// added envelope is `new`, a removed one `removed`, and flags that were set or
/// cleared are `flags_added` and `flags_removed`.
pub proof fn mailbox_changes_are_told_by_name(
    account: Seq<char>,
    change: MailboxChange,
    event: ChangeEvent,
)
    requires
        event.tells(account, change.kind(), change.number(), None),
    ensures
        event.account@ == account,
        event.resource is None,
        change matches MailboxChange::EnvelopeAdded { uid } ==> event.event.name() == "new"@
            && event.uid == uid,
        change matches MailboxChange::EnvelopeRemoved { uid } ==> event.event.name() == "removed"@
            && event.uid == uid,
        change matches MailboxChange::FlagsAdded { uid } ==> event.event.name() == "flags_added"@
            && event.uid == uid,
        change matches MailboxChange::FlagsRemoved { uid } ==> event.event.name()
            == "flags_removed"@ && event.uid == uid,
{
}

/// Every kind of change has a name of its own on the wire, so that a receiver
/// can tell them apart.
pub proof fn kinds_are_told_apart(a: ChangeKind, b: ChangeKind)
    ensures
        a.name() == b.name() ==> a == b,
        a == ChangeKind::New ==> a.name() == "new"@,
        a == ChangeKind::Changed ==> a.name() == "changed"@,
        a == ChangeKind::FlagsAdded ==> a.name() == "flags_added"@,
        a == ChangeKind::FlagsRemoved ==> a.name() == "flags_removed"@,
        a == ChangeKind::Removed ==> a.name() == "removed"@,
{
    reveal_strlit("new");
    reveal_strlit("changed");
    reveal_strlit("flags_added");
    reveal_strlit("flags_removed");
    reveal_strlit("removed");
    assert("new"@.len() == 3 && "changed"@.len() == 7 && "removed"@.len() == 7);
    assert("flags_added"@.len() == 11 && "flags_removed"@.len() == 13);
    assert("changed"@[0] == 'c' && "removed"@[0] == 'r');
}

/// The payload of an event carries what the event says: its id, time, service
/// and kind always, the UID where there is one, and the resource where there is
/// one; and it carries no UID or resource where there is none.
pub proof fn payload_says_what_the_event_says(event: ChangeEvent)
    ensures
        event.fields().contains(("id"@, JsonView::Text(event.id@))),
        event.fields().contains(("ts"@, JsonView::Int(event.ts as int))),
        event.fields().contains(("account"@, JsonView::Text(event.account@))),
        event.fields().contains(("event"@, JsonView::Text(event.event.name()))),
        event.uid != 0 ==> event.fields().contains(("uid"@, JsonView::Int(event.uid as int))),
        event.resource matches Some(name) ==> event.fields().contains(
            ("resource"@, JsonView::Text(name@)),
        ),
        event.fields().len() == 4 + (if event.uid != 0 {
            1int
        } else {
            0
        }) + (if event.resource is Some {
            1int
        } else {
            0
        }),
{
    let f = event.fields();
    assert(f[0] == ("id"@, JsonView::Text(event.id@)));
    assert(f[1] == ("ts"@, JsonView::Int(event.ts as int)));
    assert(f[2] == ("account"@, JsonView::Text(event.account@)));
    assert(f[3] == ("event"@, JsonView::Text(event.event.name())));
    if event.uid != 0 {
        assert(f[4] == ("uid"@, JsonView::Int(event.uid as int)));
    }
    if let Some(name) = event.resource {
        assert(f[f.len() - 1] == ("resource"@, JsonView::Text(name@)));
    }
}

} // verus!
