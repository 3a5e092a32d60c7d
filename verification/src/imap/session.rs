//! IMAP sessions: what signs in, what a probe finds, and which mailboxes can
//! be picked.

use crate::digest::utf8;
use crate::sort::{
    in_order, is_text_before, lemma_text_asymmetric, lemma_text_weak, sort, sorted,
    sorted_is_ordered, text_before, Ranked,
};
use crate::text::{lower_of, same, to_lower, trim_start_char, trim_start_char_of};
use vstd::prelude::*;
use vstd::utf8::valid_utf8;

verus! {

/// What signs in to a session.
#[derive(Debug)]
pub enum ImapAuth {
    /// A password, or an app password.
    Password(String),
    /// An access token.
    OauthBearer(String),
}

/// What a session is opened with.
#[derive(Debug)]
pub struct ImapAccount {
    pub host: String,
    pub port: u16,
    pub login: String,
    pub auth: ImapAuth,
    /// The mailbox to watch.
    pub mailbox: String,
}

/// A capability, as far as a watcher cares.
#[derive(Clone, Copy, Debug, PartialEq, Eq, Structural)]
pub enum SessionCapability {
    Idle,
    QResync,
    CondStore,
    Other,
}

/// What a probe found, stage by stage.
#[derive(Debug)]
pub struct Probe {
    /// The server answered.
    pub reachable: bool,
    /// It accepted the credentials.
    pub authenticated: bool,
    /// It can push.
    pub idle: bool,
    /// It can tell every change since a checkpoint.
    pub qresync: bool,
    pub condstore: bool,
    /// What failed, if anything did.
    pub error: Option<String>,
}

impl Default for Probe {
    /// Nothing found yet.
    fn default() -> (r: Self)
        ensures
            r == (Probe {
                reachable: false,
                authenticated: false,
                idle: false,
                qresync: false,
                condstore: false,
                error: None,
            }),
    {
        Probe {
            reachable: false,
            authenticated: false,
            idle: false,
            qresync: false,
            condstore: false,
            error: None,
        }
    }
}

/// How far a probe came.
#[derive(Debug)]
pub enum ProbeStage {
    /// The server could not be reached.
    Unreachable(String),
    /// The credentials were not accepted.
    Refused(String),
    /// It signed in, and the server can do this.
    SignedIn(Vec<SessionCapability>),
}

fn has_capability(all: &Vec<SessionCapability>, x: SessionCapability) -> (r: bool)
    ensures
        r == all@.contains(x),
{
    let mut i: usize = 0;
    while i < all.len()
        invariant
            i <= all@.len(),
            forall|k: int| 0 <= k < i ==> all@[k] != x,
        decreases all@.len() - i,
    {
        if all[i] == x {
            return true;
        }
        i += 1;
    }
    false
}

/// How a mailbox is watched.
#[derive(Clone, Copy, Debug, PartialEq, Eq, Structural)]
pub enum WatchMode {
    /// For every change.
    Changes,
    /// For new messages only.
    NewMail,
}

/// How a mailbox is watched, by what its server can do: for every change where
/// it can tell those since a checkpoint, else for new messages.
pub fn watch_mode(capabilities: &Vec<SessionCapability>) -> (r: WatchMode)
    ensures
        r == (if capabilities@.contains(SessionCapability::QResync) {
            WatchMode::Changes
        } else {
            WatchMode::NewMail
        }),
{
    if has_capability(capabilities, SessionCapability::QResync) {
        WatchMode::Changes
    } else {
        WatchMode::NewMail
    }
}

/// What a probe found, by how far it came. It selects no mailbox and writes
/// nothing, so there is no more to it.
pub fn probe(stage: ProbeStage) -> (r: Probe)
    ensures
        r == (match stage {
            ProbeStage::Unreachable(e) => Probe {
                reachable: false,
                authenticated: false,
                idle: false,
                qresync: false,
                condstore: false,
                error: Some(e),
            },
            ProbeStage::Refused(e) => Probe {
                reachable: true,
                authenticated: false,
                idle: false,
                qresync: false,
                condstore: false,
                error: Some(e),
            },
            ProbeStage::SignedIn(all) => Probe {
                reachable: true,
                authenticated: true,
                idle: all@.contains(SessionCapability::Idle),
                qresync: all@.contains(SessionCapability::QResync),
                condstore: all@.contains(SessionCapability::CondStore),
                error: None,
            },
        }),
{
    let mut out = Probe::default();
    match stage {
        ProbeStage::Unreachable(e) => {
            out.error = Some(e);
        },
        ProbeStage::Refused(e) => {
            out.reachable = true;
            out.error = Some(e);
        },
        ProbeStage::SignedIn(all) => {
            out.reachable = true;
            out.authenticated = true;
            out.idle = has_capability(&all, SessionCapability::Idle);
            out.qresync = has_capability(&all, SessionCapability::QResync);
            out.condstore = has_capability(&all, SessionCapability::CondStore);
        },
    }
    out
}

impl Probe {
    /// Whether the account can be watched: it was reached, it signed in, and
    /// the server can push. Without QRESYNC only new mail is told.
    pub fn watchable(&self) -> (r: bool)
        ensures
            r == (self.reachable && self.authenticated && self.idle),
    {
        self.reachable && self.authenticated && self.idle
    }

    /// The names of what a watcher needs and the server cannot do.
    pub fn missing(&self) -> (r: Vec<&'static str>)
        ensures
            self.idle ==> r@.len() == 0,
            !self.idle ==> r@.len() == 1 && r@[0]@ == "IDLE"@,
    {
        let mut out: Vec<&'static str> = Vec::new();
        if !self.idle {
            out.push("IDLE");
        }
        out
    }
}

// --- mailboxes ---

/// `Mailbox::try_from(String)` of `io_imap`: any text that holds no NUL names
/// a mailbox.
#[verifier::external_body]
fn mailbox_accepted(name: &str) -> (r: bool)
    ensures
        r == !name@.contains('\0'),
{
    io_imap::types::mailbox::Mailbox::try_from(name.to_owned()).is_ok()
}

/// Whether a text can name a mailbox.
pub fn is_mailbox(name: &str) -> (r: bool)
    ensures
        r == !name@.contains('\0'),
{
    mailbox_accepted(name)
}

/// A mailbox as the server lists it.
#[derive(Debug)]
pub struct ListedMailbox {
    /// Whether it is the inbox.
    pub inbox: bool,
    /// Its name, where it is not.
    pub name: Vec<u8>,
    /// Whether it is only a container.
    pub noselect: bool,
    /// Its attributes, as they are written out.
    pub attributes: Vec<String>,
}

/// A mailbox that can be picked, and its special use if the server tells one.
#[derive(Debug)]
pub struct MailboxEntry {
    pub name: String,
    pub role: Option<&'static str>,
}

/// What an entry says.
pub ghost struct EntryView {
    pub name: Seq<char>,
    pub role: Option<Seq<char>>,
}

impl View for MailboxEntry {
    type V = EntryView;

    open spec fn view(&self) -> EntryView {
        EntryView {
            name: self.name@,
            role: match self.role {
                Some(r) => Some(r@),
                None => None,
            },
        }
    }
}

/// The special use that an attribute stands for, without its backslash and in
/// any case.
pub open spec fn role_of(attribute: Seq<char>) -> Option<Seq<char>> {
    let a = lower_of(trim_start_char_of(attribute, '\\'));
    if a == "sent"@ || a == "drafts"@ || a == "junk"@ || a == "trash"@ || a == "archive"@ || a
        == "all"@ || a == "flagged"@ {
        Some(a)
    } else {
        None
    }
}

fn attribute_role(attribute: &str) -> (r: Option<&'static str>)
    ensures
        match r {
            Some(role) => role_of(attribute@) == Some(role@),
            None => role_of(attribute@) is None,
        },
{
    let bare = trim_start_char(attribute, '\\');
    let a = to_lower(bare.as_str());
    if same(a.as_str(), "sent") {
        Some("sent")
    } else if same(a.as_str(), "drafts") {
        Some("drafts")
    } else if same(a.as_str(), "junk") {
        Some("junk")
    } else if same(a.as_str(), "trash") {
        Some("trash")
    } else if same(a.as_str(), "archive") {
        Some("archive")
    } else if same(a.as_str(), "all") {
        Some("all")
    } else if same(a.as_str(), "flagged") {
        Some("flagged")
    } else {
        None
    }
}

/// The special use of a mailbox: the inbox's own, else that of the first
/// attribute that has one.
pub open spec fn role_among(inbox: bool, attributes: Seq<String>) -> Option<Seq<char>>
    decreases attributes.len(),
{
    if inbox {
        Some("inbox"@)
    } else if attributes.len() == 0 {
        None
    } else {
        match role_of(attributes[0]@) {
            Some(role) => Some(role),
            None => role_among(inbox, attributes.drop_first()),
        }
    }
}

/// The special use of a mailbox.
pub fn mailbox_role(is_inbox: bool, attributes: &Vec<String>) -> (r: Option<&'static str>)
    ensures
        match r {
            Some(role) => role_among(is_inbox, attributes@) == Some(role@),
            None => role_among(is_inbox, attributes@) is None,
        },
{
    if is_inbox {
        return Some("inbox");
    }
    let mut i: usize = 0;
    assert(attributes@.skip(0) =~= attributes@);
    while i < attributes.len()
        invariant
            !is_inbox,
            i <= attributes@.len(),
            role_among(is_inbox, attributes@) == role_among(is_inbox, attributes@.skip(i as int)),
        decreases attributes@.len() - i,
    {
        match attribute_role(attributes[i].as_str()) {
            Some(role) => return Some(role),
            None => {},
        }
        assert(attributes@.skip(i as int).drop_first() =~= attributes@.skip(i + 1));
        i += 1;
    }
    None
}

/// What bytes say, with marks in place of what is no UTF-8.
pub uninterp spec fn lossy_text(bytes: Seq<u8>) -> Seq<char>;

/// `String::from_utf8_lossy`: the text depends on the bytes alone, and is
/// theirs where they are UTF-8.
#[verifier::external_body]
fn lossy(bytes: &Vec<u8>) -> (r: String)
    ensures
        r@ == lossy_text(bytes@),
        valid_utf8(bytes@) ==> utf8(r@) == bytes@,
{
    String::from_utf8_lossy(bytes).into_owned()
}

/// The entry of a listed mailbox.
pub open spec fn entry_of(row: ListedMailbox) -> EntryView {
    EntryView {
        name: if row.inbox {
            "INBOX"@
        } else {
            lossy_text(row.name@)
        },
        role: role_among(row.inbox, row.attributes@),
    }
}

/// The entries of the listed mailboxes that are no mere containers, as listed.
pub open spec fn entries_of(rows: Seq<ListedMailbox>) -> Seq<EntryView>
    decreases rows.len(),
{
    if rows.len() == 0 {
        Seq::empty()
    } else {
        let before = entries_of(rows.drop_last());
        if rows.last().noselect {
            before
        } else {
            before.push(entry_of(rows.last()))
        }
    }
}

/// Entries as views.
pub open spec fn entry_views(entries: Seq<MailboxEntry>) -> Seq<EntryView> {
    entries.map_values(|e: MailboxEntry| e@)
}

impl Ranked for MailboxEntry {
    /// The inbox stands first; the others by name, in any case.
    open spec fn precedes(self, other: Self) -> bool {
        let a = self.name@ == "INBOX"@;
        let b = other.name@ == "INBOX"@;
        if a != b {
            a
        } else {
            text_before(lower_of(self.name@), lower_of(other.name@))
        }
    }

    fn is_before(&self, other: &Self) -> (r: bool) {
        let a = same(self.name.as_str(), "INBOX");
        let b = same(other.name.as_str(), "INBOX");
        if a != b {
            a
        } else {
            let x = to_lower(self.name.as_str());
            let y = to_lower(other.name.as_str());
            is_text_before(x.as_str(), y.as_str())
        }
    }

    proof fn asymmetric(a: Self, b: Self) {
        let x = a.name@ == "INBOX"@;
        let y = b.name@ == "INBOX"@;
        if x == y {
            lemma_text_asymmetric(lower_of(a.name@), lower_of(b.name@));
        }
    }

    proof fn weakly_transitive(a: Self, b: Self, c: Self) {
        let x = a.name@ == "INBOX"@;
        let y = b.name@ == "INBOX"@;
        let z = c.name@ == "INBOX"@;
        if x == y && y == z {
            lemma_text_weak(lower_of(a.name@), lower_of(b.name@), lower_of(c.name@));
        }
    }
}

/// Whether a name is among those of entries.
pub open spec fn named(entries: Seq<MailboxEntry>, name: Seq<char>) -> bool {
    exists|i: int| 0 <= i < entries.len() && (#[trigger] entries[i]).name@ == name
}

/// Whether a name is that of a listed mailbox that is no mere container.
pub open spec fn selectable(rows: Seq<ListedMailbox>, name: Seq<char>) -> bool {
    exists|i: int|
        0 <= i < rows.len() && !(#[trigger] rows[i]).noselect && entry_of(rows[i]).name == name
}

/// Whether an entry is that of a listed mailbox that is no mere container.
pub open spec fn is_listed(rows: Seq<ListedMailbox>, entry: EntryView) -> bool {
    exists|i: int|
        0 <= i < rows.len() && !(#[trigger] rows[i]).noselect && entry_of(rows[i]) == entry
}

/// Whether no two entries have one name.
pub open spec fn all_named_apart(entries: Seq<MailboxEntry>) -> bool {
    forall|i: int, j: int|
        0 <= i < j < entries.len() ==> (#[trigger] entries[i]).name@ != (
        #[trigger] entries[j]).name@
}

/// Entries without those that repeat the name of an earlier one.
pub open spec fn without_repeats(entries: Seq<MailboxEntry>) -> Seq<MailboxEntry>
    decreases entries.len(),
{
    if entries.len() == 0 {
        Seq::empty()
    } else {
        let before = without_repeats(entries.drop_last());
        if named(before, entries.last().name@) {
            before
        } else {
            before.push(entries.last())
        }
    }
}

fn has_name(entries: &Vec<MailboxEntry>, name: &str) -> (r: bool)
    ensures
        r == named(entries@, name@),
{
    let mut i: usize = 0;
    while i < entries.len()
        invariant
            i <= entries@.len(),
            forall|j: int| 0 <= j < i ==> (#[trigger] entries@[j]).name@ != name@,
        decreases entries@.len() - i,
    {
        if same(entries[i].name.as_str(), name) {
            return true;
        }
        i += 1;
    }
    false
}

fn drop_repeats(entries: Vec<MailboxEntry>) -> (r: Vec<MailboxEntry>)
    ensures
        r@ == without_repeats(entries@),
{
    let mut out: Vec<MailboxEntry> = Vec::new();
    let mut i: usize = 0;
    while i < entries.len()
        invariant
            i <= entries@.len(),
            out@ == without_repeats(entries@.take(i as int)),
        decreases entries@.len() - i,
    {
        assert(entries@.take(i + 1).drop_last() =~= entries@.take(i as int));
        if !has_name(&out, entries[i].name.as_str()) {
            out.push(MailboxEntry { name: entries[i].name.clone(), role: entries[i].role });
        }
        i += 1;
    }
    assert(entries@.take(i as int) =~= entries@);
    out
}

/// The mailboxes that can be picked: no mere containers, the inbox first, the
/// others by name in any case, and each name once.
pub fn list_mailboxes(rows: &Vec<ListedMailbox>) -> (r: Vec<MailboxEntry>)
    ensures
        forall|i: int| 0 <= i < r@.len() ==> is_listed(rows@, (#[trigger] r@[i])@),
        forall|name: Seq<char>| #[trigger] named(r@, name) <==> selectable(rows@, name),
        all_named_apart(r@),
        in_order(r@),
        exists|entries: Seq<MailboxEntry>| #[trigger]
            entry_views(entries) == entries_of(rows@) && r@ == without_repeats(sorted(entries)),
{
    let mut entries: Vec<MailboxEntry> = Vec::new();
    let mut i: usize = 0;
    assert(entry_views(entries@) =~= entries_of(rows@.take(0)));
    while i < rows.len()
        invariant
            i <= rows@.len(),
            entry_views(entries@) == entries_of(rows@.take(i as int)),
        decreases rows@.len() - i,
    {
        assert(rows@.take(i + 1).drop_last() =~= rows@.take(i as int));
        let row = &rows[i];
        if !row.noselect {
            let name = if row.inbox {
                "INBOX".to_owned()
            } else {
                lossy(&row.name)
            };
            let ghost before = entries@;
            let entry = MailboxEntry { name, role: mailbox_role(row.inbox, &row.attributes) };
            assert(entry@ == entry_of(*row));
            entries.push(entry);
            assert(entry_views(entries@) =~= entry_views(before).push(entry_of(*row)));
        }
        i += 1;
    }
    assert(rows@.take(i as int) =~= rows@);
    let ghost listed = entries@;
    sort(&mut entries);
    let out = drop_repeats(entries);
    assert(entry_views(listed) == entries_of(rows@) && out@ == without_repeats(sorted(listed)));
    proof {
        listed_once(listed, rows@);
    }
    out
}

proof fn lemma_without_repeats(entries: Seq<MailboxEntry>)
    ensures
        entries.len() > 0 ==> without_repeats(entries).len() > 0 && without_repeats(entries)[0]
            == entries[0],
        forall|i: int|
            0 <= i < without_repeats(entries).len() ==> entries.contains(
                #[trigger] without_repeats(entries)[i],
            ),
        all_named_apart(without_repeats(entries)),
        in_order(entries) ==> in_order(without_repeats(entries)),
        forall|name: Seq<char>| #[trigger] named(without_repeats(entries), name) <==> named(entries, name),
    decreases entries.len(),
{
    if entries.len() > 0 {
        let t = entries.drop_last();
        lemma_without_repeats(t);
        let r = without_repeats(entries);
        assert forall|i: int| 0 <= i < r.len() implies entries.contains(#[trigger] r[i]) by {
            if i < without_repeats(t).len() {
                assert(t.contains(without_repeats(t)[i]));
                let k = choose|k: int| 0 <= k < t.len() && t[k] == without_repeats(t)[i];
                assert(entries[k] == r[i]);
            } else {
                assert(entries[entries.len() - 1] == r[i]);
            }
        }
        let before = without_repeats(t);
        assert forall|name: Seq<char>| #[trigger] named(r, name) <==> named(entries, name) by {
            if named(entries, name) {
                let k = choose|k: int| 0 <= k < entries.len() && (#[trigger] entries[k]).name@ == name;
                if k < t.len() {
                    assert(t[k].name@ == name);
                    assert(named(before, name));
                }
                if named(before, name) {
                    let i = choose|i: int|
                        0 <= i < before.len() && (#[trigger] before[i]).name@ == name;
                    assert(r[i].name@ == name);
                } else {
                    assert(r[before.len() as int].name@ == name);
                }
            }
            if named(r, name) {
                let i = choose|i: int| 0 <= i < r.len() && (#[trigger] r[i]).name@ == name;
                assert(entries.contains(r[i]));
                let k = choose|k: int| 0 <= k < entries.len() && entries[k] == r[i];
                assert(entries[k].name@ == name);
            }
        }
        if in_order(entries) {
            assert(in_order(t)) by {
                assert forall|i: int, j: int| 0 <= i < j < t.len() implies !(
                #[trigger] t[j]).precedes(#[trigger] t[i]) by {
                    assert(!entries[j].precedes(entries[i]));
                }
            }
            assert forall|i: int, j: int| 0 <= i < j < r.len() implies !(
            #[trigger] r[j]).precedes(#[trigger] r[i]) by {
                if j < before.len() {
                    assert(!before[j].precedes(before[i]));
                } else {
                    assert(t.contains(before[i]));
                    let k = choose|k: int| 0 <= k < t.len() && t[k] == before[i];
                    assert(!entries[entries.len() - 1].precedes(entries[k]));
                }
            }
        }
    }
}

/// Every entry is that of a selectable mailbox, and the other way round.
proof fn lemma_entries_named(rows: Seq<ListedMailbox>)
    ensures
        forall|i: int|
            0 <= i < entries_of(rows).len() ==> is_listed(rows, #[trigger] entries_of(rows)[i]),
        forall|k: int|
            0 <= k < rows.len() && !(#[trigger] rows[k]).noselect ==> entries_of(rows).contains(
                entry_of(rows[k]),
            ),
    decreases rows.len(),
{
    if rows.len() > 0 {
        let t = rows.drop_last();
        lemma_entries_named(t);
        let before = entries_of(t);
        let e = entries_of(rows);
        assert forall|i: int| 0 <= i < e.len() implies is_listed(rows, #[trigger] e[i]) by {
            if i < before.len() {
                assert(is_listed(t, before[i]));
                let k = choose|k: int|
                    0 <= k < t.len() && !(#[trigger] t[k]).noselect && entry_of(t[k]) == before[i];
                assert(!rows[k].noselect);
            } else {
                assert(!rows[rows.len() - 1].noselect);
            }
        }
        assert forall|k: int| 0 <= k < rows.len() && !(#[trigger] rows[k]).noselect implies e.contains(
            entry_of(rows[k]),
        ) by {
            if k < t.len() {
                assert(!t[k].noselect);
                let i = choose|i: int| 0 <= i < before.len() && before[i] == entry_of(t[k]);
                assert(e[i] == entry_of(rows[k]));
            } else {
                assert(e[before.len() as int] == entry_of(rows[k]));
            }
        }
    }
}

/// Where there is an inbox, it is the first to pick from.
pub proof fn inbox_comes_first(entries: Seq<MailboxEntry>, k: int)
    requires
        0 <= k < entries.len(),
        entries[k].name@ == "INBOX"@,
    ensures
        without_repeats(sorted(entries)).len() > 0,
        without_repeats(sorted(entries))[0].name@ == "INBOX"@,
{
    let s = sorted(entries);
    sorted_is_ordered(entries);
    lemma_without_repeats(s);
    crate::sort::sorted_contains(entries, entries[k]);
    assert(entries.contains(entries[k]));
    let j = choose|j: int| 0 <= j < s.len() && s[j] == entries[k];
    if j > 0 {
        assert(!s[j].precedes(s[0]));
    }
}

/// A name is offered exactly once if some mailbox that can be selected has it,
/// and not at all otherwise; what is offered is what such a mailbox is listed
/// as, and is in order.
pub proof fn listed_once(entries: Seq<MailboxEntry>, rows: Seq<ListedMailbox>)
    requires
        entry_views(entries) == entries_of(rows),
    ensures
        forall|i: int|
            0 <= i < without_repeats(sorted(entries)).len() ==> is_listed(
                rows,
                (#[trigger] without_repeats(sorted(entries))[i])@,
            ),
        forall|name: Seq<char>| #[trigger]
            named(without_repeats(sorted(entries)), name) <==> selectable(rows, name),
        all_named_apart(without_repeats(sorted(entries))),
        in_order(without_repeats(sorted(entries))),
{
    let s = sorted(entries);
    let views = entry_views(entries);
    sorted_is_ordered(entries);
    lemma_without_repeats(s);
    lemma_entries_named(rows);
    assert forall|i: int| 0 <= i < without_repeats(s).len() implies is_listed(
        rows,
        (#[trigger] without_repeats(s)[i])@,
    ) by {
        let e = without_repeats(s)[i];
        assert(s.contains(e));
        crate::sort::sorted_contains(entries, e);
        let k = choose|k: int| 0 <= k < entries.len() && entries[k] == e;
        assert(views[k] == e@);
        assert(is_listed(rows, entries_of(rows)[k]));
    }
    assert forall|name: Seq<char>| #[trigger] named(without_repeats(s), name) <==> selectable(
        rows,
        name,
    ) by {
        if named(s, name) {
            let i = choose|i: int| 0 <= i < s.len() && (#[trigger] s[i]).name@ == name;
            crate::sort::sorted_contains(entries, s[i]);
            assert(s.contains(s[i]));
            let k = choose|k: int| 0 <= k < entries.len() && entries[k] == s[i];
            assert(views[k].name == name);
            assert(is_listed(rows, entries_of(rows)[k]));
        }
        if selectable(rows, name) {
            let k = choose|k: int|
                0 <= k < rows.len() && !(#[trigger] rows[k]).noselect && entry_of(rows[k]).name
                    == name;
            assert(entries_of(rows).contains(entry_of(rows[k])));
            let i = choose|i: int| 0 <= i < views.len() && views[i] == entry_of(rows[k]);
            assert(entries[i]@ == views[i]);
            crate::sort::sorted_contains(entries, entries[i]);
            assert(entries.contains(entries[i]));
            let j = choose|j: int| 0 <= j < s.len() && s[j] == entries[i];
            assert(s[j].name@ == name);
            assert(named(s, name));
        }
    }
}

/// The inbox is told as the inbox, whatever attributes it has, where no other
/// mailbox goes by its name.
pub proof fn inbox_keeps_its_role(rows: Seq<ListedMailbox>, entry: EntryView)
    requires
        is_listed(rows, entry),
        entry.name == "INBOX"@,
        forall|i: int|
            0 <= i < rows.len() && !(#[trigger] rows[i]).inbox ==> lossy_text(rows[i].name@)
                != "INBOX"@,
    ensures
        entry.role == Some("inbox"@),
{
}

/// The special uses are these seven, written with or without a backslash and in
/// any case, and no other attribute stands for one.
pub proof fn special_uses_are_these(attribute: Seq<char>, bare: Seq<char>)
    requires
        bare.len() > 0,
        bare[0] != '\\',
    ensures
        role_of(attribute) matches Some(role) ==> role == "sent"@ || role == "drafts"@ || role
            == "junk"@ || role == "trash"@ || role == "archive"@ || role == "all"@ || role
            == "flagged"@,
        lower_of(bare) == "sent"@ || lower_of(bare) == "drafts"@ || lower_of(bare) == "junk"@
            || lower_of(bare) == "trash"@ || lower_of(bare) == "archive"@ || lower_of(bare)
            == "all"@ || lower_of(bare) == "flagged"@ ==> role_of(bare) == Some(lower_of(bare))
            && role_of(seq!['\\'] + bare) == Some(lower_of(bare)),
{
    let slashed = seq!['\\'] + bare;
    assert(slashed.drop_first() =~= bare);
    assert(trim_start_char_of(bare, '\\') == bare);
    assert(trim_start_char_of(slashed, '\\') == bare);
}

/// The inbox is the inbox, whatever its attributes are; any other mailbox has the
/// use of the first of its attributes that stands for one, and none where none
/// does.
pub proof fn mailboxes_have_their_first_use(attributes: Seq<String>, i: int)
    requires
        0 <= i <= attributes.len(),
        forall|j: int| 0 <= j < i ==> role_of((#[trigger] attributes[j])@) is None,
        i < attributes.len() ==> role_of(attributes[i]@) is Some,
    ensures
        role_among(true, attributes) == Some("inbox"@),
        i < attributes.len() ==> role_among(false, attributes) == role_of(attributes[i]@),
        i == attributes.len() ==> role_among(false, attributes) is None,
    decreases i,
{
    if i > 0 {
        let rest = attributes.drop_first();
        assert(role_of(attributes[0]@) is None);
        assert forall|j: int| 0 <= j < i - 1 implies role_of((#[trigger] rest[j])@) is None by {
            assert(rest[j] == attributes[j + 1]);
        }
        if i < attributes.len() {
            assert(rest[i - 1] == attributes[i]);
        }
        mailboxes_have_their_first_use(rest, i - 1);
    }
}

/// A mailbox is offered under its own name, the inbox as `INBOX`, with its own
/// use; and it is offered unless it only holds others.
pub proof fn mailboxes_are_offered_by_name(rows: Seq<ListedMailbox>, row: ListedMailbox, name: Seq<char>)
    ensures
        row.inbox ==> entry_of(row).name == "INBOX"@,
        !row.inbox ==> entry_of(row).name == lossy_text(row.name@),
        entry_of(row).role == role_among(row.inbox, row.attributes@),
        selectable(rows, name) <==> exists|i: int|
            0 <= i < rows.len() && !(#[trigger] rows[i]).noselect && name == (if rows[i].inbox {
                "INBOX"@
            } else {
                lossy_text(rows[i].name@)
            }),
{
    if selectable(rows, name) {
        let i = choose|i: int|
            0 <= i < rows.len() && !(#[trigger] rows[i]).noselect && entry_of(rows[i]).name == name;
        assert(!rows[i].noselect);
    }
    if exists|i: int|
        0 <= i < rows.len() && !(#[trigger] rows[i]).noselect && name == (if rows[i].inbox {
            "INBOX"@
        } else {
            lossy_text(rows[i].name@)
        }) {
        let i = choose|i: int|
            0 <= i < rows.len() && !(#[trigger] rows[i]).noselect && name == (if rows[i].inbox {
                "INBOX"@
            } else {
                lossy_text(rows[i].name@)
            });
        assert(entry_of(rows[i]).name == name);
    }
}

/// Names are offered each once, the inbox before all others and those by name in
/// any case.
pub proof fn mailboxes_are_offered_in_order(entries: Seq<MailboxEntry>, i: int, j: int)
    requires
        all_named_apart(entries),
        in_order(entries),
        0 <= i < j < entries.len(),
    ensures
        entries[i].name@ != entries[j].name@,
        entries[j].name@ != "INBOX"@,
        entries[i].name@ != "INBOX"@ ==> !text_before(
            lower_of(entries[j].name@),
            lower_of(entries[i].name@),
        ),
{
    assert(!entries[j].precedes(entries[i]));
    assert(entries[i].name@ != entries[j].name@);
}

/// An entry says its name and its use.
pub proof fn entries_say_what_they_hold(e: MailboxEntry)
    ensures
        e@.name == e.name@,
        e.role is None ==> e@.role is None,
        e.role is Some ==> e@.role == Some(e.role->0@),
{
}

} // verus!
