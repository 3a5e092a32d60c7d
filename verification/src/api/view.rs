//! What a caller is shown: services without their secrets, deliveries, and
//! accounts with their pool.

use crate::api::caller::Caller;
use crate::api::reply::ApiError;
use crate::metering::{entitled, mailbox_key, mailbox_key_of, pim_entitled};
use crate::rows::{AccountRow, DeliveryRow, MembershipRow, Watch};
use crate::sort::sorted;
use crate::store::{
    account_is, delivery_of, delivery_owned, newest, watch_is, watch_of, Store,
};
use crate::table::{any_where, first_where, opt_str, opt_text};
use crate::text::same;
use crate::util::now_secs;
use vstd::prelude::*;

verus! {

/// A service as a caller is shown it: neither its password nor its secret.
#[derive(Debug)]
pub struct WatchView {
    pub id: String,
    pub imap_host: String,
    pub imap_port: u16,
    pub login: String,
    pub mailbox: String,
    pub notify_url: String,
    pub active: bool,
}

/// A service as a caller is shown it.
pub open spec fn shown(w: Watch) -> WatchView {
    WatchView {
        id: w.id,
        imap_host: w.imap_host,
        imap_port: w.imap_port,
        login: w.login,
        mailbox: w.mailbox,
        notify_url: w.notify_url,
        active: w.active,
    }
}

/// Services as a caller is shown them.
pub open spec fn all_shown(ws: Seq<Watch>) -> Seq<WatchView> {
    ws.map_values(|w: Watch| shown(w))
}

fn show_all(ws: &Vec<Watch>) -> (r: Vec<WatchView>)
    ensures
        r@ == all_shown(ws@),
{
    let mut out: Vec<WatchView> = Vec::new();
    let mut i: usize = 0;
    while i < ws.len()
        invariant
            i <= ws@.len(),
            out@ =~= all_shown(ws@).take(i as int),
        decreases ws@.len() - i,
    {
        out.push(
            WatchView {
                id: ws[i].id.clone(),
                imap_host: ws[i].imap_host.clone(),
                imap_port: ws[i].imap_port,
                login: ws[i].login.clone(),
                mailbox: ws[i].mailbox.clone(),
                notify_url: ws[i].notify_url.clone(),
                active: ws[i].active,
            },
        );
        i += 1;
    }
    assert(out@ =~= all_shown(ws@));
    out
}

/// The services that a caller may see: all of them, or its own.
pub fn list_watches(store: &Store, caller: &Caller) -> (r: Vec<WatchView>)
    ensures
        r@ == all_shown(
            match caller.account() {
                Some(id) => sorted(store.watches@.filter(watch_of(id))),
                None => sorted(store.watches@),
            },
        ),
{
    let ws = match caller.scope() {
        Some(id) => store.watches_by_account(id.as_str()),
        None => store.all_watches(),
    };
    show_all(&ws)
}

/// A number of deliveries that may be asked for at once.
pub open spec fn limit_of(limit: u32) -> u32 {
    if limit < 1 {
        1
    } else if limit > 1000 {
        1000
    } else {
        limit
    }
}

/// The deliveries that a caller may see.
pub open spec fn deliveries_for(
    store: Store,
    caller: Option<Seq<char>>,
    filter: Option<Seq<char>>,
    limit: u32,
) -> Seq<DeliveryRow> {
    let n = limit_of(limit) as int;
    match (caller, filter) {
        (None, _) => newest(store.deliveries@.filter(delivery_of(filter)), n),
        (Some(owner), None) => newest(
            store.deliveries@.filter(delivery_owned(store.watches@, owner)),
            n,
        ),
        (Some(owner), Some(id)) => match first_where(store.watches@, watch_is(id)) {
            Some(w) => if w.account_id@ == owner {
                newest(store.deliveries@.filter(delivery_of(Some(id))), n)
            } else {
                Seq::empty()
            },
            None => Seq::empty(),
        },
    }
}

/// The newest deliveries that a caller may see, of one service or of all. A
/// service of another account has none to show.
pub fn list_deliveries(store: &Store, caller: &Caller, filter: Option<&str>, limit: u32) -> (r: Vec<
    DeliveryRow,
>)
    ensures
        r@ == deliveries_for(*store, caller.account(), opt_str(filter), limit),
{
    let n: u32 = if limit < 1 {
        1
    } else if limit > 1000 {
        1000
    } else {
        limit
    };
    match caller.scope() {
        None => store.recent_deliveries(filter, n),
        Some(owner) => match filter {
            Some(id) => match store.watch_account(id) {
                Some(account) => if same(account.as_str(), owner.as_str()) {
                    store.recent_deliveries(Some(id), n)
                } else {
                    Vec::new()
                },
                None => Vec::new(),
            },
            None => store.recent_deliveries_by_owner(owner.as_str(), n),
        },
    }
}

/// A slot of an account: a service and its activation, or a PIM account that
/// has no service yet.
#[derive(Debug)]
pub struct MailboxView {
    /// The PIM account.
    pub mailbox_key: String,
    /// The service, if there is one.
    pub watch_id: Option<String>,
    /// What the service watches.
    pub mailbox: Option<String>,
    /// How long the service is paid for.
    pub watching_until: Option<i64>,
    /// Whether it is paid for now.
    pub watching: bool,
    pub auto_renew: bool,
}

/// What a slot says.
pub ghost struct SlotView {
    pub mailbox_key: Seq<char>,
    pub watch_id: Option<Seq<char>>,
    pub mailbox: Option<Seq<char>>,
    pub watching_until: Option<i64>,
    pub watching: bool,
    pub auto_renew: bool,
}

impl View for MailboxView {
    type V = SlotView;

    open spec fn view(&self) -> SlotView {
        SlotView {
            mailbox_key: self.mailbox_key@,
            watch_id: opt_text(self.watch_id),
            mailbox: opt_text(self.mailbox),
            watching_until: self.watching_until,
            watching: self.watching,
            auto_renew: self.auto_renew,
        }
    }
}

/// Slots as views.
pub open spec fn slot_views(slots: Seq<MailboxView>) -> Seq<SlotView> {
    slots.map_values(|s: MailboxView| s@)
}

/// An account as it is shown: its pool, its services, and the PIM accounts that
/// have none.
#[derive(Debug)]
pub struct AccountView {
    pub id: String,
    pub email: Option<String>,
    pub credits: i64,
    pub mailboxes: Vec<MailboxView>,
}

/// The PIM account of a service.
pub open spec fn key_of(w: Watch) -> Seq<char> {
    mailbox_key_of(w.login@, w.imap_host@)
}

/// The slot of a service.
pub open spec fn service_slot(w: Watch, now: int) -> SlotView {
    SlotView {
        mailbox_key: key_of(w),
        watch_id: Some(w.id@),
        mailbox: Some(w.mailbox@),
        watching_until: w.watching_until,
        watching: entitled(w.watching_until, now),
        auto_renew: w.auto_renew,
    }
}

/// The slot of a PIM account without a service.
pub open spec fn bare_slot(key: Seq<char>) -> SlotView {
    SlotView {
        mailbox_key: key,
        watch_id: None,
        mailbox: None,
        watching_until: None,
        watching: false,
        auto_renew: false,
    }
}

/// Whether a PIM account has a service.
pub open spec fn has_service(ws: Seq<Watch>, key: Seq<char>) -> bool {
    exists|i: int| 0 <= i < ws.len() && key_of(#[trigger] ws[i]) == key
}

/// The slots of the PIM accounts without a service, in order.
pub open spec fn bare_slots(ws: Seq<Watch>, members: Seq<MembershipRow>) -> Seq<SlotView>
    decreases members.len(),
{
    if members.len() == 0 {
        Seq::empty()
    } else {
        let before = bare_slots(ws, members.drop_last());
        let key = members.last().mailbox_key@;
        if has_service(ws, key) {
            before
        } else {
            before.push(bare_slot(key))
        }
    }
}

/// The slots of an account: its services, by id, and the PIM accounts that have
/// none, in the order they were declared.
pub open spec fn slots_of(store: Store, id: Seq<char>, now: int) -> Seq<SlotView> {
    let ws = sorted(store.watches@.filter(watch_of(id)));
    ws.map_values(|w: Watch| service_slot(w, now)) + bare_slots(ws, store.memberships_of(id))
}

/// Whether this is an account as it is shown, at a time. One that the store
/// does not know has an empty pool.
pub open spec fn shows_account(r: AccountView, store: Store, id: Seq<char>, now: int) -> bool {
    &&& slot_views(r.mailboxes@) == slots_of(store, id, now)
    &&& match store.account(id) {
        Some(a) => r.id == a.id && r.email == a.email && r.credits == a.credits,
        None => r.id@ == id && r.email is None && r.credits == 0,
    }
}

fn has_service_for(ws: &Vec<Watch>, key: &str) -> (r: bool)
    ensures
        r == has_service(ws@, key@),
{
    let mut i: usize = 0;
    while i < ws.len()
        invariant
            i <= ws@.len(),
            forall|k: int| 0 <= k < i ==> key_of(#[trigger] ws@[k]) != key@,
        decreases ws@.len() - i,
    {
        let own = mailbox_key(ws[i].login.as_str(), ws[i].imap_host.as_str());
        if same(own.as_str(), key) {
            assert(key_of(ws@[i as int]) == key@);
            return true;
        }
        i += 1;
    }
    false
}

/// An account as it is shown, at a time.
pub fn account_view(store: &Store, id: &str, now: i64) -> (r: AccountView)
    ensures
        shows_account(r, *store, id@, now as int),
{
    let account = match store.get_account(id) {
        Some(a) => a,
        None => AccountRow { id: id.to_owned(), email: None, credits: 0 },
    };
    let ws = store.watches_by_account(id);
    let ghost slots = ws@.map_values(|w: Watch| service_slot(w, now as int));
    let mut mailboxes: Vec<MailboxView> = Vec::new();
    let mut i: usize = 0;
    assert(slot_views(mailboxes@) =~= slots.take(0));
    while i < ws.len()
        invariant
            i <= ws@.len(),
            slots == ws@.map_values(|w: Watch| service_slot(w, now as int)),
            slot_views(mailboxes@) == slots.take(i as int),
        decreases ws@.len() - i,
    {
        let w = &ws[i];
        let ghost before = mailboxes@;
        let slot = MailboxView {
            mailbox_key: mailbox_key(w.login.as_str(), w.imap_host.as_str()),
            watch_id: Some(w.id.clone()),
            mailbox: Some(w.mailbox.clone()),
            watching_until: w.watching_until,
            watching: pim_entitled(w.watching_until, now),
            auto_renew: w.auto_renew,
        };
        assert(slot@ == slots[i as int]);
        mailboxes.push(slot);
        assert(slot_views(mailboxes@) =~= slot_views(before).push(slots[i as int]));
        assert(slots.take(i + 1) =~= slots.take(i as int).push(slots[i as int]));
        i += 1;
    }
    assert(slots.take(i as int) =~= slots);
    let members = store.memberships(id);
    let mut k: usize = 0;
    assert(slot_views(mailboxes@) =~= slots + bare_slots(ws@, members@.take(0)));
    while k < members.len()
        invariant
            k <= members@.len(),
            slot_views(mailboxes@) == slots + bare_slots(ws@, members@.take(k as int)),
        decreases members@.len() - k,
    {
        assert(members@.take(k + 1).drop_last() =~= members@.take(k as int));
        let ghost before = mailboxes@;
        if !has_service_for(&ws, members[k].mailbox_key.as_str()) {
            let slot = MailboxView {
                mailbox_key: members[k].mailbox_key.clone(),
                watch_id: None,
                mailbox: None,
                watching_until: None,
                watching: false,
                auto_renew: false,
            };
            assert(slot@ == bare_slot(members@[k as int].mailbox_key@));
            mailboxes.push(slot);
            assert(slot_views(mailboxes@) =~= slot_views(before).push(slot@));
            assert(slots + bare_slots(ws@, members@.take(k as int)).push(slot@) =~= (slots
                + bare_slots(ws@, members@.take(k as int))).push(slot@));
        }
        k += 1;
    }
    assert(members@.take(k as int) =~= members@);
    AccountView { id: account.id, email: account.email, credits: account.credits, mailboxes }
}

/// Whether these are accounts as they are shown, in order, at a time.
pub open spec fn shows_accounts(rs: Seq<AccountView>, store: Store, ids: Seq<Seq<char>>, now: int) -> bool {
    rs.len() == ids.len() && forall|i: int|
        0 <= i < ids.len() ==> shows_account(#[trigger] rs[i], store, ids[i], now)
}

/// The accounts that a caller may see.
pub open spec fn accounts_for(store: Store, caller: Option<Seq<char>>) -> Seq<Seq<char>> {
    match caller {
        Some(id) => seq![id],
        None => crate::text::texts(
            sorted(store.accounts@.map_values(|a: crate::rows::AccountRecord| a.id)),
        ),
    }
}

/// The accounts that a caller may see, at a time: all of them, or its own.
pub fn list_accounts_at(store: &Store, caller: &Caller, now: i64) -> (r: Vec<AccountView>)
    ensures
        shows_accounts(r@, *store, accounts_for(*store, caller.account()), now as int),
{
    let mut out: Vec<AccountView> = Vec::new();
    match caller.scope() {
        Some(id) => {
            out.push(account_view(store, id.as_str(), now));
        },
        None => {
            let ids = store.all_account_ids();
            let mut i: usize = 0;
            while i < ids.len()
                invariant
                    i <= ids@.len(),
                    out@.len() == i,
                    forall|k: int|
                        0 <= k < i ==> shows_account(
                            #[trigger] out@[k],
                            *store,
                            ids@[k]@,
                            now as int,
                        ),
                decreases ids@.len() - i,
            {
                let ghost before = out@;
                out.push(account_view(store, ids[i].as_str(), now));
                assert(forall|k: int| 0 <= k < i ==> out@[k] == before[k]);
                i += 1;
            }
        },
    }
    out
}

/// The accounts that a caller may see, now.
pub fn list_accounts(store: &Store, caller: &Caller) -> (r: Vec<AccountView>)
    ensures
        exists|now: i64| #[trigger]
            shows_accounts(r@, *store, accounts_for(*store, caller.account()), now as int),
{
    let now: i64 = now_secs();
    let r = list_accounts_at(store, caller, now);
    assert(shows_accounts(r@, *store, accounts_for(*store, caller.account()), now as int));
    r
}

/// Whether this is what a caller is shown of an account, at a time.
pub open spec fn gets_account(
    r: Result<AccountView, ApiError>,
    store: Store,
    caller: Caller,
    id: Seq<char>,
    now: int,
) -> bool {
    if caller.may(id) && any_where(store.accounts@, account_is(id)) {
        r matches Ok(v) && shows_account(v, store, id, now)
    } else {
        r matches Err(ApiError::NotFound(i)) && i@ == id
    }
}

/// An account, at a time. One of someone else is as unknown as one that is not
/// there.
pub fn get_account_at(store: &Store, caller: &Caller, id: &str, now: i64) -> (r: Result<
    AccountView,
    ApiError,
>)
    ensures
        gets_account(r, *store, *caller, id@, now as int),
{
    proof {
        crate::table::lemma_first_where(store.accounts@, account_is(id@));
    }
    if !caller.owns(id) || store.get_account(id).is_none() {
        return Err(ApiError::NotFound(id.to_owned()));
    }
    Ok(account_view(store, id, now))
}

/// An account, now.
pub fn get_account(store: &Store, caller: &Caller, id: &str) -> (r: Result<AccountView, ApiError>)
    ensures
        exists|now: i64| #[trigger] gets_account(r, *store, *caller, id@, now as int),
{
    let now: i64 = now_secs();
    let r = get_account_at(store, caller, id, now);
    assert(gets_account(r, *store, *caller, id@, now as int));
    r
}

/// The account behind a capability link, as it is shown to itself.
#[derive(Debug)]
pub struct Me {
    pub account_id: String,
    pub mailboxes: Vec<MembershipRow>,
    pub watches: Vec<WatchView>,
    pub balance: AccountView,
    /// Whether watching is paid for.
    pub metered: bool,
}

/// Whether this is an account as it is shown to itself, at a time.
pub open spec fn shows_me(r: Me, store: Store, account: Seq<char>, metered: bool, now: int) -> bool {
    &&& r.account_id@ == account
    &&& r.mailboxes@ == store.memberships_of(account)
    &&& r.watches@ == all_shown(sorted(store.watches@.filter(watch_of(account))))
    &&& shows_account(r.balance, store, account, now)
    &&& r.metered == metered
}

/// An account as it is shown to itself, at a time.
pub fn me_at(store: &Store, account_id: &str, metered: bool, now: i64) -> (r: Me)
    ensures
        shows_me(r, *store, account_id@, metered, now as int),
{
    let ws = store.watches_by_account(account_id);
    Me {
        account_id: account_id.to_owned(),
        mailboxes: store.memberships(account_id),
        watches: show_all(&ws),
        balance: account_view(store, account_id, now),
        metered,
    }
}

/// An account as it is shown to itself, now.
pub fn me(store: &Store, account_id: &str, metered: bool) -> (r: Me)
    ensures
        exists|now: i64| #[trigger] shows_me(r, *store, account_id@, metered, now as int),
{
    let now: i64 = now_secs();
    let r = me_at(store, account_id, metered, now);
    assert(shows_me(r, *store, account_id@, metered, now as int));
    r
}

/// Nobody sees the deliveries of another account's service.
pub proof fn foreign_deliveries_are_hidden(
    store: Store,
    owner: Seq<char>,
    filter: Option<Seq<char>>,
    limit: u32,
    i: int,
)
    requires
        store.wf(),
        0 <= i < deliveries_for(store, Some(owner), filter, limit).len(),
    ensures
        ({
            let d = deliveries_for(store, Some(owner), filter, limit)[i];
            any_where(store.watches@, crate::store::watch_owned(d.account@, owner))
        }),
{
    let r = deliveries_for(store, Some(owner), filter, limit);
    let n = limit_of(limit) as int;
    let p = match filter {
        Some(id) => delivery_of(Some(id)),
        None => delivery_owned(store.watches@, owner),
    };
    let kept = store.deliveries@.filter(p);
    let ordered = sorted(kept.reverse());
    let d = r[i];
    assert(r == newest(kept, n));
    assert(d == ordered[i]);
    assert(ordered.contains(d));
    crate::sort::sorted_contains(kept.reverse(), d);
    let k = choose|k: int| 0 <= k < kept.reverse().len() && kept.reverse()[k] == d;
    assert(kept[kept.len() - 1 - k] == d);
    assert(kept.contains(d));
    crate::table::lemma_filter_contains(store.deliveries@, p, d);
    if let Some(id) = filter {
        crate::table::lemma_first_where(store.watches@, watch_is(id));
        let w = first_where(store.watches@, watch_is(id))->0;
        let j = choose|j: int|
            0 <= j < store.watches@.len() && store.watches@[j] == w && watch_is(id)(w);
        assert(crate::store::watch_owned(d.account@, owner)(store.watches@[j]));
    }
}

// --- what is shown ---

/// A service is shown as it is, one view for each and in their order.
pub proof fn services_are_shown_as_they_are(ws: Seq<Watch>, i: int)
    requires
        0 <= i < ws.len(),
    ensures
        all_shown(ws).len() == ws.len(),
        all_shown(ws)[i].id@ == ws[i].id@,
        all_shown(ws)[i].imap_host@ == ws[i].imap_host@,
        all_shown(ws)[i].imap_port == ws[i].imap_port,
        all_shown(ws)[i].login@ == ws[i].login@,
        all_shown(ws)[i].mailbox@ == ws[i].mailbox@,
        all_shown(ws)[i].notify_url@ == ws[i].notify_url@,
        all_shown(ws)[i].active == ws[i].active,
{
}

/// At least one delivery is shown, and a thousand at most; a number in between is
/// taken as it is.
pub proof fn deliveries_are_shown_by_the_thousand(limit: u32)
    ensures
        limit == 0 ==> limit_of(limit) == 1,
        1 <= limit <= 1000 ==> limit_of(limit) == limit,
        limit > 1000 ==> limit_of(limit) == 1000,
{
}

/// The administrator is shown the deliveries of every service, or of the one that
/// is asked for, the newest first and no more than asked for; where there is room
/// none is left out.
pub proof fn administrator_sees_every_delivery(
    store: Store,
    filter: Option<Seq<char>>,
    limit: u32,
    d: DeliveryRow,
)
    requires
        1 <= limit <= 1000,
    ensures
        ({
            let r = deliveries_for(store, None, filter, limit);
            &&& r.len() <= limit
            &&& r.contains(d) ==> store.deliveries@.contains(d) && (filter matches Some(id)
                ==> d.account@ == id)
            &&& r.len() < limit && store.deliveries@.contains(d) && (filter matches Some(id)
                ==> d.account@ == id) ==> r.contains(d)
            &&& forall|i: int, j: int|
                0 <= i < j < r.len() ==> (#[trigger] r[i]).at >= (#[trigger] r[j]).at
        }),
{
    crate::laws::log_holds_the_newest_of_its_service(store, filter, limit as int);
    let r = deliveries_for(store, None, filter, limit);
    if r.contains(d) {
        let i = choose|i: int| 0 <= i < r.len() && r[i] == d;
        assert(store.deliveries@.contains(r[i]));
    }
}

/// An account is shown the deliveries of its own services, the newest first and no
/// more than asked for; where there is room none of them is left out.
pub proof fn accounts_see_their_own_deliveries(
    store: Store,
    owner: Seq<char>,
    limit: u32,
    d: DeliveryRow,
)
    requires
        1 <= limit <= 1000,
    ensures
        ({
            let r = deliveries_for(store, Some(owner), None, limit);
            let own = exists|k: int|
                0 <= k < store.watches@.len() && (#[trigger] store.watches@[k]).id@ == d.account@
                    && store.watches@[k].account_id@ == owner;
            &&& r.len() <= limit
            &&& r.contains(d) ==> store.deliveries@.contains(d) && own
            &&& r.len() < limit && store.deliveries@.contains(d) && own ==> r.contains(d)
            &&& forall|i: int, j: int|
                0 <= i < j < r.len() ==> (#[trigger] r[i]).at >= (#[trigger] r[j]).at
        }),
{
    crate::laws::owned_deliveries_only(store, owner, limit as int);
    let r = deliveries_for(store, Some(owner), None, limit);
    let p = delivery_owned(store.watches@, owner);
    let q = crate::store::watch_owned(d.account@, owner);
    if r.contains(d) {
        let i = choose|i: int| 0 <= i < r.len() && r[i] == d;
        assert(any_where(store.watches@, crate::store::watch_owned(r[i].account@, owner)));
        let k = choose|k: int| 0 <= k < store.watches@.len() && q(#[trigger] store.watches@[k]);
        assert(store.watches@[k].id@ == d.account@);
    }
    let own = exists|k: int|
        0 <= k < store.watches@.len() && (#[trigger] store.watches@[k]).id@ == d.account@
            && store.watches@[k].account_id@ == owner;
    if r.len() < limit && store.deliveries@.contains(d) && own {
        let k = choose|k: int|
            0 <= k < store.watches@.len() && (#[trigger] store.watches@[k]).id@ == d.account@
                && store.watches@[k].account_id@ == owner;
        assert(q(store.watches@[k]));
        let mine = store.deliveries@.filter(p);
        crate::table::lemma_filter_contains(store.deliveries@, p, d);
        let m = choose|m: int| 0 <= m < mine.len() && mine[m] == d;
        assert(mine.reverse()[mine.len() - 1 - m] == d);
        assert(mine.reverse().contains(d));
        crate::sort::sorted_contains(mine.reverse(), d);
        crate::sort::sorted_is_ordered(mine.reverse());
        let ordered = sorted(mine.reverse());
        let n = choose|n: int| 0 <= n < ordered.len() && ordered[n] == d;
        assert(r[n] == d);
    }
}

/// Of one service of its own an account is shown what the administrator is shown
/// of it, and of any other service nothing.
pub proof fn accounts_see_one_service_of_their_own(
    store: Store,
    owner: Seq<char>,
    id: Seq<char>,
    limit: u32,
    i: int,
)
    requires
        store.wf(),
        0 <= i <= store.watches@.len(),
        i < store.watches@.len() ==> store.watches@[i].id@ == id,
        i == store.watches@.len() ==> forall|j: int|
            0 <= j < store.watches@.len() ==> (#[trigger] store.watches@[j]).id@ != id,
    ensures
        i < store.watches@.len() && store.watches@[i].account_id@ == owner ==> deliveries_for(
            store,
            Some(owner),
            Some(id),
            limit,
        ) == deliveries_for(store, None, Some(id), limit),
        i < store.watches@.len() && store.watches@[i].account_id@ != owner ==> deliveries_for(
            store,
            Some(owner),
            Some(id),
            limit,
        ).len() == 0,
        i == store.watches@.len() ==> deliveries_for(store, Some(owner), Some(id), limit).len()
            == 0,
{
    let p = watch_is(id);
    crate::table::lemma_first_where(store.watches@, p);
    if i < store.watches@.len() {
        assert(p(store.watches@[i]));
        let w = first_where(store.watches@, p)->0;
        let j = choose|j: int| 0 <= j < store.watches@.len() && store.watches@[j] == w;
        assert(crate::store::watch_key()(store.watches@[i]) == crate::store::watch_key()(
            store.watches@[j],
        ));
    } else if any_where(store.watches@, p) {
        let j = choose|j: int| 0 <= j < store.watches@.len() && p(#[trigger] store.watches@[j]);
        assert(store.watches@[j].id@ != id);
    }
}

/// The slot of a service says which it is, what it watches, up to when it is paid
/// for, that it is watched exactly until then, and whether it renews itself.
pub proof fn slots_say_what_is_paid_for(w: Watch, now: int, key: Seq<char>)
    ensures
        service_slot(w, now).mailbox_key == mailbox_key_of(w.login@, w.imap_host@),
        service_slot(w, now).watch_id == Some(w.id@),
        service_slot(w, now).mailbox == Some(w.mailbox@),
        service_slot(w, now).watching_until == w.watching_until,
        service_slot(w, now).auto_renew == w.auto_renew,
        service_slot(w, now).watching <==> (w.watching_until matches Some(t) && now < t),
        bare_slot(key).mailbox_key == key,
        bare_slot(key).watch_id is None,
        bare_slot(key).mailbox is None,
        bare_slot(key).watching_until is None,
        !bare_slot(key).watching,
        !bare_slot(key).auto_renew,
{
}

proof fn lemma_bare_slots(ws: Seq<Watch>, members: Seq<MembershipRow>, key: Seq<char>)
    ensures
        bare_slots(ws, members).contains(bare_slot(key)) <==> !has_service(ws, key) && exists|
            i: int,
        |
            0 <= i < members.len() && (#[trigger] members[i]).mailbox_key@ == key,
        forall|i: int| 0 <= i < bare_slots(ws, members).len() ==> (#[trigger] bare_slots(
            ws,
            members,
        )[i]).watch_id is None,
    decreases members.len(),
{
    if members.len() > 0 {
        let rest = members.drop_last();
        let before = bare_slots(ws, rest);
        let all = bare_slots(ws, members);
        let last = members.last().mailbox_key@;
        lemma_bare_slots(ws, rest, key);
        if before.contains(bare_slot(key)) {
            let k = choose|k: int| 0 <= k < before.len() && before[k] == bare_slot(key);
            assert(all[k] == bare_slot(key));
        }
        if all.contains(bare_slot(key)) {
            let k = choose|k: int| 0 <= k < all.len() && all[k] == bare_slot(key);
            if k < before.len() {
                assert(before[k] == bare_slot(key));
                let i = choose|i: int|
                    0 <= i < rest.len() && (#[trigger] rest[i]).mailbox_key@ == key;
                assert(members[i] == rest[i]);
            } else {
                assert(bare_slot(last).mailbox_key == key);
                assert(members[members.len() - 1].mailbox_key@ == key);
            }
        }
        if !has_service(ws, key) && exists|i: int|
            0 <= i < members.len() && (#[trigger] members[i]).mailbox_key@ == key {
            let i = choose|i: int|
                0 <= i < members.len() && (#[trigger] members[i]).mailbox_key@ == key;
            if i < rest.len() {
                assert(rest[i] == members[i]);
            } else {
                assert(all[before.len() as int] == bare_slot(key));
            }
        }
        assert forall|i: int| 0 <= i < all.len() implies (#[trigger] all[i]).watch_id is None by {
            if i < before.len() {
                assert(all[i] == before[i]);
            }
        }
    }
}

/// An account is shown a slot for each of its services, and one without a service
/// for each mailbox that it has proven and does not watch, and nothing of another
/// account.
pub proof fn accounts_are_shown_their_slots(store: Store, account: Seq<char>, now: int, w: Watch, key: Seq<char>)
    ensures
        store.watches@.contains(w) && w.account_id@ == account ==> slots_of(
            store,
            account,
            now,
        ).contains(service_slot(w, now)),
        slots_of(store, account, now).contains(bare_slot(key)) <==> (exists|i: int|
            0 <= i < store.mailboxes@.len() && (#[trigger] store.mailboxes@[i]).account_id@
                == account && store.mailboxes@[i].member.mailbox_key@ == key) && !(exists|i: int|
            0 <= i < store.watches@.len() && (#[trigger] store.watches@[i]).account_id@ == account
                && mailbox_key_of(store.watches@[i].login@, store.watches@[i].imap_host@) == key),
        forall|i: int|
            0 <= i < slots_of(store, account, now).len() ==> ((#[trigger] slots_of(
                store,
                account,
                now,
            )[i]).watch_id matches Some(id) ==> any_where(
                store.watches@,
                crate::store::watch_owned(id, account),
            )),
{
    let p = watch_of(account);
    let mine = store.watches@.filter(p);
    let ws = sorted(mine);
    let members = store.memberships_of(account);
    let served = ws.map_values(|w: Watch| service_slot(w, now));
    let all = slots_of(store, account, now);
    let bare = bare_slots(ws, members);
    lemma_bare_slots(ws, members, key);
    if store.watches@.contains(w) && w.account_id@ == account {
        crate::table::lemma_filter_contains(store.watches@, p, w);
        crate::sort::sorted_contains(mine, w);
        let k = choose|k: int| 0 <= k < ws.len() && ws[k] == w;
        assert(all[k] == service_slot(w, now));
    }
    assert forall|i: int| 0 <= i < all.len() implies ((#[trigger] all[i]).watch_id matches Some(id)
        ==> any_where(store.watches@, crate::store::watch_owned(id, account))) by {
        if i < ws.len() {
            assert(all[i] == service_slot(ws[i], now));
            assert(ws.contains(ws[i]));
            crate::sort::sorted_contains(mine, ws[i]);
            crate::table::lemma_filter_contains(store.watches@, p, ws[i]);
            let j = choose|j: int| 0 <= j < store.watches@.len() && store.watches@[j] == ws[i];
            assert(crate::store::watch_owned(ws[i].id@, account)(store.watches@[j]));
        } else {
            assert(all[i] == bare[i - ws.len()]);
        }
    }
    let served_here = exists|i: int|
        0 <= i < store.watches@.len() && (#[trigger] store.watches@[i]).account_id@ == account
            && mailbox_key_of(store.watches@[i].login@, store.watches@[i].imap_host@) == key;
    assert(has_service(ws, key) == served_here) by {
        if has_service(ws, key) {
            let k = choose|k: int| 0 <= k < ws.len() && key_of(#[trigger] ws[k]) == key;
            assert(ws.contains(ws[k]));
            crate::sort::sorted_contains(mine, ws[k]);
            crate::table::lemma_filter_contains(store.watches@, p, ws[k]);
            let j = choose|j: int| 0 <= j < store.watches@.len() && store.watches@[j] == ws[k];
            assert(store.watches@[j].account_id@ == account);
        }
        if served_here {
            let j = choose|j: int|
                0 <= j < store.watches@.len() && (#[trigger] store.watches@[j]).account_id@
                    == account && mailbox_key_of(
                    store.watches@[j].login@,
                    store.watches@[j].imap_host@,
                ) == key;
            let x = store.watches@[j];
            assert(store.watches@.contains(x));
            crate::table::lemma_filter_contains(store.watches@, p, x);
            crate::sort::sorted_contains(mine, x);
            let k = choose|k: int| 0 <= k < ws.len() && ws[k] == x;
            assert(key_of(ws[k]) == key);
        }
    }
    let known = exists|i: int|
        0 <= i < store.mailboxes@.len() && (#[trigger] store.mailboxes@[i]).account_id@ == account
            && store.mailboxes@[i].member.mailbox_key@ == key;
    let listed = exists|i: int| 0 <= i < members.len() && (#[trigger] members[i]).mailbox_key@ == key;
    assert(known == listed) by {
        if known {
            let i = choose|i: int|
                0 <= i < store.mailboxes@.len() && (#[trigger] store.mailboxes@[i]).account_id@
                    == account && store.mailboxes@[i].member.mailbox_key@ == key;
            let m = store.mailboxes@[i].member;
            crate::laws::connections_are_shown_to_their_account(store, account, m);
            let k = choose|k: int| 0 <= k < members.len() && members[k] == m;
            assert(members[k].mailbox_key@ == key);
        }
        if listed {
            let k = choose|k: int|
                0 <= k < members.len() && (#[trigger] members[k]).mailbox_key@ == key;
            crate::laws::connections_are_shown_to_their_account(store, account, members[k]);
        }
    }
    if bare.contains(bare_slot(key)) {
        let k = choose|k: int| 0 <= k < bare.len() && bare[k] == bare_slot(key);
        assert(all[ws.len() + k] == bare_slot(key));
    }
    if all.contains(bare_slot(key)) {
        let k = choose|k: int| 0 <= k < all.len() && all[k] == bare_slot(key);
        if k < ws.len() {
            assert(all[k] == service_slot(ws[k], now));
            assert(all[k].watch_id is Some);
        } else {
            assert(bare[k - ws.len()] == bare_slot(key));
        }
    }
}

/// An account is shown with its id, its address and what is in its pool, and one
/// that is not known with an empty pool.
pub proof fn accounts_are_shown_with_their_pool(
    r: AccountView,
    store: Store,
    id: Seq<char>,
    now: int,
    i: int,
)
    requires
        store.wf(),
        shows_account(r, store, id, now),
        0 <= i <= store.accounts@.len(),
        i < store.accounts@.len() ==> store.accounts@[i].id@ == id,
        i == store.accounts@.len() ==> forall|j: int|
            0 <= j < store.accounts@.len() ==> (#[trigger] store.accounts@[j]).id@ != id,
    ensures
        r.id@ == id,
        i < store.accounts@.len() ==> r.credits == store.accounts@[i].credits && opt_text(r.email)
            == opt_text(store.accounts@[i].email),
        i == store.accounts@.len() ==> r.credits == 0 && r.email is None,
{
    let p = account_is(id);
    crate::table::lemma_first_where(store.accounts@, p);
    if i < store.accounts@.len() {
        assert(p(store.accounts@[i]));
        let a = first_where(store.accounts@, p)->0;
        let j = choose|j: int| 0 <= j < store.accounts@.len() && store.accounts@[j] == a;
        assert(crate::store::account_key()(store.accounts@[i]) == crate::store::account_key()(
            store.accounts@[j],
        ));
    } else if any_where(store.accounts@, p) {
        let j = choose|j: int| 0 <= j < store.accounts@.len() && p(#[trigger] store.accounts@[j]);
        assert(store.accounts@[j].id@ != id);
    }
}

/// An account is shown itself alone; the administrator is shown every account
/// there is, and no other.
pub proof fn administrator_sees_every_account(store: Store, id: Seq<char>)
    ensures
        accounts_for(store, Some(id)) == seq![id],
        accounts_for(store, None).contains(id) <==> exists|i: int|
            0 <= i < store.accounts@.len() && (#[trigger] store.accounts@[i]).id@ == id,
        accounts_for(store, None).len() == store.accounts@.len(),
{
    let all = store.accounts@.map_values(|a: crate::rows::AccountRecord| a.id);
    let ordered = sorted(all);
    let shown = accounts_for(store, None);
    crate::sort::sorted_is_ordered(all);
    if shown.contains(id) {
        let k = choose|k: int| 0 <= k < shown.len() && shown[k] == id;
        assert(ordered.contains(ordered[k]));
        crate::sort::sorted_contains(all, ordered[k]);
        let i = choose|i: int| 0 <= i < all.len() && all[i] == ordered[k];
        assert(store.accounts@[i].id@ == id);
    }
    if exists|i: int| 0 <= i < store.accounts@.len() && (#[trigger] store.accounts@[i]).id@ == id {
        let i = choose|i: int|
            0 <= i < store.accounts@.len() && (#[trigger] store.accounts@[i]).id@ == id;
        assert(all[i]@ == id);
        assert(all.contains(all[i]));
        crate::sort::sorted_contains(all, all[i]);
        let k = choose|k: int| 0 <= k < ordered.len() && ordered[k] == all[i];
        assert(shown[k] == id);
    }
}

/// An account is shown to itself and to the administrator where it is there; to
/// anyone else, and where it is not, it is as if it were not.
pub proof fn accounts_are_shown_to_themselves(
    r: Result<AccountView, ApiError>,
    store: Store,
    caller: String,
    id: Seq<char>,
    now: int,
)
    ensures
        (gets_account(r, store, Caller::Account(caller), id, now) && r is Ok) ==> caller@ == id,
        (gets_account(r, store, Caller::Account(caller), id, now) && caller@ != id) ==> (r matches Err(
            ApiError::NotFound(i),
        ) && i@ == id),
        gets_account(r, store, Caller::Admin, id, now) ==> (r is Ok <==> exists|i: int|
            0 <= i < store.accounts@.len() && (#[trigger] store.accounts@[i]).id@ == id),
        (gets_account(r, store, Caller::Account(caller), id, now) && caller@ == id) ==> (r is Ok
            <==> exists|i: int|
            0 <= i < store.accounts@.len() && (#[trigger] store.accounts@[i]).id@ == id),
        (gets_account(r, store, Caller::Admin, id, now) && r is Err) ==> (r->Err_0 matches ApiError::NotFound(i)
            && i@ == id),
        (gets_account(r, store, Caller::Admin, id, now) && r is Ok) ==> shows_account(
            r->Ok_0,
            store,
            id,
            now,
        ),
{
    let there = exists|i: int|
        0 <= i < store.accounts@.len() && (#[trigger] store.accounts@[i]).id@ == id;
    if there {
        let i = choose|i: int|
            0 <= i < store.accounts@.len() && (#[trigger] store.accounts@[i]).id@ == id;
        assert(account_is(id)(store.accounts@[i]));
    }
    if any_where(store.accounts@, account_is(id)) {
        let i = choose|i: int|
            0 <= i < store.accounts@.len() && account_is(id)(#[trigger] store.accounts@[i]);
        assert(store.accounts@[i].id@ == id);
    }
}

/// An account is shown to itself with its own mailboxes and services, and whether
/// watching is paid for.
pub proof fn accounts_know_what_is_theirs(
    r: Me,
    store: Store,
    account: Seq<char>,
    metered: bool,
    now: int,
    i: int,
)
    requires
        shows_me(r, store, account, metered, now),
    ensures
        r.account_id@ == account,
        r.metered == metered,
        0 <= i < r.watches@.len() ==> any_where(
            store.watches@,
            crate::store::watch_owned(r.watches@[i].id@, account),
        ),
        0 <= i < r.mailboxes@.len() ==> exists|k: int|
            0 <= k < store.mailboxes@.len() && (#[trigger] store.mailboxes@[k]).account_id@
                == account && store.mailboxes@[k].member == r.mailboxes@[i],
        r.watches@.len() == store.watches@.filter(watch_of(account)).len(),
        shows_account(r.balance, store, account, now),
{
    let p = watch_of(account);
    let mine = store.watches@.filter(p);
    let ws = sorted(mine);
    crate::sort::sorted_is_ordered(mine);
    if 0 <= i < r.watches@.len() {
        assert(ws.contains(ws[i]));
        crate::sort::sorted_contains(mine, ws[i]);
        crate::table::lemma_filter_contains(store.watches@, p, ws[i]);
        let j = choose|j: int| 0 <= j < store.watches@.len() && store.watches@[j] == ws[i];
        assert(crate::store::watch_owned(ws[i].id@, account)(store.watches@[j]));
    }
    if 0 <= i < r.mailboxes@.len() {
        assert(r.mailboxes@.contains(r.mailboxes@[i]));
        crate::laws::connections_are_shown_to_their_account(store, account, r.mailboxes@[i]);
    }
}

/// A slot says what it holds, each thing under its own name, and slots are told in
/// order.
pub proof fn slots_say_what_they_hold(s: MailboxView, all: Seq<MailboxView>, i: int)
    requires
        0 <= i < all.len(),
    ensures
        s@.mailbox_key == s.mailbox_key@,
        s@.watch_id == opt_text(s.watch_id),
        s@.mailbox == opt_text(s.mailbox),
        s@.watching_until == s.watching_until,
        s@.watching == s.watching,
        s@.auto_renew == s.auto_renew,
        slot_views(all).len() == all.len(),
        slot_views(all)[i] == all[i]@,
{
}

/// Accounts are shown in order, one view for each.
pub proof fn accounts_are_shown_in_order(
    rs: Seq<AccountView>,
    store: Store,
    ids: Seq<Seq<char>>,
    now: int,
    i: int,
)
    requires
        shows_accounts(rs, store, ids, now),
        0 <= i < ids.len(),
    ensures
        rs.len() == ids.len(),
        shows_account(rs[i], store, ids[i], now),
{
}

} // verus!
