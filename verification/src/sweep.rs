//! The renewal sweep: one pass over the active services, in the order they
//! were declared.

use crate::idset::IdSet;
use crate::live::NoticeKind;
use crate::metering::{entitled, mailbox_key, mailbox_key_of};
use crate::rows::{AccountRecord, Watch};
use crate::store::{
    account_holding, account_is, watch_active, watch_is, watch_key, with_credits_added, with_until,
    Store,
};
use crate::table::{
    any_where, distinct, first_where, lemma_filter_contains, lemma_filter_distinct,
    lemma_filter_push, opt_text, update_where,
};
use crate::text::{decimal_i64, decimal_of, same};
use crate::util::{add_clamped, clamp};
use vstd::prelude::*;
use vstd::set::Set;

verus! {

/// An e-mail to send.
pub struct Mail {
    pub to: String,
    pub subject: String,
    pub body: String,
}

/// What an e-mail says.
pub ghost struct MailView {
    pub to: Seq<char>,
    pub subject: Seq<char>,
    pub body: Seq<char>,
}

impl View for Mail {
    type V = MailView;

    open spec fn view(&self) -> MailView {
        MailView { to: self.to@, subject: self.subject@, body: self.body@ }
    }
}

/// A notice a sweep gives: on the live stream always, to the service's
/// endpoint where it is about a service, by e-mail where there is one to send.
pub struct SweepNotice {
    /// The account it concerns.
    pub account_id: String,
    /// The service it is about, or the account.
    pub about: String,
    pub kind: NoticeKind,
    pub detail: Option<String>,
    /// The service whose endpoint is told.
    pub webhook: Option<Watch>,
    pub mail: Option<Mail>,
}

/// What a notice says.
pub ghost struct SweepNoticeView {
    pub account_id: Seq<char>,
    pub about: Seq<char>,
    pub kind: NoticeKind,
    pub detail: Option<Seq<char>>,
    pub webhook: Option<Watch>,
    pub mail: Option<MailView>,
}

impl View for SweepNotice {
    type V = SweepNoticeView;

    open spec fn view(&self) -> SweepNoticeView {
        SweepNoticeView {
            account_id: self.account_id@,
            about: self.about@,
            kind: self.kind,
            detail: opt_text(self.detail),
            webhook: self.webhook,
            mail: match self.mail {
                Some(m) => Some(m@),
                None => None,
            },
        }
    }
}

/// What a sweep remembers of the ones before, so that a notice is given when a
/// line is crossed and not on every pass.
pub struct SweepMarks {
    /// Services warned that their month is ending.
    pub ending: IdSet,
    /// Services whose stop was told.
    pub stopped: IdSet,
    /// Accounts warned that their pool is low.
    pub low: IdSet,
}

impl SweepMarks {
    /// Nothing told yet.
    pub fn new() -> (r: SweepMarks)
        ensures
            r.ending@ == Set::<Seq<char>>::empty(),
            r.stopped@ == Set::<Seq<char>>::empty(),
            r.low@ == Set::<Seq<char>>::empty(),
    {
        SweepMarks { ending: IdSet::new(), stopped: IdSet::new(), low: IdSet::new() }
    }
}

/// What a sweep runs by.
#[derive(Clone, Copy)]
pub struct SweepRules {
    /// The time, in unix seconds.
    pub now: i64,
    /// What one credit buys, in seconds.
    pub month: i64,
    /// How long before the end of a month a service is warned, in seconds.
    pub warn_before: i64,
    /// The pool is low at this many credits or fewer.
    pub low_pool: i64,
}

/// What a sweep asks for.
pub struct SweepReport {
    /// The notices to give, in order.
    pub notices: Vec<SweepNotice>,
    /// Whether a service stopped, so that the running ones have to be
    /// reconciled.
    pub reconcile: bool,
}

// --- what a pass does ---

/// A sweep under way.
pub ghost struct SweepView {
    pub watches: Seq<Watch>,
    pub accounts: Seq<AccountRecord>,
    pub ending: Set<Seq<char>>,
    pub stopped: Set<Seq<char>>,
    pub low: Set<Seq<char>>,
    pub notices: Seq<SweepNoticeView>,
    pub reconcile: bool,
}

/// Days left, counting a day begun as a day.
pub open spec fn days_left(secs: int) -> int {
    (secs + 86_399) / 86_400
}

/// The warning that a service's month is ending.
pub open spec fn ending_notice(st: SweepView, w: Watch, left: int) -> SweepNoticeView {
    SweepNoticeView {
        account_id: w.account_id@,
        about: w.id@,
        kind: NoticeKind::WatchEnding,
        detail: Some(decimal_of(days_left(left)) + "d left"@),
        webhook: first_where(st.watches, watch_is(w.id@)),
        mail: None,
    }
}

/// The address of an account, where it has one.
pub open spec fn address_of(accounts: Seq<AccountRecord>, id: Seq<char>) -> Option<Seq<char>> {
    match first_where(accounts, account_is(id)) {
        Some(a) => opt_text(a.email),
        None => None,
    }
}

/// An e-mail to an account, where it has an address.
pub open spec fn mail_to(
    accounts: Seq<AccountRecord>,
    id: Seq<char>,
    subject: Seq<char>,
    body: Seq<char>,
) -> Option<MailView> {
    match address_of(accounts, id) {
        Some(to) => Some(MailView { to, subject, body }),
        None => None,
    }
}

/// The notice that a service stopped.
pub open spec fn stopped_notice(st: SweepView, w: Watch) -> SweepNoticeView {
    SweepNoticeView {
        account_id: w.account_id@,
        about: w.id@,
        kind: NoticeKind::WatchStopped,
        detail: None,
        webhook: first_where(st.watches, watch_is(w.id@)),
        mail: mail_to(
            st.accounts,
            w.account_id@,
            "Carillon: a watch stopped"@,
            "Watching "@ + mailbox_key_of(w.login@, w.imap_host@)
                + " stopped — its month ended and there were no credits to renew it. Buy credits and re-activate it to resume."@,
        ),
    }
}

/// What a pass does about one service.
pub open spec fn watch_step(st: SweepView, w: Watch, rules: SweepRules) -> SweepView {
    match w.watching_until {
        // never activated
        None => st,
        Some(until) => if rules.now < until {
            let paid = SweepView { stopped: st.stopped.remove(w.id@), ..st };
            if until - rules.now > rules.warn_before {
                SweepView { ending: st.ending.remove(w.id@), ..paid }
            } else if st.ending.contains(w.id@) {
                paid
            } else {
                SweepView {
                    ending: st.ending.insert(w.id@),
                    notices: st.notices.push(ending_notice(st, w, until - rules.now)),
                    ..paid
                }
            }
        } else {
            let over = SweepView { ending: st.ending.remove(w.id@), ..st };
            if w.auto_renew && any_where(st.accounts, account_holding(w.account_id@, 1)) {
                SweepView {
                    accounts: update_where(
                        st.accounts,
                        account_holding(w.account_id@, 1),
                        with_credits_added(-1),
                    ),
                    watches: update_where(
                        st.watches,
                        watch_is(w.id@),
                        with_until(clamp(rules.now + rules.month) as i64),
                    ),
                    stopped: st.stopped.remove(w.id@),
                    ..over
                }
            } else if st.stopped.contains(w.id@) {
                SweepView { reconcile: true, ..over }
            } else {
                SweepView {
                    reconcile: true,
                    stopped: st.stopped.insert(w.id@),
                    notices: st.notices.push(stopped_notice(st, w)),
                    ..over
                }
            }
        },
    }
}

/// What a pass does about services, one after the other.
pub open spec fn watch_steps(st: SweepView, ws: Seq<Watch>, rules: SweepRules) -> SweepView
    decreases ws.len(),
{
    if ws.len() == 0 {
        st
    } else {
        watch_step(watch_steps(st, ws.drop_last(), rules), ws.last(), rules)
    }
}

/// The accounts of services, each once, in the order they first come up.
pub open spec fn accounts_seen(ws: Seq<Watch>) -> Seq<Seq<char>>
    decreases ws.len(),
{
    if ws.len() == 0 {
        Seq::empty()
    } else {
        let before = accounts_seen(ws.drop_last());
        if before.contains(ws.last().account_id@) {
            before
        } else {
            before.push(ws.last().account_id@)
        }
    }
}

/// Whether an account has a service that renews itself.
pub open spec fn renews(ws: Seq<Watch>, account: Seq<char>) -> bool {
    exists|i: int|
        0 <= i < ws.len() && (#[trigger] ws[i]).auto_renew && ws[i].account_id@ == account
}

/// The credits of an account; none where there is no such account.
pub open spec fn credits_of(accounts: Seq<AccountRecord>, id: Seq<char>) -> int {
    match first_where(accounts, account_is(id)) {
        Some(a) => a.credits as int,
        None => 0,
    }
}

/// The warning that a pool is low.
pub open spec fn low_notice(st: SweepView, account: Seq<char>) -> SweepNoticeView {
    let credits = credits_of(st.accounts, account);
    SweepNoticeView {
        account_id: account,
        about: account,
        kind: NoticeKind::LowPool,
        detail: Some(decimal_of(credits) + " left"@),
        webhook: None,
        mail: mail_to(
            st.accounts,
            account,
            "Carillon: credits running low"@,
            "Your credit pool is down to "@ + decimal_of(credits)
                + ". Top it up so your auto-renewing services don't stop when it empties."@,
        ),
    }
}

/// What a pass does about one account's pool.
pub open spec fn pool_step(
    st: SweepView,
    ws: Seq<Watch>,
    account: Seq<char>,
    rules: SweepRules,
) -> SweepView {
    let credits = credits_of(st.accounts, account);
    if renews(ws, account) && 0 < credits <= rules.low_pool {
        if st.low.contains(account) {
            st
        } else {
            SweepView {
                low: st.low.insert(account),
                notices: st.notices.push(low_notice(st, account)),
                ..st
            }
        }
    } else {
        SweepView { low: st.low.remove(account), ..st }
    }
}

pub open spec fn pool_steps(
    st: SweepView,
    ws: Seq<Watch>,
    accounts: Seq<Seq<char>>,
    rules: SweepRules,
) -> SweepView
    decreases accounts.len(),
{
    if accounts.len() == 0 {
        st
    } else {
        pool_step(pool_steps(st, ws, accounts.drop_last(), rules), ws, accounts.last(), rules)
    }
}

/// What one pass does: first the active services, then the pools they draw
/// from.
pub open spec fn swept(st: SweepView, rules: SweepRules) -> SweepView {
    let ws = st.watches.filter(watch_active());
    pool_steps(watch_steps(st, ws, rules), ws, accounts_seen(ws), rules)
}

/// A sweep about to begin.
pub open spec fn sweep_start(store: Store, marks: SweepMarks) -> SweepView {
    SweepView {
        watches: store.watches@,
        accounts: store.accounts@,
        ending: marks.ending@,
        stopped: marks.stopped@,
        low: marks.low@,
        notices: Seq::empty(),
        reconcile: false,
    }
}

/// The notices of a report.
pub open spec fn notices_of(notices: Seq<SweepNotice>) -> Seq<SweepNoticeView> {
    notices.map_values(|n: SweepNotice| n@)
}

/// A sweep under way, as the store, the marks and the report hold it.
pub open spec fn sweep_at(
    store: Store,
    marks: SweepMarks,
    notices: Seq<SweepNotice>,
    reconcile: bool,
) -> SweepView {
    SweepView {
        watches: store.watches@,
        accounts: store.accounts@,
        ending: marks.ending@,
        stopped: marks.stopped@,
        low: marks.low@,
        notices: notices_of(notices),
        reconcile,
    }
}

fn mail_for(store: &Store, account_id: &str, subject: &str, body: &str) -> (r: Option<Mail>)
    ensures
        (match r {
            Some(m) => Some(m@),
            None => None,
        }) == mail_to(store.accounts@, account_id@, subject@, body@),
{
    match store.get_account(account_id) {
        Some(account) => match account.email {
            Some(to) => Some(
                Mail { to, subject: subject.to_owned(), body: body.to_owned() },
            ),
            None => None,
        },
        None => None,
    }
}

fn push_notice(notices: &mut Vec<SweepNotice>, notice: SweepNotice)
    ensures
        notices_of(final(notices)@) == notices_of(old(notices)@).push(notice@),
{
    notices.push(notice);
    assert(notices_of(notices@) =~= notices_of(old(notices)@).push(notice@));
}

/// Sweeps one service.
fn sweep_watch(
    store: &mut Store,
    marks: &mut SweepMarks,
    notices: &mut Vec<SweepNotice>,
    reconcile: bool,
    watch: &Watch,
    rules: SweepRules,
) -> (r: bool)
    ensures
        sweep_at(*final(store), *final(marks), final(notices)@, r) == watch_step(
            sweep_at(*old(store), *old(marks), old(notices)@, reconcile),
            *watch,
            rules,
        ),
        *final(store) == (Store {
            watches: final(store).watches,
            accounts: final(store).accounts,
            ..*old(store)
        }),
        old(store).wf() ==> final(store).wf(),
{
    let ghost before = sweep_at(*store, *marks, notices@, reconcile);
    let id = watch.id.as_str();
    let until: i64 = match watch.watching_until {
        None => {
            return reconcile;
        },
        Some(until) => until,
    };
    if rules.now < until {
        let left: i128 = until as i128 - rules.now as i128;
        marks.stopped.remove(id);
        if left > rules.warn_before as i128 {
            marks.ending.remove(id);
        } else if marks.ending.insert(id) {
            let days: i64 = ((left + 86_399) / 86_400) as i64;
            let mut detail = decimal_i64(days);
            detail.append("d left");
            push_notice(
                notices,
                SweepNotice {
                    account_id: watch.account_id.clone(),
                    about: watch.id.clone(),
                    kind: NoticeKind::WatchEnding,
                    detail: Some(detail),
                    webhook: store.get_watch(id),
                    mail: None,
                },
            );
        } else {
            assert(marks.ending@ =~= before.ending);
        }
        return reconcile;
    }
    marks.ending.remove(id);
    if watch.auto_renew && store.debit_credit(watch.account_id.as_str()) {
        store.set_watch_watching_until(id, add_clamped(rules.now, rules.month));
        marks.stopped.remove(id);
        return reconcile;
    }
    proof {
        if watch.auto_renew {
            crate::table::lemma_update_none(
                before.accounts,
                account_holding(watch.account_id@, 1),
                with_credits_added(-1),
            );
        }
    }
    if marks.stopped.insert(id) {
        let key = mailbox_key(watch.login.as_str(), watch.imap_host.as_str());
        let mut body = "Watching ".to_owned();
        body.append(key.as_str());
        body.append(
            " stopped — its month ended and there were no credits to renew it. Buy credits and re-activate it to resume.",
        );
        push_notice(
            notices,
            SweepNotice {
                account_id: watch.account_id.clone(),
                about: watch.id.clone(),
                kind: NoticeKind::WatchStopped,
                detail: None,
                webhook: store.get_watch(id),
                mail: mail_for(
                    store,
                    watch.account_id.as_str(),
                    "Carillon: a watch stopped",
                    body.as_str(),
                ),
            },
        );
    } else {
        assert(marks.stopped@ =~= before.stopped);
    }
    true
}

/// The accounts of services, each once, and whether each has a service that
/// renews itself.
fn seen_accounts(ws: &Vec<Watch>) -> (r: Vec<String>)
    ensures
        crate::text::texts(r@) == accounts_seen(ws@),
{
    let mut out: Vec<String> = Vec::new();
    let mut i: usize = 0;
    assert(crate::text::texts(out@) =~= accounts_seen(ws@.take(0)));
    while i < ws.len()
        invariant
            i <= ws@.len(),
            crate::text::texts(out@) == accounts_seen(ws@.take(i as int)),
        decreases ws@.len() - i,
    {
        let name = &ws[i].account_id;
        let ghost seen = crate::text::texts(out@);
        let mut known = false;
        let mut k: usize = 0;
        while k < out.len()
            invariant
                k <= out@.len(),
                seen == crate::text::texts(out@),
                known == exists|j: int| 0 <= j < k && #[trigger] seen[j] == name@,
            decreases out@.len() - k,
        {
            assert(seen[k as int] == out@[k as int]@);
            if same(out[k].as_str(), name.as_str()) {
                known = true;
            }
            k += 1;
        }
        proof {
            assert(known == seen.contains(name@)) by {
                if seen.contains(name@) {
                    let j = choose|j: int| 0 <= j < seen.len() && seen[j] == name@;
                    assert(seen[j] == name@);
                }
            }
            assert(ws@.take(i + 1).drop_last() =~= ws@.take(i as int));
            assert(ws@.take(i + 1).last() == ws@[i as int]);
        }
        if !known {
            let ghost was = out@;
            out.push(name.clone());
            assert(crate::text::texts(out@) =~= seen.push(name@));
        }
        i += 1;
    }
    assert(ws@.take(i as int) =~= ws@);
    out
}

fn account_renews(ws: &Vec<Watch>, account: &str) -> (r: bool)
    ensures
        r == renews(ws@, account@),
{
    let mut i: usize = 0;
    while i < ws.len()
        invariant
            i <= ws@.len(),
            forall|j: int|
                0 <= j < i ==> !((#[trigger] ws@[j]).auto_renew && ws@[j].account_id@ == account@),
        decreases ws@.len() - i,
    {
        if ws[i].auto_renew && same(ws[i].account_id.as_str(), account) {
            return true;
        }
        i += 1;
    }
    false
}

/// Sweeps one account's pool.
fn sweep_pool(
    store: &Store,
    marks: &mut SweepMarks,
    notices: &mut Vec<SweepNotice>,
    reconcile: bool,
    ws: &Vec<Watch>,
    account: &String,
    rules: SweepRules,
)
    ensures
        sweep_at(*store, *final(marks), final(notices)@, reconcile) == pool_step(
            sweep_at(*store, *old(marks), old(notices)@, reconcile),
            ws@,
            account@,
            rules,
        ),
{
    let ghost before = sweep_at(*store, *marks, notices@, reconcile);
    let credits: i64 = match store.get_account(account.as_str()) {
        Some(row) => row.credits,
        None => 0,
    };
    let low = account_renews(ws, account.as_str()) && credits > 0 && credits <= rules.low_pool;
    if low {
        if marks.low.insert(account.as_str()) {
            let mut detail = decimal_i64(credits);
            detail.append(" left");
            let mut body = "Your credit pool is down to ".to_owned();
            let count = decimal_i64(credits);
            body.append(count.as_str());
            body.append(". Top it up so your auto-renewing services don't stop when it empties.");
            push_notice(
                notices,
                SweepNotice {
                    account_id: account.clone(),
                    about: account.clone(),
                    kind: NoticeKind::LowPool,
                    detail: Some(detail),
                    webhook: None,
                    mail: mail_for(
                        store,
                        account.as_str(),
                        "Carillon: credits running low",
                        body.as_str(),
                    ),
                },
            );
        } else {
            assert(marks.low@ =~= before.low);
        }
    } else {
        marks.low.remove(account.as_str());
    }
}

/// One pass. Warns services whose month is ending, renews those that lapsed
/// and renew themselves, one credit each, while their pool lasts, tells of the
/// others that they stopped, and warns of pools that run low. Services come in
/// the order they were declared, so that earlier ones win a pool that does not
/// cover all.
pub fn sweep(store: &mut Store, marks: &mut SweepMarks, rules: SweepRules) -> (r: SweepReport)
    ensures
        sweep_at(*final(store), *final(marks), r.notices@, r.reconcile) == swept(
            sweep_start(*old(store), *old(marks)),
            rules,
        ),
        *final(store) == (Store {
            watches: final(store).watches,
            accounts: final(store).accounts,
            ..*old(store)
        }),
        old(store).wf() ==> final(store).wf(),
{
    let ghost start = sweep_start(*store, *marks);
    let watches = store.active_watches();
    let ghost ws = watches@;
    let mut notices: Vec<SweepNotice> = Vec::new();
    let mut reconcile = false;
    let mut i: usize = 0;
    assert(notices_of(notices@) =~= Seq::empty());
    assert(ws.take(0) =~= Seq::empty());
    while i < watches.len()
        invariant
            i <= ws.len(),
            watches@ == ws,
            sweep_at(*store, *marks, notices@, reconcile) == watch_steps(
                start,
                ws.take(i as int),
                rules,
            ),
            *store == (Store {
                watches: store.watches,
                accounts: store.accounts,
                ..*old(store)
            }),
            old(store).wf() ==> store.wf(),
        decreases ws.len() - i,
    {
        proof {
            assert(ws.take(i + 1).drop_last() =~= ws.take(i as int));
            assert(ws.take(i + 1).last() == ws[i as int]);
        }
        reconcile = sweep_watch(store, marks, &mut notices, reconcile, &watches[i], rules);
        i += 1;
    }
    assert(ws.take(i as int) =~= ws);
    let accounts = seen_accounts(&watches);
    let ghost names = crate::text::texts(accounts@);
    let ghost mid = watch_steps(start, ws, rules);
    let mut k: usize = 0;
    assert(names.take(0) =~= Seq::empty());
    while k < accounts.len()
        invariant
            k <= accounts@.len(),
            watches@ == ws,
            names == crate::text::texts(accounts@),
            sweep_at(*store, *marks, notices@, reconcile) == pool_steps(
                mid,
                ws,
                names.take(k as int),
                rules,
            ),
        decreases accounts@.len() - k,
    {
        proof {
            assert(names.take(k + 1).drop_last() =~= names.take(k as int));
            assert(names.take(k + 1).last() == accounts@[k as int]@);
        }
        sweep_pool(store, marks, &mut notices, reconcile, &watches, &accounts[k], rules);
        k += 1;
    }
    assert(names.take(k as int) =~= names);
    SweepReport { notices, reconcile }
}

// --- laws ---

/// Whether a service is renewed at its turn: it lapsed, it renews itself, and
/// its pool holds a credit.
pub open spec fn renewed(st: SweepView, w: Watch, rules: SweepRules) -> bool {
    &&& w.watching_until is Some
    &&& !entitled(w.watching_until, rules.now as int)
    &&& w.auto_renew
    &&& any_where(st.accounts, account_holding(w.account_id@, 1))
}

/// Every renewal is paid with one credit of the account's pool, and nothing
/// else in a pass touches a pool or a service.
pub proof fn renewal_costs_one_credit(st: SweepView, w: Watch, rules: SweepRules)
    ensures
        ({
            let after = watch_step(st, w, rules);
            if renewed(st, w, rules) {
                &&& after.accounts == update_where(
                    st.accounts,
                    account_holding(w.account_id@, 1),
                    with_credits_added(-1),
                )
                &&& after.watches == update_where(
                    st.watches,
                    watch_is(w.id@),
                    with_until(clamp(rules.now + rules.month) as i64),
                )
            } else {
                after.accounts == st.accounts && after.watches == st.watches
            }
        }),
{
}

/// A service that is paid for is never stopped, renewed or debited for.
pub proof fn paid_service_is_left_alone(st: SweepView, w: Watch, rules: SweepRules)
    requires
        entitled(w.watching_until, rules.now as int),
    ensures
        ({
            let after = watch_step(st, w, rules);
            &&& after.accounts == st.accounts
            &&& after.watches == st.watches
            &&& after.reconcile == st.reconcile
            &&& !after.stopped.contains(w.id@)
            &&& forall|i: int|
                0 <= i < after.notices.len() && (#[trigger] after.notices[i]).kind
                    == NoticeKind::WatchStopped ==> i < st.notices.len()
        }),
{
}

proof fn lemma_pool_shrinks(st: SweepView, w: Watch, rules: SweepRules, account: Seq<char>)
    requires
        any_where(watch_step(st, w, rules).accounts, account_holding(account, 1)),
    ensures
        any_where(st.accounts, account_holding(account, 1)),
{
    let after = watch_step(st, w, rules).accounts;
    let i = choose|i: int|
        0 <= i < after.len() && account_holding(account, 1)(#[trigger] after[i]);
    assert(account_holding(account, 1)(st.accounts[i]));
}

proof fn lemma_pool_shrinks_along(
    st: SweepView,
    ws: Seq<Watch>,
    rules: SweepRules,
    account: Seq<char>,
    i: int,
    j: int,
)
    requires
        0 <= i <= j <= ws.len(),
        any_where(
            watch_steps(st, ws.take(j), rules).accounts,
            account_holding(account, 1),
        ),
    ensures
        any_where(
            watch_steps(st, ws.take(i), rules).accounts,
            account_holding(account, 1),
        ),
    decreases j - i,
{
    if i < j {
        let before = ws.take(j - 1);
        assert(ws.take(j).drop_last() =~= before);
        lemma_pool_shrinks(watch_steps(st, before, rules), ws.take(j).last(), rules, account);
        lemma_pool_shrinks_along(st, ws, rules, account, i, j - 1);
    }
}

/// Where a pool does not cover every renewal, the services declared earlier
/// win: once one of them is not renewed for want of a credit, none behind it
/// that draws on the same pool is.
pub proof fn earlier_services_win_the_pool(
    st: SweepView,
    ws: Seq<Watch>,
    rules: SweepRules,
    i: int,
    j: int,
)
    requires
        0 <= i < j < ws.len(),
        ws[i].account_id@ == ws[j].account_id@,
        ws[i].watching_until is Some,
        !entitled(ws[i].watching_until, rules.now as int),
        ws[i].auto_renew,
        !renewed(watch_steps(st, ws.take(i), rules), ws[i], rules),
    ensures
        !renewed(watch_steps(st, ws.take(j), rules), ws[j], rules),
{
    if renewed(watch_steps(st, ws.take(j), rules), ws[j], rules) {
        lemma_pool_shrinks_along(st, ws, rules, ws[j].account_id@, i, j);
    }
}

/// A service is warned once for a month that is ending, and told once that it
/// stopped: what was told is not told again while it stays so.
pub proof fn notices_are_given_once(st: SweepView, w: Watch, rules: SweepRules, again: SweepView)
    requires
        again.ending == watch_step(st, w, rules).ending,
        again.stopped == watch_step(st, w, rules).stopped,
        !renewed(st, w, rules),
        !renewed(again, w, rules),
    ensures
        watch_step(again, w, rules).notices == again.notices,
{
}

/// A service that lapsed and was not renewed asks for the running services to
/// be reconciled, on every pass until it is paid for again.
pub proof fn lapsed_service_is_reconciled(st: SweepView, w: Watch, rules: SweepRules)
    requires
        w.watching_until is Some,
        !entitled(w.watching_until, rules.now as int),
        !renewed(st, w, rules),
    ensures
        watch_step(st, w, rules).reconcile,
        watch_step(st, w, rules).stopped.contains(w.id@),
{
}

/// Whether a service's month is ending: it is paid for, and not for longer than
/// services are warned before.
pub open spec fn is_ending(w: Watch, rules: SweepRules) -> bool {
    w.watching_until matches Some(until) && rules.now < until && until - rules.now
        <= rules.warn_before
}

/// Whether a notice is the warning that the month of a service is ending.
pub open spec fn warns_of(id: Seq<char>) -> spec_fn(SweepNoticeView) -> bool {
    |n: SweepNoticeView| n.kind == NoticeKind::WatchEnding && n.about == id
}

/// How many of the notices warn that the month of a service is ending.
pub open spec fn warnings(notices: Seq<SweepNoticeView>, id: Seq<char>) -> nat {
    notices.filter(warns_of(id)).len()
}

proof fn lemma_step_warns(st: SweepView, w: Watch, rules: SweepRules, id: Seq<char>)
    ensures
        ({
            let after = watch_step(st, w, rules);
            let told = if w.id@ == id && is_ending(w, rules) && !st.ending.contains(id) {
                1nat
            } else {
                0
            };
            &&& warnings(after.notices, id) == warnings(st.notices, id) + told
            &&& w.id@ != id ==> after.ending.contains(id) == st.ending.contains(id)
            &&& w.id@ == id && is_ending(w, rules) ==> after.ending.contains(id)
        }),
{
    if let Some(until) = w.watching_until {
        lemma_filter_push(st.notices, warns_of(id), ending_notice(st, w, until - rules.now));
        lemma_filter_push(st.notices, warns_of(id), stopped_notice(st, w));
    }
}

proof fn lemma_steps_warn(st: SweepView, ws: Seq<Watch>, w: Watch, rules: SweepRules)
    requires
        distinct(ws, watch_key()),
        is_ending(w, rules),
    ensures
        ({
            let after = watch_steps(st, ws, rules);
            let told = if ws.contains(w) && !st.ending.contains(w.id@) {
                1nat
            } else {
                0
            };
            &&& ws.contains(w) ==> warnings(after.notices, w.id@) == warnings(st.notices, w.id@)
                + told && after.ending.contains(w.id@)
            &&& !any_where(ws, watch_is(w.id@)) ==> warnings(after.notices, w.id@) == warnings(
                st.notices,
                w.id@,
            ) && after.ending.contains(w.id@) == st.ending.contains(w.id@)
        }),
    decreases ws.len(),
{
    if ws.len() > 0 {
        let t = ws.drop_last();
        let own = watch_is(w.id@);
        assert(distinct(t, watch_key())) by {
            assert forall|i: int, j: int| 0 <= i < j < t.len() implies watch_key()(
                #[trigger] t[i],
            ) != watch_key()(#[trigger] t[j]) by {
                assert(watch_key()(ws[i]) != watch_key()(ws[j]));
            }
        }
        lemma_steps_warn(st, t, w, rules);
        lemma_step_warns(watch_steps(st, t, rules), ws.last(), rules, w.id@);
        let last = ws.len() - 1;
        if any_where(t, own) {
            let i = choose|i: int| 0 <= i < t.len() && own(#[trigger] t[i]);
            assert(own(ws[i]));
            assert(watch_key()(ws[i]) != watch_key()(ws[last]));
        }
        if ws.contains(w) {
            let k = choose|k: int| 0 <= k < ws.len() && ws[k] == w;
            assert(own(ws[k]));
            if k < last {
                assert(t[k] == w);
                assert(watch_key()(ws[k]) != watch_key()(ws[last]));
            }
        }
        if ws.last().id@ == w.id@ {
            assert(own(ws[last]));
        }
    }
}

proof fn lemma_pools_warn_of_no_month(
    st: SweepView,
    ws: Seq<Watch>,
    accounts: Seq<Seq<char>>,
    rules: SweepRules,
    id: Seq<char>,
)
    ensures
        ({
            let after = pool_steps(st, ws, accounts, rules);
            &&& warnings(after.notices, id) == warnings(st.notices, id)
            &&& after.ending == st.ending
        }),
    decreases accounts.len(),
{
    if accounts.len() > 0 {
        let t = accounts.drop_last();
        lemma_pools_warn_of_no_month(st, ws, t, rules, id);
        let mid = pool_steps(st, ws, t, rules);
        lemma_filter_push(mid.notices, warns_of(id), low_notice(mid, accounts.last()));
    }
}

/// Over a whole pass, an active service whose month is ending is warned exactly
/// once where it was not warned before, and not at all where it was; either way
/// it counts as warned.
pub proof fn ending_service_is_warned_once(st: SweepView, w: Watch, rules: SweepRules)
    requires
        distinct(st.watches, watch_key()),
        st.watches.contains(w),
        w.active,
        is_ending(w, rules),
    ensures
        warnings(swept(st, rules).notices, w.id@) == warnings(st.notices, w.id@) + if st.ending.contains(
            w.id@,
        ) {
            0nat
        } else {
            1
        },
        swept(st, rules).ending.contains(w.id@),
{
    let ws = st.watches.filter(watch_active());
    lemma_filter_distinct(st.watches, watch_key(), watch_active());
    lemma_filter_contains(st.watches, watch_active(), w);
    lemma_steps_warn(st, ws, w, rules);
    lemma_pools_warn_of_no_month(
        watch_steps(st, ws, rules),
        ws,
        accounts_seen(ws),
        rules,
        w.id@,
    );
}

/// A pass that remembers what an earlier one told does not warn a service again
/// while its month is still ending.
pub proof fn warning_is_not_repeated(
    st: SweepView,
    w: Watch,
    rules: SweepRules,
    next: SweepView,
    later: SweepRules,
)
    requires
        distinct(st.watches, watch_key()),
        st.watches.contains(w),
        w.active,
        is_ending(w, rules),
        distinct(next.watches, watch_key()),
        next.watches.contains(w),
        next.ending == swept(st, rules).ending,
        is_ending(w, later),
    ensures
        warnings(swept(next, later).notices, w.id@) == warnings(next.notices, w.id@),
{
    ending_service_is_warned_once(st, w, rules);
    ending_service_is_warned_once(next, w, later);
}

/// Whether a service has lapsed: it was paid for, and no longer is.
pub open spec fn has_lapsed(w: Watch, rules: SweepRules) -> bool {
    w.watching_until matches Some(until) && until <= rules.now
}

/// Whether a notice tells that a service stopped.
pub open spec fn tells_stop_of(id: Seq<char>) -> spec_fn(SweepNoticeView) -> bool {
    |n: SweepNoticeView| n.kind == NoticeKind::WatchStopped && n.about == id
}

/// How many of the notices tell that a service stopped.
pub open spec fn stops(notices: Seq<SweepNoticeView>, id: Seq<char>) -> nat {
    notices.filter(tells_stop_of(id)).len()
}

/// Whether an account can pay for a renewal.
pub open spec fn can_pay(accounts: Seq<AccountRecord>, id: Seq<char>) -> bool {
    exists|i: int| 0 <= i < accounts.len() && (#[trigger] accounts[i]).id@ == id
        && accounts[i].credits >= 1
}

/// Whether a service stands in a table once, at an index.
pub open spec fn stands_at(watches: Seq<Watch>, w: Watch, i: int) -> bool {
    &&& 0 <= i < watches.len()
    &&& watches[i] == w
    &&& forall|j: int| 0 <= j < watches.len() && j != i ==> (#[trigger] watches[j]).id@ != w.id@
}

/// What one turn does to a service that stands at an index: its own turn may
/// renew it, and tells of its stop where it does not; nobody else's does either.
proof fn lemma_turn(st: SweepView, v: Watch, rules: SweepRules, w: Watch, i: int)
    requires
        0 <= i < st.watches.len(),
        st.watches[i].id@ == w.id@,
    ensures
        ({
            let after = watch_step(st, v, rules);
            let own = v.id@ == w.id@;
            let pays = v.auto_renew && can_pay(st.accounts, v.account_id@);
            let told = stops(after.notices, w.id@) - stops(st.notices, w.id@);
            &&& after.watches.len() == st.watches.len()
            &&& forall|j: int| 0 <= j < st.watches.len() ==> (#[trigger] after.watches[j]).id
                == st.watches[j].id
            &&& after.watches[i] == if own && has_lapsed(v, rules) && pays {
                Watch {
                    watching_until: Some(clamp(rules.now + rules.month) as i64),
                    ..st.watches[i]
                }
            } else {
                st.watches[i]
            }
            &&& told == if own && has_lapsed(v, rules) && !pays && !st.stopped.contains(w.id@) {
                1int
            } else {
                0
            }
            &&& !own ==> after.stopped.contains(w.id@) == st.stopped.contains(w.id@)
            &&& own && has_lapsed(v, rules) ==> after.stopped.contains(w.id@) == !pays
            &&& own && has_lapsed(v, rules) && !pays ==> after.reconcile
            &&& st.reconcile ==> after.reconcile
        }),
{
    let after = watch_step(st, v, rules);
    let id = w.id@;
    if let Some(until) = v.watching_until {
        lemma_filter_push(st.notices, tells_stop_of(id), ending_notice(st, v, until - rules.now));
        lemma_filter_push(st.notices, tells_stop_of(id), stopped_notice(st, v));
    }
    let p = account_holding(v.account_id@, 1);
    if any_where(st.accounts, p) {
        let k = choose|k: int| 0 <= k < st.accounts.len() && p(#[trigger] st.accounts[k]);
        assert(st.accounts[k].id@ == v.account_id@ && st.accounts[k].credits >= 1);
    }
    if can_pay(st.accounts, v.account_id@) {
        let k = choose|k: int| 0 <= k < st.accounts.len() && (#[trigger] st.accounts[k]).id@
            == v.account_id@ && st.accounts[k].credits >= 1;
        assert(p(st.accounts[k]));
    }
}

proof fn lemma_turns(st: SweepView, ws: Seq<Watch>, rules: SweepRules, w: Watch, i: int)
    requires
        stands_at(st.watches, w, i),
        forall|j: int, k: int|
            0 <= j < k < ws.len() ==> (#[trigger] ws[j]).id@ != (#[trigger] ws[k]).id@,
        has_lapsed(w, rules),
    ensures
        ({
            let after = watch_steps(st, ws, rules);
            let x = after.watches[i];
            let told = stops(after.notices, w.id@) - stops(st.notices, w.id@);
            let renewed = Watch {
                watching_until: Some(clamp(rules.now + rules.month) as i64),
                ..w
            };
            &&& after.watches.len() == st.watches.len()
            &&& forall|j: int| 0 <= j < st.watches.len() ==> (#[trigger] after.watches[j]).id
                == st.watches[j].id
            &&& st.reconcile ==> after.reconcile
            &&& (forall|j: int| 0 <= j < ws.len() ==> (#[trigger] ws[j]).id@ != w.id@) ==> {
                &&& x == w
                &&& told == 0
                &&& after.stopped.contains(w.id@) == st.stopped.contains(w.id@)
            }
            &&& ws.contains(w) ==> {
                ||| {
                    &&& w.auto_renew
                    &&& x == renewed
                    &&& told == 0
                    &&& !after.stopped.contains(w.id@)
                }
                ||| {
                    &&& x == w
                    &&& told == if st.stopped.contains(w.id@) {
                        0int
                    } else {
                        1
                    }
                    &&& after.stopped.contains(w.id@)
                    &&& after.reconcile
                }
            }
            &&& ws.contains(w) && (!w.auto_renew || !can_pay(st.accounts, w.account_id@)) ==> x == w
                && after.stopped.contains(w.id@)
            &&& !can_pay(st.accounts, w.account_id@) ==> !can_pay(after.accounts, w.account_id@)
        }),
    decreases ws.len(),
{
    if ws.len() > 0 {
        let t = ws.drop_last();
        let v = ws.last();
        let last = ws.len() - 1;
        assert forall|j: int, k: int| 0 <= j < k < t.len() implies (#[trigger] t[j]).id@ != (
        #[trigger] t[k]).id@ by {
            assert(ws[j].id@ != ws[k].id@);
        }
        lemma_turns(st, t, rules, w, i);
        let mid = watch_steps(st, t, rules);
        assert(mid.watches[i].id == st.watches[i].id);
        lemma_turn(mid, v, rules, w, i);
        let after = watch_step(mid, v, rules);
        if can_pay(after.accounts, w.account_id@) {
            let k = choose|k: int| 0 <= k < after.accounts.len() && (#[trigger] after.accounts[k]).id@
                == w.account_id@ && after.accounts[k].credits >= 1;
            assert(mid.accounts[k].id@ == w.account_id@ && mid.accounts[k].credits >= 1);
        }
        if ws.contains(w) {
            let k = choose|k: int| 0 <= k < ws.len() && ws[k] == w;
            if k < last {
                assert(t[k] == w);
                assert(ws[k].id@ != ws[last].id@);
            } else {
                assert forall|j: int| 0 <= j < t.len() implies (#[trigger] t[j]).id@ != w.id@ by {
                    assert(ws[j].id@ != ws[last].id@);
                }
            }
        }
        if forall|j: int| 0 <= j < ws.len() ==> (#[trigger] ws[j]).id@ != w.id@ {
            assert forall|j: int| 0 <= j < t.len() implies (#[trigger] t[j]).id@ != w.id@ by {
                assert(ws[j].id@ != w.id@);
            }
            assert(ws[last].id@ != w.id@);
        }
    }
}

proof fn lemma_pools_tell_of_no_stop(
    st: SweepView,
    ws: Seq<Watch>,
    accounts: Seq<Seq<char>>,
    rules: SweepRules,
    id: Seq<char>,
)
    ensures
        ({
            let after = pool_steps(st, ws, accounts, rules);
            &&& stops(after.notices, id) == stops(st.notices, id)
            &&& after.stopped == st.stopped
            &&& after.watches == st.watches
            &&& after.accounts == st.accounts
            &&& after.reconcile == st.reconcile
        }),
    decreases accounts.len(),
{
    if accounts.len() > 0 {
        let t = accounts.drop_last();
        lemma_pools_tell_of_no_stop(st, ws, t, rules, id);
        let mid = pool_steps(st, ws, t, rules);
        lemma_filter_push(mid.notices, tells_stop_of(id), low_notice(mid, accounts.last()));
    }
}

proof fn lemma_active(st: SweepView, w: Watch)
    ensures
        st.watches.filter(watch_active()).contains(w) <==> st.watches.contains(w) && w.active,
{
    lemma_filter_contains(st.watches, watch_active(), w);
}

proof fn lemma_active_distinct(st: SweepView)
    requires
        distinct(st.watches, |w: Watch| w.id@),
    ensures
        ({
            let ws = st.watches.filter(watch_active());
            forall|j: int, k: int|
                0 <= j < k < ws.len() ==> (#[trigger] ws[j]).id@ != (#[trigger] ws[k]).id@
        }),
{
    lemma_filter_distinct(st.watches, |w: Watch| w.id@, watch_active());
}

/// Over a whole pass, an active service that has lapsed is either renewed, which
/// only one that renews itself is, or told that it stopped: it gets exactly one
/// notice of it where it was not told before, whether or not it renews itself,
/// and the running services are reconciled. One that is renewed is paid for a
/// month from now, and told nothing.
pub proof fn lapsed_service_is_renewed_or_told(
    st: SweepView,
    rules: SweepRules,
    w: Watch,
    i: int,
)
    requires
        distinct(st.watches, |w: Watch| w.id@),
        0 <= i < st.watches.len(),
        st.watches[i] == w,
        w.active,
        w.watching_until matches Some(until) && until <= rules.now,
    ensures
        ({
            let after = swept(st, rules);
            let x = after.watches[i];
            let told = stops(after.notices, w.id@) - stops(st.notices, w.id@);
            ||| {
                &&& w.auto_renew
                &&& x == (Watch {
                    watching_until: Some(clamp(rules.now + rules.month) as i64),
                    ..w
                })
                &&& told == 0
                &&& !after.stopped.contains(w.id@)
            }
            ||| {
                &&& x == w
                &&& told == if st.stopped.contains(w.id@) {
                    0int
                } else {
                    1
                }
                &&& after.stopped.contains(w.id@)
                &&& after.reconcile
            }
        }),
        !w.auto_renew ==> swept(st, rules).watches[i] == w && swept(st, rules).stopped.contains(
            w.id@,
        ),
{
    let ws = st.watches.filter(watch_active());
    assert forall|j: int| 0 <= j < st.watches.len() && j != i implies (
    #[trigger] st.watches[j]).id@ != w.id@ by {
        let key = |w: Watch| w.id@;
        if j < i {
            assert(key(st.watches[j]) != key(st.watches[i]));
        } else {
            assert(key(st.watches[i]) != key(st.watches[j]));
        }
    }
    lemma_active(st, w);
    lemma_active_distinct(st);
    lemma_turns(st, ws, rules, w, i);
    lemma_pools_tell_of_no_stop(
        watch_steps(st, ws, rules),
        ws,
        accounts_seen(ws),
        rules,
        w.id@,
    );
}

/// A lapsed service whose account holds no credit is not renewed: it is told
/// that it stopped, once.
pub proof fn empty_pool_renews_nothing(st: SweepView, rules: SweepRules, w: Watch, i: int)
    requires
        distinct(st.watches, |w: Watch| w.id@),
        0 <= i < st.watches.len(),
        st.watches[i] == w,
        w.active,
        w.watching_until matches Some(until) && until <= rules.now,
        forall|k: int| 0 <= k < st.accounts.len() && (#[trigger] st.accounts[k]).id@ == w.account_id@
            ==> st.accounts[k].credits < 1,
    ensures
        swept(st, rules).watches[i] == w,
        stops(swept(st, rules).notices, w.id@) == stops(st.notices, w.id@) + if st.stopped.contains(
            w.id@,
        ) {
            0int
        } else {
            1
        },
        swept(st, rules).reconcile,
{
    let ws = st.watches.filter(watch_active());
    lapsed_service_is_renewed_or_told(st, rules, w, i);
    assert(stands_at(st.watches, w, i)) by {
        let key = |w: Watch| w.id@;
        assert forall|j: int| 0 <= j < st.watches.len() && j != i implies (
        #[trigger] st.watches[j]).id@ != w.id@ by {
            if j < i {
                assert(key(st.watches[j]) != key(st.watches[i]));
            } else {
                assert(key(st.watches[i]) != key(st.watches[j]));
            }
        }
    }
    lemma_active(st, w);
    lemma_active_distinct(st);
    lemma_turns(st, ws, rules, w, i);
    lemma_pools_tell_of_no_stop(
        watch_steps(st, ws, rules),
        ws,
        accounts_seen(ws),
        rules,
        w.id@,
    );
}

/// At its turn, a lapsed service that renews itself and whose account holds a
/// credit is renewed: it is paid for a month from now, one credit is taken from
/// that account, and no other service or account is touched.
pub proof fn covered_service_is_renewed(st: SweepView, w: Watch, rules: SweepRules, i: int, k: int)
    requires
        distinct(st.watches, |w: Watch| w.id@),
        distinct(st.accounts, |a: AccountRecord| a.id@),
        w.watching_until matches Some(until) && until <= rules.now,
        w.auto_renew,
        0 <= i < st.watches.len(),
        st.watches[i].id@ == w.id@,
        0 <= k < st.accounts.len(),
        st.accounts[k].id@ == w.account_id@,
        st.accounts[k].credits >= 1,
    ensures
        ({
            let after = watch_step(st, w, rules);
            &&& after.watches == st.watches.update(
                i,
                Watch {
                    watching_until: Some(clamp(rules.now + rules.month) as i64),
                    ..st.watches[i]
                },
            )
            &&& after.accounts == st.accounts.update(
                k,
                AccountRecord { credits: (st.accounts[k].credits - 1) as i64, ..st.accounts[k] },
            )
            &&& after.notices == st.notices
            &&& after.reconcile == st.reconcile
        }),
{
    let after = watch_step(st, w, rules);
    assert(account_holding(w.account_id@, 1)(st.accounts[k]));
    assert forall|j: int| 0 <= j < st.watches.len() && j != i implies (
    #[trigger] st.watches[j]).id@ != w.id@ by {
        let key = |w: Watch| w.id@;
        if j < i {
            assert(key(st.watches[j]) != key(st.watches[i]));
        } else {
            assert(key(st.watches[i]) != key(st.watches[j]));
        }
    }
    assert forall|j: int| 0 <= j < st.accounts.len() && j != k implies (
    #[trigger] st.accounts[j]).id@ != w.account_id@ by {
        let key = |a: AccountRecord| a.id@;
        if j < k {
            assert(key(st.accounts[j]) != key(st.accounts[k]));
        } else {
            assert(key(st.accounts[k]) != key(st.accounts[j]));
        }
    }
    assert(after.watches =~= st.watches.update(
        i,
        Watch { watching_until: Some(clamp(rules.now + rules.month) as i64), ..st.watches[i] },
    ));
    assert(after.accounts =~= st.accounts.update(
        k,
        AccountRecord { credits: (st.accounts[k].credits - 1) as i64, ..st.accounts[k] },
    ));
}

proof fn lemma_untouched(st: SweepView, ws: Seq<Watch>, rules: SweepRules, i: int, id: Seq<char>)
    requires
        0 <= i < st.watches.len(),
        st.watches[i].id@ == id,
        forall|j: int| 0 <= j < ws.len() ==> (#[trigger] ws[j]).id@ != id || !has_lapsed(
            ws[j],
            rules,
        ),
    ensures
        ({
            let after = watch_steps(st, ws, rules);
            &&& after.watches.len() == st.watches.len()
            &&& after.watches[i] == st.watches[i]
            &&& stops(after.notices, id) == stops(st.notices, id)
        }),
    decreases ws.len(),
{
    if ws.len() > 0 {
        let t = ws.drop_last();
        assert forall|j: int| 0 <= j < t.len() implies (#[trigger] t[j]).id@ != id || !has_lapsed(
            t[j],
            rules,
        ) by {
            assert(ws[j].id@ != id || !has_lapsed(ws[j], rules));
        }
        lemma_untouched(st, t, rules, i, id);
        let v = ws[ws.len() - 1];
        lemma_turn(watch_steps(st, t, rules), ws.last(), rules, st.watches[i], i);
        assert(v.id@ != id || !has_lapsed(v, rules));
    }
}

/// A service that is paused, was never activated or is still paid for is
/// neither renewed nor told that it stopped.
pub proof fn unlapsed_service_is_left_alone(st: SweepView, rules: SweepRules, i: int)
    requires
        distinct(st.watches, |w: Watch| w.id@),
        0 <= i < st.watches.len(),
        !st.watches[i].active || (st.watches[i].watching_until matches Some(until) ==> rules.now
            < until),
    ensures
        swept(st, rules).watches[i] == st.watches[i],
        stops(swept(st, rules).notices, st.watches[i].id@) == stops(
            st.notices,
            st.watches[i].id@,
        ),
{
    let ws = st.watches.filter(watch_active());
    let w = st.watches[i];
    assert forall|j: int| 0 <= j < ws.len() implies (#[trigger] ws[j]).id@ != w.id@ || !has_lapsed(
        ws[j],
        rules,
    ) by {
        assert(ws.contains(ws[j]));
        lemma_active(st, ws[j]);
        let m = choose|m: int| 0 <= m < st.watches.len() && st.watches[m] == ws[j];
        let key = |w: Watch| w.id@;
        if m < i {
            assert(key(st.watches[m]) != key(st.watches[i]));
        } else if i < m {
            assert(key(st.watches[i]) != key(st.watches[m]));
        }
    }
    lemma_untouched(st, ws, rules, i, w.id@);
    lemma_pools_tell_of_no_stop(
        watch_steps(st, ws, rules),
        ws,
        accounts_seen(ws),
        rules,
        w.id@,
    );
}

/// The notice that a service stopped is about that service, goes to its account
/// and its endpoint, and is mailed to the address of its account where it has
/// one, and to nobody where it has none.
pub proof fn stop_is_told_everywhere(st: SweepView, w: Watch, i: int, k: int)
    requires
        distinct(st.watches, |w: Watch| w.id@),
        distinct(st.accounts, |a: AccountRecord| a.id@),
        0 <= i < st.watches.len(),
        st.watches[i].id@ == w.id@,
        0 <= k < st.accounts.len(),
        st.accounts[k].id@ == w.account_id@,
    ensures
        ({
            let n = stopped_notice(st, w);
            &&& n.kind == NoticeKind::WatchStopped
            &&& n.about == w.id@
            &&& n.account_id == w.account_id@
            &&& n.webhook == Some(st.watches[i])
            &&& match st.accounts[k].email {
                Some(address) => n.mail matches Some(m) && m.to == address@ && m.subject
                    == "Carillon: a watch stopped"@,
                None => n.mail is None,
            }
        }),
{
    crate::table::lemma_first_is(st.watches, |w: Watch| w.id@, watch_is(w.id@), i);
    crate::table::lemma_first_is(
        st.accounts,
        |a: AccountRecord| a.id@,
        account_is(w.account_id@),
        k,
    );
}

/// The warning that a month is ending is about the service, goes to its account
/// and its endpoint, is not mailed, and says in how many days, of which the last
/// may have begun.
pub proof fn ending_is_told_to_the_endpoint(st: SweepView, w: Watch, left: int, i: int)
    requires
        distinct(st.watches, |w: Watch| w.id@),
        0 <= i < st.watches.len(),
        st.watches[i].id@ == w.id@,
    ensures
        ({
            let n = ending_notice(st, w, left);
            &&& n.kind == NoticeKind::WatchEnding
            &&& n.about == w.id@
            &&& n.account_id == w.account_id@
            &&& n.webhook == Some(st.watches[i])
            &&& n.mail is None
            &&& exists|days: int| n.detail == Some(#[trigger] decimal_of(days) + "d left"@) && (days
                - 1) * 86_400 < left <= days * 86_400
        }),
{
    crate::table::lemma_first_is(st.watches, |w: Watch| w.id@, watch_is(w.id@), i);
    let days = days_left(left);
    assert(ending_notice(st, w, left).detail == Some(decimal_of(days) + "d left"@));
}

/// How many of the notices warn that an account's pool is low.
pub open spec fn low_warnings(notices: Seq<SweepNoticeView>, account: Seq<char>) -> nat {
    notices.filter(
        |n: SweepNoticeView| n.kind == NoticeKind::LowPool && n.about == account,
    ).len()
}

/// Whether an account's pool is low: it holds credits, but no more than so many,
/// and one of its services renews itself.
pub open spec fn pool_is_low(
    accounts: Seq<AccountRecord>,
    ws: Seq<Watch>,
    account: Seq<char>,
    rules: SweepRules,
) -> bool {
    &&& exists|i: int| 0 <= i < ws.len() && (#[trigger] ws[i]).account_id@ == account
        && ws[i].auto_renew
    &&& exists|k: int| 0 <= k < accounts.len() && (#[trigger] accounts[k]).id@ == account && 0
        < accounts[k].credits <= rules.low_pool
}

proof fn lemma_credits_of(accounts: Seq<AccountRecord>, k: int)
    requires
        distinct(accounts, |a: AccountRecord| a.id@),
        0 <= k < accounts.len(),
    ensures
        credits_of(accounts, accounts[k].id@) == accounts[k].credits,
{
    crate::table::lemma_first_is(
        accounts,
        |a: AccountRecord| a.id@,
        account_is(accounts[k].id@),
        k,
    );
}

/// An account whose pool is low is warned once, on its turn in a pass: where it
/// was not warned before there is one warning more, which is told to it, says
/// how many credits are left and is mailed to its address; where its pool is not
/// low it is not warned, and counts as not warned, so that it is warned again
/// once the pool is low again.
pub proof fn low_pool_is_warned_once(
    st: SweepView,
    ws: Seq<Watch>,
    rules: SweepRules,
    k: int,
    other: Seq<char>,
)
    requires
        distinct(st.accounts, |a: AccountRecord| a.id@),
        0 <= k < st.accounts.len(),
    ensures
        ({
            let a = st.accounts[k];
            let after = pool_step(st, ws, a.id@, rules);
            let low = pool_is_low(st.accounts, ws, a.id@, rules);
            &&& after.low.contains(a.id@) == low
            &&& other != a.id@ ==> after.low.contains(other) == st.low.contains(other)
            &&& after.accounts == st.accounts && after.watches == st.watches
            &&& if low && !st.low.contains(a.id@) {
                let n = after.notices.last();
                &&& after.notices.len() == st.notices.len() + 1
                &&& after.notices.drop_last() == st.notices
                &&& n.kind == NoticeKind::LowPool
                &&& n.account_id == a.id@
                &&& n.about == a.id@
                &&& n.webhook is None
                &&& n.detail == Some(decimal_of(a.credits as int) + " left"@)
                &&& match a.email {
                    Some(address) => n.mail matches Some(m) && m.to == address@ && m.subject
                        == "Carillon: credits running low"@,
                    None => n.mail is None,
                }
            } else {
                after.notices == st.notices
            }
        }),
{
    let a = st.accounts[k];
    let after = pool_step(st, ws, a.id@, rules);
    lemma_credits_of(st.accounts, k);
    crate::table::lemma_first_is(st.accounts, |a: AccountRecord| a.id@, account_is(a.id@), k);
    if pool_is_low(st.accounts, ws, a.id@, rules) {
        let m = choose|m: int| 0 <= m < st.accounts.len() && (#[trigger] st.accounts[m]).id@
            == a.id@ && 0 < st.accounts[m].credits <= rules.low_pool;
        let key = |a: AccountRecord| a.id@;
        if m < k {
            assert(key(st.accounts[m]) != key(st.accounts[k]));
        } else if k < m {
            assert(key(st.accounts[k]) != key(st.accounts[m]));
        }
        let j = choose|j: int| 0 <= j < ws.len() && (#[trigger] ws[j]).account_id@ == a.id@
            && ws[j].auto_renew;
        assert(ws[j].auto_renew && ws[j].account_id@ == a.id@);
        assert(renews(ws, a.id@));
    }
    if renews(ws, a.id@) && 0 < a.credits <= rules.low_pool {
        let j = choose|j: int| 0 <= j < ws.len() && (#[trigger] ws[j]).auto_renew
            && ws[j].account_id@ == a.id@;
        assert(ws[j].account_id@ == a.id@ && ws[j].auto_renew);
        assert(st.accounts[k].id@ == a.id@);
        assert(pool_is_low(st.accounts, ws, a.id@, rules));
    }
    assert(st.notices.push(low_notice(st, a.id@)).drop_last() =~= st.notices);
}

proof fn lemma_seen(ws: Seq<Watch>, account: Seq<char>)
    ensures
        accounts_seen(ws).contains(account) <==> exists|i: int|
            0 <= i < ws.len() && (#[trigger] ws[i]).account_id@ == account,
        accounts_seen(ws).no_duplicates(),
    decreases ws.len(),
{
    if ws.len() > 0 {
        let t = ws.drop_last();
        lemma_seen(t, account);
        lemma_seen(t, ws.last().account_id@);
        let before = accounts_seen(t);
        let all = accounts_seen(ws);
        if exists|i: int| 0 <= i < ws.len() && (#[trigger] ws[i]).account_id@ == account {
            let i = choose|i: int| 0 <= i < ws.len() && (#[trigger] ws[i]).account_id@ == account;
            if i < t.len() {
                assert(t[i].account_id@ == account);
                let m = choose|m: int| 0 <= m < before.len() && before[m] == account;
                assert(all[m] == account);
            } else {
                if !before.contains(account) {
                    assert(all[all.len() - 1] == account);
                }
            }
        }
        if all.contains(account) {
            let m = choose|m: int| 0 <= m < all.len() && all[m] == account;
            if m < before.len() {
                assert(before[m] == account);
                let i = choose|i: int| 0 <= i < t.len() && (#[trigger] t[i]).account_id@ == account;
                assert(ws[i].account_id@ == account);
            } else {
                assert(ws[ws.len() - 1].account_id@ == account);
            }
        }
    }
}

proof fn lemma_pool_turns(
    st: SweepView,
    ws: Seq<Watch>,
    accounts: Seq<Seq<char>>,
    rules: SweepRules,
    account: Seq<char>,
)
    requires
        accounts.no_duplicates(),
    ensures
        ({
            let after = pool_steps(st, ws, accounts, rules);
            let low = renews(ws, account) && 0 < credits_of(st.accounts, account) <= rules.low_pool;
            let told = low_warnings(after.notices, account) - low_warnings(st.notices, account);
            &&& after.accounts == st.accounts
            &&& if accounts.contains(account) {
                &&& after.low.contains(account) == low
                &&& told == if low && !st.low.contains(account) {
                    1int
                } else {
                    0
                }
            } else {
                &&& after.low.contains(account) == st.low.contains(account)
                &&& told == 0
            }
        }),
    decreases accounts.len(),
{
    if accounts.len() > 0 {
        let t = accounts.drop_last();
        let p = |n: SweepNoticeView| n.kind == NoticeKind::LowPool && n.about == account;
        lemma_pool_turns(st, ws, t, rules, account);
        let mid = pool_steps(st, ws, t, rules);
        lemma_filter_push(mid.notices, p, low_notice(mid, accounts.last()));
        let last = accounts.len() - 1;
        if t.contains(account) {
            let m = choose|m: int| 0 <= m < t.len() && t[m] == account;
            assert(accounts[m] == account);
            assert(accounts[m] != accounts[last]);
        }
        if accounts.contains(account) {
            let m = choose|m: int| 0 <= m < accounts.len() && accounts[m] == account;
            if m < last {
                assert(t[m] == account);
            }
        }
        if accounts.last() == account {
            assert(accounts[last] == account);
        }
    }
}

proof fn lemma_turns_warn_of_no_pool(
    st: SweepView,
    ws: Seq<Watch>,
    rules: SweepRules,
    account: Seq<char>,
)
    ensures
        ({
            let after = watch_steps(st, ws, rules);
            &&& low_warnings(after.notices, account) == low_warnings(st.notices, account)
            &&& after.low == st.low
        }),
    decreases ws.len(),
{
    if ws.len() > 0 {
        let t = ws.drop_last();
        let v = ws.last();
        let p = |n: SweepNoticeView| n.kind == NoticeKind::LowPool && n.about == account;
        lemma_turns_warn_of_no_pool(st, t, rules, account);
        let mid = watch_steps(st, t, rules);
        if let Some(until) = v.watching_until {
            lemma_filter_push(mid.notices, p, ending_notice(mid, v, until - rules.now));
            lemma_filter_push(mid.notices, p, stopped_notice(mid, v));
        }
    }
}

/// Over a whole pass, an account with an active service that renews itself is
/// warned exactly once where its pool, once the renewals are paid, holds at
/// least one credit and no more than the limit, and it was not warned before;
/// an account with an empty or a well filled pool is not warned.
pub proof fn low_pools_are_warned_in_a_pass(
    st: SweepView,
    rules: SweepRules,
    account: Seq<char>,
    i: int,
)
    requires
        0 <= i < st.watches.len(),
        st.watches[i].active,
        st.watches[i].auto_renew,
        st.watches[i].account_id@ == account,
    ensures
        ({
            let after = swept(st, rules);
            let left = credits_of(after.accounts, account);
            &&& low_warnings(after.notices, account) == low_warnings(st.notices, account) + if 0
                < left <= rules.low_pool && !st.low.contains(account) {
                1int
            } else {
                0
            }
            &&& after.low.contains(account) == (0 < left <= rules.low_pool)
        }),
{
    let ws = st.watches.filter(watch_active());
    let w = st.watches[i];
    lemma_active(st, w);
    assert(st.watches.contains(w));
    let j = choose|j: int| 0 <= j < ws.len() && ws[j] == w;
    assert(ws[j].account_id@ == account && ws[j].auto_renew);
    assert(renews(ws, account));
    lemma_seen(ws, account);
    lemma_turns_warn_of_no_pool(st, ws, rules, account);
    lemma_pool_turns(watch_steps(st, ws, rules), ws, accounts_seen(ws), rules, account);
}

proof fn lemma_others_are_not_warned(
    st: SweepView,
    ws: Seq<Watch>,
    rules: SweepRules,
    id: Seq<char>,
)
    requires
        forall|j: int| 0 <= j < ws.len() ==> (#[trigger] ws[j]).id@ != id || !is_ending(
            ws[j],
            rules,
        ),
    ensures
        warnings(watch_steps(st, ws, rules).notices, id) == warnings(st.notices, id),
    decreases ws.len(),
{
    if ws.len() > 0 {
        let t = ws.drop_last();
        assert forall|j: int| 0 <= j < t.len() implies (#[trigger] t[j]).id@ != id || !is_ending(
            t[j],
            rules,
        ) by {
            assert(ws[j].id@ != id || !is_ending(ws[j], rules));
        }
        lemma_others_are_not_warned(st, t, rules, id);
        lemma_step_warns(watch_steps(st, t, rules), ws.last(), rules, id);
        let v = ws[ws.len() - 1];
        assert(v.id@ != id || !is_ending(v, rules));
    }
}

/// Only an active service whose month is ending is warned of it: not one that is
/// paused, was never activated, is paid for longer, or has lapsed.
pub proof fn only_ending_services_are_warned(st: SweepView, rules: SweepRules, i: int)
    requires
        distinct(st.watches, |w: Watch| w.id@),
        0 <= i < st.watches.len(),
        st.watches[i].active ==> (st.watches[i].watching_until matches Some(until) ==> until
            <= rules.now || until - rules.now > rules.warn_before),
    ensures
        warnings(swept(st, rules).notices, st.watches[i].id@) == warnings(
            st.notices,
            st.watches[i].id@,
        ),
{
    let ws = st.watches.filter(watch_active());
    let w = st.watches[i];
    assert forall|j: int| 0 <= j < ws.len() implies (#[trigger] ws[j]).id@ != w.id@ || !is_ending(
        ws[j],
        rules,
    ) by {
        assert(ws.contains(ws[j]));
        lemma_active(st, ws[j]);
        let m = choose|m: int| 0 <= m < st.watches.len() && st.watches[m] == ws[j];
        let key = |w: Watch| w.id@;
        if m < i {
            assert(key(st.watches[m]) != key(st.watches[i]));
        } else if i < m {
            assert(key(st.watches[i]) != key(st.watches[m]));
        }
    }
    lemma_others_are_not_warned(st, ws, rules, w.id@);
    lemma_pools_warn_of_no_month(
        watch_steps(st, ws, rules),
        ws,
        accounts_seen(ws),
        rules,
        w.id@,
    );
}

/// How many of the services of an account are paid up to another time in the
/// second table than in the first.
pub open spec fn renewals(before: Seq<Watch>, after: Seq<Watch>, account: Seq<char>) -> nat
    decreases before.len(),
{
    if before.len() == 0 || after.len() == 0 {
        0
    } else {
        let own = before.last().account_id@ == account && before.last().watching_until
            != after.last().watching_until;
        renewals(before.drop_last(), after.drop_last(), account) + if own {
            1nat
        } else {
            0
        }
    }
}

proof fn lemma_renewals_same(before: Seq<Watch>, account: Seq<char>)
    ensures
        renewals(before, before, account) == 0,
    decreases before.len(),
{
    if before.len() > 0 {
        lemma_renewals_same(before.drop_last(), account);
    }
}

proof fn lemma_renewals_update(
    before: Seq<Watch>,
    mid: Seq<Watch>,
    i: int,
    x: Watch,
    account: Seq<char>,
)
    requires
        before.len() == mid.len(),
        0 <= i < mid.len(),
        mid[i] == before[i],
        x.watching_until != before[i].watching_until,
    ensures
        renewals(before, mid.update(i, x), account) == renewals(before, mid, account) + if before[i].account_id@
            == account {
            1nat
        } else {
            0
        },
    decreases before.len(),
{
    let after = mid.update(i, x);
    if i < before.len() - 1 {
        assert(after.drop_last() =~= mid.drop_last().update(i, x));
        lemma_renewals_update(before.drop_last(), mid.drop_last(), i, x, account);
    } else {
        assert(after.drop_last() =~= mid.drop_last());
    }
}

proof fn lemma_turns_are_paid(
    st: SweepView,
    ws: Seq<Watch>,
    rules: SweepRules,
    k: int,
)
    requires
        distinct(st.watches, |w: Watch| w.id@),
        distinct(st.accounts, |a: AccountRecord| a.id@),
        forall|j: int, m: int|
            0 <= j < m < ws.len() ==> (#[trigger] ws[j]).id@ != (#[trigger] ws[m]).id@,
        forall|j: int| 0 <= j < ws.len() ==> st.watches.contains(#[trigger] ws[j]),
        0 <= k < st.accounts.len(),
        rules.month >= 1,
        rules.now < i64::MAX,
    ensures
        ({
            let after = watch_steps(st, ws, rules);
            let a = st.accounts[k];
            let spent = renewals(st.watches, after.watches, a.id@);
            &&& after.watches.len() == st.watches.len()
            &&& after.accounts.len() == st.accounts.len()
            &&& forall|j: int| 0 <= j < st.accounts.len() ==> (#[trigger] after.accounts[j]).id
                == st.accounts[j].id
            &&& forall|j: int| 0 <= j < st.watches.len() ==> (#[trigger] after.watches[j]).id
                == st.watches[j].id
            &&& forall|j: int|
                0 <= j < st.watches.len() && (forall|m: int|
                    0 <= m < ws.len() ==> (#[trigger] ws[m]).id@ != st.watches[j].id@)
                    ==> #[trigger] after.watches[j] == st.watches[j]
            &&& after.accounts[k].credits == a.credits - spent
        }),
    decreases ws.len(),
{
    let a = st.accounts[k];
    if ws.len() == 0 {
        lemma_renewals_same(st.watches, a.id@);
    } else {
        let t = ws.drop_last();
        let v = ws.last();
        let last = ws.len() - 1;
        assert forall|j: int, m: int| 0 <= j < m < t.len() implies (#[trigger] t[j]).id@ != (
        #[trigger] t[m]).id@ by {
            assert(ws[j].id@ != ws[m].id@);
        }
        assert forall|j: int| 0 <= j < t.len() implies st.watches.contains(#[trigger] t[j]) by {
            assert(st.watches.contains(ws[j]));
        }
        lemma_turns_are_paid(st, t, rules, k);
        let mid = watch_steps(st, t, rules);
        let after = watch_step(mid, v, rules);
        assert(st.watches.contains(ws[last]));
        let i = choose|i: int| 0 <= i < st.watches.len() && st.watches[i] == v;
        assert(mid.watches[i] == st.watches[i]) by {
            assert forall|m: int| 0 <= m < t.len() implies (#[trigger] t[m]).id@
                != st.watches[i].id@ by {
                assert(ws[m].id@ != ws[last].id@);
            }
        }
        let until = Some(clamp(rules.now + rules.month) as i64);
        let x = Watch { watching_until: until, ..v };
        assert forall|j: int| 0 <= j < st.watches.len() && j != i implies (
        #[trigger] mid.watches[j]).id@ != v.id@ by {
            let key = |w: Watch| w.id@;
            if j < i {
                assert(key(st.watches[j]) != key(st.watches[i]));
            } else {
                assert(key(st.watches[i]) != key(st.watches[j]));
            }
        }
        let p = account_holding(v.account_id@, 1);
        if has_lapsed(v, rules) && v.auto_renew && any_where(mid.accounts, p) {
            assert(after.watches =~= mid.watches.update(i, x));
            lemma_renewals_update(st.watches, mid.watches, i, x, a.id@);
            let n = choose|n: int| 0 <= n < mid.accounts.len() && p(#[trigger] mid.accounts[n]);
            if v.account_id@ == a.id@ {
                let key = |a: AccountRecord| a.id@;
                assert(mid.accounts[n].id == st.accounts[n].id);
                if n < k {
                    assert(key(st.accounts[n]) != key(st.accounts[k]));
                } else if k < n {
                    assert(key(st.accounts[k]) != key(st.accounts[n]));
                }
                assert(p(mid.accounts[k]));
                assert(after.accounts[k].credits == mid.accounts[k].credits - 1);
            } else {
                assert(mid.accounts[k].id == a.id);
                assert(!p(mid.accounts[k]));
                assert(after.accounts[k] == mid.accounts[k]);
            }
        } else {
            assert(after.watches == mid.watches);
            assert(after.accounts == mid.accounts);
        }
        assert forall|j: int|
            0 <= j < st.watches.len() && (forall|m: int|
                0 <= m < ws.len() ==> (#[trigger] ws[m]).id@ != st.watches[j].id@) implies
            #[trigger] after.watches[j] == st.watches[j] by {
            assert forall|m: int| 0 <= m < t.len() implies (#[trigger] t[m]).id@
                != st.watches[j].id@ by {
                assert(ws[m].id@ != st.watches[j].id@);
            }
            assert(mid.watches[j] == st.watches[j]);
            assert(ws[last].id@ != st.watches[j].id@);
        }
    }
}

/// Over a whole pass, an account pays exactly one credit for each of its services
/// that is renewed, and nothing else.
pub proof fn pass_takes_one_credit_for_each_renewal(st: SweepView, rules: SweepRules, k: int)
    requires
        distinct(st.watches, |w: Watch| w.id@),
        distinct(st.accounts, |a: AccountRecord| a.id@),
        0 <= k < st.accounts.len(),
        rules.month >= 1,
        rules.now < i64::MAX,
    ensures
        swept(st, rules).accounts[k].credits == st.accounts[k].credits - renewals(
            st.watches,
            swept(st, rules).watches,
            st.accounts[k].id@,
        ),
        swept(st, rules).accounts[k].id == st.accounts[k].id,
{
    let ws = st.watches.filter(watch_active());
    lemma_active_distinct(st);
    assert forall|j: int| 0 <= j < ws.len() implies st.watches.contains(#[trigger] ws[j]) by {
        assert(ws.contains(ws[j]));
        lemma_active(st, ws[j]);
    }
    lemma_turns_are_paid(st, ws, rules, k);
    lemma_pools_tell_of_no_stop(
        watch_steps(st, ws, rules),
        ws,
        accounts_seen(ws),
        rules,
        Seq::empty(),
    );
}

/// What a sweep starts from is the store and what was told before: every service
/// and account as they are, and no notice given yet.
pub proof fn sweep_starts_from_the_store(store: Store, marks: SweepMarks)
    ensures
        sweep_start(store, marks).watches == store.watches@,
        sweep_start(store, marks).accounts == store.accounts@,
        sweep_start(store, marks).ending == marks.ending@,
        sweep_start(store, marks).stopped == marks.stopped@,
        sweep_start(store, marks).low == marks.low@,
        sweep_start(store, marks).notices.len() == 0,
        !sweep_start(store, marks).reconcile,
{
}

/// A notice and an e-mail say what they hold, each thing under its own name; a
/// report's notices are told in order.
pub proof fn notices_say_what_they_hold(n: SweepNotice, m: Mail, all: Seq<SweepNotice>, i: int)
    requires
        0 <= i < all.len(),
    ensures
        m@.to == m.to@,
        m@.subject == m.subject@,
        m@.body == m.body@,
        n@.account_id == n.account_id@,
        n@.about == n.about@,
        n@.kind == n.kind,
        n@.detail == opt_text(n.detail),
        n@.webhook == n.webhook,
        n.mail is None ==> n@.mail is None,
        n.mail is Some ==> n@.mail == Some(n.mail->0@),
        notices_of(all).len() == all.len(),
        notices_of(all)[i] == all[i]@,
{
}

/// A sweep is told of what the store holds and of what was marked before.
pub proof fn sweeps_are_told_of_what_is_there(
    store: Store,
    marks: SweepMarks,
    notices: Seq<SweepNotice>,
    reconcile: bool,
)
    ensures
        ({
            let s = sweep_at(store, marks, notices, reconcile);
            &&& s.watches == store.watches@
            &&& s.accounts == store.accounts@
            &&& s.ending == marks.ending@
            &&& s.stopped == marks.stopped@
            &&& s.low == marks.low@
            &&& s.notices.len() == notices.len()
            &&& s.reconcile == reconcile
        }),
{
}

} // verus!
