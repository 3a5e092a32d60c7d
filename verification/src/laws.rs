//! What holds of the store across operations.

use crate::digest::token_hash_of;
use crate::metering::mailbox_key_of;
use crate::rows::{
    AccountRecord, CheckoutRecord, DeliveryRow, MagicLinkRecord, MailboxRecord, MembershipRow,
    OauthCredential, OauthCredentialRecord, OauthSession, OauthSessionRecord, Watch,
};
use crate::sort::{sorted, sorted_contains, sorted_is_ordered, sorted_keeps_first, Ranked};
use crate::store::{
    account_holding, account_is, account_uncredited, account_with_email, capability_is, checkout_is,
    checkout_open, claim_is, credential_is, declared, delivery_of, delivery_owned, link_is,
    link_stale, member_identity, member_is, member_keyed, member_of, newest,
    password_is, redefined, session_is, session_stale, trial_key, watch_active, watch_is, watch_of,
    watch_owned, watch_under, with_active, with_auto_renew, with_credits_added, with_free_credit,
    with_fulfilled, with_until, DeliveryOutcome, MembershipView, Store,
};
use crate::table::{
    any_where, delete_where, distinct, first_where, lemma_first_is, opt_text, lemma_filter_contains, lemma_filter_push,
    lemma_first_deleted,
    lemma_first_pushed, lemma_first_updated, lemma_first_where, update_where,
};
use crate::util::{as_signed, clamp};
use vstd::prelude::*;

verus! {

/// Redefining a service keeps the time it is paid up to, its renewal and its
/// checkpoint; a service declared anew starts with none of them. Everything
/// else, its rotation included, is what the definition says. Other services
/// are left alone.
pub proof fn redefinition_keeps_activation(store: Store, watch: Watch, other: Seq<char>)
    ensures
        ({
            let after = store.watches_with(watch);
            let was = first_where(store.watches@, watch_is(watch.id@));
            &&& first_where(after, watch_is(watch.id@)) == Some(
                match was {
                    Some(w) => redefined(watch)(w),
                    None => declared(watch),
                },
            )
            &&& other != watch.id@ ==> first_where(after, watch_is(other)) == first_where(
                store.watches@,
                watch_is(other),
            )
        }),
{
    let p = watch_is(watch.id@);
    lemma_first_where(store.watches@, p);
    if any_where(store.watches@, p) {
        lemma_first_updated(store.watches@, p, p, redefined(watch));
        lemma_first_updated(store.watches@, watch_is(other), p, redefined(watch));
        lemma_first_where(store.watches@, watch_is(other));
    } else {
        lemma_first_pushed(store.watches@, p, declared(watch));
        lemma_first_pushed(store.watches@, watch_is(other), declared(watch));
    }
}

/// While a rotation overlaps, a service is signed for with both secrets, the
/// new one first; once the overlap is over, with the new one alone.
pub proof fn rotation_overlaps(
    before: Store,
    after: Store,
    id: Seq<char>,
    secret: String,
    overlap: u64,
    now: i64,
    r: Option<i64>,
    later: int,
)
    requires
        before.rotates(after, id, secret, overlap, now, r),
        first_where(before.watches@, watch_is(id)) is Some,
    ensures
        r == Some(clamp(now + as_signed(overlap)) as i64),
        first_where(after.watches@, watch_is(id)) matches Some(w) && w.secrets_at(later) == (if later
            < r->0 {
            seq![secret@, first_where(before.watches@, watch_is(id))->0.hmac_secret@]
        } else {
            seq![secret@]
        }),
{
    let p = watch_is(id);
    let expires = clamp(now + as_signed(overlap)) as i64;
    lemma_first_where(before.watches@, p);
    lemma_first_updated(before.watches@, p, p, Store::rotation(secret, expires));
}

/// The free credit is granted once: after a grant, no grant to the same
/// account finds anything to do.
pub proof fn free_credit_is_granted_once(accounts: Seq<AccountRecord>, id: Seq<char>, amount: int)
    ensures
        !any_where(
            update_where(accounts, account_uncredited(id), with_free_credit(amount)),
            account_uncredited(id),
        ),
{
    let p = account_uncredited(id);
    let after = update_where(accounts, p, with_free_credit(amount));
    assert forall|i: int| 0 <= i < after.len() implies !p(#[trigger] after[i]) by {
        assert(p(accounts[i]) || !p(accounts[i]));
    }
}

/// A trial is claimed once for an account and a provider.
pub proof fn trial_is_claimed_once(
    before: Store,
    after: Store,
    account: Seq<char>,
    provider: Seq<char>,
    now: i64,
    r: bool,
)
    requires
        before.claims_trial(after, account, provider, now, r),
    ensures
        any_where(after.claims@, claim_is(trial_key(account, provider))),
{
    let key = trial_key(account, provider);
    if r {
        let n = after.claims@.len() - 1;
        assert(claim_is(key)(after.claims@[n]));
    }
}

/// A claim takes nothing from any other account, nor from the same account on
/// any other provider.
pub proof fn trials_are_independent(
    before: Store,
    after: Store,
    account: Seq<char>,
    provider: Seq<char>,
    now: i64,
    r: bool,
    other_account: Seq<char>,
    other_provider: Seq<char>,
)
    requires
        before.claims_trial(after, account, provider, now, r),
        account != other_account || provider != other_provider,
        !provider.contains('|'),
        !other_provider.contains('|'),
    ensures
        any_where(after.claims@, claim_is(trial_key(other_account, other_provider))) == any_where(
            before.claims@,
            claim_is(trial_key(other_account, other_provider)),
        ),
{
    let key = trial_key(account, provider);
    let other = trial_key(other_account, other_provider);
    if key == other {
        lemma_trial_key(account, provider, other_account, other_provider);
    }
    if r {
        assert(after.claims@ =~= before.claims@.push(after.claims@.last()));
        lemma_first_pushed(before.claims@, claim_is(other), after.claims@.last());
    }
    lemma_first_where(before.claims@, claim_is(other));
    lemma_first_where(after.claims@, claim_is(other));
}

/// A provider without a bar can be told from the account before it.
proof fn lemma_trial_key(a: Seq<char>, p: Seq<char>, b: Seq<char>, q: Seq<char>)
    requires
        !p.contains('|'),
        !q.contains('|'),
        trial_key(a, p) == trial_key(b, q),
    ensures
        a == b,
        p == q,
{
    let k = trial_key(a, p);
    let l = trial_key(b, q);
    assert(k.len() == a.len() + 1 + p.len());
    assert(l.len() == b.len() + 1 + q.len());
    assert(k[a.len() as int] == '|');
    assert(l[b.len() as int] == '|');
    if a.len() < b.len() {
        let i = b.len() - a.len() - 1;
        assert(0 <= i < p.len());
        assert(k[b.len() as int] == p[i]);
        assert(p.contains('|'));
    }
    if b.len() < a.len() {
        let i = a.len() - b.len() - 1;
        assert(0 <= i < q.len());
        assert(l[a.len() as int] == q[i]);
        assert(q.contains('|'));
    }
    assert(a =~= k.take(a.len() as int));
    assert(b =~= l.take(b.len() as int));
    assert(p =~= k.skip(a.len() as int + 1));
    assert(q =~= l.skip(b.len() as int + 1));
}

/// A debit takes exactly what it asks for from a pool that covers it, and
/// leaves every other pool alone; no pool goes below zero by it.
pub proof fn debit_is_exact(accounts: Seq<AccountRecord>, id: Seq<char>, n: int)
    requires
        n > 0,
    ensures
        ({
            let after = update_where(accounts, account_holding(id, n), with_credits_added(-n));
            forall|i: int|
                0 <= i < accounts.len() ==> {
                    let (a, b) = (accounts[i], #[trigger] after[i]);
                    &&& b.id == a.id
                    &&& b.credits == (if a.id@ == id && a.credits >= n {
                        a.credits - n
                    } else {
                        a.credits as int
                    })
                    &&& a.credits >= 0 ==> b.credits >= 0
                }
        }),
{
}

/// A sign-in link works once.
pub proof fn magic_link_is_single_use(
    first: Store,
    second: Store,
    third: Store,
    token: Seq<char>,
    max_age: i64,
    now: i64,
    later: i64,
    r: Option<String>,
    again: Option<String>,
)
    requires
        first.takes_link(second, token, max_age, now, r),
        second.takes_link(third, token, max_age, later, again),
    ensures
        again is None,
{
    let hash = token_hash_of(token);
    let live = delete_where(first.magic_links@, link_stale(now - max_age));
    lemma_first_deleted(live, link_is(hash), link_is(hash));
    let next = delete_where(second.magic_links@, link_stale(later - max_age));
    lemma_first_where(second.magic_links@, link_is(hash));
    lemma_first_where(next, link_is(hash));
    if any_where(next, link_is(hash)) {
        let i = choose|i: int| 0 <= i < next.len() && link_is(hash)(#[trigger] next[i]);
        assert(next.contains(next[i]));
        lemma_filter_contains(
            second.magic_links@,
            |l: crate::rows::MagicLinkRecord| !link_stale(later - max_age)(l),
            next[i],
        );
        let k = choose|k: int|
            0 <= k < second.magic_links@.len() && second.magic_links@[k] == next[i];
        assert(link_is(hash)(second.magic_links@[k]));
    }
}

/// A sign-in link that is taken before it is too old proves the address it was
/// made for.
pub proof fn magic_link_proves_its_address(
    first: Store,
    second: Store,
    third: Store,
    token: Seq<char>,
    email: Seq<char>,
    made: i64,
    max_age: i64,
    now: i64,
    r: Option<String>,
)
    requires
        first.links(second, token, email, made),
        second.takes_link(third, token, max_age, now, r),
        now - made <= max_age,
    ensures
        r matches Some(address) && address@ == email,
{
    let hash = token_hash_of(token);
    let p = link_is(hash);
    let stale = link_stale(now - max_age);
    let left = delete_where(first.magic_links@, p);
    let new = second.magic_links@.last();
    assert(second.magic_links@ =~= left.push(new));
    lemma_first_deleted(first.magic_links@, p, p);
    lemma_first_deleted(left, p, stale);
    crate::table::lemma_filter_push(left, |l: crate::rows::MagicLinkRecord| !stale(l), new);
    assert(delete_where(second.magic_links@, stale) == delete_where(left, stale).push(new));
    crate::table::lemma_delete_leaves_none(first.magic_links@, p);
    lemma_none_after_delete(left, p, stale);
    lemma_first_where(delete_where(left, stale), p);
    lemma_first_pushed(delete_where(left, stale), p, new);
}

/// Deleting rows brings none back.
proof fn lemma_none_after_delete<T>(s: Seq<T>, p: spec_fn(T) -> bool, q: spec_fn(T) -> bool)
    requires
        !any_where(s, p),
    ensures
        !any_where(delete_where(s, q), p),
{
    let t = delete_where(s, q);
    assert forall|i: int| 0 <= i < t.len() implies !p(#[trigger] t[i]) by {
        assert(t.contains(t[i]));
        lemma_filter_contains(s, |x: T| !q(x), t[i]);
        let k = choose|k: int| 0 <= k < s.len() && s[k] == t[i];
        assert(!p(s[k]));
    }
}

/// A pending authorization is taken once.
pub proof fn oauth_session_is_single_use(
    first: Store,
    second: Store,
    third: Store,
    state: Seq<char>,
    max_age: i64,
    now: i64,
    later: i64,
    r: Option<OauthSession>,
    again: Option<OauthSession>,
)
    requires
        first.takes_session(second, state, max_age, now, r),
        second.takes_session(third, state, max_age, later, again),
    ensures
        again is None,
{
    let p = session_is(state);
    let live = delete_where(first.oauth_sessions@, session_stale(now - max_age));
    crate::table::lemma_delete_leaves_none(live, p);
    lemma_none_after_delete(second.oauth_sessions@, p, session_stale(later - max_age));
    lemma_first_where(delete_where(second.oauth_sessions@, session_stale(later - max_age)), p);
}

/// A pending authorization that is taken before it is too old is the one that
/// was kept under its state.
pub proof fn oauth_session_is_kept(
    first: Store,
    second: Store,
    third: Store,
    session: OauthSession,
    made: i64,
    max_age: i64,
    now: i64,
    kept: Result<(), crate::store::StoreError>,
    r: Option<OauthSession>,
)
    requires
        first.opens_session(second, session, made, kept),
        kept is Ok,
        second.takes_session(third, session.state@, max_age, now, r),
        now - made <= max_age,
    ensures
        r == Some(session),
{
    let p = session_is(session.state@);
    let stale = session_stale(now - max_age);
    let new = OauthSessionRecord { session, created_at: made };
    crate::table::lemma_filter_push(
        first.oauth_sessions@,
        |s: OauthSessionRecord| !stale(s),
        new,
    );
    lemma_none_after_delete(first.oauth_sessions@, p, stale);
    lemma_first_where(delete_where(first.oauth_sessions@, stale), p);
    lemma_first_pushed(delete_where(first.oauth_sessions@, stale), p, new);
}

/// A purchase is fulfilled once: after it is, nothing is open under its
/// reference.
pub proof fn purchase_is_fulfilled_once(checkouts: Seq<CheckoutRecord>, id: Seq<char>)
    ensures
        first_where(
            update_where(checkouts, checkout_is(id), with_fulfilled()),
            checkout_open(id),
        ) is None,
{
    let after = update_where(checkouts, checkout_is(id), with_fulfilled());
    let open = checkout_open(id);
    lemma_first_where(after, open);
    assert forall|i: int| 0 <= i < after.len() implies !open(#[trigger] after[i]) by {
        assert(checkout_is(id)(checkouts[i]) || !checkout_is(id)(checkouts[i]));
    }
}

/// A capability link opens the account it was issued for until it expires.
pub proof fn capability_opens_its_account(
    before: Store,
    after: Store,
    account: Seq<char>,
    token: Seq<char>,
    expires: Option<i64>,
    made: i64,
    now: int,
)
    requires
        before.issues(after, account, token, expires, made),
    ensures
        match after.opens(token, now) {
            Some(id) => id@ == account && (expires matches Some(e) ==> now < e),
            None => expires matches Some(e) && now >= e,
        },
{
    let p = capability_is(token_hash_of(token));
    let left = delete_where(before.capabilities@, p);
    let new = after.capabilities@.last();
    assert(after.capabilities@ =~= left.push(new));
    crate::table::lemma_delete_leaves_none(before.capabilities@, p);
    lemma_first_where(left, p);
    lemma_first_pushed(left, p, new);
}

/// A revoked capability link opens nothing.
pub proof fn revoked_capability_opens_nothing(before: Store, after: Store, token: Seq<char>, now: int)
    requires
        after.capabilities@ == delete_where(
            before.capabilities@,
            capability_is(token_hash_of(token)),
        ),
    ensures
        after.opens(token, now) is None,
{
    let p = capability_is(token_hash_of(token));
    lemma_first_deleted(before.capabilities@, p, p);
}

/// Forgetting one protocol of an identity keeps the credential the others
/// share; forgetting the last one drops it.
pub proof fn credential_is_shared_by_protocols(
    before: Store,
    after: Store,
    account: Seq<char>,
    key: Seq<char>,
    protocol: Seq<char>,
)
    requires
        before.forgets(after, account, key, protocol),
    ensures
        (exists|other: Seq<char>|
            other != protocol && #[trigger] any_where(
                before.mailboxes@,
                member_is(account, key, other),
            )) ==> after.password(account, key) == before.password(account, key)
            && after.oauth_credential(account, key) == before.oauth_credential(account, key),
        (forall|other: Seq<char>|
            #[trigger] any_where(before.mailboxes@, member_is(account, key, other)) ==> other
                == protocol) ==> after.password(account, key) is None
            && after.oauth_credential(account, key) is None,
        !any_where(after.mailboxes@, member_is(account, key, protocol)),
{
    let gone = member_is(account, key, protocol);
    let same = member_identity(account, key);
    let left = delete_where(before.mailboxes@, gone);
    crate::table::lemma_delete_leaves_none(before.mailboxes@, gone);
    if exists|other: Seq<char>|
        other != protocol && #[trigger] any_where(
            before.mailboxes@,
            member_is(account, key, other),
        ) {
        let other = choose|other: Seq<char>|
            other != protocol && #[trigger] any_where(
                before.mailboxes@,
                member_is(account, key, other),
            );
        let i = choose|i: int|
            0 <= i < before.mailboxes@.len() && member_is(account, key, other)(
                #[trigger] before.mailboxes@[i],
            );
        let m = before.mailboxes@[i];
        assert(before.mailboxes@.contains(m));
        lemma_filter_contains(
            before.mailboxes@,
            |x: crate::rows::MailboxRecord| !gone(x),
            m,
        );
        let k = choose|k: int| 0 <= k < left.len() && left[k] == m;
        assert(same(left[k]));
    }
    if forall|other: Seq<char>|
        #[trigger] any_where(before.mailboxes@, member_is(account, key, other)) ==> other
            == protocol {
        assert forall|i: int| 0 <= i < left.len() implies !same(#[trigger] left[i]) by {
            assert(left.contains(left[i]));
            lemma_filter_contains(
                before.mailboxes@,
                |x: crate::rows::MailboxRecord| !gone(x),
                left[i],
            );
            if same(left[i]) {
                let other = left[i].member.protocol@;
                let k = choose|k: int|
                    0 <= k < before.mailboxes@.len() && before.mailboxes@[k] == left[i];
                assert(member_is(account, key, other)(before.mailboxes@[k]));
                assert(any_where(before.mailboxes@, member_is(account, key, other)));
                assert(gone(left[i]));
            }
        }
        lemma_first_deleted(
            before.passwords@,
            password_is(account, key),
            password_is(account, key),
        );
        lemma_first_deleted(
            before.oauth_credentials@,
            credential_is(account, key),
            credential_is(account, key),
        );
    }
}

/// A password that is stored is the one that is read, and no other identity's
/// changes.
pub proof fn stored_password_is_read(
    before: Store,
    after: Store,
    account: Seq<char>,
    key: Seq<char>,
    enc: Seq<char>,
    now: i64,
    other_account: Seq<char>,
    other_key: Seq<char>,
)
    requires
        before.keeps_password(after, account, key, enc, now),
    ensures
        after.password(account, key) matches Some(p) && p@ == enc,
        (other_account != account || other_key != key) ==> after.password(other_account, other_key)
            == before.password(other_account, other_key),
{
    let p = password_is(account, key);
    let q = password_is(other_account, other_key);
    let left = delete_where(before.passwords@, p);
    let new = after.passwords@.last();
    assert(after.passwords@ =~= left.push(new));
    crate::table::lemma_delete_leaves_none(before.passwords@, p);
    lemma_first_where(left, p);
    lemma_first_pushed(left, p, new);
    lemma_first_deleted(before.passwords@, q, p);
    lemma_first_pushed(left, q, new);
}

/// An OAuth credential that is stored is the one that is read, and no other
/// identity's changes.
pub proof fn stored_credential_is_read(
    before: Store,
    after: Store,
    cred: OauthCredential,
    now: i64,
    other_account: Seq<char>,
    other_key: Seq<char>,
)
    requires
        before.grants(after, cred, now),
    ensures
        after.oauth_credential(cred.account_id@, cred.mailbox_key@) == Some(cred),
        (other_account != cred.account_id@ || other_key != cred.mailbox_key@)
            ==> after.oauth_credential(other_account, other_key) == before.oauth_credential(
            other_account,
            other_key,
        ),
{
    let p = credential_is(cred.account_id@, cred.mailbox_key@);
    let q = credential_is(other_account, other_key);
    let left = delete_where(before.oauth_credentials@, p);
    let new = OauthCredentialRecord { cred, updated_at: now };
    crate::table::lemma_delete_leaves_none(before.oauth_credentials@, p);
    lemma_first_where(left, p);
    lemma_first_pushed(left, p, new);
    lemma_first_deleted(before.oauth_credentials@, q, p);
    lemma_first_pushed(left, q, new);
}

/// A delivery that was logged comes first in its service's log, as long as the
/// clock did not run backwards.
pub proof fn logged_delivery_comes_first(
    before: Store,
    after: Store,
    outcome: DeliveryOutcome<'_>,
    at: i64,
    limit: int,
)
    requires
        before.logs(after, outcome, at),
        forall|i: int|
            0 <= i < before.deliveries@.len() ==> (#[trigger] before.deliveries@[i]).at <= at,
        limit >= 1,
    ensures
        ({
            let shown = newest(
                after.deliveries@.filter(delivery_of(Some(outcome.account@))),
                limit,
            );
            shown.len() > 0 && shown[0].logged(outcome, at)
        }),
{
    let p = delivery_of(Some(outcome.account@));
    let new = after.deliveries@.last();
    let old = before.deliveries@.filter(p);
    assert(after.deliveries@ =~= before.deliveries@.push(new));
    lemma_filter_push(before.deliveries@, p, new);
    let s = old.push(new).reverse();
    assert(s[0] == new);
    assert forall|i: int| 0 <= i < s.len() implies !(#[trigger] s[i]).precedes(s[0]) by {
        if i > 0 {
            let d = old[old.len() - i];
            assert(s[i] == d);
            assert(old.contains(d));
            lemma_filter_contains(before.deliveries@, p, d);
        }
    }
    sorted_keeps_first(s);
    sorted_is_ordered(s);
}

/// The deliveries shown to an account are those of services it owns, newest
/// first.
pub proof fn owned_deliveries_only(store: Store, owner: Seq<char>, limit: int)
    requires
        limit >= 0,
    ensures
        ({
            let shown = newest(
                store.deliveries@.filter(delivery_owned(store.watches@, owner)),
                limit,
            );
            &&& shown.len() <= limit
            &&& forall|i: int|
                0 <= i < shown.len() ==> store.deliveries@.contains(#[trigger] shown[i])
                    && any_where(store.watches@, watch_owned(shown[i].account@, owner))
            &&& forall|i: int, j: int|
                0 <= i < j < shown.len() ==> (#[trigger] shown[i]).at >= (#[trigger] shown[j]).at
        }),
{
    let p = delivery_owned(store.watches@, owner);
    let mine = store.deliveries@.filter(p);
    let ordered = sorted(mine.reverse());
    sorted_is_ordered(mine.reverse());
    let shown = newest(mine, limit);
    assert forall|i: int| 0 <= i < shown.len() implies store.deliveries@.contains(
        #[trigger] shown[i],
    ) && any_where(store.watches@, watch_owned(shown[i].account@, owner)) by {
        assert(shown[i] == ordered[i]);
        assert(ordered.contains(ordered[i]));
        sorted_contains(mine.reverse(), ordered[i]);
        let k = choose|k: int| 0 <= k < mine.reverse().len() && mine.reverse()[k] == ordered[i];
        assert(mine[mine.len() - 1 - k] == ordered[i]);
        assert(mine.contains(ordered[i]));
        lemma_filter_contains(store.deliveries@, p, ordered[i]);
    }
    assert forall|i: int, j: int| 0 <= i < j < shown.len() implies (#[trigger] shown[i]).at >= (
    #[trigger] shown[j]).at by {
        assert(shown[i] == ordered[i] && shown[j] == ordered[j]);
        assert(!ordered[j].precedes(ordered[i]));
    }
}

// --- services ---

/// Redefining a service replaces everything that its definition says, drops a
/// rotation in flight, and keeps its id, the time it is paid up to, its renewal
/// and its checkpoint; it touches no other service.
pub proof fn redefinition_replaces_the_definition(store: Store, watch: Watch, i: int)
    requires
        0 <= i < store.watches@.len(),
        store.watches@[i].id@ == watch.id@,
    ensures
        ({
            let (after, w) = (store.watches_with(watch), store.watches@[i]);
            let x = after[i];
            &&& after.len() == store.watches@.len()
            &&& x.id == w.id
            &&& x.watching_until == w.watching_until
            &&& x.auto_renew == w.auto_renew
            &&& x.carddav_sync_token == w.carddav_sync_token
            &&& x.hmac_secret_prev is None
            &&& x.hmac_secret_prev_expires is None
            &&& x.imap_host == watch.imap_host
            &&& x.imap_port == watch.imap_port
            &&& x.login == watch.login
            &&& x.enc_password == watch.enc_password
            &&& x.mailbox == watch.mailbox
            &&& x.notify_url == watch.notify_url
            &&& x.hmac_secret == watch.hmac_secret
            &&& x.account_id == watch.account_id
            &&& x.provider == watch.provider
            &&& x.auth_kind == watch.auth_kind
            &&& x.active == watch.active
            &&& x.source_kind == watch.source_kind
            &&& x.carddav_url == watch.carddav_url
            &&& x.carddav_poll_secs == watch.carddav_poll_secs
            &&& forall|j: int|
                0 <= j < after.len() && store.watches@[j].id@ != watch.id@ ==> #[trigger] after[j]
                    == store.watches@[j]
        }),
{
    assert(watch_is(watch.id@)(store.watches@[i]));
}

/// A service declared anew comes behind the others as it is defined, but neither
/// paid for nor renewing itself, without a checkpoint and without a rotation.
pub proof fn new_service_is_not_activated(store: Store, watch: Watch)
    requires
        forall|i: int| 0 <= i < store.watches@.len() ==> (#[trigger] store.watches@[i]).id@
            != watch.id@,
    ensures
        store.watches_with(watch) == store.watches@.push(
            Watch {
                watching_until: None,
                auto_renew: false,
                carddav_sync_token: None,
                hmac_secret_prev: None,
                hmac_secret_prev_expires: None,
                ..watch
            },
        ),
{
    let p = watch_is(watch.id@);
    if any_where(store.watches@, p) {
        let i = choose|i: int| 0 <= i < store.watches@.len() && p(#[trigger] store.watches@[i]);
        assert(store.watches@[i].id@ != watch.id@);
    }
}

/// Pausing, paying for and setting the renewal of a service change that of it,
/// and nothing else of it or of any other.
pub proof fn switches_change_what_they_say(
    watches: Seq<Watch>,
    id: Seq<char>,
    active: bool,
    until: i64,
    renew: bool,
    i: int,
)
    requires
        0 <= i < watches.len(),
    ensures
        ({
            let (p, w) = (watch_is(id), watches[i]);
            let own = w.id@ == id;
            &&& update_where(watches, p, with_active(active)).len() == watches.len()
            &&& update_where(watches, p, with_active(active))[i] == if own {
                Watch { active, ..w }
            } else {
                w
            }
            &&& update_where(watches, p, with_until(until))[i] == if own {
                Watch { watching_until: Some(until), ..w }
            } else {
                w
            }
            &&& update_where(watches, p, with_auto_renew(renew))[i] == if own {
                Watch { auto_renew: renew, ..w }
            } else {
                w
            }
        }),
{
}

/// A service that is deleted is gone, and every other stays.
pub proof fn deleted_service_is_gone(watches: Seq<Watch>, id: Seq<char>, w: Watch)
    ensures
        delete_where(watches, watch_is(id)).contains(w) <==> watches.contains(w) && w.id@ != id,
{
    lemma_filter_contains(watches, |w: Watch| !watch_is(id)(w), w);
}

/// The services that may be watched are those that are not paused.
pub proof fn paused_services_are_not_active(watches: Seq<Watch>, w: Watch)
    ensures
        watches.filter(watch_active()).contains(w) <==> watches.contains(w) && w.active,
{
    lemma_filter_contains(watches, watch_active(), w);
}

/// An account's services are those that are paid from it.
pub proof fn services_belong_to_their_account(watches: Seq<Watch>, account: Seq<char>, w: Watch)
    ensures
        sorted(watches.filter(watch_of(account))).contains(w) <==> watches.contains(w)
            && w.account_id@ == account,
{
    lemma_filter_contains(watches, watch_of(account), w);
    sorted_contains(watches.filter(watch_of(account)), w);
}

/// A service is found by its id.
pub proof fn service_is_found_by_its_id(watches: Seq<Watch>, id: Seq<char>, i: int)
    requires
        distinct(watches, |w: Watch| w.id@),
    ensures
        0 <= i < watches.len() && watches[i].id@ == id ==> first_where(watches, watch_is(id))
            == Some(watches[i]),
        (forall|j: int| 0 <= j < watches.len() ==> (#[trigger] watches[j]).id@ != id)
            ==> first_where(watches, watch_is(id)) is None,
{
    if 0 <= i < watches.len() && watches[i].id@ == id {
        lemma_first_is(watches, |w: Watch| w.id@, watch_is(id), i);
    }
    lemma_first_where(watches, watch_is(id));
}

/// A rotation gives a service the new secret, keeps the old one until the
/// overlap is over, and changes nothing else of it nor of any other service.
pub proof fn rotation_keeps_the_old_secret(
    before: Store,
    after: Store,
    id: Seq<char>,
    secret: String,
    overlap: u64,
    now: i64,
    r: Option<i64>,
    i: int,
)
    requires
        before.rotates(after, id, secret, overlap, now, r),
        0 <= i < before.watches@.len(),
        overlap <= 0x7fff_ffff_ffff_ffff,
        now + overlap <= i64::MAX,
    ensures
        after.watches@.len() == before.watches@.len(),
        before.watches@[i].id@ == id ==> {
            &&& r == Some((now + overlap) as i64)
            &&& after.watches@[i] == (Watch {
                hmac_secret: secret,
                hmac_secret_prev: Some(before.watches@[i].hmac_secret),
                hmac_secret_prev_expires: Some((now + overlap) as i64),
                ..before.watches@[i]
            })
        },
        before.watches@[i].id@ != id ==> after.watches@[i] == before.watches@[i],
{
    if before.watches@[i].id@ == id {
        assert(watch_is(id)(before.watches@[i]));
    }
}

/// A service is signed for with its secret, and with its previous one as well
/// strictly before that expires.
pub proof fn previous_secret_expires(watch: Watch, now: int)
    ensures
        watch.secrets_at(now)[0] == watch.hmac_secret@,
        watch.hmac_secret_prev matches Some(prev) ==> (
        watch.hmac_secret_prev_expires matches Some(expires) ==> (now < expires
            ==> watch.secrets_at(now) == seq![watch.hmac_secret@, prev@]) && (now >= expires
            ==> watch.secrets_at(now).len() == 1)),
        watch.hmac_secret_prev is None ==> watch.secrets_at(now).len() == 1,
        watch.hmac_secret_prev_expires is None ==> watch.secrets_at(now).len() == 1,
{
}

// --- accounts ---

/// An account that is made sure of exists; where it did before, it is left
/// alone, and where it did not, it starts with no credits and its free credit
/// still to be granted.
pub proof fn accounts_start_empty(
    before: Store,
    after: Store,
    id: Seq<char>,
    email: Option<Seq<char>>,
)
    requires
        before.ensures_account(after, id, email),
    ensures
        exists|i: int| 0 <= i < after.accounts@.len() && (#[trigger] after.accounts@[i]).id@ == id,
        (exists|i: int| 0 <= i < before.accounts@.len() && (#[trigger] before.accounts@[i]).id@
            == id) ==> after.accounts@ == before.accounts@,
        (forall|i: int| 0 <= i < before.accounts@.len() ==> (#[trigger] before.accounts@[i]).id@
            != id) ==> {
            let new = after.accounts@.last();
            &&& after.accounts@ == before.accounts@.push(new)
            &&& new.id@ == id
            &&& opt_text(new.email) == email
            &&& new.credits == 0
            &&& !new.free_credited
        },
{
    let p = account_is(id);
    if any_where(before.accounts@, p) {
        let i = choose|i: int| 0 <= i < before.accounts@.len() && p(#[trigger] before.accounts@[i]);
        assert(after.accounts@[i].id@ == id);
    } else {
        let n = after.accounts@.len() - 1;
        assert(after.accounts@[n].id@ == id);
        assert(after.accounts@ =~= before.accounts@.push(after.accounts@.last()));
        if exists|i: int| 0 <= i < before.accounts@.len() && (#[trigger] before.accounts@[i]).id@
            == id {
            let i = choose|i: int|
                0 <= i < before.accounts@.len() && (#[trigger] before.accounts@[i]).id@ == id;
            assert(p(before.accounts@[i]));
        }
    }
    if forall|i: int| 0 <= i < before.accounts@.len() ==> (#[trigger] before.accounts@[i]).id@ != id {
        if any_where(before.accounts@, p) {
            let i = choose|i: int|
                0 <= i < before.accounts@.len() && p(#[trigger] before.accounts@[i]);
            assert(before.accounts@[i].id@ != id);
        }
    }
}

/// Credits that are added go to the one account, all of them.
pub proof fn added_credits_arrive(accounts: Seq<AccountRecord>, id: Seq<char>, n: int, i: int)
    requires
        0 <= i < accounts.len(),
        i64::MIN <= accounts[i].credits + n <= i64::MAX,
    ensures
        ({
            let after = update_where(accounts, account_is(id), with_credits_added(n));
            &&& after.len() == accounts.len()
            &&& after[i] == if accounts[i].id@ == id {
                AccountRecord { credits: (accounts[i].credits + n) as i64, ..accounts[i] }
            } else {
                accounts[i]
            }
        }),
{
}

/// A debit succeeds exactly where the account holds as much as it asks for.
pub proof fn debits_need_cover(accounts: Seq<AccountRecord>, id: Seq<char>, n: int)
    ensures
        any_where(accounts, account_holding(id, n)) <==> exists|i: int|
            0 <= i < accounts.len() && (#[trigger] accounts[i]).id@ == id && accounts[i].credits
                >= n,
{
    let p = account_holding(id, n);
    if any_where(accounts, p) {
        let i = choose|i: int| 0 <= i < accounts.len() && p(#[trigger] accounts[i]);
        assert(accounts[i].id@ == id && accounts[i].credits >= n);
    }
    if exists|i: int|
        0 <= i < accounts.len() && (#[trigger] accounts[i]).id@ == id && accounts[i].credits >= n {
        let i = choose|i: int|
            0 <= i < accounts.len() && (#[trigger] accounts[i]).id@ == id && accounts[i].credits
                >= n;
        assert(p(accounts[i]));
    }
}

/// The free credit goes to an account that never had it, and marks it; one that
/// had it, and every other account, gets nothing.
pub proof fn free_credit_goes_to_whoever_never_had_it(
    accounts: Seq<AccountRecord>,
    id: Seq<char>,
    n: int,
    i: int,
)
    requires
        0 <= i < accounts.len(),
        i64::MIN <= accounts[i].credits + n <= i64::MAX,
    ensures
        ({
            let after = update_where(accounts, account_uncredited(id), with_free_credit(n));
            &&& after[i] == if accounts[i].id@ == id && !accounts[i].free_credited {
                AccountRecord {
                    credits: (accounts[i].credits + n) as i64,
                    free_credited: true,
                    ..accounts[i]
                }
            } else {
                accounts[i]
            }
            &&& accounts[i].id@ == id && !accounts[i].free_credited ==> any_where(
                accounts,
                account_uncredited(id),
            )
        }),
{
    if accounts[i].id@ == id && !accounts[i].free_credited {
        assert(account_uncredited(id)(accounts[i]));
    }
}

/// An account is read as it is kept.
pub proof fn account_is_read_as_kept(store: Store, i: int)
    requires
        distinct(store.accounts@, |a: AccountRecord| a.id@),
        0 <= i < store.accounts@.len(),
    ensures
        store.account(store.accounts@[i].id@) matches Some(row) && row.id == store.accounts@[i].id
            && row.email == store.accounts@[i].email && row.credits == store.accounts@[i].credits,
{
    lemma_first_is(
        store.accounts@,
        |a: AccountRecord| a.id@,
        account_is(store.accounts@[i].id@),
        i,
    );
}

/// An address leads to the first account that bears it.
pub proof fn address_leads_to_its_first_account(
    accounts: Seq<AccountRecord>,
    email: Seq<char>,
    i: int,
)
    requires
        0 <= i < accounts.len(),
        opt_text(accounts[i].email) == Some(email),
        forall|j: int| 0 <= j < i ==> opt_text((#[trigger] accounts[j]).email) != Some(email),
    ensures
        first_where(accounts, account_with_email(email)) == Some(accounts[i]),
    decreases i,
{
    if i > 0 {
        let rest = accounts.drop_first();
        assert(opt_text(accounts[0].email) != Some(email));
        assert(rest[i - 1] == accounts[i]);
        assert forall|j: int| 0 <= j < i - 1 implies opt_text((#[trigger] rest[j]).email) != Some(
            email,
        ) by {
            assert(rest[j] == accounts[j + 1]);
        }
        address_leads_to_its_first_account(rest, email, i - 1);
    }
}

/// A trial that nobody claimed is granted, and the same account gets no second
/// one on the same provider.
pub proof fn trial_is_granted_the_first_time(
    before: Store,
    mid: Store,
    after: Store,
    account: Seq<char>,
    provider: Seq<char>,
    now: i64,
    later: i64,
    first: bool,
    second: bool,
)
    requires
        before.claims_trial(mid, account, provider, now, first),
        mid.claims_trial(after, account, provider, later, second),
    ensures
        before.claims@.len() == 0 ==> first,
        !second,
        mid.claims@.len() == before.claims@.len() + if first {
            1int
        } else {
            0
        },
        after.claims@ == mid.claims@,
{
    trial_is_claimed_once(before, mid, account, provider, now, first);
}

// --- sign-in links and capabilities ---

/// A sign-in link that is too old proves nothing, and neither does a token that
/// no link was made for.
pub proof fn stale_link_proves_nothing(
    first: Store,
    second: Store,
    third: Store,
    token: Seq<char>,
    email: Seq<char>,
    made: i64,
    max_age: i64,
    now: i64,
    r: Option<String>,
)
    requires
        first.links(second, token, email, made),
        second.takes_link(third, token, max_age, now, r),
        now - made > max_age,
    ensures
        r is None,
{
    let hash = token_hash_of(token);
    let p = link_is(hash);
    let stale = link_stale(now - max_age);
    let left = delete_where(first.magic_links@, p);
    let new = second.magic_links@.last();
    assert(second.magic_links@ =~= left.push(new));
    crate::table::lemma_delete_leaves_none(first.magic_links@, p);
    lemma_filter_push(left, |l: MagicLinkRecord| !stale(l), new);
    lemma_none_after_delete(left, p, stale);
    lemma_first_where(delete_where(second.magic_links@, stale), p);
}

/// A token that no link was made for proves nothing.
pub proof fn unknown_link_proves_nothing(
    before: Store,
    after: Store,
    token: Seq<char>,
    max_age: i64,
    now: i64,
    r: Option<String>,
)
    requires
        before.takes_link(after, token, max_age, now, r),
        forall|i: int| 0 <= i < before.magic_links@.len() ==> (
        #[trigger] before.magic_links@[i]).token_hash@ != token_hash_of(token),
    ensures
        r is None,
{
    let p = link_is(token_hash_of(token));
    assert(!any_where(before.magic_links@, p)) by {
        if any_where(before.magic_links@, p) {
            let i = choose|i: int|
                0 <= i < before.magic_links@.len() && p(#[trigger] before.magic_links@[i]);
            assert(before.magic_links@[i].token_hash@ != token_hash_of(token));
        }
    }
    lemma_none_after_delete(before.magic_links@, p, link_stale(now - max_age));
    lemma_first_where(delete_where(before.magic_links@, link_stale(now - max_age)), p);
}

/// A pending authorization that is too old is not taken.
pub proof fn stale_session_is_not_taken(
    before: Store,
    after: Store,
    state: Seq<char>,
    max_age: i64,
    now: i64,
    r: Option<OauthSession>,
)
    requires
        before.takes_session(after, state, max_age, now, r),
        forall|i: int|
            0 <= i < before.oauth_sessions@.len() && (
            #[trigger] before.oauth_sessions@[i]).session.state@ == state ==> now
                - before.oauth_sessions@[i].created_at > max_age,
    ensures
        r is None,
{
    let p = session_is(state);
    let stale = session_stale(now - max_age);
    let live = delete_where(before.oauth_sessions@, stale);
    lemma_first_where(live, p);
    if any_where(live, p) {
        let i = choose|i: int| 0 <= i < live.len() && p(#[trigger] live[i]);
        assert(live.contains(live[i]));
        lemma_filter_contains(before.oauth_sessions@, |s: OauthSessionRecord| !stale(s), live[i]);
        let k = choose|k: int|
            0 <= k < before.oauth_sessions@.len() && before.oauth_sessions@[k] == live[i];
        assert(before.oauth_sessions@[k].session.state@ == state);
    }
}

/// Issuing a capability link leaves every other link as it was, and so does
/// revoking one.
pub proof fn capabilities_are_independent(
    before: Store,
    after: Store,
    account: Seq<char>,
    token: Seq<char>,
    expires: Option<i64>,
    made: i64,
    other: Seq<char>,
    now: int,
)
    requires
        token_hash_of(other) != token_hash_of(token),
    ensures
        before.issues(after, account, token, expires, made) ==> after.opens(other, now)
            == before.opens(other, now),
        after.capabilities@ == delete_where(
            before.capabilities@,
            capability_is(token_hash_of(token)),
        ) ==> after.opens(other, now) == before.opens(other, now),
{
    let p = capability_is(token_hash_of(token));
    let q = capability_is(token_hash_of(other));
    let left = delete_where(before.capabilities@, p);
    lemma_first_deleted(before.capabilities@, q, p);
    if before.issues(after, account, token, expires, made) {
        let new = after.capabilities@.last();
        assert(after.capabilities@ =~= left.push(new));
        lemma_first_pushed(left, q, new);
    }
}

// --- PIM accounts ---

/// A connection that was recorded belongs to the account that proved it, with
/// the server it was proven on.
pub proof fn proven_connection_is_kept(
    before: Store,
    after: Store,
    account: Seq<char>,
    member: MembershipView,
    now: i64,
)
    requires
        before.joins(after, account, member, now),
    ensures
        exists|i: int|
            0 <= i < after.mailboxes@.len() && {
                let m = #[trigger] after.mailboxes@[i];
                &&& m.account_id@ == account
                &&& m.member.mailbox_key@ == member.mailbox_key
                &&& m.member.protocol@ == member.protocol
                &&& m.member.login@ == member.login
                &&& m.member.imap_host@ == member.imap_host
                &&& m.member.imap_port == member.imap_port
                &&& opt_text(m.member.base_url) == member.base_url
            },
        any_where(
            after.mailboxes@,
            member_is(account, member.mailbox_key, member.protocol),
        ),
{
    let known = member_is(account, member.mailbox_key, member.protocol);
    if any_where(before.mailboxes@, known) {
        let i = choose|i: int| 0 <= i < before.mailboxes@.len() && known(
            #[trigger] before.mailboxes@[i],
        );
        let m = after.mailboxes@[i];
        assert(m.member@ == member);
        assert(known(m));
    } else {
        let n = after.mailboxes@.len() - 1;
        let m = after.mailboxes@[n];
        assert(m.member@ == member);
        assert(known(m));
    }
}

/// A connection is proven exactly where its account, identity and protocol are
/// all those that are asked for.
pub proof fn connections_are_proven_one_by_one(
    mailboxes: Seq<MailboxRecord>,
    account: Seq<char>,
    key: Seq<char>,
    protocol: Seq<char>,
)
    ensures
        any_where(mailboxes, member_is(account, key, protocol)) <==> exists|i: int|
            0 <= i < mailboxes.len() && (#[trigger] mailboxes[i]).account_id@ == account
                && mailboxes[i].member.mailbox_key@ == key && mailboxes[i].member.protocol@
                == protocol,
{
    let p = member_is(account, key, protocol);
    if any_where(mailboxes, p) {
        let i = choose|i: int| 0 <= i < mailboxes.len() && p(#[trigger] mailboxes[i]);
        assert(mailboxes[i].account_id@ == account);
    }
    if exists|i: int|
        0 <= i < mailboxes.len() && (#[trigger] mailboxes[i]).account_id@ == account
            && mailboxes[i].member.mailbox_key@ == key && mailboxes[i].member.protocol@ == protocol {
        let i = choose|i: int|
            0 <= i < mailboxes.len() && (#[trigger] mailboxes[i]).account_id@ == account
                && mailboxes[i].member.mailbox_key@ == key && mailboxes[i].member.protocol@
                == protocol;
        assert(p(mailboxes[i]));
    }
}

/// An identity belongs to the account that declared it first, and to none where
/// nobody declared it.
pub proof fn identity_belongs_to_its_first_account(store: Store, key: Seq<char>)
    ensures
        match store.owner_of(key) {
            Some(owner) => exists|i: int|
                0 <= i < store.mailboxes@.len() && (
                #[trigger] store.mailboxes@[i]).member.mailbox_key@ == key
                    && store.mailboxes@[i].account_id == owner && forall|j: int|
                    0 <= j < store.mailboxes@.len() && (
                    #[trigger] store.mailboxes@[j]).member.mailbox_key@ == key
                        ==> store.mailboxes@[i].added_at <= store.mailboxes@[j].added_at,
            None => forall|i: int|
                0 <= i < store.mailboxes@.len() ==> (
                #[trigger] store.mailboxes@[i]).member.mailbox_key@ != key,
        },
{
    let p = member_keyed(key);
    let all = store.mailboxes@;
    let mine = all.filter(p);
    let rows = sorted(mine);
    sorted_is_ordered(mine);
    assert forall|j: int| 0 <= j < all.len() && (#[trigger] all[j]).member.mailbox_key@
        == key implies rows.contains(all[j]) by {
        assert(all.contains(all[j]));
        lemma_filter_contains(all, p, all[j]);
        sorted_contains(mine, all[j]);
    }
    if rows.len() > 0 {
        let m = rows[0];
        assert(rows.contains(m));
        sorted_contains(mine, m);
        lemma_filter_contains(all, p, m);
        let i = choose|i: int| 0 <= i < all.len() && all[i] == m;
        assert(all[i].member.mailbox_key@ == key);
        assert forall|j: int| 0 <= j < all.len() && (#[trigger] all[j]).member.mailbox_key@
            == key implies all[i].added_at <= all[j].added_at by {
            let k = choose|k: int| 0 <= k < rows.len() && rows[k] == all[j];
            if k > 0 {
                assert(!rows[k].precedes(rows[0]));
            }
        }
    } else {
        assert forall|i: int| 0 <= i < all.len() implies (
        #[trigger] all[i]).member.mailbox_key@ != key by {
            if all[i].member.mailbox_key@ == key {
                assert(rows.contains(all[i]));
            }
        }
    }
}

/// An account is shown its own connections, all of them, and nobody else's.
pub proof fn connections_are_shown_to_their_account(
    store: Store,
    account: Seq<char>,
    member: MembershipRow,
)
    ensures
        store.memberships_of(account).contains(member) <==> exists|i: int|
            0 <= i < store.mailboxes@.len() && (#[trigger] store.mailboxes@[i]).account_id@
                == account && store.mailboxes@[i].member == member,
{
    let p = member_of(account);
    let all = store.mailboxes@;
    let mine = all.filter(p);
    let rows = sorted(mine);
    let shown = store.memberships_of(account);
    if shown.contains(member) {
        let k = choose|k: int| 0 <= k < shown.len() && shown[k] == member;
        assert(rows.contains(rows[k]));
        sorted_contains(mine, rows[k]);
        lemma_filter_contains(all, p, rows[k]);
        let i = choose|i: int| 0 <= i < all.len() && all[i] == rows[k];
        assert(all[i].account_id@ == account && all[i].member == member);
    }
    if exists|i: int|
        0 <= i < all.len() && (#[trigger] all[i]).account_id@ == account && all[i].member
            == member {
        let i = choose|i: int|
            0 <= i < all.len() && (#[trigger] all[i]).account_id@ == account && all[i].member
                == member;
        assert(all.contains(all[i]));
        lemma_filter_contains(all, p, all[i]);
        sorted_contains(mine, all[i]);
        let k = choose|k: int| 0 <= k < rows.len() && rows[k] == all[i];
        assert(shown[k] == member);
    }
}

/// Forgetting a PIM account takes exactly the services of that account, protocol
/// and identity with it, and exactly that connection.
pub proof fn forgetting_takes_the_services_under_it(
    before: Store,
    after: Store,
    account: Seq<char>,
    key: Seq<char>,
    protocol: Seq<char>,
    w: Watch,
    m: MailboxRecord,
)
    requires
        before.forgets(after, account, key, protocol),
    ensures
        after.watches@.contains(w) <==> before.watches@.contains(w) && !(w.account_id@ == account
            && w.source_kind@ == protocol && mailbox_key_of(w.login@, w.imap_host@) == key),
        after.mailboxes@.contains(m) <==> before.mailboxes@.contains(m) && !(m.account_id@
            == account && m.member.mailbox_key@ == key && m.member.protocol@ == protocol),
        before.watches@.filter(watch_under(account, key, protocol)).contains(w) <==> before.watches@.contains(
            w,
        ) && w.account_id@ == account && w.source_kind@ == protocol && mailbox_key_of(
            w.login@,
            w.imap_host@,
        ) == key,
        after.accounts@ == before.accounts@,
        after.deliveries@ == before.deliveries@,
{
    lemma_filter_contains(
        before.watches@,
        |w: Watch| !watch_under(account, key, protocol)(w),
        w,
    );
    lemma_filter_contains(before.watches@, watch_under(account, key, protocol), w);
    lemma_filter_contains(
        before.mailboxes@,
        |m: MailboxRecord| !member_is(account, key, protocol)(m),
        m,
    );
}

// --- purchases ---

/// A purchase is fulfilled with what was recorded for it: an open one is found by
/// its reference, and no fulfilled or foreign one is.
pub proof fn purchase_is_found_by_its_reference(checkouts: Seq<CheckoutRecord>, i: int)
    requires
        distinct(checkouts, |c: CheckoutRecord| c.session_id@),
        0 <= i < checkouts.len(),
    ensures
        ({
            let c = checkouts[i];
            let found = first_where(checkouts, checkout_open(c.session_id@));
            &&& !c.fulfilled ==> found == Some(c)
            &&& c.fulfilled ==> found is None
            &&& update_where(checkouts, checkout_is(c.session_id@), with_fulfilled())[i]
                == CheckoutRecord { fulfilled: true, ..c }
            &&& forall|j: int| 0 <= j < checkouts.len() && j != i ==> #[trigger] update_where(
                checkouts,
                checkout_is(c.session_id@),
                with_fulfilled(),
            )[j] == checkouts[j]
        }),
{
    let c = checkouts[i];
    let p = checkout_open(c.session_id@);
    let key = |c: CheckoutRecord| c.session_id@;
    lemma_first_where(checkouts, p);
    if !c.fulfilled {
        assert(p(checkouts[i]));
    }
    if let Some(x) = first_where(checkouts, p) {
        let j = choose|j: int| 0 <= j < checkouts.len() && checkouts[j] == x;
        if j < i {
            assert(key(checkouts[j]) != key(checkouts[i]));
        } else if i < j {
            assert(key(checkouts[i]) != key(checkouts[j]));
        }
    }
    assert forall|j: int| 0 <= j < checkouts.len() && j != i implies #[trigger] update_where(
        checkouts,
        checkout_is(c.session_id@),
        with_fulfilled(),
    )[j] == checkouts[j] by {
        if j < i {
            assert(key(checkouts[j]) != key(checkouts[i]));
        } else {
            assert(key(checkouts[i]) != key(checkouts[j]));
        }
    }
}

/// A purchase is recorded once under its reference, unfulfilled, for the account
/// and the credits it was started with; a taken reference is refused, and nothing
/// changes.
pub proof fn purchase_is_recorded_once(
    before: Store,
    after: Store,
    session: Seq<char>,
    account: Seq<char>,
    quantity: i64,
    now: i64,
    r: Result<(), crate::store::StoreError>,
)
    requires
        before.opens_checkout(after, session, account, quantity, now, r),
    ensures
        (exists|i: int|
            0 <= i < before.checkouts@.len() && (#[trigger] before.checkouts@[i]).session_id@
                == session) ==> r is Err && after == before,
        (forall|i: int|
            0 <= i < before.checkouts@.len() ==> (#[trigger] before.checkouts@[i]).session_id@
                != session) ==> {
            let new = after.checkouts@.last();
            &&& r is Ok
            &&& after.checkouts@ == before.checkouts@.push(new)
            &&& new.session_id@ == session
            &&& new.account_id@ == account
            &&& new.quantity == quantity
            &&& !new.fulfilled
        },
{
    let p = checkout_is(session);
    if exists|i: int|
        0 <= i < before.checkouts@.len() && (#[trigger] before.checkouts@[i]).session_id@
            == session {
        let i = choose|i: int|
            0 <= i < before.checkouts@.len() && (#[trigger] before.checkouts@[i]).session_id@
                == session;
        assert(p(before.checkouts@[i]));
    } else {
        if any_where(before.checkouts@, p) {
            let i = choose|i: int|
                0 <= i < before.checkouts@.len() && p(#[trigger] before.checkouts@[i]);
            assert(before.checkouts@[i].session_id@ == session);
        }
        assert(after.checkouts@ =~= before.checkouts@.push(after.checkouts@.last()));
    }
}

// --- credentials ---

/// A refresh token that a provider rotated replaces the one of that identity, and
/// nothing else of it nor of any other.
pub proof fn rotated_refresh_token_is_kept(
    before: Store,
    after: Store,
    account: Seq<char>,
    key: Seq<char>,
    token: String,
    now: i64,
    i: int,
)
    requires
        before.refreshes(after, account, key, token, now),
        0 <= i < before.oauth_credentials@.len(),
    ensures
        after.oauth_credentials@.len() == before.oauth_credentials@.len(),
        ({
            let (c, x) = (before.oauth_credentials@[i].cred, after.oauth_credentials@[i].cred);
            x == if c.account_id@ == account && c.mailbox_key@ == key {
                OauthCredential { enc_refresh_token: token, ..c }
            } else {
                c
            }
        }),
{
}

/// What is stored for an identity is read for that account and identity alone.
pub proof fn credentials_are_read_by_their_owner(store: Store, account: Seq<char>, key: Seq<char>)
    ensures
        store.password(account, key) matches Some(enc) ==> exists|i: int|
            0 <= i < store.passwords@.len() && (#[trigger] store.passwords@[i]).account_id@ == account
                && store.passwords@[i].mailbox_key@ == key && store.passwords@[i].enc_password
                == enc,
        store.oauth_credential(account, key) matches Some(c) ==> c.account_id@ == account
            && c.mailbox_key@ == key,
{
    lemma_first_where(store.passwords@, password_is(account, key));
    lemma_first_where(store.oauth_credentials@, credential_is(account, key));
    if let Some(x) = first_where(store.passwords@, password_is(account, key)) {
        let i = choose|i: int| 0 <= i < store.passwords@.len() && store.passwords@[i] == x;
        assert(store.passwords@[i].account_id@ == account);
    }
}

// --- deliveries ---

/// A service's log holds its own deliveries, as many as are asked for, newest
/// first; the log of all holds everyone's.
pub proof fn log_holds_the_newest_of_its_service(
    store: Store,
    account: Option<Seq<char>>,
    limit: int,
)
    requires
        limit >= 0,
    ensures
        ({
            let mine = store.deliveries@.filter(delivery_of(account));
            let shown = newest(mine, limit);
            &&& shown.len() == if limit < mine.len() {
                limit
            } else {
                mine.len() as int
            }
            &&& forall|i: int|
                0 <= i < shown.len() ==> store.deliveries@.contains(#[trigger] shown[i]) && (
                account matches Some(a) ==> shown[i].account@ == a)
            &&& forall|i: int, j: int|
                0 <= i < j < shown.len() ==> (#[trigger] shown[i]).at >= (#[trigger] shown[j]).at
            &&& forall|d: DeliveryRow|
                limit >= mine.len() && #[trigger] store.deliveries@.contains(d) && (
                account matches Some(a) ==> d.account@ == a) ==> shown.contains(d)
        }),
{
    let p = delivery_of(account);
    let mine = store.deliveries@.filter(p);
    let ordered = sorted(mine.reverse());
    sorted_is_ordered(mine.reverse());
    let shown = newest(mine, limit);
    assert forall|i: int| 0 <= i < shown.len() implies store.deliveries@.contains(
        #[trigger] shown[i],
    ) && (account matches Some(a) ==> shown[i].account@ == a) by {
        assert(shown[i] == ordered[i]);
        assert(ordered.contains(ordered[i]));
        sorted_contains(mine.reverse(), ordered[i]);
        let k = choose|k: int| 0 <= k < mine.reverse().len() && mine.reverse()[k] == ordered[i];
        assert(mine[mine.len() - 1 - k] == ordered[i]);
        assert(mine.contains(ordered[i]));
        lemma_filter_contains(store.deliveries@, p, ordered[i]);
    }
    assert forall|i: int, j: int| 0 <= i < j < shown.len() implies (#[trigger] shown[i]).at >= (
    #[trigger] shown[j]).at by {
        assert(shown[i] == ordered[i] && shown[j] == ordered[j]);
        assert(!ordered[j].precedes(ordered[i]));
    }
    assert forall|d: DeliveryRow|
        limit >= mine.len() && #[trigger] store.deliveries@.contains(d) && (
        account matches Some(a) ==> d.account@ == a) implies shown.contains(d) by {
        lemma_filter_contains(store.deliveries@, p, d);
        let k = choose|k: int| 0 <= k < mine.len() && mine[k] == d;
        assert(mine.reverse()[mine.len() - 1 - k] == d);
        assert(mine.reverse().contains(d));
        sorted_contains(mine.reverse(), d);
        let m = choose|m: int| 0 <= m < ordered.len() && ordered[m] == d;
        assert(shown[m] == d);
    }
}

/// What is logged of a delivery is its outcome.
pub proof fn outcome_is_logged_as_it_was(
    row: DeliveryRow,
    outcome: DeliveryOutcome<'_>,
    at: i64,
)
    requires
        row.logged(outcome, at),
    ensures
        row.account@ == outcome.account@,
        row.event@ == outcome.event@,
        row.uid == outcome.uid,
        row.ok == outcome.ok,
        row.status == outcome.status,
        row.error is Some <==> outcome.error is Some,
        outcome.error matches Some(e) ==> (row.error matches Some(x) && x@ == e@),
        row.attempts == outcome.attempts,
        row.at == at,
{
}

/// No two rows of a sound store share what they are looked up by.
pub proof fn sound_store_has_no_duplicates(store: Store, i: int, j: int)
    requires
        store.wf(),
        0 <= i < j,
    ensures
        j < store.watches@.len() ==> store.watches@[i].id@ != store.watches@[j].id@,
        j < store.accounts@.len() ==> store.accounts@[i].id@ != store.accounts@[j].id@,
        j < store.claims@.len() ==> store.claims@[i].key@ != store.claims@[j].key@,
        j < store.magic_links@.len() ==> store.magic_links@[i].token_hash@
            != store.magic_links@[j].token_hash@,
        j < store.capabilities@.len() ==> store.capabilities@[i].token_hash@
            != store.capabilities@[j].token_hash@,
        j < store.checkouts@.len() ==> store.checkouts@[i].session_id@
            != store.checkouts@[j].session_id@,
        j < store.oauth_sessions@.len() ==> store.oauth_sessions@[i].session.state@
            != store.oauth_sessions@[j].session.state@,
{
    if j < store.watches@.len() {
        let k = crate::store::watch_key();
        assert(k(store.watches@[i]) != k(store.watches@[j]));
    }
    if j < store.accounts@.len() {
        let k = crate::store::account_key();
        assert(k(store.accounts@[i]) != k(store.accounts@[j]));
    }
    if j < store.claims@.len() {
        let k = crate::store::claim_key();
        assert(k(store.claims@[i]) != k(store.claims@[j]));
    }
    if j < store.magic_links@.len() {
        let k = crate::store::link_key();
        assert(k(store.magic_links@[i]) != k(store.magic_links@[j]));
    }
    if j < store.capabilities@.len() {
        let k = crate::store::capability_key();
        assert(k(store.capabilities@[i]) != k(store.capabilities@[j]));
    }
    if j < store.checkouts@.len() {
        let k = crate::store::checkout_key();
        assert(k(store.checkouts@[i]) != k(store.checkouts@[j]));
    }
    if j < store.oauth_sessions@.len() {
        let k = crate::store::session_key();
        assert(k(store.oauth_sessions@[i]) != k(store.oauth_sessions@[j]));
    }
}

} // verus!
