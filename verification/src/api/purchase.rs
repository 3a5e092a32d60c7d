//! Buying credits.

use crate::api::reply::ApiError;
use crate::billing::{Billing, BillingError, WebhookOutcome, PACK_SIZE};
use crate::store::{
    account_is, checkout_is, checkout_key, checkout_open, with_credits_added, with_fulfilled, Store,
    StoreError,
};
use crate::table::{any_where, first_where, lemma_first_where, update_where};
use crate::text::join2;
use crate::util::now_secs;
use vstd::prelude::*;

verus! {

/// The most packs whose credits can be counted.
pub const MAX_PACKS: i64 = 1_844_674_407_370_955_161;

/// How many credits so many packs hold. Less than one cannot be bought, nor more
/// than can be counted.
pub fn pack_credits(packs: i64) -> (r: Result<i64, ApiError>)
    ensures
        if packs < 1 {
            r matches Err(ApiError::BadRequest(m)) && m@ == "must buy at least one pack"@
        } else if packs > MAX_PACKS {
            r matches Err(ApiError::BadRequest(m)) && m@ == "too many packs"@
        } else {
            r == Ok::<i64, ApiError>((packs * PACK_SIZE) as i64)
        },
{
    if packs < 1 {
        return Err(ApiError::BadRequest("must buy at least one pack".to_owned()));
    }
    if packs > MAX_PACKS {
        return Err(ApiError::BadRequest("too many packs".to_owned()));
    }
    Ok(packs * PACK_SIZE)
}

/// What a checkout that could not be had is answered.
pub fn checkout_refused(error: &BillingError) -> (r: ApiError)
    ensures
        r matches ApiError::BadRequest(m) && m@ == "could not start checkout: "@ + error.text(),
{
    let why = error.message();
    ApiError::BadRequest(join2("could not start checkout: ", why.as_str()))
}

/// A checkout that was begun.
#[derive(Debug)]
pub struct Purchase {
    pub provider: &'static str,
    pub session_id: String,
    pub checkout_url: String,
    pub packs: i64,
    pub credits: i64,
}

/// What recording a purchase does, at a time: it is kept until the provider
/// tells that it was paid.
pub open spec fn records_purchase(
    before: Store,
    after: Store,
    billing: Billing,
    session: Seq<char>,
    account: Seq<char>,
    packs: i64,
    url: Seq<char>,
    now: i64,
    r: Result<Purchase, StoreError>,
) -> bool {
    exists|kept: Result<(), StoreError>| #[trigger]
        before.opens_checkout(after, session, account, (packs * PACK_SIZE) as i64, now, kept)
            && match (kept, r) {
            (Ok(_), Ok(p)) => p.provider@ == (match billing {
                Billing::Stub => "stub"@,
                Billing::Stripe(_) => "stripe"@,
            }) && p.session_id@ == session && p.checkout_url@ == url && p.packs == packs
                && p.credits == packs * PACK_SIZE,
            (Err(e), Err(x)) => e == x,
            _ => false,
        }
}

/// Records a purchase whose checkout was had, at a time.
pub fn record_purchase_at(
    store: &mut Store,
    billing: &Billing,
    session_id: String,
    account_id: &str,
    packs: i64,
    checkout_url: String,
    now: i64,
) -> (r: Result<Purchase, StoreError>)
    requires
        1 <= packs <= MAX_PACKS,
    ensures
        records_purchase(
            *old(store),
            *final(store),
            *billing,
            session_id@,
            account_id@,
            packs,
            checkout_url@,
            now,
            r,
        ),
{
    let credits: i64 = packs * PACK_SIZE;
    let kept = store.create_session_at(session_id.as_str(), account_id, credits, now);
    assert(old(store).opens_checkout(*store, session_id@, account_id@, credits, now, kept));
    match kept {
        Ok(_) => Ok(
            Purchase { provider: billing.provider(), session_id, checkout_url, packs, credits },
        ),
        Err(e) => Err(e),
    }
}

/// Records a purchase whose checkout was had, now.
pub fn record_purchase(
    store: &mut Store,
    billing: &Billing,
    session_id: String,
    account_id: &str,
    packs: i64,
    checkout_url: String,
) -> (r: Result<Purchase, StoreError>)
    requires
        1 <= packs <= MAX_PACKS,
    ensures
        exists|now: i64| #[trigger]
            records_purchase(
                *old(store),
                *final(store),
                *billing,
                session_id@,
                account_id@,
                packs,
                checkout_url@,
                now,
                r,
            ),
{
    let now: i64 = now_secs();
    record_purchase_at(store, billing, session_id, account_id, packs, checkout_url, now)
}

/// What came of a webhook.
#[derive(Debug)]
pub enum Applied {
    /// The pool of this account got so many credits.
    Credited { account_id: String, quantity: i64 },
    /// The purchase is unknown, or its credits were given already.
    AlreadyDone,
    /// It does not concern us.
    Ignored,
}

/// What crediting a purchase does: its credits go to its account's pool, and
/// the purchase is done.
pub open spec fn credits_purchase(
    before: Store,
    after: Store,
    session: Seq<char>,
    account: String,
    quantity: i64,
) -> bool {
    &&& after.checkouts@ == update_where(before.checkouts@, checkout_is(session), with_fulfilled())
    &&& exists|mid: Store| #[trigger]
        before.ensures_account(mid, account@, None) && after.accounts@ == update_where(
            mid.accounts@,
            account_is(account@),
            with_credits_added(quantity as int),
        )
    &&& after == (Store { checkouts: after.checkouts, accounts: after.accounts, ..before })
}

/// What a webhook's outcome does.
pub open spec fn applies(before: Store, after: Store, outcome: WebhookOutcome, r: Applied) -> bool {
    match outcome {
        WebhookOutcome::Credit { session_id } => match first_where(
            before.checkouts@,
            checkout_open(session_id@),
        ) {
            Some(c) => r == (Applied::Credited { account_id: c.account_id, quantity: c.quantity })
                && credits_purchase(before, after, session_id@, c.account_id, c.quantity),
            None => r == Applied::AlreadyDone && after.checkouts@ == before.checkouts@ && after == (
            Store { checkouts: after.checkouts, ..before }),
        },
        WebhookOutcome::Ignore => r == Applied::Ignored && after == before,
    }
}

/// Does what a webhook asks for: a purchase is credited, once.
pub fn apply_webhook(store: &mut Store, outcome: WebhookOutcome) -> (r: Applied)
    ensures
        applies(*old(store), *final(store), outcome, r),
        old(store).wf() ==> final(store).wf(),
{
    let session_id = match outcome {
        WebhookOutcome::Credit { session_id } => session_id,
        WebhookOutcome::Ignore => return Applied::Ignored,
    };
    let ghost before = *store;
    let (account_id, quantity): (String, i64) = match store.fulfill_session(session_id.as_str()) {
        Some(found) => found,
        None => return Applied::AlreadyDone,
    };
    let ghost s1 = *store;
    store.add_credits(account_id.as_str(), quantity);
    proof {
        let there = choose|mid: Store| #[trigger]
            s1.ensures_account(mid, account_id@, None) && store.accounts@ == update_where(
                mid.accounts@,
                account_is(account_id@),
                with_credits_added(quantity as int),
            );
        let mid = Store { accounts: there.accounts, ..before };
        assert(before.ensures_account(mid, account_id@, None));
    }
    Applied::Credited { account_id, quantity }
}

/// What a provider's webhook does, at a time: one that is not the provider's is
/// refused and does nothing.
pub open spec fn takes_webhook(
    before: Store,
    after: Store,
    billing: Billing,
    signature: Option<Seq<char>>,
    body: Seq<u8>,
    now: int,
    r: Result<Applied, ApiError>,
) -> bool {
    exists|outcome: Result<WebhookOutcome, BillingError>| #[trigger]
        billing.webhook(signature, body, now, outcome) && match outcome {
            Ok(o) => r matches Ok(a) && applies(before, after, o, a),
            Err(e) => after == before && (r matches Err(ApiError::BadRequest(m)) && m@
                == "webhook rejected: "@ + e.text()),
        }
}

/// Takes a provider's webhook, at a time.
pub fn billing_webhook_at(
    store: &mut Store,
    billing: &Billing,
    signature: Option<&str>,
    raw_body: &[u8],
    now: i64,
) -> (r: Result<Applied, ApiError>)
    ensures
        takes_webhook(
            *old(store),
            *final(store),
            *billing,
            crate::table::opt_str(signature),
            raw_body@,
            now as int,
            r,
        ),
        old(store).wf() ==> final(store).wf(),
{
    let outcome = billing.verify_webhook_at(signature, raw_body, now);
    assert(billing.webhook(crate::table::opt_str(signature), raw_body@, now as int, outcome));
    match outcome {
        Ok(o) => Ok(apply_webhook(store, o)),
        Err(e) => {
            let why = e.message();
            Err(ApiError::BadRequest(join2("webhook rejected: ", why.as_str())))
        },
    }
}

/// Takes a provider's webhook, now.
pub fn billing_webhook(
    store: &mut Store,
    billing: &Billing,
    signature: Option<&str>,
    raw_body: &[u8],
) -> (r: Result<Applied, ApiError>)
    ensures
        exists|now: i64| #[trigger]
            takes_webhook(
                *old(store),
                *final(store),
                *billing,
                crate::table::opt_str(signature),
                raw_body@,
                now as int,
                r,
            ),
        old(store).wf() ==> final(store).wf(),
{
    let now: i64 = now_secs();
    let r = billing_webhook_at(store, billing, signature, raw_body, now);
    assert(takes_webhook(
        *old(store),
        *store,
        *billing,
        crate::table::opt_str(signature),
        raw_body@,
        now as int,
        r,
    ));
    r
}

/// A webhook that comes again credits nothing more: the purchase is done, and
/// the pool is as it was.
pub proof fn retried_webhook_credits_nothing(
    before: Store,
    after: Store,
    again: Store,
    outcome: WebhookOutcome,
    first: Applied,
    second: Applied,
)
    requires
        applies(before, after, outcome, first),
        first is Credited,
        applies(after, again, outcome, second),
    ensures
        second == Applied::AlreadyDone,
        again.accounts == after.accounts,
{
    if let WebhookOutcome::Credit { session_id } = outcome {
        let p = checkout_open(session_id@);
        crate::table::lemma_first_where(after.checkouts@, p);
        if crate::table::any_where(after.checkouts@, p) {
            let i = choose|i: int| 0 <= i < after.checkouts@.len() && p(
                #[trigger] after.checkouts@[i],
            );
            let was = before.checkouts@[i];
            assert(after.checkouts@[i] == if checkout_is(session_id@)(was) {
                with_fulfilled()(was)
            } else {
                was
            });
        }
    }
}

/// A pack holds five credits: a purchase that was recorded is of its packs, of
/// the provider that it is paid at, and waits under its reference for its
/// account; a reference that is known is not recorded again.
pub proof fn purchase_is_of_its_packs(
    before: Store,
    after: Store,
    billing: Billing,
    session: Seq<char>,
    account: Seq<char>,
    packs: i64,
    url: Seq<char>,
    now: i64,
    r: Result<Purchase, StoreError>,
)
    requires
        1 <= packs <= 1_844_674_407_370_955_161int,
        records_purchase(before, after, billing, session, account, packs, url, now, r),
    ensures
        r is Ok <==> !any_where(before.checkouts@, checkout_is(session)),
        r is Err ==> after == before && r->Err_0 is Duplicate,
        r matches Ok(p) ==> {
            let kept = after.checkouts@.last();
            &&& p.packs == packs
            &&& p.credits == 5 * packs
            &&& p.session_id@ == session
            &&& p.checkout_url@ == url
            &&& billing is Stub ==> p.provider@ == "stub"@
            &&& billing is Stripe ==> p.provider@ == "stripe"@
            &&& after.checkouts@.len() == before.checkouts@.len() + 1
            &&& kept.session_id@ == session
            &&& kept.account_id@ == account
            &&& kept.quantity == 5 * packs
            &&& kept.created_at == now
            &&& !kept.fulfilled
            &&& after.accounts == before.accounts
        },
{
}

/// A purchase that was paid for adds its credits to its account's pool and to no
/// other, and is done; an account that is not there yet is made with them.
pub proof fn paid_purchase_reaches_its_pool(
    before: Store,
    after: Store,
    outcome: WebhookOutcome,
    account: String,
    quantity: i64,
)
    requires
        before.wf(),
        applies(before, after, outcome, Applied::Credited { account_id: account, quantity }),
    ensures
        outcome is Credit,
        forall|i: int|
            0 <= i < before.accounts@.len() ==> {
                let (a, b) = (before.accounts@[i], #[trigger] after.accounts@[i]);
                if a.id@ == account@ {
                    &&& (i64::MIN <= a.credits + quantity <= i64::MAX) ==> b.credits == a.credits
                        + quantity
                    &&& b.id == a.id
                    &&& b.email == a.email
                    &&& b.free_credited == a.free_credited
                } else {
                    b == a
                }
            },
        (forall|i: int| 0 <= i < before.accounts@.len() ==> (#[trigger] before.accounts@[i]).id@
            != account@) ==> after.accounts@.len() == before.accounts@.len() + 1
            && after.accounts@.last().id@ == account@ && after.accounts@.last().credits
            == quantity,
        exists|i: int|
            0 <= i < before.checkouts@.len() && {
                let c = #[trigger] before.checkouts@[i];
                &&& outcome matches WebhookOutcome::Credit { session_id } && c.session_id@
                    == session_id@
                &&& !c.fulfilled
                &&& c.account_id@ == account@
                &&& c.quantity == quantity
                &&& after.checkouts@[i].fulfilled
            },
        after.watches == before.watches,
        after.capabilities == before.capabilities,
{
    let session = outcome->Credit_session_id@;
    let p = checkout_open(session);
    lemma_first_where(before.checkouts@, p);
    let c = first_where(before.checkouts@, p)->0;
    let i = choose|i: int| 0 <= i < before.checkouts@.len() && before.checkouts@[i] == c;
    assert(after.checkouts@[i].fulfilled);
    let mid = choose|mid: Store| #[trigger]
        before.ensures_account(mid, account@, None) && after.accounts@ == update_where(
            mid.accounts@,
            account_is(account@),
            with_credits_added(quantity as int),
        );
    if !any_where(before.accounts@, account_is(account@)) {
        assert forall|i: int| 0 <= i < before.accounts@.len() implies mid.accounts@[i]
            == #[trigger] before.accounts@[i] by {
            assert(mid.accounts@.drop_last()[i] == before.accounts@[i]);
        }
    } else {
        let k = choose|k: int| 0 <= k < before.accounts@.len() && account_is(account@)(
            #[trigger] before.accounts@[k],
        );
        assert(before.accounts@[k].id@ == account@);
    }
    assert forall|i: int| 0 <= i < before.accounts@.len() implies {
        let (a, b) = (before.accounts@[i], #[trigger] after.accounts@[i]);
        if a.id@ == account@ {
            &&& (i64::MIN <= a.credits + quantity <= i64::MAX) ==> b.credits == a.credits + quantity
            &&& b.id == a.id
            &&& b.email == a.email
            &&& b.free_credited == a.free_credited
        } else {
            b == a
        }
    } by {
        let a = before.accounts@[i];
        assert(mid.accounts@[i] == a);
    }
}

/// A purchase that is waiting is credited the first time that it is said to be
/// paid, whoever it is for; one that is not known is not credited to anyone.
pub proof fn waiting_purchase_is_credited(
    before: Store,
    after: Store,
    session_id: String,
    r: Applied,
    i: int,
)
    requires
        applies(before, after, WebhookOutcome::Credit { session_id }, r),
        before.wf(),
        0 <= i <= before.checkouts@.len(),
        i < before.checkouts@.len() ==> before.checkouts@[i].session_id@ == session_id@,
        i == before.checkouts@.len() ==> forall|j: int|
            0 <= j < before.checkouts@.len() ==> (#[trigger] before.checkouts@[j]).session_id@
                != session_id@,
    ensures
        i < before.checkouts@.len() && !before.checkouts@[i].fulfilled ==> r == (
        Applied::Credited {
            account_id: before.checkouts@[i].account_id,
            quantity: before.checkouts@[i].quantity,
        }),
        i < before.checkouts@.len() && before.checkouts@[i].fulfilled ==> r is AlreadyDone
            && after.accounts == before.accounts,
        i == before.checkouts@.len() ==> r is AlreadyDone && after.accounts == before.accounts,
{
    let p = checkout_open(session_id@);
    lemma_first_where(before.checkouts@, p);
    if i < before.checkouts@.len() && !before.checkouts@[i].fulfilled {
        assert(p(before.checkouts@[i]));
        let c = first_where(before.checkouts@, p)->0;
        let j = choose|j: int| 0 <= j < before.checkouts@.len() && before.checkouts@[j] == c;
        assert(checkout_key()(before.checkouts@[j]) == checkout_key()(before.checkouts@[i]));
    } else if any_where(before.checkouts@, p) {
        let j = choose|j: int| 0 <= j < before.checkouts@.len() && p(
            #[trigger] before.checkouts@[j],
        );
        assert(checkout_key()(before.checkouts@[j]) == checkout_key()(before.checkouts@[i]));
    }
}

/// A webhook that is refused changes nothing, and neither does one that is taken
/// but does not concern us.
pub proof fn refused_webhook_changes_nothing(
    before: Store,
    after: Store,
    billing: Billing,
    signature: Option<Seq<char>>,
    body: Seq<u8>,
    now: int,
    r: Result<Applied, ApiError>,
)
    requires
        takes_webhook(before, after, billing, signature, body, now, r),
    ensures
        r is Err ==> after == before && (r->Err_0 matches ApiError::BadRequest(m) && exists|
            e: BillingError,
        |
            m@ == "webhook rejected: "@ + #[trigger] e.text()),
        r == Ok::<Applied, ApiError>(Applied::Ignored) ==> after == before,
        r == Ok::<Applied, ApiError>(Applied::AlreadyDone) ==> after.accounts == before.accounts,
        (r is Ok && billing is Stub) ==> crate::json::json_string_at(body, "/session_id"@)
            is Some,
{
}

} // verus!
