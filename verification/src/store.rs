//! The store: the source of truth for services, credentials, accounts and the
//! delivery log, as tables of rows in the order they were declared.
//!
//! Each operation is stated as what it does to the tables. Time comes in as an
//! argument of the `_at` operations; their namesakes read the clock.

use crate::digest::{token_hash, token_hash_of};
use crate::metering::{mailbox_key, mailbox_key_of};
pub use crate::rows::{
    AccountRecord, AccountRow, CapabilityRecord, CheckoutRecord, ClaimRecord, DeliveryRow,
    MagicLinkRecord, MailboxRecord, MembershipRow, OauthCredential, OauthCredentialRecord,
    OauthSession, OauthSessionRecord, PasswordRecord, Watch,
};
use crate::sort::{
    lemma_text_asymmetric, lemma_text_weak, is_text_before, sort, sorted, text_before, Ranked,
};
use crate::table::{
    any, any_where, appended, copy_text, delete, delete_where, distinct, find, first_where,
    lemma_append_distinct, lemma_delete_distinct, lemma_delete_leaves_none, lemma_filter_all,
    lemma_update_distinct, lemma_update_none, opt_str, opt_text, own_text, select, update,
    update_where, Row,
};
use crate::text::same;
use crate::util::{add_clamped, as_signed, clamp, now_secs, to_signed};
use vstd::prelude::*;

verus! {

impl Watch {
    /// The secrets a delivery is signed with at a time: the current one, and
    /// the previous one while its overlap is open.
    pub open spec fn secrets_at(&self, now: int) -> Seq<Seq<char>> {
        match (self.hmac_secret_prev, self.hmac_secret_prev_expires) {
            (Some(prev), Some(expires)) => if now < expires {
                seq![self.hmac_secret@, prev@]
            } else {
                seq![self.hmac_secret@]
            },
            _ => seq![self.hmac_secret@],
        }
    }

    /// The secrets a delivery should be signed with right now: always the
    /// current one, plus the previous one while its overlap window is open.
    pub fn signing_secrets(&self, now: i64) -> (r: Vec<&str>)
        ensures
            crate::signature::strs(r@) == self.secrets_at(now as int),
    {
        let mut secrets: Vec<&str> = Vec::new();
        secrets.push(self.hmac_secret.as_str());
        if let (Some(prev), Some(expires)) = (
            &self.hmac_secret_prev,
            self.hmac_secret_prev_expires,
        ) {
            if now < expires {
                secrets.push(prev.as_str());
            }
        }
        assert(crate::signature::strs(secrets@) =~= self.secrets_at(now as int));
        secrets
    }
}

/// The outcome of a delivery, to be logged.
pub struct DeliveryOutcome<'a> {
    /// Owning watch id.
    pub account: &'a str,
    /// Event kind.
    pub event: &'a str,
    /// Affected UID.
    pub uid: u32,
    /// Whether the endpoint acknowledged (2xx).
    pub ok: bool,
    /// Final HTTP status, if any response was received.
    pub status: Option<u16>,
    /// Final error message, if the delivery failed.
    pub error: Option<&'a str>,
    /// Number of attempts made.
    pub attempts: u32,
}

/// Why the store refused a row.
#[derive(Debug, Clone, Copy, PartialEq, Eq)]
pub enum StoreError {
    /// A row with that key is already there.
    Duplicate,
}

/// The tables.
pub struct Store {
    pub watches: Vec<Watch>,
    pub deliveries: Vec<DeliveryRow>,
    pub accounts: Vec<AccountRecord>,
    pub claims: Vec<ClaimRecord>,
    pub magic_links: Vec<MagicLinkRecord>,
    pub capabilities: Vec<CapabilityRecord>,
    pub mailboxes: Vec<MailboxRecord>,
    pub checkouts: Vec<CheckoutRecord>,
    pub oauth_sessions: Vec<OauthSessionRecord>,
    pub oauth_credentials: Vec<OauthCredentialRecord>,
    pub passwords: Vec<PasswordRecord>,
}

// --- keys ---

pub open spec fn watch_key() -> spec_fn(Watch) -> Seq<char> {
    |w: Watch| w.id@
}

pub open spec fn account_key() -> spec_fn(AccountRecord) -> Seq<char> {
    |a: AccountRecord| a.id@
}

pub open spec fn claim_key() -> spec_fn(ClaimRecord) -> Seq<char> {
    |c: ClaimRecord| c.key@
}

pub open spec fn link_key() -> spec_fn(MagicLinkRecord) -> Seq<char> {
    |l: MagicLinkRecord| l.token_hash@
}

pub open spec fn capability_key() -> spec_fn(CapabilityRecord) -> Seq<char> {
    |c: CapabilityRecord| c.token_hash@
}

pub open spec fn member_key() -> spec_fn(MailboxRecord) -> (Seq<char>, Seq<char>, Seq<char>) {
    |m: MailboxRecord| (m.account_id@, m.member.mailbox_key@, m.member.protocol@)
}

pub open spec fn checkout_key() -> spec_fn(CheckoutRecord) -> Seq<char> {
    |c: CheckoutRecord| c.session_id@
}

pub open spec fn session_key() -> spec_fn(OauthSessionRecord) -> Seq<char> {
    |s: OauthSessionRecord| s.session.state@
}

pub open spec fn credential_key() -> spec_fn(OauthCredentialRecord) -> (Seq<char>, Seq<char>) {
    |c: OauthCredentialRecord| (c.cred.account_id@, c.cred.mailbox_key@)
}

pub open spec fn password_key() -> spec_fn(PasswordRecord) -> (Seq<char>, Seq<char>) {
    |p: PasswordRecord| (p.account_id@, p.mailbox_key@)
}

// --- which rows an operation speaks of ---

pub open spec fn watch_is(id: Seq<char>) -> spec_fn(Watch) -> bool {
    |w: Watch| w.id@ == id
}

pub open spec fn watch_of(account: Seq<char>) -> spec_fn(Watch) -> bool {
    |w: Watch| w.account_id@ == account
}

pub open spec fn watch_active() -> spec_fn(Watch) -> bool {
    |w: Watch| w.active
}

/// The services under one PIM account.
pub open spec fn watch_under(
    account: Seq<char>,
    key: Seq<char>,
    protocol: Seq<char>,
) -> spec_fn(Watch) -> bool {
    |w: Watch|
        w.account_id@ == account && w.source_kind@ == protocol && mailbox_key_of(
            w.login@,
            w.imap_host@,
        ) == key
}

pub open spec fn delivery_of(account: Option<Seq<char>>) -> spec_fn(DeliveryRow) -> bool {
    |d: DeliveryRow| account matches Some(a) ==> d.account@ == a
}

/// The deliveries of the services that an account owns.
pub open spec fn delivery_owned(watches: Seq<Watch>, owner: Seq<char>) -> spec_fn(
    DeliveryRow,
) -> bool {
    |d: DeliveryRow| any_where(watches, watch_owned(d.account@, owner))
}

pub open spec fn watch_owned(id: Seq<char>, owner: Seq<char>) -> spec_fn(Watch) -> bool {
    |w: Watch| w.id@ == id && w.account_id@ == owner
}

pub open spec fn account_is(id: Seq<char>) -> spec_fn(AccountRecord) -> bool {
    |a: AccountRecord| a.id@ == id
}

pub open spec fn account_with_email(email: Seq<char>) -> spec_fn(AccountRecord) -> bool {
    |a: AccountRecord| opt_text(a.email) == Some(email)
}

pub open spec fn account_uncredited(id: Seq<char>) -> spec_fn(AccountRecord) -> bool {
    |a: AccountRecord| a.id@ == id && !a.free_credited
}

pub open spec fn account_holding(id: Seq<char>, n: int) -> spec_fn(AccountRecord) -> bool {
    |a: AccountRecord| a.id@ == id && a.credits >= n
}

pub open spec fn claim_is(key: Seq<char>) -> spec_fn(ClaimRecord) -> bool {
    |c: ClaimRecord| c.key@ == key
}

pub open spec fn link_is(hash: Seq<char>) -> spec_fn(MagicLinkRecord) -> bool {
    |l: MagicLinkRecord| l.token_hash@ == hash
}

pub open spec fn link_stale(cutoff: int) -> spec_fn(MagicLinkRecord) -> bool {
    |l: MagicLinkRecord| l.created_at < cutoff
}

pub open spec fn capability_is(hash: Seq<char>) -> spec_fn(CapabilityRecord) -> bool {
    |c: CapabilityRecord| c.token_hash@ == hash
}

pub open spec fn member_is(
    account: Seq<char>,
    key: Seq<char>,
    protocol: Seq<char>,
) -> spec_fn(MailboxRecord) -> bool {
    |m: MailboxRecord|
        m.account_id@ == account && m.member.mailbox_key@ == key && m.member.protocol@ == protocol
}

pub open spec fn member_of(account: Seq<char>) -> spec_fn(MailboxRecord) -> bool {
    |m: MailboxRecord| m.account_id@ == account
}

pub open spec fn member_identity(account: Seq<char>, key: Seq<char>) -> spec_fn(
    MailboxRecord,
) -> bool {
    |m: MailboxRecord| m.account_id@ == account && m.member.mailbox_key@ == key
}

pub open spec fn member_keyed(key: Seq<char>) -> spec_fn(MailboxRecord) -> bool {
    |m: MailboxRecord| m.member.mailbox_key@ == key
}

pub open spec fn checkout_is(id: Seq<char>) -> spec_fn(CheckoutRecord) -> bool {
    |c: CheckoutRecord| c.session_id@ == id
}

pub open spec fn checkout_open(id: Seq<char>) -> spec_fn(CheckoutRecord) -> bool {
    |c: CheckoutRecord| c.session_id@ == id && !c.fulfilled
}

pub open spec fn session_is(state: Seq<char>) -> spec_fn(OauthSessionRecord) -> bool {
    |s: OauthSessionRecord| s.session.state@ == state
}

pub open spec fn session_stale(cutoff: int) -> spec_fn(OauthSessionRecord) -> bool {
    |s: OauthSessionRecord| s.created_at < cutoff
}

pub open spec fn credential_is(account: Seq<char>, key: Seq<char>) -> spec_fn(
    OauthCredentialRecord,
) -> bool {
    |c: OauthCredentialRecord| c.cred.account_id@ == account && c.cred.mailbox_key@ == key
}

pub open spec fn password_is(account: Seq<char>, key: Seq<char>) -> spec_fn(PasswordRecord) -> bool {
    |p: PasswordRecord| p.account_id@ == account && p.mailbox_key@ == key
}

// --- what an operation makes of a row ---

/// A service redefined: everything but its identity, its activation and its
/// checkpoint. A rotation in flight is dropped.
pub open spec fn redefined(by: Watch) -> spec_fn(Watch) -> Watch {
    |w: Watch|
        Watch {
            id: w.id,
            hmac_secret_prev: None,
            hmac_secret_prev_expires: None,
            watching_until: w.watching_until,
            auto_renew: w.auto_renew,
            carddav_sync_token: w.carddav_sync_token,
            ..by
        }
}

/// A service as it is first stored: not activated, without a checkpoint, and
/// with no rotation in flight.
pub open spec fn declared(w: Watch) -> Watch {
    Watch {
        hmac_secret_prev: None,
        hmac_secret_prev_expires: None,
        watching_until: None,
        auto_renew: false,
        carddav_sync_token: None,
        ..w
    }
}

pub open spec fn with_active(active: bool) -> spec_fn(Watch) -> Watch {
    |w: Watch| Watch { active, ..w }
}

pub open spec fn with_until(until: i64) -> spec_fn(Watch) -> Watch {
    |w: Watch| Watch { watching_until: Some(until), ..w }
}

pub open spec fn with_sync_token(token: Option<String>) -> spec_fn(Watch) -> Watch {
    |w: Watch| Watch { carddav_sync_token: token, ..w }
}

pub open spec fn with_server(
    login: String,
    imap_host: String,
    imap_port: u16,
    base_url: Option<String>,
) -> spec_fn(MailboxRecord) -> MailboxRecord {
    |m: MailboxRecord|
        MailboxRecord {
            member: MembershipRow { login, imap_host, imap_port, base_url, ..m.member },
            ..m
        }
}

pub open spec fn with_auto_renew(on: bool) -> spec_fn(Watch) -> Watch {
    |w: Watch| Watch { auto_renew: on, ..w }
}

pub open spec fn with_credits_added(n: int) -> spec_fn(AccountRecord) -> AccountRecord {
    |a: AccountRecord| AccountRecord { credits: clamp(a.credits + n) as i64, ..a }
}

pub open spec fn with_free_credit(n: int) -> spec_fn(AccountRecord) -> AccountRecord {
    |a: AccountRecord|
        AccountRecord { credits: clamp(a.credits + n) as i64, free_credited: true, ..a }
}

pub open spec fn with_fulfilled() -> spec_fn(CheckoutRecord) -> CheckoutRecord {
    |c: CheckoutRecord| CheckoutRecord { fulfilled: true, ..c }
}

// --- orders ---

impl Ranked for Watch {
    open spec fn precedes(self, other: Self) -> bool {
        text_before(self.id@, other.id@)
    }

    fn is_before(&self, other: &Self) -> (r: bool) {
        is_text_before(self.id.as_str(), other.id.as_str())
    }

    proof fn asymmetric(a: Self, b: Self) {
        lemma_text_asymmetric(a.id@, b.id@);
    }

    proof fn weakly_transitive(a: Self, b: Self, c: Self) {
        lemma_text_weak(a.id@, b.id@, c.id@);
    }
}

impl Ranked for DeliveryRow {
    open spec fn precedes(self, other: Self) -> bool {
        self.at > other.at
    }

    fn is_before(&self, other: &Self) -> (r: bool) {
        self.at > other.at
    }

    proof fn asymmetric(a: Self, b: Self) {
    }

    proof fn weakly_transitive(a: Self, b: Self, c: Self) {
    }
}

impl Ranked for MailboxRecord {
    open spec fn precedes(self, other: Self) -> bool {
        self.added_at < other.added_at
    }

    fn is_before(&self, other: &Self) -> (r: bool) {
        self.added_at < other.added_at
    }

    proof fn asymmetric(a: Self, b: Self) {
    }

    proof fn weakly_transitive(a: Self, b: Self, c: Self) {
    }
}

/// The newest deliveries: the latest time first, of one time the last logged
/// first, at most `limit` of them.
pub open spec fn newest(s: Seq<DeliveryRow>, limit: int) -> Seq<DeliveryRow> {
    let ordered = sorted(s.reverse());
    ordered.take(
        if limit < ordered.len() {
            limit
        } else {
            ordered.len() as int
        },
    )
}

fn take_newest(rows: &Vec<DeliveryRow>, limit: u32) -> (r: Vec<DeliveryRow>)
    ensures
        r@ == newest(rows@, limit as int),
{
    let mut out: Vec<DeliveryRow> = Vec::new();
    let mut i: usize = rows.len();
    while i > 0
        invariant
            i <= rows@.len(),
            out@ =~= rows@.reverse().take(rows@.len() - i),
        decreases i,
    {
        i -= 1;
        out.push(rows[i].copied());
    }
    assert(out@ =~= rows@.reverse());
    sort(&mut out);
    let ghost ordered = out@;
    if (limit as u64) < (out.len() as u64) {
        out.truncate(limit as usize);
    }
    assert(out@ =~= newest(rows@, limit as int));
    out
}

/// The memberships of sorted records.
pub open spec fn members(s: Seq<MailboxRecord>) -> Seq<MembershipRow> {
    s.map_values(|m: MailboxRecord| m.member)
}

/// The logins and hosts of services.
pub open spec fn identities(s: Seq<Watch>) -> Seq<(String, String)> {
    s.map_values(|w: Watch| (w.login, w.imap_host))
}

/// The ids of services.
pub open spec fn ids(s: Seq<Watch>) -> Seq<String> {
    s.map_values(|w: Watch| w.id)
}

/// The key a trial is claimed under.
pub open spec fn trial_key(account: Seq<char>, provider: Seq<char>) -> Seq<char> {
    account + seq!['|'] + provider
}

impl Store {
    /// No table holds two rows with one key.
    pub open spec fn wf(&self) -> bool {
        &&& distinct(self.watches@, watch_key())
        &&& distinct(self.accounts@, account_key())
        &&& distinct(self.claims@, claim_key())
        &&& distinct(self.magic_links@, link_key())
        &&& distinct(self.capabilities@, capability_key())
        &&& distinct(self.mailboxes@, member_key())
        &&& distinct(self.checkouts@, checkout_key())
        &&& distinct(self.oauth_sessions@, session_key())
        &&& distinct(self.oauth_credentials@, credential_key())
        &&& distinct(self.passwords@, password_key())
    }

    /// An empty store.
    pub fn new() -> (r: Store)
        ensures
            r.wf(),
            r.watches@.len() == 0,
            r.deliveries@.len() == 0,
            r.accounts@.len() == 0,
            r.claims@.len() == 0,
            r.magic_links@.len() == 0,
            r.capabilities@.len() == 0,
            r.mailboxes@.len() == 0,
            r.checkouts@.len() == 0,
            r.oauth_sessions@.len() == 0,
            r.oauth_credentials@.len() == 0,
            r.passwords@.len() == 0,
    {
        Store {
            watches: Vec::new(),
            deliveries: Vec::new(),
            accounts: Vec::new(),
            claims: Vec::new(),
            magic_links: Vec::new(),
            capabilities: Vec::new(),
            mailboxes: Vec::new(),
            checkouts: Vec::new(),
            oauth_sessions: Vec::new(),
            oauth_credentials: Vec::new(),
            passwords: Vec::new(),
        }
    }

    // --- services ---

    /// Changes the service with an id in a way that keeps its id.
    fn edit_watch<G: Fn(&Watch) -> Watch>(&mut self, id: &str, change: G, Ghost(f): Ghost<
        spec_fn(Watch) -> Watch,
    >) -> (r: bool)
        requires
            forall|w: Watch| #[trigger] change.requires((&w,)),
            forall|w: Watch, x: Watch| #[trigger] change.ensures((&w,), x) ==> x == f(w),
            forall|w: Watch| (#[trigger] f(w)).id@ == w.id@,
        ensures
            final(self).watches@ == update_where(old(self).watches@, watch_is(id@), f),
            r == any_where(old(self).watches@, watch_is(id@)),
            *final(self) == (Store { watches: final(self).watches, ..*old(self) }),
            old(self).wf() ==> final(self).wf(),
    {
        proof {
            if old(self).wf() {
                lemma_update_distinct(old(self).watches@, watch_key(), watch_is(id@), f);
            }
        }
        let test = |w: &Watch| -> (b: bool)
            ensures
                b == (w.id@ == id@),
        {
            same(w.id.as_str(), id)
        };
        update(&mut self.watches, test, change, Ghost(watch_is(id@)), Ghost(f))
    }

    /// The services once `watch` is declared or redefined.
    pub open spec fn watches_with(&self, watch: Watch) -> Seq<Watch> {
        if any_where(self.watches@, watch_is(watch.id@)) {
            update_where(self.watches@, watch_is(watch.id@), redefined(watch))
        } else {
            self.watches@.push(declared(watch))
        }
    }

    /// Declares a service, or redefines the one with its id. A redefinition
    /// drops any rotation in flight but keeps the activation and the
    /// checkpoint.
    pub fn upsert_watch(&mut self, watch: &Watch)
        ensures
            final(self).watches@ == old(self).watches_with(*watch),
            *final(self) == (Store { watches: final(self).watches, ..*old(self) }),
            old(self).wf() ==> final(self).wf(),
    {
        let change = |w: &Watch| -> (x: Watch)
            ensures
                x == redefined(*watch)(*w),
        {
            let mut x = watch.clone();
            x.id = w.id.clone();
            x.hmac_secret_prev = None;
            x.hmac_secret_prev_expires = None;
            x.watching_until = w.watching_until;
            x.auto_renew = w.auto_renew;
            x.carddav_sync_token = copy_text(&w.carddav_sync_token);
            x
        };
        let matched = self.edit_watch(watch.id.as_str(), change, Ghost(redefined(*watch)));
        if !matched {
            proof {
                lemma_update_none(old(self).watches@, watch_is(watch.id@), redefined(*watch));
                if old(self).wf() {
                    lemma_append_distinct(
                        old(self).watches@,
                        watch_key(),
                        watch_is(watch.id@),
                        declared(*watch),
                    );
                }
            }
            let mut x = watch.clone();
            x.hmac_secret_prev = None;
            x.hmac_secret_prev_expires = None;
            x.watching_until = None;
            x.auto_renew = false;
            x.carddav_sync_token = None;
            self.watches.push(x);
        }
    }

    /// What a rotation makes of a service.
    pub open spec fn rotation(new_secret: String, expires: i64) -> spec_fn(Watch) -> Watch {
        |w: Watch|
            Watch {
                hmac_secret_prev: Some(w.hmac_secret),
                hmac_secret_prev_expires: Some(expires),
                hmac_secret: new_secret,
                ..w
            }
    }

    /// What a rotation at a time does.
    pub open spec fn rotates(
        self,
        after: Store,
        id: Seq<char>,
        new_secret: String,
        overlap_secs: u64,
        now: i64,
        r: Option<i64>,
    ) -> bool {
        let expires = clamp(now + as_signed(overlap_secs)) as i64;
        &&& after.watches@ == update_where(
            self.watches@,
            watch_is(id),
            Self::rotation(new_secret, expires),
        )
        &&& after == (Store { watches: after.watches, ..self })
        &&& r == (if any_where(self.watches@, watch_is(id)) {
            Some(expires)
        } else {
            None
        })
        &&& self.wf() ==> after.wf()
    }

    /// Rotates a service's secret, keeping the current one as the previous one
    /// for the overlap. The end of the overlap, or nothing where no service has
    /// the id.
    pub fn rotate_secret_at(
        &mut self,
        id: &str,
        new_secret: &String,
        overlap_secs: u64,
        now: i64,
    ) -> (r: Option<i64>)
        ensures
            old(self).rotates(*final(self), id@, *new_secret, overlap_secs, now, r),
    {
        let expires: i64 = add_clamped(now, to_signed(overlap_secs));
        let change = |w: &Watch| -> (x: Watch)
            ensures
                x == Self::rotation(*new_secret, expires)(*w),
        {
            let mut x = w.clone();
            x.hmac_secret_prev = Some(w.hmac_secret.clone());
            x.hmac_secret_prev_expires = Some(expires);
            x.hmac_secret = new_secret.clone();
            x
        };
        let matched = self.edit_watch(id, change, Ghost(Self::rotation(*new_secret, expires)));
        if matched {
            Some(expires)
        } else {
            None
        }
    }

    /// Rotates a service's secret now.
    pub fn rotate_secret(&mut self, id: &str, new_secret: &String, overlap_secs: u64) -> (r: Option<
        i64,
    >)
        ensures
            exists|now: i64|
                #[trigger] old(self).rotates(*final(self), id@, *new_secret, overlap_secs, now, r),
    {
        let now: i64 = now_secs();
        self.rotate_secret_at(id, new_secret, overlap_secs, now)
    }

    /// Every active service, in the order they were declared.
    pub fn active_watches(&self) -> (r: Vec<Watch>)
        ensures
            r@ == self.watches@.filter(watch_active()),
    {
        let test = |w: &Watch| -> (b: bool)
            ensures
                b == w.active,
        {
            w.active
        };
        select(&self.watches, test, Ghost(watch_active()))
    }

    /// Every service, ordered by id.
    pub fn all_watches(&self) -> (r: Vec<Watch>)
        ensures
            r@ == sorted(self.watches@),
    {
        let ghost every = |w: Watch| true;
        let test = |w: &Watch| -> (b: bool)
            ensures
                b == true,
        {
            true
        };
        let mut out = select(&self.watches, test, Ghost(every));
        proof {
            lemma_filter_all(self.watches@, every);
        }
        sort(&mut out);
        out
    }

    /// The services of an account, ordered by id.
    pub fn watches_by_account(&self, account_id: &str) -> (r: Vec<Watch>)
        ensures
            r@ == sorted(self.watches@.filter(watch_of(account_id@))),
    {
        let test = |w: &Watch| -> (b: bool)
            ensures
                b == (w.account_id@ == account_id@),
        {
            same(w.account_id.as_str(), account_id)
        };
        let mut out = select(&self.watches, test, Ghost(watch_of(account_id@)));
        sort(&mut out);
        out
    }

    /// The service with an id.
    pub fn get_watch(&self, id: &str) -> (r: Option<Watch>)
        ensures
            r == first_where(self.watches@, watch_is(id@)),
    {
        let test = |w: &Watch| -> (b: bool)
            ensures
                b == (w.id@ == id@),
        {
            same(w.id.as_str(), id)
        };
        find(&self.watches, test, Ghost(watch_is(id@)))
    }

    /// The account a service belongs to, if the service exists.
    pub fn watch_account(&self, id: &str) -> (r: Option<String>)
        ensures
            r == (match first_where(self.watches@, watch_is(id@)) {
                Some(w) => Some(w.account_id),
                None => None,
            }),
    {
        match self.get_watch(id) {
            Some(w) => Some(w.account_id),
            None => None,
        }
    }

    /// Enables or disables a service; whether one has the id.
    pub fn set_active(&mut self, id: &str, active: bool) -> (r: bool)
        ensures
            final(self).watches@ == update_where(
                old(self).watches@,
                watch_is(id@),
                with_active(active),
            ),
            r == any_where(old(self).watches@, watch_is(id@)),
            *final(self) == (Store { watches: final(self).watches, ..*old(self) }),
            old(self).wf() ==> final(self).wf(),
    {
        let change = |w: &Watch| -> (x: Watch)
            ensures
                x == with_active(active)(*w),
        {
            let mut x = w.clone();
            x.active = active;
            x
        };
        self.edit_watch(id, change, Ghost(with_active(active)))
    }

    /// Deletes a service; whether one had the id.
    pub fn delete_watch(&mut self, id: &str) -> (r: bool)
        ensures
            final(self).watches@ == delete_where(old(self).watches@, watch_is(id@)),
            r == any_where(old(self).watches@, watch_is(id@)),
            *final(self) == (Store { watches: final(self).watches, ..*old(self) }),
            old(self).wf() ==> final(self).wf(),
    {
        proof {
            if old(self).wf() {
                lemma_delete_distinct(old(self).watches@, watch_key(), watch_is(id@));
            }
        }
        let test = |w: &Watch| -> (b: bool)
            ensures
                b == (w.id@ == id@),
        {
            same(w.id.as_str(), id)
        };
        delete(&mut self.watches, test, Ghost(watch_is(id@)))
    }

    // --- deliveries ---

    /// What logging an outcome at a time does.
    pub open spec fn logs(self, after: Store, outcome: DeliveryOutcome<'_>, at: i64) -> bool {
        &&& appended(self.deliveries@, after.deliveries@)
        &&& after.deliveries@.last().logged(outcome, at)
        &&& after == (Store { deliveries: after.deliveries, ..self })
        &&& self.wf() ==> after.wf()
    }

    /// Records the outcome of a delivery.
    pub fn log_delivery_at(&mut self, outcome: &DeliveryOutcome<'_>, at: i64)
        ensures
            old(self).logs(*final(self), *outcome, at),
    {
        let row = DeliveryRow {
            account: outcome.account.to_owned(),
            event: outcome.event.to_owned(),
            uid: outcome.uid,
            ok: outcome.ok,
            status: outcome.status,
            error: own_text(outcome.error),
            attempts: outcome.attempts,
            at,
        };
        self.deliveries.push(row);
        assert(self.deliveries@.drop_last() =~= old(self).deliveries@);
    }

    /// Records the outcome of a delivery, now.
    pub fn log_delivery(&mut self, outcome: &DeliveryOutcome<'_>)
        ensures
            exists|at: i64| #[trigger] old(self).logs(*final(self), *outcome, at),
    {
        let at: i64 = now_secs();
        self.log_delivery_at(outcome, at);
    }

    /// The most recent deliveries over the services an account owns, newest
    /// first. A delivery whose service is gone belongs to nobody.
    pub fn recent_deliveries_by_owner(&self, account_id: &str, limit: u32) -> (r: Vec<DeliveryRow>)
        ensures
            r@ == newest(
                self.deliveries@.filter(delivery_owned(self.watches@, account_id@)),
                limit as int,
            ),
    {
        let test = |d: &DeliveryRow| -> (b: bool)
            ensures
                b == any_where(self.watches@, watch_owned(d.account@, account_id@)),
        {
            let owned = |w: &Watch| -> (o: bool)
                ensures
                    o == (w.id@ == d.account@ && w.account_id@ == account_id@),
            {
                same(w.id.as_str(), d.account.as_str()) && same(w.account_id.as_str(), account_id)
            };
            any(&self.watches, owned, Ghost(watch_owned(d.account@, account_id@)))
        };
        let rows = select(
            &self.deliveries,
            test,
            Ghost(delivery_owned(self.watches@, account_id@)),
        );
        take_newest(&rows, limit)
    }

    /// The most recent deliveries, of one service or of all, newest first.
    pub fn recent_deliveries(&self, account: Option<&str>, limit: u32) -> (r: Vec<DeliveryRow>)
        ensures
            r@ == newest(
                self.deliveries@.filter(delivery_of(opt_str(account))),
                limit as int,
            ),
    {
        let test = |d: &DeliveryRow| -> (b: bool)
            ensures
                b == delivery_of(opt_str(account))(*d),
        {
            match account {
                Some(a) => same(d.account.as_str(), a),
                None => true,
            }
        };
        let rows = select(&self.deliveries, test, Ghost(delivery_of(opt_str(account))));
        take_newest(&rows, limit)
    }

    // --- accounts and the credit pool ---

    /// What making sure of an account does.
    pub open spec fn ensures_account(
        self,
        after: Store,
        id: Seq<char>,
        email: Option<Seq<char>>,
    ) -> bool {
        &&& if any_where(self.accounts@, account_is(id)) {
            after.accounts@ == self.accounts@
        } else {
            let new = after.accounts@.last();
            &&& appended(self.accounts@, after.accounts@)
            &&& new.id@ == id
            &&& opt_text(new.email) == email
            &&& new.credits == 0
            &&& !new.free_credited
        }
        &&& after == (Store { accounts: after.accounts, ..self })
        &&& self.wf() ==> after.wf()
    }

    /// Creates the account, with an empty pool, if it does not exist yet;
    /// whether it was created. The free credit is granted separately.
    pub fn ensure_account(&mut self, id: &str, email: Option<&str>) -> (r: bool)
        ensures
            r == !any_where(old(self).accounts@, account_is(id@)),
            old(self).ensures_account(*final(self), id@, opt_str(email)),
    {
        let test = |a: &AccountRecord| -> (b: bool)
            ensures
                b == (a.id@ == id@),
        {
            same(a.id.as_str(), id)
        };
        let exists = any(&self.accounts, test, Ghost(account_is(id@)));
        if !exists {
            let row = AccountRecord {
                id: id.to_owned(),
                email: own_text(email),
                credits: 0,
                free_credited: false,
            };
            proof {
                if old(self).wf() {
                    lemma_append_distinct(
                        old(self).accounts@,
                        account_key(),
                        account_is(id@),
                        row,
                    );
                }
            }
            self.accounts.push(row);
            assert(self.accounts@.drop_last() =~= old(self).accounts@);
        }
        !exists
    }

    /// Changes the accounts that pass a test in a way that keeps their ids.
    fn edit_accounts<F: Fn(&AccountRecord) -> bool, G: Fn(&AccountRecord) -> AccountRecord>(
        &mut self,
        test: F,
        change: G,
        Ghost(p): Ghost<spec_fn(AccountRecord) -> bool>,
        Ghost(f): Ghost<spec_fn(AccountRecord) -> AccountRecord>,
    ) -> (r: bool)
        requires
            forall|a: AccountRecord| #[trigger] test.requires((&a,)),
            forall|a: AccountRecord, b: bool| #[trigger] test.ensures((&a,), b) ==> b == p(a),
            forall|a: AccountRecord| #[trigger] change.requires((&a,)),
            forall|a: AccountRecord, x: AccountRecord| #[trigger]
                change.ensures((&a,), x) ==> x == f(a),
            forall|a: AccountRecord| (#[trigger] f(a)).id@ == a.id@,
        ensures
            final(self).accounts@ == update_where(old(self).accounts@, p, f),
            r == any_where(old(self).accounts@, p),
            *final(self) == (Store { accounts: final(self).accounts, ..*old(self) }),
            old(self).wf() ==> final(self).wf(),
    {
        proof {
            if old(self).wf() {
                lemma_update_distinct(old(self).accounts@, account_key(), p, f);
            }
        }
        update(&mut self.accounts, test, change, Ghost(p), Ghost(f))
    }

    /// Grants the free credit to an account exactly once; whether it was
    /// granted this time.
    pub fn grant_free_credit(&mut self, account_id: &str, amount: i64) -> (r: bool)
        ensures
            final(self).accounts@ == update_where(
                old(self).accounts@,
                account_uncredited(account_id@),
                with_free_credit(amount as int),
            ),
            r == any_where(old(self).accounts@, account_uncredited(account_id@)),
            *final(self) == (Store { accounts: final(self).accounts, ..*old(self) }),
            old(self).wf() ==> final(self).wf(),
    {
        let test = |a: &AccountRecord| -> (b: bool)
            ensures
                b == account_uncredited(account_id@)(*a),
        {
            same(a.id.as_str(), account_id) && !a.free_credited
        };
        let change = |a: &AccountRecord| -> (x: AccountRecord)
            ensures
                x == with_free_credit(amount as int)(*a),
        {
            let mut x = a.clone();
            x.credits = add_clamped(a.credits, amount);
            x.free_credited = true;
            x
        };
        self.edit_accounts(
            test,
            change,
            Ghost(account_uncredited(account_id@)),
            Ghost(with_free_credit(amount as int)),
        )
    }

    /// What claiming a trial at a time does.
    pub open spec fn claims_trial(
        self,
        after: Store,
        account: Seq<char>,
        provider: Seq<char>,
        now: i64,
        r: bool,
    ) -> bool {
        let key = trial_key(account, provider);
        &&& r == !any_where(self.claims@, claim_is(key))
        &&& if r {
            &&& appended(self.claims@, after.claims@)
            &&& after.claims@.last().key@ == key
            &&& after.claims@.last().account_id@ == account
            &&& after.claims@.last().claimed_at == now
        } else {
            after.claims@ == self.claims@
        }
        &&& after == (Store { claims: after.claims, ..self })
        &&& self.wf() ==> after.wf()
    }

    /// Claims the one welcome trial of an account on a provider; whether it was
    /// still unclaimed.
    pub fn claim_free_trial_at(
        &mut self,
        account_id: &str,
        provider_domain: &str,
        now: i64,
    ) -> (r: bool)
        ensures
            old(self).claims_trial(*final(self), account_id@, provider_domain@, now, r),
    {
        let mut key = account_id.to_owned();
        key.push('|');
        key.append(provider_domain);
        assert(key@ =~= trial_key(account_id@, provider_domain@));
        let test = |c: &ClaimRecord| -> (b: bool)
            ensures
                b == (c.key@ == key@),
        {
            same(c.key.as_str(), key.as_str())
        };
        let claimed = any(&self.claims, test, Ghost(claim_is(key@)));
        if claimed {
            return false;
        }
        let row = ClaimRecord { key, account_id: account_id.to_owned(), claimed_at: now };
        proof {
            if old(self).wf() {
                lemma_append_distinct(
                    old(self).claims@,
                    claim_key(),
                    claim_is(row.key@),
                    row,
                );
            }
        }
        self.claims.push(row);
        assert(self.claims@.drop_last() =~= old(self).claims@);
        true
    }

    /// Claims the one welcome trial of an account on a provider, now.
    pub fn claim_free_trial(&mut self, account_id: &str, provider_domain: &str) -> (r: bool)
        ensures
            exists|now: i64| #[trigger]
                old(self).claims_trial(*final(self), account_id@, provider_domain@, now, r),
    {
        let now: i64 = now_secs();
        self.claim_free_trial_at(account_id, provider_domain, now)
    }

    /// The first declared account bearing an e-mail address.
    pub fn account_by_email(&self, email: &str) -> (r: Option<String>)
        ensures
            r == (match first_where(self.accounts@, account_with_email(email@)) {
                Some(a) => Some(a.id),
                None => None,
            }),
    {
        let test = |a: &AccountRecord| -> (b: bool)
            ensures
                b == (opt_text(a.email) == Some(email@)),
        {
            match &a.email {
                Some(e) => same(e.as_str(), email),
                None => false,
            }
        };
        match find(&self.accounts, test, Ghost(account_with_email(email@))) {
            Some(a) => Some(a.id),
            None => None,
        }
    }

    /// An account's pool state.
    pub fn get_account(&self, id: &str) -> (r: Option<AccountRow>)
        ensures
            r == self.account(id@),
    {
        let test = |a: &AccountRecord| -> (b: bool)
            ensures
                b == (a.id@ == id@),
        {
            same(a.id.as_str(), id)
        };
        match find(&self.accounts, test, Ghost(account_is(id@))) {
            Some(a) => Some(AccountRow { id: a.id, email: a.email, credits: a.credits }),
            None => None,
        }
    }

    /// The pool state of the account with an id.
    pub open spec fn account(&self, id: Seq<char>) -> Option<AccountRow> {
        match first_where(self.accounts@, account_is(id)) {
            Some(a) => Some(AccountRow { id: a.id, email: a.email, credits: a.credits }),
            None => None,
        }
    }

    /// Every account id, ordered.
    pub fn all_account_ids(&self) -> (r: Vec<String>)
        ensures
            r@ == sorted(self.accounts@.map_values(|a: AccountRecord| a.id)),
    {
        let ghost all = self.accounts@.map_values(|a: AccountRecord| a.id);
        let mut out: Vec<String> = Vec::new();
        let mut i: usize = 0;
        while i < self.accounts.len()
            invariant
                i <= self.accounts@.len(),
                all == self.accounts@.map_values(|a: AccountRecord| a.id),
                out@ =~= all.take(i as int),
            decreases self.accounts@.len() - i,
        {
            out.push(self.accounts[i].id.clone());
            i += 1;
        }
        assert(out@ =~= all);
        sort(&mut out);
        out
    }

    /// The login and the host of every service of an account.
    pub fn account_watch_identities(&self, account_id: &str) -> (r: Vec<(String, String)>)
        ensures
            r@ == identities(self.watches@.filter(watch_of(account_id@))),
    {
        let test = |w: &Watch| -> (b: bool)
            ensures
                b == (w.account_id@ == account_id@),
        {
            same(w.account_id.as_str(), account_id)
        };
        let rows = select(&self.watches, test, Ghost(watch_of(account_id@)));
        let mut out: Vec<(String, String)> = Vec::new();
        let mut i: usize = 0;
        while i < rows.len()
            invariant
                i <= rows@.len(),
                out@ =~= identities(rows@).take(i as int),
            decreases rows@.len() - i,
        {
            out.push((rows[i].login.clone(), rows[i].imap_host.clone()));
            i += 1;
        }
        assert(out@ =~= identities(rows@));
        out
    }

    /// Adds `n` credits to an account's pool, creating the account if need be.
    pub fn add_credits(&mut self, account_id: &str, n: i64)
        ensures
            exists|mid: Store| #[trigger]
                old(self).ensures_account(mid, account_id@, None) && final(self).accounts@
                    == update_where(
                    mid.accounts@,
                    account_is(account_id@),
                    with_credits_added(n as int),
                ),
            *final(self) == (Store { accounts: final(self).accounts, ..*old(self) }),
            old(self).wf() ==> final(self).wf(),
    {
        let created = self.ensure_account(account_id, None);
        let ghost mid = *self;
        let test = |a: &AccountRecord| -> (b: bool)
            ensures
                b == (a.id@ == account_id@),
        {
            same(a.id.as_str(), account_id)
        };
        let change = |a: &AccountRecord| -> (x: AccountRecord)
            ensures
                x == with_credits_added(n as int)(*a),
        {
            let mut x = a.clone();
            x.credits = add_clamped(a.credits, n);
            x
        };
        self.edit_accounts(
            test,
            change,
            Ghost(account_is(account_id@)),
            Ghost(with_credits_added(n as int)),
        );
        assert(old(self).ensures_account(mid, account_id@, None));
    }

    /// Spends `n` credits at once, all or nothing; whether they were spent.
    /// Asking for none, or less, spends nothing.
    pub fn debit_credits(&mut self, account_id: &str, n: i64) -> (r: bool)
        ensures
            n <= 0 ==> !r && *final(self) == *old(self),
            n > 0 ==> {
                &&& final(self).accounts@ == update_where(
                    old(self).accounts@,
                    account_holding(account_id@, n as int),
                    with_credits_added(-n),
                )
                &&& r == any_where(old(self).accounts@, account_holding(account_id@, n as int))
            },
            *final(self) == (Store { accounts: final(self).accounts, ..*old(self) }),
            old(self).wf() ==> final(self).wf(),
    {
        if n <= 0 {
            return false;
        }
        let test = |a: &AccountRecord| -> (b: bool)
            ensures
                b == account_holding(account_id@, n as int)(*a),
        {
            same(a.id.as_str(), account_id) && a.credits >= n
        };
        let change = |a: &AccountRecord| -> (x: AccountRecord)
            requires
                n > 0,
            ensures
                x == with_credits_added(-n)(*a),
        {
            let mut x = a.clone();
            x.credits = add_clamped(a.credits, -n);
            x
        };
        self.edit_accounts(
            test,
            change,
            Ghost(account_holding(account_id@, n as int)),
            Ghost(with_credits_added(-n)),
        )
    }

    /// Spends one credit from an account's pool, where it holds one; whether it
    /// was drawn.
    pub fn debit_credit(&mut self, account_id: &str) -> (r: bool)
        ensures
            final(self).accounts@ == update_where(
                old(self).accounts@,
                account_holding(account_id@, 1),
                with_credits_added(-1),
            ),
            r == any_where(old(self).accounts@, account_holding(account_id@, 1)),
            *final(self) == (Store { accounts: final(self).accounts, ..*old(self) }),
            old(self).wf() ==> final(self).wf(),
    {
        self.debit_credits(account_id, 1)
    }
}

impl DeliveryRow {
    /// Whether this row records an outcome at a time.
    pub open spec fn logged(self, outcome: DeliveryOutcome<'_>, at: i64) -> bool {
        &&& self.account@ == outcome.account@
        &&& self.event@ == outcome.event@
        &&& self.uid == outcome.uid
        &&& self.ok == outcome.ok
        &&& self.status == outcome.status
        &&& opt_text(self.error) == opt_str(outcome.error)
        &&& self.attempts == outcome.attempts
        &&& self.at == at
    }
}

impl Store {
    // --- sign-in links ---

    /// What keeping a sign-in link at a time does.
    pub open spec fn links(self, after: Store, token: Seq<char>, email: Seq<char>, now: i64) -> bool {
        let hash = token_hash_of(token);
        let new = after.magic_links@.last();
        &&& appended(delete_where(self.magic_links@, link_is(hash)), after.magic_links@)
        &&& new.token_hash@ == hash
        &&& new.email@ == email
        &&& new.created_at == now
        &&& after == (Store { magic_links: after.magic_links, ..self })
        &&& self.wf() ==> after.wf()
    }

    /// Keeps a pending sign-in link, by the hash of its token.
    pub fn create_magic_link_at(&mut self, token: &str, email: &str, now: i64)
        ensures
            old(self).links(*final(self), token@, email@, now),
    {
        let hash = token_hash(token);
        let test = |l: &MagicLinkRecord| -> (b: bool)
            ensures
                b == (l.token_hash@ == hash@),
        {
            same(l.token_hash.as_str(), hash.as_str())
        };
        delete(&mut self.magic_links, test, Ghost(link_is(hash@)));
        let ghost left = self.magic_links@;
        let row = MagicLinkRecord { token_hash: hash, email: email.to_owned(), created_at: now };
        proof {
            lemma_delete_leaves_none(old(self).magic_links@, link_is(hash@));
            if old(self).wf() {
                lemma_delete_distinct(old(self).magic_links@, link_key(), link_is(hash@));
                lemma_append_distinct(left, link_key(), link_is(hash@), row);
            }
        }
        self.magic_links.push(row);
        assert(self.magic_links@.drop_last() =~= left);
    }

    /// Keeps a pending sign-in link, now.
    pub fn create_magic_link(&mut self, token: &str, email: &str)
        ensures
            exists|now: i64| #[trigger] old(self).links(*final(self), token@, email@, now),
    {
        let now: i64 = now_secs();
        self.create_magic_link_at(token, email, now);
    }

    /// What taking a sign-in link at a time does: links past their age go, and
    /// so does the one that is taken.
    pub open spec fn takes_link(
        self,
        after: Store,
        token: Seq<char>,
        max_age_secs: i64,
        now: i64,
        r: Option<String>,
    ) -> bool {
        let live = delete_where(self.magic_links@, link_stale(now - max_age_secs));
        let hash = token_hash_of(token);
        &&& r == (match first_where(live, link_is(hash)) {
            Some(l) => Some(l.email),
            None => None,
        })
        &&& after.magic_links@ == delete_where(live, link_is(hash))
        &&& after == (Store { magic_links: after.magic_links, ..self })
        &&& self.wf() ==> after.wf()
    }

    /// Consumes a sign-in link, giving the address it proves; nothing where it
    /// is unknown or past its age.
    pub fn take_magic_link_at(&mut self, token: &str, max_age_secs: i64, now: i64) -> (r: Option<
        String,
    >)
        ensures
            old(self).takes_link(*final(self), token@, max_age_secs, now, r),
    {
        let cutoff: i128 = now as i128 - max_age_secs as i128;
        let stale = |l: &MagicLinkRecord| -> (b: bool)
            ensures
                b == (l.created_at < cutoff),
        {
            (l.created_at as i128) < cutoff
        };
        delete(&mut self.magic_links, stale, Ghost(link_stale(cutoff as int)));
        let ghost live = self.magic_links@;
        let hash = token_hash(token);
        let test = |l: &MagicLinkRecord| -> (b: bool)
            ensures
                b == (l.token_hash@ == hash@),
        {
            same(l.token_hash.as_str(), hash.as_str())
        };
        let found = find(&self.magic_links, test, Ghost(link_is(hash@)));
        delete(&mut self.magic_links, test, Ghost(link_is(hash@)));
        proof {
            if old(self).wf() {
                lemma_delete_distinct(
                    old(self).magic_links@,
                    link_key(),
                    link_stale(cutoff as int),
                );
                lemma_delete_distinct(live, link_key(), link_is(hash@));
            }
        }
        match found {
            Some(l) => Some(l.email),
            None => None,
        }
    }

    /// Consumes a sign-in link, now.
    pub fn take_magic_link(&mut self, token: &str, max_age_secs: i64) -> (r: Option<String>)
        ensures
            exists|now: i64| #[trigger]
                old(self).takes_link(*final(self), token@, max_age_secs, now, r),
    {
        let now: i64 = now_secs();
        self.take_magic_link_at(token, max_age_secs, now)
    }

    // --- activation ---

    /// Sets a service's paid-through time; whether one has the id.
    pub fn set_watch_watching_until(&mut self, watch_id: &str, until: i64) -> (r: bool)
        ensures
            final(self).watches@ == update_where(
                old(self).watches@,
                watch_is(watch_id@),
                with_until(until),
            ),
            r == any_where(old(self).watches@, watch_is(watch_id@)),
            *final(self) == (Store { watches: final(self).watches, ..*old(self) }),
            old(self).wf() ==> final(self).wf(),
    {
        let change = |w: &Watch| -> (x: Watch)
            ensures
                x == with_until(until)(*w),
        {
            let mut x = w.clone();
            x.watching_until = Some(until);
            x
        };
        self.edit_watch(watch_id, change, Ghost(with_until(until)))
    }

    /// Whether the services are those of before but for the checkpoint of the
    /// one with an id.
    pub open spec fn checkpoints(self, after: Store, id: Seq<char>, token: Option<Seq<char>>) -> bool {
        &&& after.watches@.len() == self.watches@.len()
        &&& forall|i: int|
            0 <= i < self.watches@.len() ==> {
                let (w, x) = (self.watches@[i], #[trigger] after.watches@[i]);
                if w.id@ == id {
                    &&& x == (Watch { carddav_sync_token: x.carddav_sync_token, ..w })
                    &&& opt_text(x.carddav_sync_token) == token
                } else {
                    x == w
                }
            }
        &&& after == (Store { watches: after.watches, ..self })
        &&& self.wf() ==> after.wf()
    }

    /// Keeps the checkpoint of an address book, or drops it; whether a service
    /// has the id.
    pub fn set_carddav_sync_token(&mut self, watch_id: &str, token: Option<&str>) -> (r: bool)
        ensures
            old(self).checkpoints(*final(self), watch_id@, opt_str(token)),
            r == any_where(old(self).watches@, watch_is(watch_id@)),
    {
        let kept = &own_text(token);
        let change = |w: &Watch| -> (x: Watch)
            ensures
                x == with_sync_token(*kept)(*w),
        {
            let mut x = w.clone();
            x.carddav_sync_token = copy_text(kept);
            x
        };
        self.edit_watch(watch_id, change, Ghost(with_sync_token(*kept)))
    }

    /// Turns auto-renewal on or off; whether a service has the id.
    pub fn set_watch_auto_renew(&mut self, watch_id: &str, on: bool) -> (r: bool)
        ensures
            final(self).watches@ == update_where(
                old(self).watches@,
                watch_is(watch_id@),
                with_auto_renew(on),
            ),
            r == any_where(old(self).watches@, watch_is(watch_id@)),
            *final(self) == (Store { watches: final(self).watches, ..*old(self) }),
            old(self).wf() ==> final(self).wf(),
    {
        let change = |w: &Watch| -> (x: Watch)
            ensures
                x == with_auto_renew(on)(*w),
        {
            let mut x = w.clone();
            x.auto_renew = on;
            x
        };
        self.edit_watch(watch_id, change, Ghost(with_auto_renew(on)))
    }

    // --- capability links ---

    /// What issuing a capability link at a time does.
    pub open spec fn issues(
        self,
        after: Store,
        account: Seq<char>,
        token: Seq<char>,
        expires: Option<i64>,
        now: i64,
    ) -> bool {
        let hash = token_hash_of(token);
        let new = after.capabilities@.last();
        &&& appended(delete_where(self.capabilities@, capability_is(hash)), after.capabilities@)
        &&& new.token_hash@ == hash
        &&& new.account_id@ == account
        &&& new.created_at == now
        &&& new.expires_at == expires
        &&& after == (Store { capabilities: after.capabilities, ..self })
        &&& self.wf() ==> after.wf()
    }

    /// Keeps a capability link to an account, by the hash of its token.
    pub fn issue_capability_at(
        &mut self,
        account_id: &str,
        token: &str,
        expires: Option<i64>,
        now: i64,
    )
        ensures
            old(self).issues(*final(self), account_id@, token@, expires, now),
    {
        let hash = token_hash(token);
        let test = |c: &CapabilityRecord| -> (b: bool)
            ensures
                b == (c.token_hash@ == hash@),
        {
            same(c.token_hash.as_str(), hash.as_str())
        };
        delete(&mut self.capabilities, test, Ghost(capability_is(hash@)));
        let ghost left = self.capabilities@;
        let row = CapabilityRecord {
            token_hash: hash,
            account_id: account_id.to_owned(),
            created_at: now,
            expires_at: expires,
        };
        proof {
            lemma_delete_leaves_none(old(self).capabilities@, capability_is(hash@));
            if old(self).wf() {
                lemma_delete_distinct(
                    old(self).capabilities@,
                    capability_key(),
                    capability_is(hash@),
                );
                lemma_append_distinct(left, capability_key(), capability_is(hash@), row);
            }
        }
        self.capabilities.push(row);
        assert(self.capabilities@.drop_last() =~= left);
    }

    /// Keeps a capability link to an account, now.
    pub fn issue_capability(&mut self, account_id: &str, token: &str, expires: Option<i64>)
        ensures
            exists|now: i64| #[trigger]
                old(self).issues(*final(self), account_id@, token@, expires, now),
    {
        let now: i64 = now_secs();
        self.issue_capability_at(account_id, token, expires, now);
    }

    /// The account a capability link opens at a time.
    pub open spec fn opens(&self, token: Seq<char>, now: int) -> Option<String> {
        match first_where(self.capabilities@, capability_is(token_hash_of(token))) {
            Some(c) => match c.expires_at {
                Some(expires) => if now >= expires {
                    None
                } else {
                    Some(c.account_id)
                },
                None => Some(c.account_id),
            },
            None => None,
        }
    }

    /// The account a capability link opens; none once it has expired.
    pub fn resolve_capability_at(&self, token: &str, now: i64) -> (r: Option<String>)
        ensures
            r == self.opens(token@, now as int),
    {
        let hash = token_hash(token);
        let test = |c: &CapabilityRecord| -> (b: bool)
            ensures
                b == (c.token_hash@ == hash@),
        {
            same(c.token_hash.as_str(), hash.as_str())
        };
        match find(&self.capabilities, test, Ghost(capability_is(hash@))) {
            Some(c) => match c.expires_at {
                Some(expires) => if now >= expires {
                    None
                } else {
                    Some(c.account_id)
                },
                None => Some(c.account_id),
            },
            None => None,
        }
    }

    /// The account a capability link opens now.
    pub fn resolve_capability(&self, token: &str) -> (r: Option<String>)
        ensures
            exists|now: i64| r == #[trigger] self.opens(token@, now as int),
    {
        let now: i64 = now_secs();
        self.resolve_capability_at(token, now)
    }

    /// Revokes a capability link; whether there was one.
    pub fn revoke_capability(&mut self, token: &str) -> (r: bool)
        ensures
            final(self).capabilities@ == delete_where(
                old(self).capabilities@,
                capability_is(token_hash_of(token@)),
            ),
            r == any_where(old(self).capabilities@, capability_is(token_hash_of(token@))),
            *final(self) == (Store { capabilities: final(self).capabilities, ..*old(self) }),
            old(self).wf() ==> final(self).wf(),
    {
        let hash = token_hash(token);
        proof {
            if old(self).wf() {
                lemma_delete_distinct(
                    old(self).capabilities@,
                    capability_key(),
                    capability_is(hash@),
                );
            }
        }
        let test = |c: &CapabilityRecord| -> (b: bool)
            ensures
                b == (c.token_hash@ == hash@),
        {
            same(c.token_hash.as_str(), hash.as_str())
        };
        delete(&mut self.capabilities, test, Ghost(capability_is(hash@)))
    }

    // --- PIM accounts ---

    /// What recording a proven connection at a time does: a new one is added,
    /// a known one has its server renewed and keeps its place.
    pub open spec fn joins(
        self,
        after: Store,
        account: Seq<char>,
        member: MembershipView,
        now: i64,
    ) -> bool {
        let known = member_is(account, member.mailbox_key, member.protocol);
        &&& if any_where(self.mailboxes@, known) {
            &&& after.mailboxes@.len() == self.mailboxes@.len()
            &&& forall|i: int|
                0 <= i < self.mailboxes@.len() ==> {
                    let (m, x) = (self.mailboxes@[i], #[trigger] after.mailboxes@[i]);
                    if known(m) {
                        &&& x.account_id == m.account_id
                        &&& x.added_at == m.added_at
                        &&& x.member@ == member
                    } else {
                        x == m
                    }
                }
        } else {
            let new = after.mailboxes@.last();
            &&& appended(self.mailboxes@, after.mailboxes@)
            &&& new.account_id@ == account
            &&& new.member@ == member
            &&& new.added_at == now
        }
        &&& after == (Store { mailboxes: after.mailboxes, ..self })
        &&& self.wf() ==> after.wf()
    }

    /// Records that an account controls an identity over a protocol.
    pub fn add_membership_at(
        &mut self,
        account_id: &str,
        mailbox_key: &str,
        protocol: &str,
        login: &str,
        imap_host: &str,
        imap_port: u16,
        base_url: Option<&str>,
        now: i64,
    )
        ensures
            old(self).joins(
                *final(self),
                account_id@,
                MembershipView {
                    mailbox_key: mailbox_key@,
                    protocol: protocol@,
                    login: login@,
                    imap_host: imap_host@,
                    imap_port,
                    base_url: opt_str(base_url),
                },
                now,
            ),
    {
        let test = |m: &MailboxRecord| -> (b: bool)
            ensures
                b == member_is(account_id@, mailbox_key@, protocol@)(*m),
        {
            same(m.account_id.as_str(), account_id) && same(
                m.member.mailbox_key.as_str(),
                mailbox_key,
            ) && same(m.member.protocol.as_str(), protocol)
        };
        let host = &imap_host.to_owned();
        let user = &login.to_owned();
        let url = &own_text(base_url);
        let ghost f = with_server(*user, *host, imap_port, *url);
        let change = |m: &MailboxRecord| -> (x: MailboxRecord)
            ensures
                x == with_server(*user, *host, imap_port, *url)(*m),
        {
            let mut x = m.clone();
            x.member.login = user.clone();
            x.member.imap_host = host.clone();
            x.member.imap_port = imap_port;
            x.member.base_url = copy_text(url);
            x
        };
        let ghost p = member_is(account_id@, mailbox_key@, protocol@);
        let matched = update(&mut self.mailboxes, test, change, Ghost(p), Ghost(f));
        proof {
            if old(self).wf() {
                lemma_update_distinct(old(self).mailboxes@, member_key(), p, f);
            }
        }
        if !matched {
            let row = MailboxRecord {
                account_id: account_id.to_owned(),
                member: MembershipRow {
                    mailbox_key: mailbox_key.to_owned(),
                    protocol: protocol.to_owned(),
                    login: user.clone(),
                    imap_host: host.clone(),
                    imap_port,
                    base_url: copy_text(url),
                },
                added_at: now,
            };
            proof {
                lemma_update_none(old(self).mailboxes@, p, f);
                if old(self).wf() {
                    lemma_append_distinct(old(self).mailboxes@, member_key(), p, row);
                }
            }
            self.mailboxes.push(row);
            assert(self.mailboxes@.drop_last() =~= old(self).mailboxes@);
        }
    }

    /// Records that an account controls an identity over a protocol, now.
    pub fn add_membership(
        &mut self,
        account_id: &str,
        mailbox_key: &str,
        protocol: &str,
        login: &str,
        imap_host: &str,
        imap_port: u16,
        base_url: Option<&str>,
    )
        ensures
            exists|now: i64| #[trigger]
                old(self).joins(
                    *final(self),
                    account_id@,
                    MembershipView {
                        mailbox_key: mailbox_key@,
                        protocol: protocol@,
                        login: login@,
                        imap_host: imap_host@,
                        imap_port,
                        base_url: opt_str(base_url),
                    },
                    now,
                ),
    {
        let now: i64 = now_secs();
        self.add_membership_at(
            account_id,
            mailbox_key,
            protocol,
            login,
            imap_host,
            imap_port,
            base_url,
            now,
        );
    }

    /// The account an identity belongs to: the one that declared it first.
    pub fn account_of_mailbox(&self, mailbox_key: &str) -> (r: Option<String>)
        ensures
            r == self.owner_of(mailbox_key@),
    {
        let test = |m: &MailboxRecord| -> (b: bool)
            ensures
                b == (m.member.mailbox_key@ == mailbox_key@),
        {
            same(m.member.mailbox_key.as_str(), mailbox_key)
        };
        let mut rows = select(&self.mailboxes, test, Ghost(member_keyed(mailbox_key@)));
        sort(&mut rows);
        if rows.len() > 0 {
            Some(rows[0].account_id.clone())
        } else {
            None
        }
    }

    /// The account that declared an identity first.
    pub open spec fn owner_of(&self, key: Seq<char>) -> Option<String> {
        let rows = sorted(self.mailboxes@.filter(member_keyed(key)));
        if rows.len() > 0 {
            Some(rows[0].account_id)
        } else {
            None
        }
    }

    /// Whether an account has proven control of an identity over a protocol.
    pub fn mailbox_belongs(&self, account_id: &str, mailbox_key: &str, protocol: &str) -> (r: bool)
        ensures
            r == any_where(self.mailboxes@, member_is(account_id@, mailbox_key@, protocol@)),
    {
        let test = |m: &MailboxRecord| -> (b: bool)
            ensures
                b == member_is(account_id@, mailbox_key@, protocol@)(*m),
        {
            same(m.account_id.as_str(), account_id) && same(
                m.member.mailbox_key.as_str(),
                mailbox_key,
            ) && same(m.member.protocol.as_str(), protocol)
        };
        any(
            &self.mailboxes,
            test,
            Ghost(member_is(account_id@, mailbox_key@, protocol@)),
        )
    }

    /// The PIM accounts of an account, in the order they were declared.
    pub fn memberships(&self, account_id: &str) -> (r: Vec<MembershipRow>)
        ensures
            r@ == self.memberships_of(account_id@),
    {
        let test = |m: &MailboxRecord| -> (b: bool)
            ensures
                b == (m.account_id@ == account_id@),
        {
            same(m.account_id.as_str(), account_id)
        };
        let mut rows = select(&self.mailboxes, test, Ghost(member_of(account_id@)));
        sort(&mut rows);
        let mut out: Vec<MembershipRow> = Vec::new();
        let mut i: usize = 0;
        while i < rows.len()
            invariant
                i <= rows@.len(),
                out@ =~= members(rows@).take(i as int),
            decreases rows@.len() - i,
        {
            out.push(rows[i].member.clone());
            i += 1;
        }
        assert(out@ =~= members(rows@));
        out
    }

    /// The PIM accounts of an account, in the order they were declared.
    pub open spec fn memberships_of(&self, account: Seq<char>) -> Seq<MembershipRow> {
        members(sorted(self.mailboxes@.filter(member_of(account))))
    }

    /// What forgetting a PIM account does: its services go, the connection
    /// goes, and the credential of the identity goes once no connection of the
    /// identity is left.
    pub open spec fn forgets(
        self,
        after: Store,
        account: Seq<char>,
        key: Seq<char>,
        protocol: Seq<char>,
    ) -> bool {
        let left = delete_where(self.mailboxes@, member_is(account, key, protocol));
        let last = !any_where(left, member_identity(account, key));
        &&& after.watches@ == delete_where(self.watches@, watch_under(account, key, protocol))
        &&& after.mailboxes@ == left
        &&& after.passwords@ == if last {
            delete_where(self.passwords@, password_is(account, key))
        } else {
            self.passwords@
        }
        &&& after.oauth_credentials@ == if last {
            delete_where(self.oauth_credentials@, credential_is(account, key))
        } else {
            self.oauth_credentials@
        }
        &&& after == (Store {
            watches: after.watches,
            mailboxes: after.mailboxes,
            passwords: after.passwords,
            oauth_credentials: after.oauth_credentials,
            ..self
        })
        &&& self.wf() ==> after.wf()
    }

    /// Forgets a PIM account with every service under it. The shared
    /// credential is dropped only with the last connection of the identity.
    /// The ids of the services that went.
    pub fn forget_account(&mut self, account_id: &str, mailbox_key: &str, protocol: &str) -> (r: Vec<
        String,
    >)
        ensures
            old(self).forgets(*final(self), account_id@, mailbox_key@, protocol@),
            r@ == ids(
                old(self).watches@.filter(watch_under(account_id@, mailbox_key@, protocol@)),
            ),
    {
        let ghost under = watch_under(account_id@, mailbox_key@, protocol@);
        let ghost gone = member_is(account_id@, mailbox_key@, protocol@);
        let below = |w: &Watch| -> (b: bool)
            ensures
                b == watch_under(account_id@, mailbox_key@, protocol@)(*w),
        {
            same(w.account_id.as_str(), account_id) && same(w.source_kind.as_str(), protocol)
                && same(
                crate::metering::mailbox_key(w.login.as_str(), w.imap_host.as_str()).as_str(),
                mailbox_key,
            )
        };
        let rows = select(&self.watches, below, Ghost(under));
        let mut deleted: Vec<String> = Vec::new();
        let mut i: usize = 0;
        while i < rows.len()
            invariant
                i <= rows@.len(),
                deleted@ =~= ids(rows@).take(i as int),
            decreases rows@.len() - i,
        {
            deleted.push(rows[i].id.clone());
            i += 1;
        }
        assert(deleted@ =~= ids(rows@));
        delete(&mut self.watches, below, Ghost(under));
        let test = |m: &MailboxRecord| -> (b: bool)
            ensures
                b == member_is(account_id@, mailbox_key@, protocol@)(*m),
        {
            same(m.account_id.as_str(), account_id) && same(
                m.member.mailbox_key.as_str(),
                mailbox_key,
            ) && same(m.member.protocol.as_str(), protocol)
        };
        delete(&mut self.mailboxes, test, Ghost(gone));
        let identity = |m: &MailboxRecord| -> (b: bool)
            ensures
                b == member_identity(account_id@, mailbox_key@)(*m),
        {
            same(m.account_id.as_str(), account_id) && same(
                m.member.mailbox_key.as_str(),
                mailbox_key,
            )
        };
        let remaining = any(
            &self.mailboxes,
            identity,
            Ghost(member_identity(account_id@, mailbox_key@)),
        );
        proof {
            if old(self).wf() {
                lemma_delete_distinct(old(self).watches@, watch_key(), under);
                lemma_delete_distinct(old(self).mailboxes@, member_key(), gone);
                lemma_delete_distinct(
                    old(self).passwords@,
                    password_key(),
                    password_is(account_id@, mailbox_key@),
                );
                lemma_delete_distinct(
                    old(self).oauth_credentials@,
                    credential_key(),
                    credential_is(account_id@, mailbox_key@),
                );
            }
        }
        if !remaining {
            let kept = |x: &PasswordRecord| -> (b: bool)
                ensures
                    b == password_is(account_id@, mailbox_key@)(*x),
            {
                same(x.account_id.as_str(), account_id) && same(
                    x.mailbox_key.as_str(),
                    mailbox_key,
                )
            };
            delete(&mut self.passwords, kept, Ghost(password_is(account_id@, mailbox_key@)));
            let granted = |x: &OauthCredentialRecord| -> (b: bool)
                ensures
                    b == credential_is(account_id@, mailbox_key@)(*x),
            {
                same(x.cred.account_id.as_str(), account_id) && same(
                    x.cred.mailbox_key.as_str(),
                    mailbox_key,
                )
            };
            delete(
                &mut self.oauth_credentials,
                granted,
                Ghost(credential_is(account_id@, mailbox_key@)),
            );
        }
        deleted
    }

    // --- purchases ---

    /// What recording a pending purchase at a time does.
    pub open spec fn opens_checkout(
        self,
        after: Store,
        session: Seq<char>,
        account: Seq<char>,
        quantity: i64,
        now: i64,
        r: Result<(), StoreError>,
    ) -> bool {
        let new = after.checkouts@.last();
        if any_where(self.checkouts@, checkout_is(session)) {
            r == Err::<(), StoreError>(StoreError::Duplicate) && after == self
        } else {
            &&& r is Ok
            &&& appended(self.checkouts@, after.checkouts@)
            &&& new.session_id@ == session
            &&& new.account_id@ == account
            &&& new.quantity == quantity
            &&& !new.fulfilled
            &&& new.created_at == now
            &&& after == (Store { checkouts: after.checkouts, ..self })
            &&& self.wf() ==> after.wf()
        }
    }

    /// Records a pending purchase; refused where its reference is taken.
    pub fn create_session_at(
        &mut self,
        session_id: &str,
        account_id: &str,
        quantity: i64,
        now: i64,
    ) -> (r: Result<(), StoreError>)
        ensures
            old(self).opens_checkout(*final(self), session_id@, account_id@, quantity, now, r),
    {
        let test = |c: &CheckoutRecord| -> (b: bool)
            ensures
                b == (c.session_id@ == session_id@),
        {
            same(c.session_id.as_str(), session_id)
        };
        if any(&self.checkouts, test, Ghost(checkout_is(session_id@))) {
            return Err(StoreError::Duplicate);
        }
        let row = CheckoutRecord {
            session_id: session_id.to_owned(),
            account_id: account_id.to_owned(),
            quantity,
            fulfilled: false,
            created_at: now,
        };
        proof {
            if old(self).wf() {
                lemma_append_distinct(
                    old(self).checkouts@,
                    checkout_key(),
                    checkout_is(session_id@),
                    row,
                );
            }
        }
        self.checkouts.push(row);
        assert(self.checkouts@.drop_last() =~= old(self).checkouts@);
        Ok(())
    }

    /// Records a pending purchase, now.
    pub fn create_session(&mut self, session_id: &str, account_id: &str, quantity: i64) -> (r: Result<
        (),
        StoreError,
    >)
        ensures
            exists|now: i64| #[trigger]
                old(self).opens_checkout(*final(self), session_id@, account_id@, quantity, now, r),
    {
        let now: i64 = now_secs();
        self.create_session_at(session_id, account_id, quantity, now)
    }

    /// Fulfils a purchase exactly once, giving the account and the credits it
    /// buys; nothing where it is unknown or already fulfilled.
    pub fn fulfill_session(&mut self, session_id: &str) -> (r: Option<(String, i64)>)
        ensures
            r == (match first_where(old(self).checkouts@, checkout_open(session_id@)) {
                Some(c) => Some((c.account_id, c.quantity)),
                None => None,
            }),
            r is Some ==> final(self).checkouts@ == update_where(
                old(self).checkouts@,
                checkout_is(session_id@),
                with_fulfilled(),
            ),
            r is None ==> final(self).checkouts@ == old(self).checkouts@,
            *final(self) == (Store { checkouts: final(self).checkouts, ..*old(self) }),
            old(self).wf() ==> final(self).wf(),
    {
        let open = |c: &CheckoutRecord| -> (b: bool)
            ensures
                b == checkout_open(session_id@)(*c),
        {
            same(c.session_id.as_str(), session_id) && !c.fulfilled
        };
        match find(&self.checkouts, open, Ghost(checkout_open(session_id@))) {
            None => None,
            Some(c) => {
                let test = |x: &CheckoutRecord| -> (b: bool)
                    ensures
                        b == (x.session_id@ == session_id@),
                {
                    same(x.session_id.as_str(), session_id)
                };
                let change = |x: &CheckoutRecord| -> (y: CheckoutRecord)
                    ensures
                        y == with_fulfilled()(*x),
                {
                    let mut y = x.clone();
                    y.fulfilled = true;
                    y
                };
                proof {
                    if old(self).wf() {
                        lemma_update_distinct(
                            old(self).checkouts@,
                            checkout_key(),
                            checkout_is(session_id@),
                            with_fulfilled(),
                        );
                    }
                }
                update(
                    &mut self.checkouts,
                    test,
                    change,
                    Ghost(checkout_is(session_id@)),
                    Ghost(with_fulfilled()),
                );
                Some((c.account_id, c.quantity))
            },
        }
    }

    // --- OAuth flows and credentials ---

    /// What keeping a pending authorization at a time does.
    pub open spec fn opens_session(
        self,
        after: Store,
        session: OauthSession,
        now: i64,
        r: Result<(), StoreError>,
    ) -> bool {
        if any_where(self.oauth_sessions@, session_is(session.state@)) {
            r == Err::<(), StoreError>(StoreError::Duplicate) && after == self
        } else {
            &&& r is Ok
            &&& after.oauth_sessions@ == self.oauth_sessions@.push(
                OauthSessionRecord { session, created_at: now },
            )
            &&& after == (Store { oauth_sessions: after.oauth_sessions, ..self })
            &&& self.wf() ==> after.wf()
        }
    }

    /// Keeps a pending authorization by its state; refused where the state is
    /// taken.
    pub fn create_oauth_session_at(&mut self, session: &OauthSession, now: i64) -> (r: Result<
        (),
        StoreError,
    >)
        ensures
            old(self).opens_session(*final(self), *session, now, r),
    {
        let test = |s: &OauthSessionRecord| -> (b: bool)
            ensures
                b == (s.session.state@ == session.state@),
        {
            same(s.session.state.as_str(), session.state.as_str())
        };
        if any(&self.oauth_sessions, test, Ghost(session_is(session.state@))) {
            return Err(StoreError::Duplicate);
        }
        let row = OauthSessionRecord { session: session.clone(), created_at: now };
        proof {
            if old(self).wf() {
                lemma_append_distinct(
                    old(self).oauth_sessions@,
                    session_key(),
                    session_is(session.state@),
                    row,
                );
            }
        }
        self.oauth_sessions.push(row);
        Ok(())
    }

    /// Keeps a pending authorization, now.
    pub fn create_oauth_session(&mut self, session: &OauthSession) -> (r: Result<(), StoreError>)
        ensures
            exists|now: i64| #[trigger] old(self).opens_session(*final(self), *session, now, r),
    {
        let now: i64 = now_secs();
        self.create_oauth_session_at(session, now)
    }

    /// What taking a pending authorization at a time does.
    pub open spec fn takes_session(
        self,
        after: Store,
        state: Seq<char>,
        max_age_secs: i64,
        now: i64,
        r: Option<OauthSession>,
    ) -> bool {
        let live = delete_where(self.oauth_sessions@, session_stale(now - max_age_secs));
        &&& r == (match first_where(live, session_is(state)) {
            Some(s) => Some(s.session),
            None => None,
        })
        &&& after.oauth_sessions@ == delete_where(live, session_is(state))
        &&& after == (Store { oauth_sessions: after.oauth_sessions, ..self })
        &&& self.wf() ==> after.wf()
    }

    /// Consumes a pending authorization by its state; nothing where the state
    /// is unknown or past its age.
    pub fn take_oauth_session_at(&mut self, state: &str, max_age_secs: i64, now: i64) -> (r: Option<
        OauthSession,
    >)
        ensures
            old(self).takes_session(*final(self), state@, max_age_secs, now, r),
    {
        let cutoff: i128 = now as i128 - max_age_secs as i128;
        let stale = |s: &OauthSessionRecord| -> (b: bool)
            ensures
                b == (s.created_at < cutoff),
        {
            (s.created_at as i128) < cutoff
        };
        delete(&mut self.oauth_sessions, stale, Ghost(session_stale(cutoff as int)));
        let ghost live = self.oauth_sessions@;
        let test = |s: &OauthSessionRecord| -> (b: bool)
            ensures
                b == (s.session.state@ == state@),
        {
            same(s.session.state.as_str(), state)
        };
        let found = find(&self.oauth_sessions, test, Ghost(session_is(state@)));
        delete(&mut self.oauth_sessions, test, Ghost(session_is(state@)));
        proof {
            if old(self).wf() {
                lemma_delete_distinct(
                    old(self).oauth_sessions@,
                    session_key(),
                    session_stale(cutoff as int),
                );
                lemma_delete_distinct(live, session_key(), session_is(state@));
            }
        }
        match found {
            Some(s) => Some(s.session),
            None => None,
        }
    }

    /// Consumes a pending authorization, now.
    pub fn take_oauth_session(&mut self, state: &str, max_age_secs: i64) -> (r: Option<OauthSession>)
        ensures
            exists|now: i64| #[trigger]
                old(self).takes_session(*final(self), state@, max_age_secs, now, r),
    {
        let now: i64 = now_secs();
        self.take_oauth_session_at(state, max_age_secs, now)
    }

    /// What storing an OAuth credential at a time does.
    pub open spec fn grants(self, after: Store, cred: OauthCredential, now: i64) -> bool {
        &&& after.oauth_credentials@ == delete_where(
            self.oauth_credentials@,
            credential_is(cred.account_id@, cred.mailbox_key@),
        ).push(OauthCredentialRecord { cred, updated_at: now })
        &&& after == (Store { oauth_credentials: after.oauth_credentials, ..self })
        &&& self.wf() ==> after.wf()
    }

    /// Stores the OAuth credential of a mailbox in place of any other.
    pub fn upsert_oauth_credential_at(&mut self, cred: &OauthCredential, now: i64)
        ensures
            old(self).grants(*final(self), *cred, now),
    {
        let ghost p = credential_is(cred.account_id@, cred.mailbox_key@);
        let test = |c: &OauthCredentialRecord| -> (b: bool)
            ensures
                b == credential_is(cred.account_id@, cred.mailbox_key@)(*c),
        {
            same(c.cred.account_id.as_str(), cred.account_id.as_str()) && same(
                c.cred.mailbox_key.as_str(),
                cred.mailbox_key.as_str(),
            )
        };
        delete(&mut self.oauth_credentials, test, Ghost(p));
        let ghost left = self.oauth_credentials@;
        let row = OauthCredentialRecord { cred: cred.clone(), updated_at: now };
        proof {
            lemma_delete_leaves_none(old(self).oauth_credentials@, p);
            if old(self).wf() {
                lemma_delete_distinct(old(self).oauth_credentials@, credential_key(), p);
                lemma_append_distinct(left, credential_key(), p, row);
            }
        }
        self.oauth_credentials.push(row);
    }

    /// Stores the OAuth credential of a mailbox, now.
    pub fn upsert_oauth_credential(&mut self, cred: &OauthCredential)
        ensures
            exists|now: i64| #[trigger] old(self).grants(*final(self), *cred, now),
    {
        let now: i64 = now_secs();
        self.upsert_oauth_credential_at(cred, now);
    }

    /// The OAuth credential of a mailbox.
    pub open spec fn oauth_credential(&self, account: Seq<char>, key: Seq<char>) -> Option<
        OauthCredential,
    > {
        match first_where(self.oauth_credentials@, credential_is(account, key)) {
            Some(c) => Some(c.cred),
            None => None,
        }
    }

    /// The OAuth credential of a mailbox, if any.
    pub fn get_oauth_credential(&self, account_id: &str, mailbox_key: &str) -> (r: Option<
        OauthCredential,
    >)
        ensures
            r == self.oauth_credential(account_id@, mailbox_key@),
    {
        let test = |c: &OauthCredentialRecord| -> (b: bool)
            ensures
                b == credential_is(account_id@, mailbox_key@)(*c),
        {
            same(c.cred.account_id.as_str(), account_id) && same(
                c.cred.mailbox_key.as_str(),
                mailbox_key,
            )
        };
        match find(
            &self.oauth_credentials,
            test,
            Ghost(credential_is(account_id@, mailbox_key@)),
        ) {
            Some(c) => Some(c.cred),
            None => None,
        }
    }

    /// What a refresh makes of a credential.
    pub open spec fn refreshed(token: String, now: i64) -> spec_fn(
        OauthCredentialRecord,
    ) -> OauthCredentialRecord {
        |c: OauthCredentialRecord|
            OauthCredentialRecord {
                cred: OauthCredential { enc_refresh_token: token, ..c.cred },
                updated_at: now,
            }
    }

    /// What renewing a refresh token at a time does.
    pub open spec fn refreshes(
        self,
        after: Store,
        account: Seq<char>,
        key: Seq<char>,
        token: String,
        now: i64,
    ) -> bool {
        &&& after.oauth_credentials@ == update_where(
            self.oauth_credentials@,
            credential_is(account, key),
            Self::refreshed(token, now),
        )
        &&& after == (Store { oauth_credentials: after.oauth_credentials, ..self })
        &&& self.wf() ==> after.wf()
    }

    /// Keeps the refresh token that a provider rotated.
    pub fn update_oauth_refresh_token_at(
        &mut self,
        account_id: &str,
        mailbox_key: &str,
        enc_refresh_token: &String,
        now: i64,
    )
        ensures
            old(self).refreshes(
                *final(self),
                account_id@,
                mailbox_key@,
                *enc_refresh_token,
                now,
            ),
    {
        let ghost p = credential_is(account_id@, mailbox_key@);
        let test = |c: &OauthCredentialRecord| -> (b: bool)
            ensures
                b == credential_is(account_id@, mailbox_key@)(*c),
        {
            same(c.cred.account_id.as_str(), account_id) && same(
                c.cred.mailbox_key.as_str(),
                mailbox_key,
            )
        };
        let change = |c: &OauthCredentialRecord| -> (x: OauthCredentialRecord)
            ensures
                x == Self::refreshed(*enc_refresh_token, now)(*c),
        {
            let mut x = c.clone();
            x.cred.enc_refresh_token = enc_refresh_token.clone();
            x.updated_at = now;
            x
        };
        proof {
            if old(self).wf() {
                lemma_update_distinct(
                    old(self).oauth_credentials@,
                    credential_key(),
                    p,
                    Self::refreshed(*enc_refresh_token, now),
                );
            }
        }
        update(
            &mut self.oauth_credentials,
            test,
            change,
            Ghost(p),
            Ghost(Self::refreshed(*enc_refresh_token, now)),
        );
    }

    /// Keeps the refresh token that a provider rotated, now.
    pub fn update_oauth_refresh_token(
        &mut self,
        account_id: &str,
        mailbox_key: &str,
        enc_refresh_token: &String,
    )
        ensures
            exists|now: i64| #[trigger]
                old(self).refreshes(
                    *final(self),
                    account_id@,
                    mailbox_key@,
                    *enc_refresh_token,
                    now,
                ),
    {
        let now: i64 = now_secs();
        self.update_oauth_refresh_token_at(account_id, mailbox_key, enc_refresh_token, now);
    }

    // --- password credentials ---

    /// What storing a password credential at a time does.
    pub open spec fn keeps_password(
        self,
        after: Store,
        account: Seq<char>,
        key: Seq<char>,
        enc_password: Seq<char>,
        now: i64,
    ) -> bool {
        let new = after.passwords@.last();
        &&& appended(delete_where(self.passwords@, password_is(account, key)), after.passwords@)
        &&& new.account_id@ == account
        &&& new.mailbox_key@ == key
        &&& new.enc_password@ == enc_password
        &&& new.updated_at == now
        &&& after == (Store { passwords: after.passwords, ..self })
        &&& self.wf() ==> after.wf()
    }

    /// Stores the password credential of an identity in place of any other.
    pub fn upsert_password_credential_at(
        &mut self,
        account_id: &str,
        mailbox_key: &str,
        enc_password: &str,
        now: i64,
    )
        ensures
            old(self).keeps_password(
                *final(self),
                account_id@,
                mailbox_key@,
                enc_password@,
                now,
            ),
    {
        let ghost p = password_is(account_id@, mailbox_key@);
        let test = |x: &PasswordRecord| -> (b: bool)
            ensures
                b == password_is(account_id@, mailbox_key@)(*x),
        {
            same(x.account_id.as_str(), account_id) && same(x.mailbox_key.as_str(), mailbox_key)
        };
        delete(&mut self.passwords, test, Ghost(p));
        let ghost left = self.passwords@;
        let row = PasswordRecord {
            account_id: account_id.to_owned(),
            mailbox_key: mailbox_key.to_owned(),
            enc_password: enc_password.to_owned(),
            updated_at: now,
        };
        proof {
            lemma_delete_leaves_none(old(self).passwords@, p);
            if old(self).wf() {
                lemma_delete_distinct(old(self).passwords@, password_key(), p);
                lemma_append_distinct(left, password_key(), p, row);
            }
        }
        self.passwords.push(row);
        assert(self.passwords@.drop_last() =~= left);
    }

    /// Stores the password credential of an identity, now.
    pub fn upsert_password_credential(
        &mut self,
        account_id: &str,
        mailbox_key: &str,
        enc_password: &str,
    )
        ensures
            exists|now: i64| #[trigger]
                old(self).keeps_password(
                    *final(self),
                    account_id@,
                    mailbox_key@,
                    enc_password@,
                    now,
                ),
    {
        let now: i64 = now_secs();
        self.upsert_password_credential_at(account_id, mailbox_key, enc_password, now);
    }

    /// The encrypted password of an identity.
    pub open spec fn password(&self, account: Seq<char>, key: Seq<char>) -> Option<String> {
        match first_where(self.passwords@, password_is(account, key)) {
            Some(x) => Some(x.enc_password),
            None => None,
        }
    }

    /// The encrypted password of an identity, if one is stored.
    pub fn get_password_credential(&self, account_id: &str, mailbox_key: &str) -> (r: Option<String>)
        ensures
            r == self.password(account_id@, mailbox_key@),
    {
        let test = |x: &PasswordRecord| -> (b: bool)
            ensures
                b == password_is(account_id@, mailbox_key@)(*x),
        {
            same(x.account_id.as_str(), account_id) && same(x.mailbox_key.as_str(), mailbox_key)
        };
        match find(&self.passwords, test, Ghost(password_is(account_id@, mailbox_key@))) {
            Some(x) => Some(x.enc_password),
            None => None,
        }
    }
}

/// What a PIM account says.
#[verifier::ext_equal]
pub ghost struct MembershipView {
    pub mailbox_key: Seq<char>,
    pub protocol: Seq<char>,
    pub login: Seq<char>,
    pub imap_host: Seq<char>,
    pub imap_port: u16,
    pub base_url: Option<Seq<char>>,
}

impl View for MembershipRow {
    type V = MembershipView;

    open spec fn view(&self) -> MembershipView {
        MembershipView {
            mailbox_key: self.mailbox_key@,
            protocol: self.protocol@,
            login: self.login@,
            imap_host: self.imap_host@,
            imap_port: self.imap_port,
            base_url: opt_text(self.base_url),
        }
    }
}

/// A PIM account says what it holds, each thing under its own name.
pub proof fn memberships_say_what_they_hold(m: MembershipRow)
    ensures
        m@.mailbox_key == m.mailbox_key@,
        m@.protocol == m.protocol@,
        m@.login == m.login@,
        m@.imap_host == m.imap_host@,
        m@.imap_port == m.imap_port,
        m@.base_url == opt_text(m.base_url),
{
}

/// A checkpoint is kept for the one service, and dropped where there is none, and
/// changes neither anything else of the service nor another service.
pub proof fn checkpoint_is_kept_for_its_service(
    before: Store,
    after: Store,
    id: Seq<char>,
    token: Option<Seq<char>>,
    i: int,
)
    requires
        before.checkpoints(after, id, token),
        0 <= i < before.watches@.len(),
    ensures
        before.watches@[i].id@ == id ==> opt_text(after.watches@[i].carddav_sync_token) == token
            && after.watches@[i] == (Watch {
            carddav_sync_token: after.watches@[i].carddav_sync_token,
            ..before.watches@[i]
        }),
        before.watches@[i].id@ != id ==> after.watches@[i] == before.watches@[i],
        after.watches@.len() == before.watches@.len(),
        after.accounts == before.accounts,
{
}

} // verus!
