//! The supervisor: which services are watched, what each watcher connects
//! with, and when it tries again.

use crate::carddav::pump::same_opt;
use crate::imap::session::{ImapAccount, ImapAuth};
use crate::live::{LiveEvent, Routed, WatchState};
use crate::metering::{entitled, mailbox_key, mailbox_key_of, watch_entitled};
use crate::oauth::{refresh, ClientId, TokenRefresh, Tokens};
use crate::random::random_up_to;
use crate::rows::{OauthCredential, Watch};
use crate::store::{watch_active, Store};
use crate::table::{any_where, copy_text, lemma_filter_contains, opt_text};
use crate::text::{join2, same};
use crate::util::now_secs;
use crate::weburl::{read_url, url_of};
use vstd::arithmetic::power2::{lemma2_to64, lemma_pow2_unfold, pow2};
use vstd::prelude::*;

verus! {

/// How long connecting may take, in seconds.
pub const CONNECT_TIMEOUT_SECS: u64 = 30;

/// The shortest wait before a new attempt, in milliseconds.
pub const INITIAL_BACKOFF_MS: u64 = 2_000;

/// The longest, without its jitter.
pub const MAX_BACKOFF_MS: u64 = 300_000;

/// How long a connection has to last for the next wait to be the shortest.
pub const HEALTHY_MS: u64 = 60_000;

/// The shortest interval between polls, in seconds.
pub const MIN_POLL_SECS: u64 = 5;

/// A command to the supervisor.
#[derive(Clone, Copy, Debug, PartialEq, Eq, Structural)]
pub enum SupervisorCmd {
    /// Look at the services again.
    Reconcile,
    /// Stop every watcher, and end.
    Shutdown,
}

/// What the supervisor does next.
#[derive(Clone, Copy, Debug, PartialEq, Eq, Structural)]
pub enum SupervisorStep {
    Reconcile,
    StopAll,
}

/// What the supervisor does on a command. One whose commands cannot reach it
/// any more ends.
pub fn on_command(command: Option<SupervisorCmd>) -> (r: SupervisorStep)
    ensures
        r == (if command == Some(SupervisorCmd::Reconcile) {
            SupervisorStep::Reconcile
        } else {
            SupervisorStep::StopAll
        }),
{
    match command {
        Some(SupervisorCmd::Reconcile) => SupervisorStep::Reconcile,
        Some(SupervisorCmd::Shutdown) => SupervisorStep::StopAll,
        None => SupervisorStep::StopAll,
    }
}

// --- what a connection depends on ---

/// What a service's connection depends on. Where its events are posted and how
/// they are signed is left out, so that changing that does not drop the
/// connection; so is the checkpoint, which moves as the service is watched.
#[derive(Debug)]
pub struct Fingerprint {
    pub source_kind: String,
    pub imap_host: String,
    pub imap_port: u16,
    pub login: String,
    pub enc_password: String,
    pub auth_kind: String,
    pub mailbox: String,
    pub carddav_url: Option<String>,
    pub carddav_poll_secs: Option<i64>,
}

/// What a fingerprint says.
pub ghost struct FingerprintView {
    pub source_kind: Seq<char>,
    pub imap_host: Seq<char>,
    pub imap_port: u16,
    pub login: Seq<char>,
    pub enc_password: Seq<char>,
    pub auth_kind: Seq<char>,
    pub mailbox: Seq<char>,
    pub carddav_url: Option<Seq<char>>,
    pub carddav_poll_secs: Option<i64>,
}

impl View for Fingerprint {
    type V = FingerprintView;

    open spec fn view(&self) -> FingerprintView {
        FingerprintView {
            source_kind: self.source_kind@,
            imap_host: self.imap_host@,
            imap_port: self.imap_port,
            login: self.login@,
            enc_password: self.enc_password@,
            auth_kind: self.auth_kind@,
            mailbox: self.mailbox@,
            carddav_url: opt_text(self.carddav_url),
            carddav_poll_secs: self.carddav_poll_secs,
        }
    }
}

/// What a service's connection depends on.
pub open spec fn fingerprint_of(watch: Watch) -> FingerprintView {
    FingerprintView {
        source_kind: watch.source_kind@,
        imap_host: watch.imap_host@,
        imap_port: watch.imap_port,
        login: watch.login@,
        enc_password: watch.enc_password@,
        auth_kind: watch.auth_kind@,
        mailbox: watch.mailbox@,
        carddav_url: opt_text(watch.carddav_url),
        carddav_poll_secs: watch.carddav_poll_secs,
    }
}

/// What a service's connection depends on.
pub fn fingerprint(watch: &Watch) -> (r: Fingerprint)
    ensures
        r@ == fingerprint_of(*watch),
{
    Fingerprint {
        source_kind: watch.source_kind.clone(),
        imap_host: watch.imap_host.clone(),
        imap_port: watch.imap_port,
        login: watch.login.clone(),
        enc_password: watch.enc_password.clone(),
        auth_kind: watch.auth_kind.clone(),
        mailbox: watch.mailbox.clone(),
        carddav_url: copy_text(&watch.carddav_url),
        carddav_poll_secs: watch.carddav_poll_secs,
    }
}

impl Fingerprint {
    /// Whether a service still has it.
    pub fn fits(&self, watch: &Watch) -> (r: bool)
        ensures
            r == (self@ == fingerprint_of(*watch)),
    {
        let polls = match (self.carddav_poll_secs, watch.carddav_poll_secs) {
            (Some(a), Some(b)) => a == b,
            (None, None) => true,
            _ => false,
        };
        polls && self.imap_port == watch.imap_port && same(
            self.source_kind.as_str(),
            watch.source_kind.as_str(),
        ) && same(self.imap_host.as_str(), watch.imap_host.as_str()) && same(
            self.login.as_str(),
            watch.login.as_str(),
        ) && same(self.enc_password.as_str(), watch.enc_password.as_str()) && same(
            self.auth_kind.as_str(),
            watch.auth_kind.as_str(),
        ) && same(self.mailbox.as_str(), watch.mailbox.as_str()) && same_opt(
            &self.carddav_url,
            &watch.carddav_url,
        )
    }

    fn copy(&self) -> (r: Fingerprint)
        ensures
            r == *self,
    {
        Fingerprint {
            source_kind: self.source_kind.clone(),
            imap_host: self.imap_host.clone(),
            imap_port: self.imap_port,
            login: self.login.clone(),
            enc_password: self.enc_password.clone(),
            auth_kind: self.auth_kind.clone(),
            mailbox: self.mailbox.clone(),
            carddav_url: copy_text(&self.carddav_url),
            carddav_poll_secs: self.carddav_poll_secs,
        }
    }
}

/// Pointing a service's events elsewhere, rotating its secret or moving its
/// checkpoint keeps its connection.
pub proof fn webhook_change_keeps_the_connection(
    watch: Watch,
    notify_url: String,
    hmac_secret: String,
    hmac_secret_prev: Option<String>,
    hmac_secret_prev_expires: Option<i64>,
    carddav_sync_token: Option<String>,
)
    ensures
        fingerprint_of(watch) == fingerprint_of(
            (Watch {
                notify_url,
                hmac_secret,
                hmac_secret_prev,
                hmac_secret_prev_expires,
                carddav_sync_token,
                ..watch
            }),
        ),
{
}

// --- which services are watched ---

/// A watcher that runs.
#[derive(Debug)]
pub struct Running {
    /// Its service.
    pub id: String,
    /// The account the service is paid from.
    pub account_id: String,
    pub fingerprint: Fingerprint,
}

impl crate::table::Row for Running {
    fn copied(&self) -> (r: Self) {
        Running {
            id: self.id.clone(),
            account_id: self.account_id.clone(),
            fingerprint: self.fingerprint.copy(),
        }
    }
}

/// The supervisor.
#[derive(Debug)]
pub struct Supervisor {
    /// The watchers that run.
    pub handles: Vec<Running>,
    /// Whether watching is paid for.
    pub metered: bool,
    /// How many connections may be opened at once.
    pub max_handshakes: usize,
    /// How often an address book is polled that says nothing of it, in seconds.
    pub carddav_poll_secs: u64,
}

/// The services that are to be watched: the active ones and, where watching is
/// paid for, of those the paid ones.
pub open spec fn desired(watches: Seq<Watch>, metered: bool, now: int) -> Seq<Watch> {
    watches.filter(watch_active()).filter(is_desired(metered, now))
}

/// Whether an active service is to be watched.
pub open spec fn is_desired(metered: bool, now: int) -> spec_fn(Watch) -> bool {
    |w: Watch| !metered || entitled(w.watching_until, now)
}

/// Whether a watcher still serves a service that is to be watched.
pub open spec fn serves(wanted: Seq<Watch>) -> spec_fn(Running) -> bool {
    |h: Running| any_where(wanted, |w: Watch| w.id@ == h.id@ && fingerprint_of(w) == h.fingerprint@)
}

/// Whether a service has no watcher.
pub open spec fn unserved(handles: Seq<Running>) -> spec_fn(Watch) -> bool {
    |w: Watch| !any_where(handles, |h: Running| h.id@ == w.id@)
}

/// What a look at the services found.
#[derive(Debug)]
pub struct Reconciled {
    /// The watchers to stop.
    pub stopped: Vec<Running>,
    /// The services to start a watcher for.
    pub starting: Vec<Watch>,
}

fn is_served(wanted: &Vec<Watch>, h: &Running) -> (r: bool)
    ensures
        r == serves(wanted@)(*h),
{
    let mut i: usize = 0;
    while i < wanted.len()
        invariant
            i <= wanted@.len(),
            forall|k: int|
                0 <= k < i ==> !((#[trigger] wanted@[k]).id@ == h.id@ && fingerprint_of(wanted@[k])
                    == h.fingerprint@),
        decreases wanted@.len() - i,
    {
        if same(wanted[i].id.as_str(), h.id.as_str()) && h.fingerprint.fits(&wanted[i]) {
            let ghost p = |w: Watch| w.id@ == h.id@ && fingerprint_of(w) == h.fingerprint@;
            assert(p(wanted@[i as int]));
            return true;
        }
        i += 1;
    }
    false
}

fn is_unserved(handles: &Vec<Running>, w: &Watch) -> (r: bool)
    ensures
        r == unserved(handles@)(*w),
{
    let mut i: usize = 0;
    while i < handles.len()
        invariant
            i <= handles@.len(),
            forall|k: int| 0 <= k < i ==> (#[trigger] handles@[k]).id@ != w.id@,
        decreases handles@.len() - i,
    {
        if same(handles[i].id.as_str(), w.id.as_str()) {
            let ghost p = |h: Running| h.id@ == w.id@;
            assert(p(handles@[i as int]));
            return false;
        }
        i += 1;
    }
    true
}

impl Supervisor {
    /// A supervisor without watchers. At least one connection may be opened at
    /// a time, and polls are no closer than their shortest interval.
    pub fn new(max_handshakes: usize, metered: bool, carddav_poll_secs: u64) -> (r: Supervisor)
        ensures
            r.handles@.len() == 0,
            r.metered == metered,
            r.max_handshakes == (if max_handshakes >= 1 {
                max_handshakes
            } else {
                1
            }),
            r.carddav_poll_secs == (if carddav_poll_secs >= MIN_POLL_SECS {
                carddav_poll_secs
            } else {
                MIN_POLL_SECS
            }),
    {
        Supervisor {
            handles: Vec::new(),
            metered,
            max_handshakes: if max_handshakes >= 1 {
                max_handshakes
            } else {
                1
            },
            carddav_poll_secs: if carddav_poll_secs >= MIN_POLL_SECS {
                carddav_poll_secs
            } else {
                MIN_POLL_SECS
            },
        }
    }

    /// What a look at the services does, at a time.
    pub open spec fn reconciles(
        self,
        after: Supervisor,
        watches: Seq<Watch>,
        now: int,
        r: Reconciled,
    ) -> bool {
        let wanted = desired(watches, self.metered, now);
        &&& after == (Supervisor { handles: after.handles, ..self })
        &&& after.handles@ == self.handles@.filter(serves(wanted))
        &&& r.stopped@ == self.handles@.filter(|h: Running| !serves(wanted)(h))
        &&& r.starting@ == wanted.filter(unserved(after.handles@))
    }

    /// Looks at the services, at a time: stops the watchers whose service is
    /// not to be watched any more or connects differently now, and says which
    /// services lack one.
    pub fn reconcile_at(&mut self, store: &Store, now: i64) -> (r: Reconciled)
        ensures
            old(self).reconciles(*final(self), store.watches@, now as int, r),
    {
        let active = store.active_watches();
        let metered = self.metered;
        let test = |w: &Watch| -> (b: bool)
            ensures
                b == is_desired(metered, now as int)(*w),
            { !metered || watch_entitled(w, now) };
        let wanted = crate::table::select(&active, test, Ghost(is_desired(metered, now as int)));
        assert(wanted@ == desired(store.watches@, metered, now as int));
        let kept = &wanted;
        let stale = |h: &Running| -> (b: bool)
            ensures
                b == (|h: Running| !serves(kept@)(h))(*h),
            { !is_served(kept, h) };
        let stopped = crate::table::select(
            &self.handles,
            stale,
            Ghost(|h: Running| !serves(kept@)(h)),
        );
        let good = |h: &Running| -> (b: bool)
            ensures
                b == serves(kept@)(*h),
            { is_served(kept, h) };
        let handles = crate::table::select(&self.handles, good, Ghost(serves(kept@)));
        self.handles = handles;
        let running = &self.handles;
        let lacks = |w: &Watch| -> (b: bool)
            ensures
                b == unserved(running@)(*w),
            { is_unserved(running, w) };
        let starting = crate::table::select(kept, lacks, Ghost(unserved(running@)));
        Reconciled { stopped, starting }
    }

    /// Looks at the services, now.
    pub fn reconcile(&mut self, store: &Store) -> (r: Reconciled)
        ensures
            exists|now: i64| #[trigger]
                old(self).reconciles(*final(self), store.watches@, now as int, r),
    {
        let now: i64 = now_secs();
        self.reconcile_at(store, now)
    }

    /// Notes that a service's watcher was started.
    pub fn started(&mut self, watch: &Watch)
        ensures
            *final(self) == (Supervisor { handles: final(self).handles, ..*old(self) }),
            final(self).handles@.len() == old(self).handles@.len() + 1,
            final(self).handles@.drop_last() == old(self).handles@,
            runs(final(self).handles@.last(), *watch),
    {
        let ghost before = self.handles@;
        self.handles.push(
            Running {
                id: watch.id.clone(),
                account_id: watch.account_id.clone(),
                fingerprint: fingerprint(watch),
            },
        );
        assert(self.handles@.drop_last() =~= before);
    }

    /// Forgets every watcher; these are to stop.
    pub fn stop_all(&mut self) -> (r: Vec<Running>)
        ensures
            r@ == old(self).handles@,
            final(self).handles@.len() == 0,
            *final(self) == (Supervisor { handles: final(self).handles, ..*old(self) }),
    {
        let mut out: Vec<Running> = Vec::new();
        std::mem::swap(&mut out, &mut self.handles);
        out
    }
}

/// Whether a watcher is a service's.
pub open spec fn runs(h: Running, watch: Watch) -> bool {
    h.id == watch.id && h.account_id == watch.account_id && h.fingerprint@ == fingerprint_of(watch)
}

/// The event that tells that a watcher stopped.
pub fn stopped_event(h: &Running) -> (r: Routed)
    ensures
        r.account_id@ == h.account_id@,
        r.event.is_status(h.id@, WatchState::Stopped, None),
{
    Routed::new(
        h.account_id.as_str(),
        LiveEvent::status(h.id.as_str(), WatchState::Stopped, None),
    )
}

/// Watchers for services, one for each, in order.
pub open spec fn watchers_for(handles: Seq<Running>, watches: Seq<Watch>) -> bool {
    handles.len() == watches.len() && forall|i: int|
        0 <= i < watches.len() ==> runs(#[trigger] handles[i], watches[i])
}

/// Once every service that lacked a watcher has one, what runs is what is to be
/// watched: every service that is has a watcher that connects as it says, and
/// every watcher serves such a service.
pub proof fn reconciled_runs_what_is_desired(
    before: Supervisor,
    after: Supervisor,
    watches: Seq<Watch>,
    now: int,
    r: Reconciled,
    started: Seq<Running>,
)
    requires
        before.reconciles(after, watches, now, r),
        watchers_for(started, r.starting@),
        crate::table::distinct(watches, |w: Watch| w.id@),
    ensures
        ({
            let wanted = desired(watches, before.metered, now);
            let running = after.handles@ + started;
            &&& forall|i: int|
                0 <= i < wanted.len() ==> exists|k: int|
                    0 <= k < running.len() && (#[trigger] running[k]).id@ == (
                    #[trigger] wanted[i]).id@ && running[k].fingerprint@ == fingerprint_of(
                        wanted[i],
                    )
            &&& forall|k: int|
                0 <= k < running.len() ==> #[trigger] serves(wanted)(running[k])
        }),
{
    let wanted = desired(watches, before.metered, now);
    let handles = after.handles@;
    let running = handles + started;
    let lacking = unserved(handles);
    let active = watches.filter(watch_active());
    crate::table::lemma_filter_distinct(watches, |w: Watch| w.id@, watch_active());
    crate::table::lemma_filter_distinct(active, |w: Watch| w.id@, is_desired(before.metered, now));
    assert forall|k: int| 0 <= k < running.len() implies #[trigger] serves(wanted)(running[k]) by {
        if k < handles.len() {
            before.handles@.lemma_filter_pred(serves(wanted), k);
        } else {
            let j = k - handles.len();
            let w = r.starting@[j];
            assert(runs(started[j], w));
            assert(r.starting@.contains(w));
            lemma_filter_contains(wanted, lacking, w);
            let i = choose|i: int| 0 <= i < wanted.len() && wanted[i] == w;
            let p = |w: Watch| w.id@ == running[k].id@ && fingerprint_of(w)
                == running[k].fingerprint@;
            assert(p(wanted[i]));
        }
    }
    assert forall|i: int| 0 <= i < wanted.len() implies exists|k: int|
        0 <= k < running.len() && (#[trigger] running[k]).id@ == (#[trigger] wanted[i]).id@
            && running[k].fingerprint@ == fingerprint_of(wanted[i]) by {
        let w = wanted[i];
        let same_id = |h: Running| h.id@ == w.id@;
        if lacking(w) {
            lemma_filter_contains(wanted, lacking, w);
            let j = choose|j: int| 0 <= j < r.starting@.len() && r.starting@[j] == w;
            assert(runs(started[j], w));
            assert(running[handles.len() + j] == started[j]);
        } else {
            let k = choose|k: int| 0 <= k < handles.len() && same_id(#[trigger] handles[k]);
            before.handles@.lemma_filter_pred(serves(wanted), k);
            let h = handles[k];
            let p = |w: Watch| w.id@ == h.id@ && fingerprint_of(w) == h.fingerprint@;
            let m = choose|m: int| 0 <= m < wanted.len() && p(#[trigger] wanted[m]);
            if m != i {
                if m < i {
                    assert(wanted[m].id@ != wanted[i].id@);
                } else {
                    assert(wanted[i].id@ != wanted[m].id@);
                }
            }
            assert(running[k] == h);
        }
    }
}

/// A service that is paused or, where watching is paid for, whose month has
/// lapsed is not watched after a look at the services: its watcher is stopped,
/// and none is started.
pub proof fn lapsed_service_is_not_watched(
    before: Supervisor,
    after: Supervisor,
    watches: Seq<Watch>,
    now: int,
    r: Reconciled,
    i: int,
)
    requires
        before.reconciles(after, watches, now, r),
        crate::table::distinct(watches, |w: Watch| w.id@),
        0 <= i < watches.len(),
        !watches[i].active || (before.metered && !entitled(watches[i].watching_until, now)),
    ensures
        forall|k: int| 0 <= k < after.handles@.len() ==> (#[trigger] after.handles@[k]).id@
            != watches[i].id@,
        forall|k: int| 0 <= k < r.starting@.len() ==> (#[trigger] r.starting@[k]).id@
            != watches[i].id@,
{
    let wanted = desired(watches, before.metered, now);
    let active = watches.filter(watch_active());
    assert forall|m: int| 0 <= m < wanted.len() implies (#[trigger] wanted[m]).id@
        != watches[i].id@ by {
        let w = wanted[m];
        assert(wanted.contains(w));
        lemma_filter_contains(active, is_desired(before.metered, now), w);
        lemma_filter_contains(watches, watch_active(), w);
        let j = choose|j: int| 0 <= j < watches.len() && watches[j] == w;
        if j < i {
            assert(watches[j].id@ != watches[i].id@);
        } else if j > i {
            assert(watches[i].id@ != watches[j].id@);
        }
    }
    assert forall|k: int| 0 <= k < after.handles@.len() implies (#[trigger] after.handles@[k]).id@
        != watches[i].id@ by {
        before.handles@.lemma_filter_pred(serves(wanted), k);
        let h = after.handles@[k];
        let p = |w: Watch| w.id@ == h.id@ && fingerprint_of(w) == h.fingerprint@;
        let m = choose|m: int| 0 <= m < wanted.len() && p(#[trigger] wanted[m]);
        assert(wanted[m].id@ != watches[i].id@);
    }
    assert forall|k: int| 0 <= k < r.starting@.len() implies (#[trigger] r.starting@[k]).id@
        != watches[i].id@ by {
        let w = r.starting@[k];
        assert(r.starting@.contains(w));
        lemma_filter_contains(wanted, unserved(after.handles@), w);
        let m = choose|m: int| 0 <= m < wanted.len() && wanted[m] == w;
        assert(wanted[m].id@ != watches[i].id@);
    }
}

// --- what a watcher connects with ---

/// Why a watcher cannot be started.
#[derive(Clone, Copy, Debug, PartialEq, Eq, Structural)]
pub enum SpawnError {
    /// The service carries no password, and neither does its PIM account.
    NoPassword,
    /// An address book without a URL.
    NoCollection,
}

impl SpawnError {
    pub open spec fn text(self) -> Seq<char> {
        match self {
            SpawnError::NoPassword => "no password credential for the PIM account"@,
            SpawnError::NoCollection => "carddav watch has no collection URL"@,
        }
    }

    /// What to report.
    pub fn message(&self) -> (r: &'static str)
        ensures
            r@ == self.text(),
    {
        match self {
            SpawnError::NoPassword => "no password credential for the PIM account",
            SpawnError::NoCollection => "carddav watch has no collection URL",
        }
    }
}

/// What a watcher signs in with.
#[derive(Debug)]
pub enum CredentialSource {
    /// This password, once decrypted.
    Password(String),
    /// An access token, minted for each connection.
    Oauth,
}

/// What a service's watcher signs in with: its own password if it carries one,
/// else that of its PIM account.
pub open spec fn credential_of(store: Store, watch: Watch) -> Result<CredentialSource, SpawnError> {
    if watch.auth_kind@ == "oauth"@ {
        Ok(CredentialSource::Oauth)
    } else if watch.enc_password@.len() == 0 {
        match store.password(watch.account_id@, mailbox_key_of(watch.login@, watch.imap_host@)) {
            Some(enc) => Ok(CredentialSource::Password(enc)),
            None => Err(SpawnError::NoPassword),
        }
    } else {
        Ok(CredentialSource::Password(watch.enc_password))
    }
}

/// What a service's watcher signs in with.
pub fn credential_for(store: &Store, watch: &Watch) -> (r: Result<CredentialSource, SpawnError>)
    ensures
        r == credential_of(*store, *watch),
{
    if same(watch.auth_kind.as_str(), "oauth") {
        return Ok(CredentialSource::Oauth);
    }
    if watch.enc_password.as_str().unicode_len() == 0 {
        let key = mailbox_key(watch.login.as_str(), watch.imap_host.as_str());
        match store.get_password_credential(watch.account_id.as_str(), key.as_str()) {
            Some(enc) => Ok(CredentialSource::Password(enc)),
            None => Err(SpawnError::NoPassword),
        }
    } else {
        Ok(CredentialSource::Password(watch.enc_password.clone()))
    }
}

/// What a watcher watches.
#[derive(Debug)]
pub enum SourcePlan {
    /// A mailbox, over a connection that is held. How it signs in is set
    /// before each connection.
    Imap(ImapAccount),
    /// An address book, polled at an interval from a checkpoint.
    Carddav {
        url: String,
        login: String,
        imap_host: String,
        imap_port: u16,
        initial_token: Option<String>,
        poll_secs: u64,
    },
}

/// How often an address book is polled, in seconds.
pub open spec fn poll_interval(own: Option<i64>, default_secs: u64) -> u64 {
    match own {
        Some(s) => if s >= MIN_POLL_SECS as i64 {
            s as u64
        } else {
            MIN_POLL_SECS
        },
        None => default_secs,
    }
}

/// Whether this is what a service's watcher watches.
pub open spec fn watches_source(
    r: Result<SourcePlan, SpawnError>,
    watch: Watch,
    default_secs: u64,
) -> bool {
    if watch.source_kind@ == "carddav"@ {
        match watch.carddav_url {
            None => r == Err::<SourcePlan, SpawnError>(SpawnError::NoCollection),
            Some(u) => r == Ok::<SourcePlan, SpawnError>(
                SourcePlan::Carddav {
                    url: u,
                    login: watch.login,
                    imap_host: watch.imap_host,
                    imap_port: watch.imap_port,
                    initial_token: watch.carddav_sync_token,
                    poll_secs: poll_interval(watch.carddav_poll_secs, default_secs),
                },
            ),
        }
    } else {
        r matches Ok(SourcePlan::Imap(a)) && a.host == watch.imap_host && a.port == watch.imap_port
            && a.login == watch.login && a.mailbox == watch.mailbox && (
        a.auth matches ImapAuth::Password(p) && p@.len() == 0)
    }
}

/// What a service's watcher watches.
pub fn source_for(watch: &Watch, default_secs: u64) -> (r: Result<SourcePlan, SpawnError>)
    ensures
        watches_source(r, *watch, default_secs),
{
    proof {
        reveal_strlit("");
    }
    if same(watch.source_kind.as_str(), "carddav") {
        let url = match &watch.carddav_url {
            Some(url) => url.clone(),
            None => return Err(SpawnError::NoCollection),
        };
        let poll_secs: u64 = match watch.carddav_poll_secs {
            Some(s) => if s >= MIN_POLL_SECS as i64 {
                s as u64
            } else {
                MIN_POLL_SECS
            },
            None => default_secs,
        };
        Ok(
            SourcePlan::Carddav {
                url,
                login: watch.login.clone(),
                imap_host: watch.imap_host.clone(),
                imap_port: watch.imap_port,
                initial_token: copy_text(&watch.carddav_sync_token),
                poll_secs,
            },
        )
    } else {
        Ok(
            SourcePlan::Imap(
                ImapAccount {
                    host: watch.imap_host.clone(),
                    port: watch.imap_port,
                    login: watch.login.clone(),
                    auth: ImapAuth::Password("".to_owned()),
                    mailbox: watch.mailbox.clone(),
                },
            ),
        )
    }
}

// --- trying again ---

/// The wait after the next failure.
pub open spec fn doubled(backoff: int) -> int {
    if 2 * backoff <= MAX_BACKOFF_MS {
        2 * backoff
    } else {
        MAX_BACKOFF_MS as int
    }
}

/// The most that is added to a wait, so that watchers do not come back all at
/// once.
pub open spec fn jitter_bound(base: int) -> int {
    if base / 2 >= 1 {
        base / 2
    } else {
        1
    }
}

/// What is added to a wait, in milliseconds: at random, up to half of it.
pub fn jitter(base: u64) -> (r: u64)
    ensures
        r <= jitter_bound(base as int),
{
    let half: u64 = base / 2;
    let max: u64 = if half >= 1 {
        half
    } else {
        1
    };
    random_up_to(max)
}

/// Whether a wait is one that may be had.
pub open spec fn valid_backoff(ms: int) -> bool {
    INITIAL_BACKOFF_MS <= ms <= MAX_BACKOFF_MS
}

/// The wait after so many failures in a row.
pub open spec fn after_failures(n: nat) -> int
    decreases n,
{
    if n == 0 {
        INITIAL_BACKOFF_MS as int
    } else {
        doubled(after_failures((n - 1) as nat))
    }
}

/// Waits double with each failure in a row, from the shortest to the longest,
/// and stay there.
pub proof fn backoff_doubles_to_its_bound(n: nat)
    ensures
        valid_backoff(after_failures(n)),
        after_failures(n) == (if INITIAL_BACKOFF_MS * pow2(n) <= MAX_BACKOFF_MS {
            INITIAL_BACKOFF_MS * pow2(n)
        } else {
            MAX_BACKOFF_MS as int
        }),
    decreases n,
{
    if n == 0 {
        lemma2_to64();
    } else {
        backoff_doubles_to_its_bound((n - 1) as nat);
        lemma_pow2_unfold(n);
    }
}

/// A state to tell, and why.
#[derive(Debug)]
pub struct StatusNote {
    pub state: WatchState,
    pub detail: Option<String>,
}

/// What a note says.
pub open spec fn note_view(note: StatusNote) -> (WatchState, Option<Seq<char>>) {
    (note.state, opt_text(note.detail))
}

/// What notes say.
pub open spec fn notes_view(notes: Seq<StatusNote>) -> Seq<(WatchState, Option<Seq<char>>)> {
    notes.map_values(|n: StatusNote| note_view(n))
}

/// A watcher's note as an event.
pub fn status_event(account_id: &str, watch_id: &str, note: StatusNote) -> (r: Routed)
    ensures
        r.account_id@ == account_id@,
        r.event.is_status(watch_id@, note.state, opt_text(note.detail)),
{
    Routed::new(account_id, LiveEvent::status(watch_id, note.state, note.detail))
}

/// How a watcher goes on.
#[derive(Clone, Copy, Debug, PartialEq, Eq, Structural)]
pub enum LoopNext {
    /// It ends.
    Exit,
    /// It waits so many milliseconds, and tries again.
    Wait(u64),
}

/// What a watcher tells, and how it goes on.
#[derive(Debug)]
pub struct LoopStep {
    pub notes: Vec<StatusNote>,
    pub next: LoopNext,
}

/// What happened to a mailbox's watcher.
#[derive(Debug)]
pub enum LoopEvent {
    /// Its mailbox has no valid name.
    InvalidMailbox,
    /// No access token could be minted.
    OauthFailed(String),
    /// It could not connect.
    ConnectFailed(String),
    ConnectTimedOut,
    /// Its watch could not be built.
    CannotWatch(String),
    /// Its session ended or was lost.
    SessionOver,
}

/// What is told of an event.
pub open spec fn told_of(event: LoopEvent) -> Seq<(WatchState, Option<Seq<char>>)> {
    match event {
        LoopEvent::InvalidMailbox => seq![(WatchState::Error, Some("invalid mailbox name"@))],
        LoopEvent::OauthFailed(e) => seq![(WatchState::Error, Some("oauth: "@ + e@))],
        LoopEvent::ConnectFailed(e) => seq![(WatchState::Error, Some(e@))],
        LoopEvent::ConnectTimedOut => seq![(WatchState::Error, Some("connect timed out"@))],
        LoopEvent::CannotWatch(e) => seq![(WatchState::Error, Some(e@))],
        LoopEvent::SessionOver => Seq::empty(),
    }
}

/// Whether an event is the end of a watcher, however often it would try.
pub open spec fn is_final(event: LoopEvent) -> bool {
    event is InvalidMailbox || event is CannotWatch
}

/// Whether a step tries again after a wait.
pub open spec fn retries(
    r: LoopStep,
    told: Seq<(WatchState, Option<Seq<char>>)>,
    base: int,
) -> bool {
    &&& notes_view(r.notes@) == told.push((WatchState::Reconnecting, None))
    &&& r.next matches LoopNext::Wait(ms) && base <= ms <= base + jitter_bound(base)
}

/// A mailbox's watcher, between attempts.
#[derive(Clone, Copy, Debug, PartialEq, Eq, Structural)]
pub struct WatchLoop {
    /// The next wait, in milliseconds, without its jitter.
    pub backoff_ms: u64,
}

/// The wait that follows an event: the shortest again after a connection that
/// lasted.
pub open spec fn base_after(backoff: int, event: LoopEvent, lasted_ms: u64) -> int {
    if event !is OauthFailed && lasted_ms >= HEALTHY_MS {
        INITIAL_BACKOFF_MS as int
    } else {
        backoff
    }
}

fn note(state: WatchState, detail: Option<String>) -> (r: StatusNote)
    ensures
        note_view(r) == (state, opt_text(detail)),
{
    StatusNote { state, detail }
}

fn notes_of(event: LoopEvent) -> (r: Vec<StatusNote>)
    ensures
        notes_view(r@) == told_of(event),
{
    let mut notes: Vec<StatusNote> = Vec::new();
    match event {
        LoopEvent::InvalidMailbox => {
            notes.push(note(WatchState::Error, Some("invalid mailbox name".to_owned())));
        },
        LoopEvent::OauthFailed(e) => {
            notes.push(note(WatchState::Error, Some(join2("oauth: ", e.as_str()))));
        },
        LoopEvent::ConnectFailed(e) => {
            notes.push(note(WatchState::Error, Some(e)));
        },
        LoopEvent::ConnectTimedOut => {
            notes.push(note(WatchState::Error, Some("connect timed out".to_owned())));
        },
        LoopEvent::CannotWatch(e) => {
            notes.push(note(WatchState::Error, Some(e)));
        },
        LoopEvent::SessionOver => {},
    }
    assert(notes_view(notes@) =~= told_of(event));
    notes
}

impl WatchLoop {
    /// What a watcher does about an event.
    pub open spec fn goes_on(
        self,
        after: WatchLoop,
        event: LoopEvent,
        shutdown: bool,
        lasted_ms: u64,
        r: LoopStep,
    ) -> bool {
        if is_final(event) || shutdown {
            notes_view(r.notes@) == told_of(event) && r.next == LoopNext::Exit && after == self
        } else {
            let base = base_after(self.backoff_ms as int, event, lasted_ms);
            retries(r, told_of(event), base) && after.backoff_ms == doubled(base)
        }
    }

    /// A watcher that has not tried yet.
    pub fn new() -> (r: WatchLoop)
        ensures
            r.backoff_ms == INITIAL_BACKOFF_MS,
            valid_backoff(r.backoff_ms as int),
    {
        WatchLoop { backoff_ms: INITIAL_BACKOFF_MS }
    }

    /// What a connection is told as.
    pub fn connected() -> (r: StatusNote)
        ensures
            note_view(r) == (WatchState::Watching, None::<Seq<char>>),
    {
        note(WatchState::Watching, None)
    }

    /// Takes what happened, and how long the last connection lasted. A watcher
    /// that has to stop, or that cannot watch at all, ends; any other tells
    /// that it will be back, waits, and would wait twice as long next time.
    pub fn on_event(&mut self, event: LoopEvent, shutdown: bool, lasted_ms: u64) -> (r: LoopStep)
        requires
            valid_backoff(old(self).backoff_ms as int),
        ensures
            valid_backoff(final(self).backoff_ms as int),
            old(self).goes_on(*final(self), event, shutdown, lasted_ms, r),
            if is_final(event) || shutdown {
                notes_view(r.notes@) == told_of(event) && r.next == LoopNext::Exit && *final(self)
                    == *old(self)
            } else {
                let base = base_after(old(self).backoff_ms as int, event, lasted_ms);
                retries(r, told_of(event), base) && final(self).backoff_ms == doubled(base)
            },
    {
        let over = match &event {
            LoopEvent::InvalidMailbox => true,
            LoopEvent::CannotWatch(_) => true,
            _ => false,
        };
        let minting = match &event {
            LoopEvent::OauthFailed(_) => true,
            _ => false,
        };
        let mut notes = notes_of(event);
        if over || shutdown {
            return LoopStep { notes, next: LoopNext::Exit };
        }
        let base: u64 = if !minting && lasted_ms >= HEALTHY_MS {
            INITIAL_BACKOFF_MS
        } else {
            self.backoff_ms
        };
        notes.push(note(WatchState::Reconnecting, None));
        assert(notes_view(notes@) =~= told_of(event).push(
            (WatchState::Reconnecting, None::<Seq<char>>),
        ));
        let wait: u64 = base + jitter(base);
        self.backoff_ms = if base * 2 <= MAX_BACKOFF_MS {
            base * 2
        } else {
            MAX_BACKOFF_MS
        };
        LoopStep { notes, next: LoopNext::Wait(wait) }
    }
}

/// An address book's poller, between polls.
#[derive(Debug)]
pub struct CardDavLoop {
    /// The last checkpoint.
    pub token: Option<String>,
    pub backoff_ms: u64,
    /// Whether it was told that the address book is watched.
    pub announced: bool,
}

/// What a poller does after a poll that went well.
#[derive(Debug)]
pub struct PolledStep {
    pub notes: Vec<StatusNote>,
    /// The checkpoint to keep, where it moved.
    pub checkpoint: Option<Option<String>>,
}

impl CardDavLoop {
    /// A poller that has not polled yet.
    pub fn new(initial_token: Option<String>) -> (r: CardDavLoop)
        ensures
            r == (CardDavLoop {
                token: initial_token,
                backoff_ms: INITIAL_BACKOFF_MS,
                announced: false,
            }),
    {
        CardDavLoop { token: initial_token, backoff_ms: INITIAL_BACKOFF_MS, announced: false }
    }

    /// What a poll that went well does.
    pub open spec fn polls(self, after: CardDavLoop, token: Option<String>, r: PolledStep) -> bool {
        &&& notes_view(r.notes@) == (if self.announced {
            Seq::empty()
        } else {
            seq![(WatchState::Watching, None::<Seq<char>>)]
        })
        &&& after.announced
        &&& after.backoff_ms == INITIAL_BACKOFF_MS
        &&& if opt_text(token) == opt_text(self.token) {
            r.checkpoint is None && after.token == self.token
        } else {
            r.checkpoint == Some(token) && after.token == token
        }
    }

    /// What a failure does.
    pub open spec fn fails(
        self,
        after: CardDavLoop,
        detail: Seq<char>,
        minting: bool,
        shutdown: bool,
        r: LoopStep,
    ) -> bool {
        let told = seq![
            (
                WatchState::Error,
                Some(
                    if minting {
                        "oauth: "@ + detail
                    } else {
                        detail
                    },
                ),
            ),
        ];
        &&& !after.announced
        &&& after.token == self.token
        &&& if shutdown {
            notes_view(r.notes@) == told && r.next == LoopNext::Exit && after.backoff_ms
                == self.backoff_ms
        } else {
            retries(r, told, self.backoff_ms as int) && after.backoff_ms == doubled(
                self.backoff_ms as int,
            )
        }
    }

    /// Takes the checkpoint of a poll that went well. The first in a row tells
    /// that the address book is watched; a checkpoint that moved is kept.
    pub fn on_polled(&mut self, token: Option<String>) -> (r: PolledStep)
        ensures
            old(self).polls(*final(self), token, r),
            notes_view(r.notes@) == (if old(self).announced {
                Seq::empty()
            } else {
                seq![(WatchState::Watching, None::<Seq<char>>)]
            }),
            final(self).announced,
            final(self).backoff_ms == INITIAL_BACKOFF_MS,
            if opt_text(token) == opt_text(old(self).token) {
                r.checkpoint is None && final(self).token == old(self).token
            } else {
                r.checkpoint == Some(token) && final(self).token == token
            },
    {
        let mut notes: Vec<StatusNote> = Vec::new();
        if !self.announced {
            notes.push(note(WatchState::Watching, None));
            self.announced = true;
        }
        assert(notes_view(notes@) =~= if old(self).announced {
            Seq::empty()
        } else {
            seq![(WatchState::Watching, None::<Seq<char>>)]
        });
        self.backoff_ms = INITIAL_BACKOFF_MS;
        if same_opt(&token, &self.token) {
            return PolledStep { notes, checkpoint: None };
        }
        self.token = copy_text(&token);
        PolledStep { notes, checkpoint: Some(token) }
    }

    /// Takes a failure, of a poll or of minting an access token.
    pub fn on_failed(&mut self, detail: String, minting: bool, shutdown: bool) -> (r: LoopStep)
        requires
            valid_backoff(old(self).backoff_ms as int),
        ensures
            valid_backoff(final(self).backoff_ms as int),
            old(self).fails(*final(self), detail@, minting, shutdown, r),
            !final(self).announced,
            final(self).token == old(self).token,
            ({
                let told = seq![
                    (
                        WatchState::Error,
                        Some(
                            if minting {
                                "oauth: "@ + detail@
                            } else {
                                detail@
                            },
                        ),
                    ),
                ];
                if shutdown {
                    notes_view(r.notes@) == told && r.next == LoopNext::Exit
                        && final(self).backoff_ms == old(self).backoff_ms
                } else {
                    retries(r, told, old(self).backoff_ms as int) && final(self).backoff_ms
                        == doubled(old(self).backoff_ms as int)
                }
            }),
    {
        let text = if minting {
            join2("oauth: ", detail.as_str())
        } else {
            detail.clone()
        };
        let ghost told = seq![(WatchState::Error, Some(text@))];
        let mut notes: Vec<StatusNote> = Vec::new();
        notes.push(note(WatchState::Error, Some(text)));
        assert(notes_view(notes@) =~= told);
        self.announced = false;
        if shutdown {
            return LoopStep { notes, next: LoopNext::Exit };
        }
        notes.push(note(WatchState::Reconnecting, None));
        assert(notes_view(notes@) =~= told.push((WatchState::Reconnecting, None::<Seq<char>>)));
        let base: u64 = self.backoff_ms;
        let wait: u64 = base + jitter(base);
        self.backoff_ms = if base * 2 <= MAX_BACKOFF_MS {
            base * 2
        } else {
            MAX_BACKOFF_MS
        };
        LoopStep { notes, next: LoopNext::Wait(wait) }
    }
}

/// The next piece of a long wait, and what is left then: no more than a second
/// at a time, so that a request to stop is soon seen. None where the wait is
/// over, or a stop was requested.
pub fn sleep_step(left_ms: u64, shutdown: bool) -> (r: Option<(u64, u64)>)
    ensures
        match r {
            Some((piece, left)) => !shutdown && 0 < piece <= 1000 && piece + left == left_ms && (
            piece == 1000 || left == 0),
            None => shutdown || left_ms == 0,
        },
{
    if shutdown || left_ms == 0 {
        return None;
    }
    let piece: u64 = if left_ms <= 1000 {
        left_ms
    } else {
        1000
    };
    Some((piece, left_ms - piece))
}

// --- access tokens ---

/// Why no access token can be minted.
#[derive(Clone, Copy, Debug, PartialEq, Eq, Structural)]
pub enum AccessError {
    NoCredential,
    InvalidTokenEndpoint,
}

impl AccessError {
    pub open spec fn text(self) -> Seq<char> {
        match self {
            AccessError::NoCredential => "no OAuth credential for this mailbox"@,
            AccessError::InvalidTokenEndpoint => "stored token endpoint is not a valid URL"@,
        }
    }

    /// What to report.
    pub fn message(&self) -> (r: &'static str)
        ensures
            r@ == self.text(),
    {
        match self {
            AccessError::NoCredential => "no OAuth credential for this mailbox",
            AccessError::InvalidTokenEndpoint => "stored token endpoint is not a valid URL",
        }
    }
}

/// The credential that an access token is minted from: that of the identity,
/// whichever protocol it is for.
pub fn access_credential(store: &Store, account_id: &str, login: &str, host: &str) -> (r: Result<
    OauthCredential,
    AccessError,
>)
    ensures
        r == (match store.oauth_credential(account_id@, mailbox_key_of(login@, host@)) {
            Some(c) => Ok::<OauthCredential, AccessError>(c),
            None => Err(AccessError::NoCredential),
        }),
{
    let key = mailbox_key(login, host);
    match store.get_oauth_credential(account_id, key.as_str()) {
        Some(c) => Ok(c),
        None => Err(AccessError::NoCredential),
    }
}

/// A refresh, and the endpoint it is asked of.
#[derive(Debug)]
pub struct RefreshPlan {
    pub token_endpoint: String,
    pub refresh: TokenRefresh,
}

/// What mints an access token, once the stored secrets are decrypted.
pub fn plan_refresh(
    cred: &OauthCredential,
    refresh_token: &str,
    client_secret: Option<String>,
) -> (r: Result<RefreshPlan, AccessError>)
    ensures
        match url_of(cred.token_endpoint@) {
            Err(_) => r == Err::<RefreshPlan, AccessError>(AccessError::InvalidTokenEndpoint),
            Ok(url) => r matches Ok(p) && p.token_endpoint@ == url.text && p.refresh.client_id@
                == cred.client_id@ && opt_text(p.refresh.client_secret) == opt_text(client_secret)
                && p.refresh.refresh_token@ == refresh_token@,
        },
{
    let url = match read_url(cred.token_endpoint.as_str()) {
        Ok(url) => url,
        Err(_) => return Err(AccessError::InvalidTokenEndpoint),
    };
    let client = ClientId::Static { client_id: cred.client_id.clone(), client_secret };
    Ok(RefreshPlan { token_endpoint: url.text, refresh: refresh(&client, refresh_token) })
}

/// The refresh token to keep, where the provider handed out a new one.
pub fn rotated_token(tokens: &Tokens, refresh_token: &str) -> (r: Option<String>)
    ensures
        match tokens.refresh_token {
            Some(new) => if new@ != refresh_token@ {
                r == Some(new)
            } else {
                r is None
            },
            None => r is None,
        },
{
    match &tokens.refresh_token {
        Some(new) => if same(new.as_str(), refresh_token) {
            None
        } else {
            Some(new.clone())
        },
        None => None,
    }
}

// --- laws ---

/// Two services with equal fingerprints connect alike: to the same server, as
/// the same user, signing in the same way with the same password, for the same
/// mailbox or address book at the same interval.
pub proof fn equal_fingerprints_connect_alike(a: Watch, b: Watch)
    ensures
        fingerprint_of(a) == fingerprint_of(b) <==> {
            &&& a.source_kind@ == b.source_kind@
            &&& a.imap_host@ == b.imap_host@
            &&& a.imap_port == b.imap_port
            &&& a.login@ == b.login@
            &&& a.enc_password@ == b.enc_password@
            &&& a.auth_kind@ == b.auth_kind@
            &&& a.mailbox@ == b.mailbox@
            &&& opt_text(a.carddav_url) == opt_text(b.carddav_url)
            &&& a.carddav_poll_secs == b.carddav_poll_secs
        },
{
}

/// Whether two services differ in what a connection depends on.
pub open spec fn connect_differently(a: Watch, b: Watch) -> bool {
    ||| a.source_kind@ != b.source_kind@
    ||| a.imap_host@ != b.imap_host@
    ||| a.imap_port != b.imap_port
    ||| a.login@ != b.login@
    ||| a.enc_password@ != b.enc_password@
    ||| a.auth_kind@ != b.auth_kind@
    ||| a.mailbox@ != b.mailbox@
    ||| opt_text(a.carddav_url) != opt_text(b.carddav_url)
    ||| a.carddav_poll_secs != b.carddav_poll_secs
}

proof fn lemma_desired(watches: Seq<Watch>, metered: bool, now: int, w: Watch)
    ensures
        desired(watches, metered, now).contains(w) <==> watches.contains(w) && w.active && (
        !metered || entitled(w.watching_until, now)),
{
    lemma_filter_contains(watches, watch_active(), w);
    lemma_filter_contains(watches.filter(watch_active()), is_desired(metered, now), w);
}

/// A service that is redefined so that it connects differently has the watcher
/// of its old definition stopped, and a new one started for what it is now.
pub proof fn redefined_service_is_restarted(
    before: Supervisor,
    after: Supervisor,
    watches: Seq<Watch>,
    now: int,
    r: Reconciled,
    was: Watch,
    is: Watch,
    k: int,
)
    requires
        before.reconciles(after, watches, now, r),
        crate::table::distinct(watches, |w: Watch| w.id@),
        crate::table::distinct(before.handles@, |h: Running| h.id@),
        watches.contains(is),
        is.active,
        !before.metered || (is.watching_until matches Some(until) && now < until),
        0 <= k < before.handles@.len(),
        runs(before.handles@[k], was),
        was.id@ == is.id@,
        connect_differently(was, is),
    ensures
        r.stopped@.contains(before.handles@[k]),
        r.starting@.contains(is),
        !after.handles@.contains(before.handles@[k]),
{
    let wanted = desired(watches, before.metered, now);
    let h = before.handles@[k];
    let stale = |h: Running| !serves(wanted)(h);
    lemma_desired(watches, before.metered, now, is);
    assert(!serves(wanted)(h)) by {
        if serves(wanted)(h) {
            let p = |w: Watch| w.id@ == h.id@ && fingerprint_of(w) == h.fingerprint@;
            let m = choose|m: int| 0 <= m < wanted.len() && p(#[trigger] wanted[m]);
            let w = wanted[m];
            assert(wanted.contains(w));
            lemma_desired(watches, before.metered, now, w);
            let i = choose|i: int| 0 <= i < watches.len() && watches[i] == w;
            let j = choose|j: int| 0 <= j < watches.len() && watches[j] == is;
            if i < j {
                assert(watches[i].id@ != watches[j].id@);
            } else if j < i {
                assert(watches[j].id@ != watches[i].id@);
            }
            equal_fingerprints_connect_alike(was, is);
        }
    }
    assert(before.handles@.contains(h));
    assert(stale(h));
    lemma_filter_contains(before.handles@, stale, h);
    lemma_filter_contains(before.handles@, serves(wanted), h);
    assert(unserved(after.handles@)(is)) by {
        let own = |h: Running| h.id@ == is.id@;
        if any_where(after.handles@, own) {
            let m = choose|m: int| 0 <= m < after.handles@.len() && own(#[trigger] after.handles@[m]);
            let other = after.handles@[m];
            assert(after.handles@.contains(other));
            lemma_filter_contains(before.handles@, serves(wanted), other);
            let i = choose|i: int| 0 <= i < before.handles@.len() && before.handles@[i] == other;
            if i < k {
                assert(before.handles@[i].id@ != before.handles@[k].id@);
            } else if k < i {
                assert(before.handles@[k].id@ != before.handles@[i].id@);
            }
        }
    }
    lemma_filter_contains(wanted, unserved(after.handles@), is);
}

/// A service that is still to be watched and connects as before keeps its
/// watcher, whatever else of it was redefined, and gets no second one.
pub proof fn unchanged_service_keeps_its_watcher(
    before: Supervisor,
    after: Supervisor,
    watches: Seq<Watch>,
    now: int,
    r: Reconciled,
    was: Watch,
    is: Watch,
    k: int,
)
    requires
        before.reconciles(after, watches, now, r),
        watches.contains(is),
        is.active,
        !before.metered || (is.watching_until matches Some(until) && now < until),
        0 <= k < before.handles@.len(),
        runs(before.handles@[k], was),
        was.id@ == is.id@,
        !connect_differently(was, is),
    ensures
        after.handles@.contains(before.handles@[k]),
        !r.stopped@.contains(before.handles@[k]),
        !r.starting@.contains(is),
{
    let wanted = desired(watches, before.metered, now);
    let h = before.handles@[k];
    let stale = |h: Running| !serves(wanted)(h);
    lemma_desired(watches, before.metered, now, is);
    assert(serves(wanted)(h)) by {
        let p = |w: Watch| w.id@ == h.id@ && fingerprint_of(w) == h.fingerprint@;
        let m = choose|m: int| 0 <= m < wanted.len() && wanted[m] == is;
        equal_fingerprints_connect_alike(was, is);
        assert(p(wanted[m]));
    }
    assert(before.handles@.contains(h));
    lemma_filter_contains(before.handles@, serves(wanted), h);
    lemma_filter_contains(before.handles@, stale, h);
    let m = choose|m: int| 0 <= m < after.handles@.len() && after.handles@[m] == h;
    let own = |h: Running| h.id@ == is.id@;
    assert(own(after.handles@[m]));
    lemma_filter_contains(wanted, unserved(after.handles@), is);
}

/// A service that is to be watched and has no watcher gets one: it is active,
/// and paid for where watching is paid for.
pub proof fn activated_service_is_started(
    before: Supervisor,
    after: Supervisor,
    watches: Seq<Watch>,
    now: int,
    r: Reconciled,
    w: Watch,
)
    requires
        before.reconciles(after, watches, now, r),
        forall|k: int| 0 <= k < before.handles@.len() ==> (#[trigger] before.handles@[k]).id@
            != w.id@,
    ensures
        r.starting@.contains(w) <==> watches.contains(w) && w.active && (!before.metered || (
        w.watching_until matches Some(until) && now < until)),
{
    let wanted = desired(watches, before.metered, now);
    lemma_desired(watches, before.metered, now, w);
    lemma_filter_contains(wanted, unserved(after.handles@), w);
    let own = |h: Running| h.id@ == w.id@;
    if any_where(after.handles@, own) {
        let m = choose|m: int| 0 <= m < after.handles@.len() && own(#[trigger] after.handles@[m]);
        let h = after.handles@[m];
        assert(after.handles@.contains(h));
        lemma_filter_contains(before.handles@, serves(wanted), h);
        let i = choose|i: int| 0 <= i < before.handles@.len() && before.handles@[i] == h;
        assert(before.handles@[i].id@ != w.id@);
    }
}

/// A paused service, or one whose month is over where watching is paid for, has
/// its watcher stopped.
pub proof fn lapsed_service_is_stopped(
    before: Supervisor,
    after: Supervisor,
    watches: Seq<Watch>,
    now: int,
    r: Reconciled,
    w: Watch,
    k: int,
)
    requires
        before.reconciles(after, watches, now, r),
        crate::table::distinct(watches, |w: Watch| w.id@),
        watches.contains(w),
        !w.active || (before.metered && (w.watching_until matches Some(until) ==> until <= now)),
        0 <= k < before.handles@.len(),
        before.handles@[k].id@ == w.id@,
    ensures
        r.stopped@.contains(before.handles@[k]),
        !after.handles@.contains(before.handles@[k]),
{
    let wanted = desired(watches, before.metered, now);
    let h = before.handles@[k];
    let stale = |h: Running| !serves(wanted)(h);
    let i = choose|i: int| 0 <= i < watches.len() && watches[i] == w;
    lapsed_service_is_not_watched(before, after, watches, now, r, i);
    if after.handles@.contains(h) {
        let m = choose|m: int| 0 <= m < after.handles@.len() && after.handles@[m] == h;
        assert(after.handles@[m].id@ != w.id@);
    }
    assert(before.handles@.contains(h));
    lemma_filter_contains(before.handles@, serves(wanted), h);
    lemma_filter_contains(before.handles@, stale, h);
}

/// Waits lie between two seconds and five minutes.
pub proof fn waits_have_their_bounds(ms: int)
    ensures
        valid_backoff(ms) <==> 2_000 <= ms <= 300_000,
        after_failures(0) == 2_000,
{
}

/// A watcher that lost its connection, or could not get one, says so and comes
/// back: it waits for as long as its backoff says and up to half of that more,
/// and twice as long the next time, up to five minutes. After a connection that
/// lasted a minute it waits two seconds again, unless what failed was to mint a
/// token.
pub proof fn lost_watchers_come_back(
    before: WatchLoop,
    after: WatchLoop,
    event: LoopEvent,
    lasted_ms: u64,
    r: LoopStep,
)
    requires
        2_000 <= before.backoff_ms <= 300_000,
        before.goes_on(after, event, false, lasted_ms, r),
        event is OauthFailed || event is ConnectFailed || event is ConnectTimedOut
            || event is SessionOver,
    ensures
        ({
            let base = if lasted_ms >= 60_000 && event !is OauthFailed {
                2_000int
            } else {
                before.backoff_ms as int
            };
            &&& r.next matches LoopNext::Wait(ms) && base <= ms <= base + base / 2
            &&& 2 * base <= 300_000 ==> after.backoff_ms == 2 * base
            &&& 2 * base > 300_000 ==> after.backoff_ms == 300_000
        }),
        r.notes@.len() > 0,
        r.notes@.last().state == WatchState::Reconnecting,
        r.notes@.last().detail is None,
        event is SessionOver ==> r.notes@.len() == 1,
        event !is SessionOver ==> r.notes@.len() == 2 && r.notes@[0].state == WatchState::Error,
{
    let seen = notes_view(r.notes@);
    assert(seen.len() == r.notes@.len());
    assert(seen.last() == note_view(r.notes@.last()));
    assert(seen[0] == note_view(r.notes@[0]));
}

/// A watcher that has to stop, whose mailbox has no valid name or that cannot
/// watch at all ends: it does not say that it will be back, and keeps its
/// backoff.
pub proof fn hopeless_watchers_end(
    before: WatchLoop,
    after: WatchLoop,
    event: LoopEvent,
    shutdown: bool,
    lasted_ms: u64,
    r: LoopStep,
)
    requires
        before.goes_on(after, event, shutdown, lasted_ms, r),
        shutdown || event is InvalidMailbox || event is CannotWatch,
    ensures
        r.next == LoopNext::Exit,
        after == before,
        forall|i: int| 0 <= i < r.notes@.len() ==> (#[trigger] r.notes@[i]).state
            == WatchState::Error,
{
    let seen = notes_view(r.notes@);
    assert(seen.len() == r.notes@.len());
    assert(seen == told_of(event));
    assert(seen.len() <= 1);
    assert(seen.len() == 1 ==> seen[0].0 == WatchState::Error);
    assert forall|i: int| 0 <= i < r.notes@.len() implies (#[trigger] r.notes@[i]).state
        == WatchState::Error by {
        assert(seen[i] == note_view(r.notes@[i]));
    }
}

/// What went wrong is told as an error with its own words.
pub proof fn errors_are_told_in_their_words(
    before: WatchLoop,
    after: WatchLoop,
    event: LoopEvent,
    shutdown: bool,
    lasted_ms: u64,
    r: LoopStep,
)
    requires
        before.goes_on(after, event, shutdown, lasted_ms, r),
        event !is SessionOver,
    ensures
        r.notes@.len() > 0,
        r.notes@[0].state == WatchState::Error,
        opt_text(r.notes@[0].detail) == Some(
            match event {
                LoopEvent::InvalidMailbox => "invalid mailbox name"@,
                LoopEvent::OauthFailed(e) => "oauth: "@ + e@,
                LoopEvent::ConnectFailed(e) => e@,
                LoopEvent::ConnectTimedOut => "connect timed out"@,
                LoopEvent::CannotWatch(e) => e@,
                LoopEvent::SessionOver => ""@,
            },
        ),
{
    let seen = notes_view(r.notes@);
    assert(seen.len() == r.notes@.len());
    assert(seen[0] == note_view(r.notes@[0]));
}

/// A poll that went well tells once that the address book is watched, sets the
/// wait back to two seconds, and asks for its checkpoint to be kept exactly where
/// it moved; the poller goes on from it.
pub proof fn polls_move_the_checkpoint(
    before: CardDavLoop,
    after: CardDavLoop,
    token: Option<String>,
    r: PolledStep,
)
    requires
        before.polls(after, token, r),
    ensures
        opt_text(after.token) == opt_text(token),
        r.checkpoint is Some <==> opt_text(token) != opt_text(before.token),
        r.checkpoint matches Some(t) ==> opt_text(t) == opt_text(token),
        after.backoff_ms == 2_000,
        after.announced,
        before.announced ==> r.notes@.len() == 0,
        !before.announced ==> r.notes@.len() == 1 && r.notes@[0].state == WatchState::Watching,
{
    let seen = notes_view(r.notes@);
    assert(seen.len() == r.notes@.len());
    if !before.announced {
        assert(seen[0] == note_view(r.notes@[0]));
    }
}

/// A poll that failed keeps the checkpoint, is told as an error, and is tried
/// again after a wait that doubles up to five minutes, unless the poller has to
/// stop; the next good poll tells again that the address book is watched.
pub proof fn failed_polls_come_back(
    before: CardDavLoop,
    after: CardDavLoop,
    detail: Seq<char>,
    minting: bool,
    shutdown: bool,
    r: LoopStep,
)
    requires
        2_000 <= before.backoff_ms <= 300_000,
        before.fails(after, detail, minting, shutdown, r),
    ensures
        after.token == before.token,
        !after.announced,
        r.notes@.len() > 0,
        r.notes@[0].state == WatchState::Error,
        !minting ==> opt_text(r.notes@[0].detail) == Some(detail),
        minting ==> opt_text(r.notes@[0].detail) == Some("oauth: "@ + detail),
        shutdown ==> r.next == LoopNext::Exit && r.notes@.len() == 1,
        !shutdown ==> {
            let base = before.backoff_ms as int;
            &&& r.next matches LoopNext::Wait(ms) && base <= ms <= base + base / 2
            &&& after.backoff_ms == if 2 * base <= 300_000 {
                2 * base
            } else {
                300_000
            }
            &&& r.notes@.len() == 2
            &&& r.notes@[1].state == WatchState::Reconnecting
        },
{
    let seen = notes_view(r.notes@);
    assert(seen.len() == r.notes@.len());
    assert(seen[0] == note_view(r.notes@[0]));
    if !shutdown {
        assert(seen[1] == note_view(r.notes@[1]));
    }
}

/// A service is watched where it says: a mailbox on its server as its user, or
/// its address book from its checkpoint at its own interval, which is never
/// shorter than five seconds, or at the default one.
pub proof fn services_are_watched_where_they_say(
    r: Result<SourcePlan, SpawnError>,
    watch: Watch,
    default_secs: u64,
)
    requires
        watches_source(r, watch, default_secs),
    ensures
        watch.source_kind@ != "carddav"@ ==> (r matches Ok(SourcePlan::Imap(a)) && a.host
            == watch.imap_host && a.port == watch.imap_port && a.login == watch.login && a.mailbox
            == watch.mailbox),
        watch.source_kind@ == "carddav"@ && watch.carddav_url is None ==> r == Err::<
            SourcePlan,
            SpawnError,
        >(SpawnError::NoCollection),
        watch.source_kind@ == "carddav"@ && watch.carddav_url is Some ==> {
            &&& r matches Ok(
                SourcePlan::Carddav { url, login, imap_host, imap_port, initial_token, poll_secs },
            )
            &&& Some(url) == watch.carddav_url
            &&& login == watch.login
            &&& imap_host == watch.imap_host
            &&& imap_port == watch.imap_port
            &&& initial_token == watch.carddav_sync_token
            &&& match watch.carddav_poll_secs {
                Some(s) => poll_secs >= 5 && poll_secs >= s && (poll_secs == 5 || poll_secs == s),
                None => poll_secs == default_secs,
            }
        },
{
}

/// A service signs in with its own password where it carries one, else with the
/// one its account stored for that mailbox; one that signs in by OAuth uses no
/// password, and one without any cannot be watched.
pub proof fn services_sign_in_with_their_own(store: Store, watch: Watch)
    ensures
        watch.auth_kind@ == "oauth"@ ==> credential_of(store, watch) == Ok::<
            CredentialSource,
            SpawnError,
        >(CredentialSource::Oauth),
        watch.auth_kind@ != "oauth"@ && watch.enc_password@.len() > 0 ==> credential_of(
            store,
            watch,
        ) == Ok::<CredentialSource, SpawnError>(CredentialSource::Password(watch.enc_password)),
        watch.auth_kind@ != "oauth"@ && watch.enc_password@.len() == 0 ==> match store.password(
            watch.account_id@,
            mailbox_key_of(watch.login@, watch.imap_host@),
        ) {
            Some(enc) => credential_of(store, watch) == Ok::<CredentialSource, SpawnError>(
                CredentialSource::Password(enc),
            ),
            None => credential_of(store, watch) == Err::<CredentialSource, SpawnError>(
                SpawnError::NoPassword,
            ),
        },
{
}

/// A watcher that was started is noted under its service's id and account, with
/// all that its connection depends on.
pub proof fn started_watcher_is_its_services(h: Running, watch: Watch)
    requires
        runs(h, watch),
    ensures
        h.id@ == watch.id@,
        h.account_id@ == watch.account_id@,
        h.fingerprint.source_kind@ == watch.source_kind@,
        h.fingerprint.imap_host@ == watch.imap_host@,
        h.fingerprint.imap_port == watch.imap_port,
        h.fingerprint.login@ == watch.login@,
        h.fingerprint.enc_password@ == watch.enc_password@,
        h.fingerprint.auth_kind@ == watch.auth_kind@,
        h.fingerprint.mailbox@ == watch.mailbox@,
        opt_text(h.fingerprint.carddav_url) == opt_text(watch.carddav_url),
        h.fingerprint.carddav_poll_secs == watch.carddav_poll_secs,
{
}

/// Why a watcher cannot be started is told in words.
pub proof fn unstarted_watchers_have_their_words()
    ensures
        SpawnError::NoPassword.text() == "no password credential for the PIM account"@,
        SpawnError::NoCollection.text() == "carddav watch has no collection URL"@,
{
}

/// Why no access token can be had is told in words.
pub proof fn missing_access_has_its_words()
    ensures
        AccessError::NoCredential.text() == "no OAuth credential for this mailbox"@,
        AccessError::InvalidTokenEndpoint.text() == "stored token endpoint is not a valid URL"@,
{
}

/// A fingerprint says what it holds, each thing under its own name.
pub proof fn fingerprints_say_what_they_hold(f: Fingerprint)
    ensures
        f@.source_kind == f.source_kind@,
        f@.imap_host == f.imap_host@,
        f@.imap_port == f.imap_port,
        f@.login == f.login@,
        f@.enc_password == f.enc_password@,
        f@.auth_kind == f.auth_kind@,
        f@.mailbox == f.mailbox@,
        f@.carddav_url == opt_text(f.carddav_url),
        f@.carddav_poll_secs == f.carddav_poll_secs,
{
}

} // verus!
