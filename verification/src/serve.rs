//! Running the server: what its arguments ask for, what its configuration comes
//! down to, and how services are imported.

use crate::api::service::{describes, service_of, store_service, stores_service, CreateWatch};
use crate::billing::{Billing, StripeBilling};
use crate::config::{Config, ImportAccount, OauthClientConfig};
use crate::delivery::{notify_url_allowed, validate_notify_url};
use crate::email::{Mailer, ResendMailer};
use crate::oauth::StaticClients;
use crate::rows::Watch;
use crate::store::Store;
use crate::table::copy_text;
use crate::text::{join2, same, stands_at, starts_with, trim_end_char_of};
use crate::weburl::{origin_text, read_origin, read_url, url_of};
use vstd::prelude::*;

verus! {

/// How many events may wait for delivery.
pub const EVENT_CHANNEL: usize = 4096;

/// How many commands may wait for the supervisor.
pub const COMMAND_CHANNEL: usize = 64;

/// How often an account may be tried within a window.
pub const TEST_MAX_ATTEMPTS: u32 = 5;

/// How long that window is, in seconds.
pub const TEST_WINDOW_SECS: u64 = 300;

/// How often discovery may be asked for within a window.
pub const DISCOVER_MAX_ATTEMPTS: u32 = 20;

/// How long that window is, in seconds.
pub const DISCOVER_WINDOW_SECS: u64 = 300;

// --- arguments ---

/// What the arguments ask for.
#[derive(Debug)]
pub enum Command {
    /// To import the services of a file.
    Import { accounts: String, config: Option<String> },
    /// To serve.
    Serve { config: Option<String> },
}

/// Why the arguments make no sense.
#[derive(Debug)]
pub enum UsageError {
    NoAccounts,
    UnknownFlag(String),
}

impl UsageError {
    pub open spec fn text(self) -> Seq<char> {
        match self {
            UsageError::NoAccounts => "usage: carillon-backend import <accounts.toml> [config]"@,
            UsageError::UnknownFlag(flag) => "unknown flag: "@ + flag@,
        }
    }

    /// What to tell the operator.
    pub fn message(&self) -> (r: String)
        ensures
            r@ == self.text(),
    {
        match self {
            UsageError::NoAccounts =>
                "usage: carillon-backend import <accounts.toml> [config]".to_owned(),
            UsageError::UnknownFlag(flag) => join2("unknown flag: ", flag.as_str()),
        }
    }
}

/// An argument, if there is one.
pub open spec fn arg(args: Seq<String>, i: int) -> Option<String> {
    if i < args.len() {
        Some(args[i])
    } else {
        None
    }
}

/// What arguments ask for. Without a subcommand the server runs, with the file
/// that is named or without.
pub open spec fn asks_for(args: Seq<String>) -> Result<Command, UsageError> {
    match arg(args, 1) {
        Some(first) => if first@ == "import"@ {
            match arg(args, 2) {
                Some(accounts) => Ok(Command::Import { accounts, config: arg(args, 3) }),
                None => Err(UsageError::NoAccounts),
            }
        } else if first@ == "serve"@ {
            Ok(Command::Serve { config: arg(args, 2) })
        } else if stands_at(first@, "-"@, 0) {
            Err(UsageError::UnknownFlag(first))
        } else {
            Ok(Command::Serve { config: Some(first) })
        },
        None => Ok(Command::Serve { config: None }),
    }
}

fn arg_at(args: &Vec<String>, i: usize) -> (r: Option<String>)
    ensures
        r == arg(args@, i as int),
{
    if i < args.len() {
        Some(args[i].clone())
    } else {
        None
    }
}

/// What the arguments ask for; the first is the program's own name.
pub fn parse_args(args: &Vec<String>) -> (r: Result<Command, UsageError>)
    ensures
        r == asks_for(args@),
{
    let first = match arg_at(args, 1) {
        Some(first) => first,
        None => return Ok(Command::Serve { config: None }),
    };
    if same(first.as_str(), "import") {
        match arg_at(args, 2) {
            Some(accounts) => Ok(Command::Import { accounts, config: arg_at(args, 3) }),
            None => Err(UsageError::NoAccounts),
        }
    } else if same(first.as_str(), "serve") {
        Ok(Command::Serve { config: arg_at(args, 2) })
    } else if starts_with(first.as_str(), "-") {
        Err(UsageError::UnknownFlag(first))
    } else {
        Ok(Command::Serve { config: Some(first) })
    }
}

// --- settings ---

/// What a configuration comes down to.
#[derive(Debug)]
pub struct Settings {
    /// Whether watching is paid for.
    pub metered: bool,
    pub reconcile_interval_secs: u64,
    /// How many mailboxes an account may watch.
    pub max_watches: usize,
    /// Where this API is reached.
    pub public_url: String,
    /// Where the dashboard is reached.
    pub dashboard_url: String,
    /// Who may be handed the result of a sign-in.
    pub dashboard_origin: String,
    pub oauth_clients: StaticClients,
    pub billing: Billing,
    pub mailer: Mailer,
}

/// A configured client.
pub open spec fn client_of(c: Option<OauthClientConfig>) -> Option<(String, Option<String>)> {
    match c {
        Some(client) => Some((client.client_id, client.client_secret)),
        None => None,
    }
}

fn configured_client(c: &Option<OauthClientConfig>) -> (r: Option<(String, Option<String>)>)
    ensures
        r == client_of(*c),
{
    match c {
        Some(client) => Some((client.client_id.clone(), copy_text(&client.client_secret))),
        None => None,
    }
}

/// Where the API is reached: where it is said to be, or where it listens.
pub open spec fn public_url_of(config: Config) -> Seq<char> {
    match config.api.public_url {
        Some(url) => url@,
        None => "http://"@ + config.api.listen@,
    }
}

/// Where the dashboard is reached: where it is said to be, or at the API.
pub open spec fn dashboard_url_of(config: Config) -> Seq<char> {
    match config.api.dashboard_url {
        Some(url) => url@,
        None => public_url_of(config),
    }
}

/// The origin of a URL; of what is none, anyone.
pub open spec fn origin_of(url: Seq<char>) -> Seq<char> {
    match url_of(url) {
        Ok(_) => origin_text(url),
        Err(_) => "*"@,
    }
}

/// Whether this is what a configuration comes down to.
pub open spec fn configures(r: Settings, config: Config) -> bool {
    &&& r.metered == config.billing.stripe is Some
    &&& r.reconcile_interval_secs == (if config.server.reconcile_interval_secs >= 5 {
        config.server.reconcile_interval_secs
    } else {
        5
    })
    &&& r.max_watches == (if config.server.max_watches_per_account >= 1 {
        config.server.max_watches_per_account
    } else {
        1
    })
    &&& r.public_url@ == public_url_of(config)
    &&& r.dashboard_url@ == dashboard_url_of(config)
    &&& r.dashboard_origin@ == origin_of(dashboard_url_of(config))
    &&& r.oauth_clients == (StaticClients {
        google: client_of(config.oauth.google),
        microsoft: client_of(config.oauth.microsoft),
    })
    &&& match config.email.resend {
        Some(c) => r.mailer == Mailer::Resend(ResendMailer { api_key: c.api_key, from: c.from }),
        None => r.mailer == Mailer::Stub,
    }
    &&& match config.billing.stripe {
        Some(c) => r.billing matches Billing::Stripe(s) && s.secret_key == c.secret_key
            && s.webhook_secret == c.webhook_secret && s.prices@ == c.prices@ && s.success_url@ == (
        match c.success_url {
            Some(url) => url@,
            None => trim_end_char_of(dashboard_url_of(config), '/') + "/?checkout=success"@,
        }) && s.cancel_url@ == (match c.cancel_url {
            Some(url) => url@,
            None => trim_end_char_of(dashboard_url_of(config), '/') + "/?checkout=cancel"@,
        }),
        None => r.billing == Billing::Stub,
    }
}

/// What a configuration comes down to. Watching is paid for where there is a
/// payment provider.
pub fn settings(config: &Config) -> (r: Settings)
    ensures
        configures(r, *config),
{
    let public_url = match &config.api.public_url {
        Some(url) => url.clone(),
        None => join2("http://", config.api.listen.as_str()),
    };
    let dashboard_url = match &config.api.dashboard_url {
        Some(url) => url.clone(),
        None => public_url.clone(),
    };
    let dashboard_origin = match read_url(dashboard_url.as_str()) {
        Ok(_) => read_origin(dashboard_url.as_str()),
        Err(_) => "*".to_owned(),
    };
    let billing = match &config.billing.stripe {
        Some(stripe) => Billing::Stripe(StripeBilling::new(stripe, dashboard_url.as_str())),
        None => Billing::Stub,
    };
    Settings {
        metered: config.billing.stripe.is_some(),
        reconcile_interval_secs: if config.server.reconcile_interval_secs >= 5 {
            config.server.reconcile_interval_secs
        } else {
            5
        },
        max_watches: if config.server.max_watches_per_account >= 1 {
            config.server.max_watches_per_account
        } else {
            1
        },
        public_url,
        dashboard_url,
        dashboard_origin,
        oauth_clients: StaticClients {
            google: configured_client(&config.oauth.google),
            microsoft: configured_client(&config.oauth.microsoft),
        },
        billing,
        mailer: Mailer::new(&config.email),
    }
}

// --- import ---

/// Whether this is the service that an entry of an import file asks for.
pub open spec fn imports(request: CreateWatch, id: Seq<char>, account: ImportAccount) -> bool {
    &&& request.id@ == id
    &&& request.imap_host == account.imap_host
    &&& request.imap_port == account.imap_port
    &&& request.login == account.login
    &&& request.mailbox == account.mailbox
    &&& request.notify_url == account.notify_url
    &&& request.hmac_secret == account.hmac_secret
    &&& request.active == account.active
}

/// Why an entry of an import file is refused.
pub open spec fn import_refusal(id: Seq<char>) -> Seq<char> {
    "Invalid notify_url for account "@ + id
}

/// What importing an entry does: the service is stored, paid from an account of
/// its own id and signing in with its own password. An entry with a bad
/// endpoint changes nothing.
pub open spec fn imports_account(
    before: Store,
    after: Store,
    id: Seq<char>,
    account: ImportAccount,
    enc_password: Seq<char>,
    r: Result<(), String>,
) -> bool {
    let good = url_of(account.notify_url@) matches Ok(u) && notify_url_allowed(u);
    if good {
        r is Ok && exists|request: CreateWatch, w: Watch|
            imports(request, id, account) && #[trigger] describes(
                w,
                request,
                id,
                "password"@,
                enc_password,
            ) && stores_service(before, after, w)
    } else {
        after == before && (r matches Err(e) && e@ == import_refusal(id))
    }
}

/// Imports an entry, once its password is resolved and encrypted.
pub fn import_account(store: &mut Store, id: &str, account: &ImportAccount, enc_password: &str) -> (r:
    Result<(), String>)
    ensures
        imports_account(*old(store), *final(store), id@, *account, enc_password@, r),
        old(store).wf() ==> final(store).wf(),
{
    if validate_notify_url(account.notify_url.as_str()).is_err() {
        return Err(join2("Invalid notify_url for account ", id));
    }
    let request = CreateWatch {
        id: id.to_owned(),
        imap_host: account.imap_host.clone(),
        imap_port: account.imap_port,
        login: account.login.clone(),
        password: "".to_owned(),
        mailbox: account.mailbox.clone(),
        notify_url: account.notify_url.clone(),
        hmac_secret: account.hmac_secret.clone(),
        account_id: None,
        active: account.active,
    };
    let w = service_of(&request, id, "password", enc_password);
    store_service(store, &w);
    assert(imports(request, id@, *account) && describes(
        w,
        request,
        id@,
        "password"@,
        enc_password@,
    ));
    Ok(())
}

// --- laws ---

/// The arguments ask to import a file, to serve, or to serve with a file; a flag
/// is none of these, and an import without a file is refused.
pub proof fn arguments_ask_for_a_command(args: Seq<String>)
    ensures
        args.len() <= 1 ==> asks_for(args) == Ok::<Command, UsageError>(
            Command::Serve { config: None },
        ),
        args.len() == 2 && args[1]@ == "import"@ ==> asks_for(args) == Err::<Command, UsageError>(
            UsageError::NoAccounts,
        ),
        args.len() == 3 && args[1]@ == "import"@ ==> asks_for(args) == Ok::<Command, UsageError>(
            Command::Import { accounts: args[2], config: None },
        ),
        args.len() >= 4 && args[1]@ == "import"@ ==> asks_for(args) == Ok::<Command, UsageError>(
            Command::Import { accounts: args[2], config: Some(args[3]) },
        ),
        args.len() == 2 && args[1]@ == "serve"@ ==> asks_for(args) == Ok::<Command, UsageError>(
            Command::Serve { config: None },
        ),
        args.len() >= 3 && args[1]@ == "serve"@ ==> asks_for(args) == Ok::<Command, UsageError>(
            Command::Serve { config: Some(args[2]) },
        ),
        args.len() >= 2 && args[1]@.len() > 0 && args[1]@[0] == '-' ==> asks_for(args) == Err::<
            Command,
            UsageError,
        >(UsageError::UnknownFlag(args[1])),
        args.len() >= 2 && args[1]@ != "import"@ && args[1]@ != "serve"@ && (args[1]@.len() == 0
            || args[1]@[0] != '-') ==> asks_for(args) == Ok::<Command, UsageError>(
            Command::Serve { config: Some(args[1]) },
        ),
{
    reveal_strlit("import");
    reveal_strlit("serve");
    reveal_strlit("-");
    assert("import"@.len() == 6 && "serve"@.len() == 5 && "-"@.len() == 1);
    assert("import"@[0] == 'i' && "serve"@[0] == 's' && "-"@[0] == '-');
    if args.len() >= 2 {
        let first = args[1]@;
        if first.len() > 0 && first[0] == '-' {
            assert(first.subrange(0, 1) =~= "-"@);
        }
        if stands_at(first, "-"@, 0) {
            assert(first.subrange(0, 1)[0] == first[0]);
        }
    }
}

/// Watching is paid for exactly where there is a payment provider; services are
/// looked at no more often than every five seconds, and an account may watch at
/// least one mailbox. The API is reached where it says, or where it listens, and
/// the dashboard where it says, or at the API.
pub proof fn configuration_comes_down_to_settings(r: Settings, config: Config)
    requires
        configures(r, config),
    ensures
        r.metered <==> config.billing.stripe is Some,
        r.billing is Stripe <==> config.billing.stripe is Some,
        r.mailer is Resend <==> config.email.resend is Some,
        config.server.reconcile_interval_secs >= 5 ==> r.reconcile_interval_secs
            == config.server.reconcile_interval_secs,
        config.server.reconcile_interval_secs < 5 ==> r.reconcile_interval_secs == 5,
        config.server.max_watches_per_account >= 1 ==> r.max_watches
            == config.server.max_watches_per_account,
        config.server.max_watches_per_account < 1 ==> r.max_watches == 1,
        config.api.public_url matches Some(url) ==> r.public_url@ == url@,
        config.api.public_url is None ==> r.public_url@ == "http://"@ + config.api.listen@,
        config.api.dashboard_url matches Some(url) ==> r.dashboard_url@ == url@,
        config.api.dashboard_url is None ==> r.dashboard_url@ == r.public_url@,
        url_of(r.dashboard_url@) is Err ==> r.dashboard_origin@ == "*"@,
        url_of(r.dashboard_url@) is Ok ==> r.dashboard_origin@ == origin_text(r.dashboard_url@),
        config.oauth.google matches Some(c) ==> r.oauth_clients.google == Some(
            (c.client_id, c.client_secret),
        ),
        config.oauth.google is None ==> r.oauth_clients.google is None,
        config.oauth.microsoft matches Some(c) ==> r.oauth_clients.microsoft == Some(
            (c.client_id, c.client_secret),
        ),
        config.oauth.microsoft is None ==> r.oauth_clients.microsoft is None,
        (config.billing.stripe matches Some(c) && r.billing matches Billing::Stripe(s))
            ==> r.billing->Stripe_0.secret_key == config.billing.stripe->0.secret_key
            && r.billing->Stripe_0.webhook_secret == config.billing.stripe->0.webhook_secret,
        (config.email.resend matches Some(c) && r.mailer matches Mailer::Resend(m))
            ==> r.mailer->Resend_0.api_key == config.email.resend->0.api_key
            && r.mailer->Resend_0.from == config.email.resend->0.from,
{
}

/// The payment provider has the prices that are configured, and returns the user
/// to the pages that are, or to the dashboard, which is told how it ended.
pub proof fn payments_return_to_the_dashboard(
    r: Settings,
    config: Config,
    c: crate::config::StripeConfig,
)
    requires
        configures(r, config),
        config.billing.stripe == Some(c),
    ensures
        r.billing matches Billing::Stripe(s) && s.prices@ == c.prices@ && (c.success_url is Some
            ==> s.success_url@ == c.success_url->0@) && (c.cancel_url is Some ==> s.cancel_url@
            == c.cancel_url->0@) && (c.success_url is None && r.dashboard_url@.len() > 0
            && r.dashboard_url@.last() != '/' ==> s.success_url@ == r.dashboard_url@
            + "/?checkout=success"@) && (c.cancel_url is None && r.dashboard_url@.len() > 0
            && r.dashboard_url@.last() != '/' ==> s.cancel_url@ == r.dashboard_url@
            + "/?checkout=cancel"@),
{
}

/// An account is tried at most five times, and discovery asked for at most twenty
/// times, in five minutes.
pub proof fn trying_is_limited()
    ensures
        TEST_MAX_ATTEMPTS == 5,
        TEST_WINDOW_SECS == 5 * 60,
        DISCOVER_MAX_ATTEMPTS == 20,
        DISCOVER_WINDOW_SECS == 5 * 60,
{
}

/// An entry of an import file becomes the service it describes, paid from an
/// account of its own id and signing in with its own password; one whose endpoint
/// is not allowed changes nothing, and says so.
pub proof fn imported_entry_becomes_a_service(
    before: Store,
    after: Store,
    id: Seq<char>,
    account: ImportAccount,
    enc_password: Seq<char>,
    r: Result<(), String>,
)
    requires
        imports_account(before, after, id, account, enc_password, r),
    ensures
        !(url_of(account.notify_url@) matches Ok(u) && notify_url_allowed(u)) ==> after == before && (
        r matches Err(why) && why@ == "Invalid notify_url for account "@ + id),
        (url_of(account.notify_url@) matches Ok(u) && notify_url_allowed(u)) ==> r is Ok && exists|
            w: Watch,
        |
            #[trigger] stores_service(before, after, w) && w.id@ == id && w.account_id@ == id
                && w.imap_host@ == account.imap_host@ && w.imap_port == account.imap_port
                && w.login@ == account.login@ && w.mailbox@ == account.mailbox@ && w.notify_url@
                == account.notify_url@ && w.hmac_secret@ == account.hmac_secret@ && w.active
                == account.active && w.enc_password@ == enc_password && w.auth_kind@
                == "password"@,
{
    if (url_of(account.notify_url@) matches Ok(u) && notify_url_allowed(u)) {
        let (request, w) = choose|request: CreateWatch, w: Watch|
            imports(request, id, account) && #[trigger] describes(
                w,
                request,
                id,
                "password"@,
                enc_password,
            ) && stores_service(before, after, w);
        assert(stores_service(before, after, w));
    }
}

/// Why the arguments make no sense is told in words.
pub proof fn unknown_arguments_have_their_words(flag: String)
    ensures
        UsageError::NoAccounts.text() == "usage: carillon-backend import <accounts.toml> [config]"@,
        UsageError::UnknownFlag(flag).text() == "unknown flag: "@ + flag@,
{
}

} // verus!
