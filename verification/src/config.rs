//! Configuration: server-wide settings and the control API. What is watched
//! does not live here; it enters the store through the control API or an
//! import file.

use crate::digest::utf8;
use crate::table::{copy_text, opt_str, opt_text};
use crate::text::{
    chars_of, join2, same, string_between, trim, trim_newlines, trim_newlines_of, trim_of,
    trim_start_char, trim_start_char_of,
};
use vstd::prelude::*;
use vstd::utf8::valid_utf8;

verus! {

/// The daemon's configuration.
#[derive(Debug)]
pub struct Config {
    pub server: ServerConfig,
    pub api: ApiConfig,
    pub oauth: OauthConfig,
    pub billing: BillingConfig,
    pub email: EmailConfig,
}

/// E-mail. Without a provider, messages are logged instead of sent.
#[derive(Debug)]
pub struct EmailConfig {
    pub resend: Option<ResendConfig>,
}

/// The e-mail provider. The key is a secret: inline, or in a file.
#[derive(Debug)]
pub struct ResendConfig {
    pub api_key: String,
    pub api_key_file: Option<String>,
    /// The `From:` header.
    pub from: String,
}

/// Own OAuth apps for the providers that need a registered one.
#[derive(Debug)]
pub struct OauthConfig {
    pub google: Option<OauthClientConfig>,
    pub microsoft: Option<OauthClientConfig>,
}

/// A registered OAuth client.
#[derive(Debug)]
pub struct OauthClientConfig {
    pub client_id: String,
    /// The secret, for a confidential client: inline, or in a file.
    pub client_secret: Option<String>,
    pub client_secret_file: Option<String>,
}

/// Payment. Without a provider, nothing is billed.
#[derive(Debug)]
pub struct BillingConfig {
    pub stripe: Option<StripeConfig>,
}

/// The payment provider. The two secrets are inline, or in files.
#[derive(Debug)]
pub struct StripeConfig {
    pub secret_key: String,
    pub secret_key_file: Option<String>,
    pub webhook_secret: String,
    pub webhook_secret_file: Option<String>,
    /// Where the buyer returns after paying.
    pub success_url: Option<String>,
    /// Where the buyer returns after not paying.
    pub cancel_url: Option<String>,
    /// What is sold, by name, and the provider's price for it.
    pub prices: Vec<(String, String)>,
}

/// Server-wide settings.
#[derive(Debug)]
pub struct ServerConfig {
    /// The database.
    pub db: String,
    /// The key that encrypts passwords at rest.
    pub age_key_file: String,
    /// How many TLS handshakes may run at once.
    pub max_concurrent_handshakes: usize,
    /// How often the running services are compared with the store, in seconds.
    pub reconcile_interval_secs: u64,
    /// Whether loopback, private and link-local targets are allowed.
    pub allow_private_targets: bool,
    /// How many mailboxes one account may watch.
    pub max_watches_per_account: usize,
    /// How often an address book is polled, in seconds.
    pub carddav_poll_interval_secs: u64,
}

/// Control API settings.
#[derive(Debug)]
pub struct ApiConfig {
    /// The address to listen on.
    pub listen: String,
    /// Static files to serve, if any.
    pub ui_dir: Option<String>,
    /// The origin allowed across origins, `*` for any.
    pub cors_allow_origin: Option<String>,
    /// The token that opens every account: inline, or in a file.
    pub admin_token: Option<String>,
    pub admin_token_file: Option<String>,
    /// The public base URL of the API.
    pub public_url: Option<String>,
    /// The base URL of the dashboard.
    pub dashboard_url: Option<String>,
}

/// Services to import, by id.
#[derive(Debug)]
pub struct ImportFile {
    pub accounts: Vec<(String, ImportAccount)>,
}

/// One service to import.
#[derive(Debug)]
pub struct ImportAccount {
    pub imap_host: String,
    pub imap_port: u16,
    pub login: String,
    pub password: PasswordConfig,
    pub mailbox: String,
    pub notify_url: String,
    pub hmac_secret: String,
    pub active: bool,
}

/// Where a password comes from: inline, or the output of a command.
#[derive(Debug)]
pub struct PasswordConfig {
    pub raw: Option<String>,
    pub command: Option<String>,
}

// --- errors ---

/// Why a configuration is refused.
#[derive(Debug)]
pub enum ConfigError {
    /// A secret is given inline and in a file.
    Both(String),
    /// A secret is given nowhere.
    Required(String),
    /// A secret's file cannot be read.
    Unreadable { name: String, path: String },
    /// A secret's file is empty.
    Empty { name: String, path: String },
    /// A password has no source.
    NoPassword,
    /// A password's command failed.
    CommandFailed(String),
    /// A password's command gave no text.
    NotUtf8,
}

impl ConfigError {
    /// What to tell the operator.
    pub open spec fn text(self) -> Seq<char> {
        match self {
            ConfigError::Both(name) => name@ + ": set either the inline value or "@ + name@
                + "_file, not both"@,
            ConfigError::Required(name) => name@ + " is required: set it inline or via "@ + name@
                + "_file"@,
            ConfigError::Unreadable { name, path } => "Cannot read "@ + name@ + " from "@ + path@,
            ConfigError::Empty { name, path } => name@ + " file "@ + path@ + " is empty"@,
            ConfigError::NoPassword => "Account password requires either raw or command"@,
            ConfigError::CommandFailed(status) => "Password command exited with "@ + status@,
            ConfigError::NotUtf8 => "Password command output is not valid UTF-8"@,
        }
    }

    /// What to tell the operator.
    pub fn message(&self) -> (r: String)
        ensures
            r@ == self.text(),
    {
        match self {
            ConfigError::Both(name) => {
                let mut out = name.clone();
                out.append(": set either the inline value or ");
                out.append(name.as_str());
                out.append("_file, not both");
                out
            },
            ConfigError::Required(name) => {
                let mut out = name.clone();
                out.append(" is required: set it inline or via ");
                out.append(name.as_str());
                out.append("_file");
                out
            },
            ConfigError::Unreadable { name, path } => {
                let mut out = "Cannot read ".to_owned();
                out.append(name.as_str());
                out.append(" from ");
                out.append(path.as_str());
                out
            },
            ConfigError::Empty { name, path } => {
                let mut out = name.clone();
                out.append(" file ");
                out.append(path.as_str());
                out.append(" is empty");
                out
            },
            ConfigError::NoPassword => {
                "Account password requires either raw or command".to_owned()
            },
            ConfigError::CommandFailed(status) => join2(
                "Password command exited with ",
                status.as_str(),
            ),
            ConfigError::NotUtf8 => "Password command output is not valid UTF-8".to_owned(),
        }
    }
}

// --- secrets ---

/// A secret's file: where it is, and what was read of it, if anything could
/// be.
#[derive(Debug)]
pub struct SecretFile {
    pub path: String,
    pub content: Option<String>,
}

/// The secret in a file, or why there is none: its text, trimmed, and not
/// empty.
pub open spec fn file_secret(name: Seq<char>, file: SecretFile, r: Result<String, ConfigError>) -> bool {
    match file.content {
        None => r matches Err(ConfigError::Unreadable { name: n, path: p }) && n@ == name && p@
            == file.path@,
        Some(raw) => if trim_of(raw@).len() == 0 {
            r matches Err(ConfigError::Empty { name: n, path: p }) && n@ == name && p@
                == file.path@
        } else {
            r matches Ok(secret) && secret@ == trim_of(raw@)
        },
    }
}

/// Takes a secret out of a file, trimmed; an empty one is refused.
pub fn read_secret_file(name: &str, file: &SecretFile) -> (r: Result<String, ConfigError>)
    ensures
        file_secret(name@, *file, r),
{
    match &file.content {
        None => Err(ConfigError::Unreadable { name: name.to_owned(), path: file.path.clone() }),
        Some(raw) => {
            let trimmed = trim(raw.as_str());
            if trimmed.as_str().unicode_len() == 0 {
                Err(ConfigError::Empty { name: name.to_owned(), path: file.path.clone() })
            } else {
                Ok(trimmed)
            }
        },
    }
}

/// The optional secret that an inline value and a file give.
pub open spec fn optional_secret(
    name: Seq<char>,
    inline: Option<String>,
    file: Option<SecretFile>,
    r: Result<Option<String>, ConfigError>,
) -> bool {
    match (inline, file) {
        (Some(_), Some(_)) => r matches Err(ConfigError::Both(n)) && n@ == name,
        (Some(value), None) => r == Ok::<Option<String>, ConfigError>(Some(value)),
        (None, Some(file)) => match r {
            Ok(Some(secret)) => file_secret(name, file, Ok(secret)),
            Ok(None) => false,
            Err(e) => file_secret(name, file, Err(e)),
        },
        (None, None) => r == Ok::<Option<String>, ConfigError>(None),
    }
}

/// Resolves an optional secret: inline, or in a file, but not both.
pub fn resolve_optional_secret(name: &str, inline: Option<String>, file: Option<SecretFile>) -> (r:
    Result<Option<String>, ConfigError>)
    ensures
        optional_secret(name@, inline, file, r),
{
    match (inline, file) {
        (Some(_), Some(_)) => Err(ConfigError::Both(name.to_owned())),
        (Some(value), None) => Ok(Some(value)),
        (None, Some(file)) => match read_secret_file(name, &file) {
            Ok(secret) => Ok(Some(secret)),
            Err(e) => Err(e),
        },
        (None, None) => Ok(None),
    }
}

/// The required secret that an inline value, empty where there is none, and a
/// file give.
pub open spec fn required_secret(
    name: Seq<char>,
    inline: String,
    file: Option<SecretFile>,
    r: Result<String, ConfigError>,
) -> bool {
    match (inline@.len() == 0, file) {
        (false, Some(_)) => r matches Err(ConfigError::Both(n)) && n@ == name,
        (false, None) => r == Ok::<String, ConfigError>(inline),
        (true, Some(file)) => file_secret(name, file, r),
        (true, None) => r matches Err(ConfigError::Required(n)) && n@ == name,
    }
}

/// Resolves a required secret: inline, or in a file, but not both.
pub fn resolve_required_secret(name: &str, inline: String, file: Option<SecretFile>) -> (r: Result<
    String,
    ConfigError,
>)
    ensures
        required_secret(name@, inline, file, r),
{
    let absent = inline.as_str().unicode_len() == 0;
    match file {
        Some(file) => if absent {
            read_secret_file(name, &file)
        } else {
            Err(ConfigError::Both(name.to_owned()))
        },
        None => if absent {
            Err(ConfigError::Required(name.to_owned()))
        } else {
            Ok(inline)
        },
    }
}

/// What was read of a file, by its path.
pub open spec fn read_of(reads: Seq<SecretFile>, path: Seq<char>) -> Option<Seq<char>>
    decreases reads.len(),
{
    if reads.len() == 0 {
        None
    } else if reads[0].path@ == path {
        opt_text(reads[0].content)
    } else {
        read_of(reads.drop_first(), path)
    }
}

/// Whether this is the file a path names, with what was read of it.
pub open spec fn is_file(file: Option<SecretFile>, path: Option<String>, reads: Seq<SecretFile>) -> bool {
    match path {
        None => file is None,
        Some(p) => file matches Some(f) && f.path@ == p@ && opt_text(f.content) == read_of(
            reads,
            p@,
        ),
    }
}

fn find_file(path: &Option<String>, reads: &Vec<SecretFile>) -> (r: Option<SecretFile>)
    ensures
        is_file(r, *path, reads@),
{
    match path {
        None => None,
        Some(p) => {
            let mut i: usize = 0;
            assert(reads@.skip(0) =~= reads@);
            while i < reads.len()
                invariant
                    i <= reads@.len(),
                    *path == Some(*p),
                    read_of(reads@, p@) == read_of(reads@.skip(i as int), p@),
                decreases reads@.len() - i,
            {
                if same(reads[i].path.as_str(), p.as_str()) {
                    return Some(
                        SecretFile { path: p.clone(), content: copy_text(&reads[i].content) },
                    );
                }
                assert(reads@.skip(i as int).drop_first() =~= reads@.skip(i + 1));
                i += 1;
            }
            Some(SecretFile { path: p.clone(), content: None })
        },
    }
}

/// Whether an optional secret was resolved from its inline value and its file.
pub open spec fn resolved_optional(
    name: Seq<char>,
    inline: Option<String>,
    path: Option<String>,
    reads: Seq<SecretFile>,
    r: Result<Option<String>, ConfigError>,
) -> bool {
    exists|file: Option<SecretFile>|
        is_file(file, path, reads) && #[trigger] optional_secret(name, inline, file, r)
}

/// Whether a required secret was resolved from its inline value and its file.
pub open spec fn resolved_required(
    name: Seq<char>,
    inline: String,
    path: Option<String>,
    reads: Seq<SecretFile>,
    r: Result<String, ConfigError>,
) -> bool {
    exists|file: Option<SecretFile>|
        is_file(file, path, reads) && #[trigger] required_secret(name, inline, file, r)
}

/// Whether an optional secret is resolved.
pub open spec fn accepted_optional(
    name: Seq<char>,
    inline: Option<String>,
    path: Option<String>,
    reads: Seq<SecretFile>,
) -> bool {
    exists|secret: Option<String>| #[trigger]
        resolved_optional(name, inline, path, reads, Ok(secret))
}

/// Whether a required secret is resolved.
pub open spec fn accepted_required(
    name: Seq<char>,
    inline: String,
    path: Option<String>,
    reads: Seq<SecretFile>,
) -> bool {
    exists|secret: String| #[trigger] resolved_required(name, inline, path, reads, Ok(secret))
}

fn optional_from(name: &str, inline: &Option<String>, path: &Option<String>, reads: &Vec<SecretFile>) -> (r:
    Result<Option<String>, ConfigError>)
    ensures
        resolved_optional(name@, *inline, *path, reads@, r),
{
    let file = find_file(path, reads);
    resolve_optional_secret(name, copy_text(inline), file)
}

fn required_from(name: &str, inline: &String, path: &Option<String>, reads: &Vec<SecretFile>) -> (r:
    Result<String, ConfigError>)
    ensures
        resolved_required(name@, *inline, *path, reads@, r),
{
    let file = find_file(path, reads);
    resolve_required_secret(name, inline.clone(), file)
}

impl Config {
    /// Whether every secret of `after` was resolved from this configuration
    /// and the files it names; nothing else changed but the file names, which
    /// are gone.
    pub open spec fn resolved(self, after: Config, reads: Seq<SecretFile>) -> bool {
        &&& after.server == self.server
        &&& after.api == (ApiConfig {
            admin_token: after.api.admin_token,
            admin_token_file: None,
            ..self.api
        })
        &&& resolved_optional(
            "api.admin_token"@,
            self.api.admin_token,
            self.api.admin_token_file,
            reads,
            Ok(after.api.admin_token),
        )
        &&& match self.billing.stripe {
            None => after.billing.stripe is None,
            Some(a) => after.billing.stripe matches Some(b) && a.resolved(b, reads),
        }
        &&& match self.email.resend {
            None => after.email.resend is None,
            Some(a) => after.email.resend matches Some(b) && a.resolved(b, reads),
        }
        &&& match self.oauth.google {
            None => after.oauth.google is None,
            Some(a) => after.oauth.google matches Some(b) && a.resolved(
                "oauth.google.client_secret"@,
                b,
                reads,
            ),
        }
        &&& match self.oauth.microsoft {
            None => after.oauth.microsoft is None,
            Some(a) => after.oauth.microsoft matches Some(b) && a.resolved(
                "oauth.microsoft.client_secret"@,
                b,
                reads,
            ),
        }
    }

    /// Whether the first secret of this configuration that is refused, in the
    /// order admin token, payment, e-mail, Google, Microsoft, is refused with
    /// this error.
    pub open spec fn refused(self, reads: Seq<SecretFile>, e: ConfigError) -> bool {
        let api = resolved_optional(
            "api.admin_token"@,
            self.api.admin_token,
            self.api.admin_token_file,
            reads,
            Err(e),
        );
        let api_ok = accepted_optional(
            "api.admin_token"@,
            self.api.admin_token,
            self.api.admin_token_file,
            reads,
        );
        let stripe = self.billing.stripe matches Some(s) && s.refused(reads, e);
        let stripe_ok = self.billing.stripe matches Some(s) ==> s.accepted(reads);
        let resend = self.email.resend matches Some(s) && resolved_required(
            "email.resend.api_key"@,
            s.api_key,
            s.api_key_file,
            reads,
            Err(e),
        );
        let resend_ok = self.email.resend matches Some(s) ==> accepted_required(
            "email.resend.api_key"@,
            s.api_key,
            s.api_key_file,
            reads,
        );
        let google = self.oauth.google matches Some(s) && resolved_optional(
            "oauth.google.client_secret"@,
            s.client_secret,
            s.client_secret_file,
            reads,
            Err(e),
        );
        let google_ok = self.oauth.google matches Some(s) ==> accepted_optional(
            "oauth.google.client_secret"@,
            s.client_secret,
            s.client_secret_file,
            reads,
        );
        let microsoft = self.oauth.microsoft matches Some(s) && resolved_optional(
            "oauth.microsoft.client_secret"@,
            s.client_secret,
            s.client_secret_file,
            reads,
            Err(e),
        );
        ||| api
        ||| api_ok && stripe
        ||| api_ok && stripe_ok && resend
        ||| api_ok && stripe_ok && resend_ok && google
        ||| api_ok && stripe_ok && resend_ok && google_ok && microsoft
    }

    /// Resolves every secret that a file holds into its inline place, from
    /// what was read of the files. For each secret the inline value or the
    /// file is set, never both. A configuration that is refused is left as it
    /// was.
    pub fn resolve_secrets(&mut self, reads: &Vec<SecretFile>) -> (r: Result<(), ConfigError>)
        ensures
            match r {
                Ok(_) => old(self).resolved(*final(self), reads@),
                Err(e) => old(self).refused(reads@, e) && *final(self) == *old(self),
            },
    {
        let admin_token = match optional_from(
            "api.admin_token",
            &self.api.admin_token,
            &self.api.admin_token_file,
            reads,
        ) {
            Ok(secret) => secret,
            Err(e) => return Err(e),
        };
        let stripe = match &self.billing.stripe {
            None => None,
            Some(s) => match s.resolve(reads) {
                Ok(next) => Some(next),
                Err(e) => return Err(e),
            },
        };
        let resend = match &self.email.resend {
            None => None,
            Some(s) => match s.resolve(reads) {
                Ok(next) => Some(next),
                Err(e) => return Err(e),
            },
        };
        let google = match &self.oauth.google {
            None => None,
            Some(s) => match s.resolve("oauth.google.client_secret", reads) {
                Ok(next) => Some(next),
                Err(e) => return Err(e),
            },
        };
        let microsoft = match &self.oauth.microsoft {
            None => None,
            Some(s) => match s.resolve("oauth.microsoft.client_secret", reads) {
                Ok(next) => Some(next),
                Err(e) => return Err(e),
            },
        };
        self.api.admin_token = admin_token;
        self.api.admin_token_file = None;
        self.billing.stripe = stripe;
        self.email.resend = resend;
        self.oauth.google = google;
        self.oauth.microsoft = microsoft;
        Ok(())
    }
}

fn copy_pairs(pairs: &Vec<(String, String)>) -> (r: Vec<(String, String)>)
    ensures
        r@ == pairs@,
{
    let mut out: Vec<(String, String)> = Vec::new();
    let mut i: usize = 0;
    while i < pairs.len()
        invariant
            i <= pairs@.len(),
            out@ =~= pairs@.take(i as int),
        decreases pairs@.len() - i,
    {
        out.push((pairs[i].0.clone(), pairs[i].1.clone()));
        i += 1;
    }
    assert(out@ =~= pairs@);
    out
}

impl StripeConfig {
    pub open spec fn resolved(self, after: StripeConfig, reads: Seq<SecretFile>) -> bool {
        &&& after == (StripeConfig {
            secret_key: after.secret_key,
            secret_key_file: None,
            webhook_secret: after.webhook_secret,
            webhook_secret_file: None,
            prices: after.prices,
            ..self
        })
        &&& after.prices@ == self.prices@
        &&& resolved_required(
            "billing.stripe.secret_key"@,
            self.secret_key,
            self.secret_key_file,
            reads,
            Ok(after.secret_key),
        )
        &&& resolved_required(
            "billing.stripe.webhook_secret"@,
            self.webhook_secret,
            self.webhook_secret_file,
            reads,
            Ok(after.webhook_secret),
        )
    }

    /// Whether both secrets are resolved.
    pub open spec fn accepted(self, reads: Seq<SecretFile>) -> bool {
        &&& accepted_required(
            "billing.stripe.secret_key"@,
            self.secret_key,
            self.secret_key_file,
            reads,
        )
        &&& accepted_required(
            "billing.stripe.webhook_secret"@,
            self.webhook_secret,
            self.webhook_secret_file,
            reads,
        )
    }

    /// Whether the first of the two secrets that is refused is refused with
    /// this error.
    pub open spec fn refused(self, reads: Seq<SecretFile>, e: ConfigError) -> bool {
        ||| resolved_required(
            "billing.stripe.secret_key"@,
            self.secret_key,
            self.secret_key_file,
            reads,
            Err(e),
        )
        ||| accepted_required(
            "billing.stripe.secret_key"@,
            self.secret_key,
            self.secret_key_file,
            reads,
        ) && resolved_required(
            "billing.stripe.webhook_secret"@,
            self.webhook_secret,
            self.webhook_secret_file,
            reads,
            Err(e),
        )
    }

    fn resolve(&self, reads: &Vec<SecretFile>) -> (r: Result<StripeConfig, ConfigError>)
        ensures
            match r {
                Ok(after) => self.resolved(after, reads@),
                Err(e) => self.refused(reads@, e),
            },
    {
        let secret_key = match required_from(
            "billing.stripe.secret_key",
            &self.secret_key,
            &self.secret_key_file,
            reads,
        ) {
            Ok(secret) => secret,
            Err(e) => return Err(e),
        };
        let webhook_secret = match required_from(
            "billing.stripe.webhook_secret",
            &self.webhook_secret,
            &self.webhook_secret_file,
            reads,
        ) {
            Ok(secret) => secret,
            Err(e) => return Err(e),
        };
        Ok(
            StripeConfig {
                secret_key,
                secret_key_file: None,
                webhook_secret,
                webhook_secret_file: None,
                success_url: copy_text(&self.success_url),
                cancel_url: copy_text(&self.cancel_url),
                prices: copy_pairs(&self.prices),
            },
        )
    }
}

impl ResendConfig {
    pub open spec fn resolved(self, after: ResendConfig, reads: Seq<SecretFile>) -> bool {
        &&& after == (ResendConfig { api_key: after.api_key, api_key_file: None, ..self })
        &&& resolved_required(
            "email.resend.api_key"@,
            self.api_key,
            self.api_key_file,
            reads,
            Ok(after.api_key),
        )
    }

    fn resolve(&self, reads: &Vec<SecretFile>) -> (r: Result<ResendConfig, ConfigError>)
        ensures
            match r {
                Ok(after) => self.resolved(after, reads@),
                Err(e) => resolved_required(
                    "email.resend.api_key"@,
                    self.api_key,
                    self.api_key_file,
                    reads@,
                    Err(e),
                ),
            },
    {
        match required_from("email.resend.api_key", &self.api_key, &self.api_key_file, reads) {
            Ok(api_key) => Ok(
                ResendConfig { api_key, api_key_file: None, from: self.from.clone() },
            ),
            Err(e) => Err(e),
        }
    }
}

impl OauthClientConfig {
    pub open spec fn resolved(
        self,
        name: Seq<char>,
        after: OauthClientConfig,
        reads: Seq<SecretFile>,
    ) -> bool {
        &&& after == (OauthClientConfig {
            client_secret: after.client_secret,
            client_secret_file: None,
            ..self
        })
        &&& resolved_optional(
            name,
            self.client_secret,
            self.client_secret_file,
            reads,
            Ok(after.client_secret),
        )
    }

    fn resolve(&self, name: &str, reads: &Vec<SecretFile>) -> (r: Result<
        OauthClientConfig,
        ConfigError,
    >)
        ensures
            match r {
                Ok(after) => self.resolved(name@, after, reads@),
                Err(e) => resolved_optional(
                    name@,
                    self.client_secret,
                    self.client_secret_file,
                    reads@,
                    Err(e),
                ),
            },
    {
        match optional_from(name, &self.client_secret, &self.client_secret_file, reads) {
            Ok(client_secret) => Ok(
                OauthClientConfig {
                    client_id: self.client_id.clone(),
                    client_secret,
                    client_secret_file: None,
                },
            ),
            Err(e) => Err(e),
        }
    }
}

// --- laws of the secrets ---

impl Config {
    /// Whether two configurations say the same.
    pub open spec fn says_the_same(self, other: Config) -> bool {
        &&& other.server == self.server
        &&& other.api == self.api
        &&& other.oauth == self.oauth
        &&& other.email == self.email
        &&& match (self.billing.stripe, other.billing.stripe) {
            (None, None) => true,
            (Some(a), Some(b)) => {
                &&& b == (StripeConfig { prices: b.prices, ..a })
                &&& b.prices@ == a.prices@
            },
            _ => false,
        }
    }
}

/// A secret that a required one was resolved to is not empty.
proof fn lemma_required_is_there(
    name: Seq<char>,
    inline: String,
    path: Option<String>,
    reads: Seq<SecretFile>,
    secret: String,
)
    requires
        resolved_required(name, inline, path, reads, Ok(secret)),
    ensures
        secret@.len() > 0,
{
}

/// Once the secrets are resolved, resolving them again is not refused and
/// changes nothing, whatever is read of the files.
pub proof fn resolving_again_changes_nothing(
    config: Config,
    once: Config,
    reads: Seq<SecretFile>,
    again: Seq<SecretFile>,
)
    requires
        config.resolved(once, reads),
    ensures
        forall|e: ConfigError| !#[trigger] once.refused(again, e),
        forall|twice: Config| #[trigger]
            once.resolved(twice, again) ==> once.says_the_same(twice),
{
    if let (Some(a), Some(b)) = (config.billing.stripe, once.billing.stripe) {
        lemma_required_is_there(
            "billing.stripe.secret_key"@,
            a.secret_key,
            a.secret_key_file,
            reads,
            b.secret_key,
        );
        lemma_required_is_there(
            "billing.stripe.webhook_secret"@,
            a.webhook_secret,
            a.webhook_secret_file,
            reads,
            b.webhook_secret,
        );
    }
    if let (Some(a), Some(b)) = (config.email.resend, once.email.resend) {
        lemma_required_is_there(
            "email.resend.api_key"@,
            a.api_key,
            a.api_key_file,
            reads,
            b.api_key,
        );
    }
}

// --- passwords ---

/// Where a password is to be had.
#[derive(Debug)]
pub enum PasswordSource {
    /// It is here.
    Ready(String),
    /// A command prints it.
    Run(String),
}

impl PasswordConfig {
    /// Where the password is to be had: inline before a command.
    pub fn resolve(&self) -> (r: Result<PasswordSource, ConfigError>)
        ensures
            r == (match (self.raw, self.command) {
                (Some(raw), _) => Ok::<PasswordSource, ConfigError>(PasswordSource::Ready(raw)),
                (None, Some(command)) => Ok(PasswordSource::Run(command)),
                (None, None) => Err(ConfigError::NoPassword),
            }),
    {
        match &self.raw {
            Some(raw) => Ok(PasswordSource::Ready(raw.clone())),
            None => match &self.command {
                Some(command) => Ok(PasswordSource::Run(command.clone())),
                None => Err(ConfigError::NoPassword),
            },
        }
    }
}

/// `String::from_utf8`: the text whose UTF-8 bytes these are, where they are
/// UTF-8.
#[verifier::external_body]
fn text_of(bytes: Vec<u8>) -> (r: Option<String>)
    ensures
        r is Some <==> valid_utf8(bytes@),
        r matches Some(s) ==> utf8(s@) == bytes@,
{
    String::from_utf8(bytes).ok()
}

/// The password that a command printed: what it printed, without the
/// line ends behind it. Refused where the command failed or printed no text.
pub fn password_output(success: bool, status: &str, stdout: Vec<u8>) -> (r: Result<
    String,
    ConfigError,
>)
    ensures
        match r {
            Ok(password) => {
                &&& success
                &&& valid_utf8(stdout@)
                &&& exists|s: Seq<char>|
                    #[trigger] utf8(s) == stdout@ && password@ == trim_newlines_of(s)
            },
            Err(ConfigError::CommandFailed(why)) => !success && why@ == status@,
            Err(ConfigError::NotUtf8) => success && !valid_utf8(stdout@),
            Err(_) => false,
        },
{
    if !success {
        return Err(ConfigError::CommandFailed(status.to_owned()));
    }
    match text_of(stdout) {
        Some(printed) => {
            assert(utf8(printed@) == stdout@);
            Ok(trim_newlines(printed.as_str()))
        },
        None => Err(ConfigError::NotUtf8),
    }
}

// --- paths ---

/// Whether a path begins at the home directory: `~`, alone or before a slash.
pub open spec fn at_home(path: Seq<char>) -> bool {
    path.len() > 0 && path[0] == '~' && (path.len() == 1 || path[1] == '/')
}

/// A path with a leading tilde expanded, where there is a home directory.
pub open spec fn expanded(path: Seq<char>, home: Option<Seq<char>>) -> Seq<char> {
    match home {
        Some(h) => if at_home(path) {
            let rest = trim_start_char_of(path.skip(1), '/');
            if h.len() == 0 || h.last() == '/' {
                h + rest
            } else {
                h + seq!['/'] + rest
            }
        } else {
            path
        },
        None => path,
    }
}

/// Expands a leading tilde.
pub fn expand_tilde(path: &str, home: Option<&str>) -> (r: String)
    ensures
        r@ == expanded(path@, opt_str(home)),
{
    let v = chars_of(path);
    match home {
        None => path.to_owned(),
        Some(h) => {
            if v.len() > 0 && v[0] == '~' && (v.len() == 1 || v[1] == '/') {
                let below = string_between(&v, 1, v.len());
                assert(below@ =~= path@.skip(1));
                let rest = trim_start_char(below.as_str(), '/');
                let w = chars_of(h);
                let mut out = h.to_owned();
                if w.len() > 0 && w[w.len() - 1] != '/' {
                    out.push('/');
                    out.append(rest.as_str());
                    assert(out@ =~= h@ + seq!['/'] + rest@);
                } else {
                    out.append(rest.as_str());
                }
                out
            } else {
                path.to_owned()
            }
        },
    }
}

impl ServerConfig {
    /// The database, with a leading tilde expanded.
    pub fn db_path(&self, home: Option<&str>) -> (r: String)
        ensures
            r@ == expanded(self.db@, opt_str(home)),
    {
        expand_tilde(self.db.as_str(), home)
    }

    /// The key file, with a leading tilde expanded.
    pub fn age_key_path(&self, home: Option<&str>) -> (r: String)
        ensures
            r@ == expanded(self.age_key_file@, opt_str(home)),
    {
        expand_tilde(self.age_key_file.as_str(), home)
    }
}

/// The configuration file to read: the one named, else the one the
/// environment names, else `carillon.toml`.
pub fn config_path(explicit: Option<&str>, env: Option<&str>) -> (r: String)
    ensures
        r@ == (match (opt_str(explicit), opt_str(env)) {
            (Some(path), _) => path,
            (None, Some(path)) => path,
            (None, None) => "carillon.toml"@,
        }),
{
    match explicit {
        Some(path) => path.to_owned(),
        None => match env {
            Some(path) => path.to_owned(),
            None => "carillon.toml".to_owned(),
        },
    }
}

// --- defaults ---

pub fn default_db() -> (r: String)
    ensures
        r@ == "~/.local/share/carillon/carillon.db"@,
{
    "~/.local/share/carillon/carillon.db".to_owned()
}

pub fn default_age_key() -> (r: String)
    ensures
        r@ == "~/.local/share/carillon/age.key"@,
{
    "~/.local/share/carillon/age.key".to_owned()
}

pub fn default_max_handshakes() -> (r: usize)
    ensures
        r == 50,
{
    50
}

pub fn default_reconcile_secs() -> (r: u64)
    ensures
        r == 60,
{
    60
}

pub fn default_max_watches() -> (r: usize)
    ensures
        r == 25,
{
    25
}

pub fn default_carddav_poll_secs() -> (r: u64)
    ensures
        r == 300,
{
    300
}

pub fn default_listen() -> (r: String)
    ensures
        r@ == "127.0.0.1:3000"@,
{
    "127.0.0.1:3000".to_owned()
}

pub fn default_port() -> (r: u16)
    ensures
        r == 993,
{
    993
}

pub fn default_mailbox() -> (r: String)
    ensures
        r@ == "INBOX"@,
{
    "INBOX".to_owned()
}

pub fn default_true() -> (r: bool)
    ensures
        r,
{
    true
}

impl Default for ServerConfig {
    fn default() -> (r: Self)
        ensures
            r.db@ == "~/.local/share/carillon/carillon.db"@,
            r.age_key_file@ == "~/.local/share/carillon/age.key"@,
            r.max_concurrent_handshakes == 50,
            r.reconcile_interval_secs == 60,
            !r.allow_private_targets,
            r.max_watches_per_account == 25,
            r.carddav_poll_interval_secs == 300,
    {
        ServerConfig {
            db: default_db(),
            age_key_file: default_age_key(),
            max_concurrent_handshakes: default_max_handshakes(),
            reconcile_interval_secs: default_reconcile_secs(),
            allow_private_targets: false,
            max_watches_per_account: default_max_watches(),
            carddav_poll_interval_secs: default_carddav_poll_secs(),
        }
    }
}

impl Default for ApiConfig {
    fn default() -> (r: Self)
        ensures
            r.listen@ == "127.0.0.1:3000"@,
            r.ui_dir is None,
            r.cors_allow_origin is None,
            r.admin_token is None,
            r.admin_token_file is None,
            r.public_url is None,
            r.dashboard_url is None,
    {
        ApiConfig {
            listen: default_listen(),
            ui_dir: None,
            cors_allow_origin: None,
            admin_token: None,
            admin_token_file: None,
            public_url: None,
            dashboard_url: None,
        }
    }
}

// --- laws of secrets and paths ---

/// A secret in a file is what the file holds without the white space around it;
/// a file that could not be read, or that holds nothing else, is no secret.
pub proof fn secrets_in_files_are_trimmed(
    name: Seq<char>,
    file: SecretFile,
    r: Result<String, ConfigError>,
)
    requires
        file_secret(name, file, r),
    ensures
        r is Ok <==> (file.content matches Some(raw) && trim_of(raw@).len() > 0),
        r matches Ok(secret) ==> (file.content matches Some(raw) && secret@ == trim_of(raw@)),
        file.content is None ==> (r matches Err(ConfigError::Unreadable { name: n, path }) && n@
            == name && path@ == file.path@),
        (file.content matches Some(raw) && trim_of(raw@).len() == 0) ==> (r matches Err(
            ConfigError::Empty { name: n, path },
        ) && n@ == name && path@ == file.path@),
{
}

/// A secret is given inline or in a file, and never both; an optional one may be
/// missing, a required one may not.
pub proof fn secrets_are_given_once(
    name: Seq<char>,
    inline: Option<String>,
    required: String,
    file: Option<SecretFile>,
    r: Result<Option<String>, ConfigError>,
    q: Result<String, ConfigError>,
)
    requires
        optional_secret(name, inline, file, r),
        required_secret(name, required, file, q),
    ensures
        inline is Some && file is Some ==> (r matches Err(ConfigError::Both(n)) && n@ == name),
        inline is None && file is None ==> r == Ok::<Option<String>, ConfigError>(None),
        file is None ==> r == Ok::<Option<String>, ConfigError>(inline),
        (r matches Ok(Some(secret)) && inline is None) ==> (file matches Some(f)
            && f.content matches Some(raw) && r->Ok_0->Some_0@ == trim_of(raw@)),
        required@.len() > 0 && file is Some ==> (q matches Err(ConfigError::Both(n)) && n@ == name),
        required@.len() > 0 && file is None ==> q == Ok::<String, ConfigError>(required),
        required@.len() == 0 && file is None ==> (q matches Err(ConfigError::Required(n)) && n@
            == name),
        (q matches Ok(secret) && required@.len() == 0) ==> (file matches Some(f)
            && f.content matches Some(raw) && q->Ok_0@ == trim_of(raw@) && q->Ok_0@.len() > 0),
{
}

/// What is read of a path is what was read of the first file of that path.
pub proof fn files_are_read_by_their_path(reads: Seq<SecretFile>, path: Seq<char>, i: int)
    requires
        0 <= i <= reads.len(),
        forall|j: int| 0 <= j < i ==> (#[trigger] reads[j]).path@ != path,
        i < reads.len() ==> reads[i].path@ == path,
    ensures
        i < reads.len() ==> read_of(reads, path) == opt_text(reads[i].content),
        i == reads.len() ==> read_of(reads, path) is None,
    decreases i,
{
    if i > 0 {
        let rest = reads.drop_first();
        assert(reads[0].path@ != path);
        assert forall|j: int| 0 <= j < i - 1 implies (#[trigger] rest[j]).path@ != path by {
            assert(rest[j] == reads[j + 1]);
        }
        if i < reads.len() {
            assert(rest[i - 1] == reads[i]);
        }
        files_are_read_by_their_path(rest, path, i - 1);
    }
}

/// Whether a secret is what its file holds, without the white space around it.
pub open spec fn is_held(reads: Seq<SecretFile>, path: Option<String>, secret: String) -> bool {
    path matches Some(p) && read_of(reads, p@) matches Some(raw) && secret@ == trim_of(raw)
        && secret@.len() > 0
}

/// Once resolved, a configuration holds each secret itself and names no file for
/// it any more: one that was given inline stays, one in a file is what the file
/// holds, and everything else is as it was.
pub proof fn resolved_configuration_holds_its_secrets(
    config: Config,
    after: Config,
    reads: Seq<SecretFile>,
)
    requires
        config.resolved(after, reads),
    ensures
        after.server == config.server,
        after.api.listen == config.api.listen,
        after.api.public_url == config.api.public_url,
        after.api.dashboard_url == config.api.dashboard_url,
        after.api.cors_allow_origin == config.api.cors_allow_origin,
        after.api.admin_token_file is None,
        config.api.admin_token is Some ==> after.api.admin_token == config.api.admin_token,
        config.api.admin_token is None && config.api.admin_token_file is None
            ==> after.api.admin_token is None,
        (config.api.admin_token is None && config.api.admin_token_file matches Some(p)) ==> (
        after.api.admin_token matches Some(token) && read_of(
            reads,
            config.api.admin_token_file->0@,
        ) matches Some(raw) && token@ == trim_of(raw)),
        config.billing.stripe is Some <==> after.billing.stripe is Some,
        config.billing.stripe matches Some(a) ==> (after.billing.stripe matches Some(b)
            && b.success_url == a.success_url && b.cancel_url == a.cancel_url && b.prices@
            == a.prices@ && (a.secret_key@.len() > 0 ==> b.secret_key == a.secret_key) && (
        a.webhook_secret@.len() > 0 ==> b.webhook_secret == a.webhook_secret) && b.secret_key@.len()
            > 0 && b.webhook_secret@.len() > 0 && (a.secret_key@.len() == 0 ==> is_held(
            reads,
            a.secret_key_file,
            b.secret_key,
        )) && (a.webhook_secret@.len() == 0 ==> is_held(
            reads,
            a.webhook_secret_file,
            b.webhook_secret,
        ))),
        config.email.resend is Some <==> after.email.resend is Some,
        config.email.resend matches Some(a) ==> (after.email.resend matches Some(b) && b.from
            == a.from && (a.api_key@.len() > 0 ==> b.api_key == a.api_key) && (a.api_key@.len() == 0
            ==> is_held(reads, a.api_key_file, b.api_key)) && b.api_key@.len() > 0),
        config.oauth.google matches Some(a) ==> (after.oauth.google matches Some(b) && b.client_id
            == a.client_id && (a.client_secret is Some ==> b.client_secret == a.client_secret) && (
        a.client_secret is None ==> (match a.client_secret_file {
            Some(_) => b.client_secret is Some && is_held(
                reads,
                a.client_secret_file,
                b.client_secret->0,
            ),
            None => b.client_secret is None,
        }))),
        config.oauth.microsoft matches Some(a) ==> (after.oauth.microsoft matches Some(b)
            && b.client_id == a.client_id && (a.client_secret is Some ==> b.client_secret == a.client_secret) && (
        a.client_secret is None ==> (match a.client_secret_file {
            Some(_) => b.client_secret is Some && is_held(
                reads,
                a.client_secret_file,
                b.client_secret->0,
            ),
            None => b.client_secret is None,
        }))),
{
    if let (Some(a), Some(b)) = (config.billing.stripe, after.billing.stripe) {
        lemma_required_is_there(
            "billing.stripe.secret_key"@,
            a.secret_key,
            a.secret_key_file,
            reads,
            b.secret_key,
        );
        lemma_required_is_there(
            "billing.stripe.webhook_secret"@,
            a.webhook_secret,
            a.webhook_secret_file,
            reads,
            b.webhook_secret,
        );
    }
    if let (Some(a), Some(b)) = (config.email.resend, after.email.resend) {
        lemma_required_is_there(
            "email.resend.api_key"@,
            a.api_key,
            a.api_key_file,
            reads,
            b.api_key,
        );
    }
}

/// A path below the tilde lies below the home directory; any other path, and any
/// path where no home directory is known, is as it is.
pub proof fn tilde_is_the_home_directory(
    rest: Seq<char>,
    home: Seq<char>,
    path: Seq<char>,
)
    requires
        home.len() > 0,
        home.last() != '/',
        rest.len() > 0 ==> rest[0] != '/',
    ensures
        expanded(seq!['~', '/'] + rest, Some(home)) == home + seq!['/'] + rest,
        expanded(seq!['~'], Some(home)) == home + seq!['/'],
        expanded(path, None) == path,
        path.len() > 0 && path[0] != '~' ==> expanded(path, Some(home)) == path,
        path.len() > 1 && path[0] == '~' && path[1] != '/' ==> expanded(path, Some(home)) == path,
{
    let p = seq!['~', '/'] + rest;
    let below = p.skip(1);
    assert(below =~= seq!['/'] + rest);
    assert(below.drop_first() =~= rest);
    assert(trim_start_char_of(below, '/') == trim_start_char_of(rest, '/'));
    assert(trim_start_char_of(rest, '/') == rest);
    let t = seq!['~'];
    assert(t.skip(1) =~= Seq::empty());
    assert(trim_start_char_of(t.skip(1), '/') =~= Seq::empty());
    assert(home + seq!['/'] + Seq::<char>::empty() =~= home + seq!['/']);
}

/// Why a configuration is refused is told in words, with the name of the secret and its file.
pub proof fn refused_configurations_have_their_words(name: String, path: String, status: String)
    ensures
        ConfigError::Both(name).text() == name@ + ": set either the inline value or "@ + name@
                + "_file, not both"@,
        ConfigError::Required(name).text() == name@ + " is required: set it inline or via "@ + name@
                + "_file"@,
        (ConfigError::Unreadable { name, path }).text() == "Cannot read "@ + name@ + " from "@ + path@,
        (ConfigError::Empty { name, path }).text() == name@ + " file "@ + path@ + " is empty"@,
        ConfigError::NoPassword.text() == "Account password requires either raw or command"@,
        ConfigError::CommandFailed(status).text() == "Password command exited with "@ + status@,
        ConfigError::NotUtf8.text() == "Password command output is not valid UTF-8"@,
{
}

/// A secret that is given twice, a required one that is not given, and one whose
/// file cannot be read or is empty, keep a configuration from being resolved.
pub proof fn badly_given_secrets_are_refused(config: Config, after: Config, reads: Seq<SecretFile>)
    ensures
        config.api.admin_token is Some && config.api.admin_token_file is Some ==> !config.resolved(
            after,
            reads,
        ),
        (config.api.admin_token_file matches Some(p) && (read_of(reads, p@) is None || trim_of(
            read_of(reads, p@)->0,
        ).len() == 0)) ==> !config.resolved(after, reads),
        (config.billing.stripe matches Some(s) && ((s.secret_key@.len() > 0) == (s.secret_key_file
            is Some) || (s.webhook_secret@.len() > 0) == (s.webhook_secret_file is Some)))
            ==> !config.resolved(after, reads),
        (config.email.resend matches Some(s) && (s.api_key@.len() > 0) == (s.api_key_file is Some))
            ==> !config.resolved(after, reads),
        (config.oauth.google matches Some(s) && s.client_secret is Some && s.client_secret_file
            is Some) ==> !config.resolved(after, reads),
        (config.oauth.microsoft matches Some(s) && s.client_secret is Some && s.client_secret_file
            is Some) ==> !config.resolved(after, reads),
{
}

/// The administrator's token is looked at first: where it is badly given, that is
/// what a configuration is refused for, by name.
pub proof fn badly_given_administrator_is_told_first(
    config: Config,
    reads: Seq<SecretFile>,
    e: ConfigError,
)
    requires
        config.refused(reads, e),
    ensures
        config.api.admin_token is Some && config.api.admin_token_file is Some ==> (e matches
            ConfigError::Both(name) && name@ == "api.admin_token"@),
        (config.api.admin_token is None && config.api.admin_token_file is Some && read_of(
            reads,
            config.api.admin_token_file->0@,
        ) is None) ==> (e matches ConfigError::Unreadable { name, path } && name@
            == "api.admin_token"@ && path@ == config.api.admin_token_file->0@),
{
}

/// Every secret that is well given is accepted: a configuration is refused only
/// for one that is not.
pub proof fn well_given_configuration_is_not_refused(
    config: Config,
    reads: Seq<SecretFile>,
    e: ConfigError,
)
    requires
        config.api.admin_token_file is None,
        config.billing.stripe matches Some(s) ==> s.secret_key@.len() > 0 && s.secret_key_file
            is None && s.webhook_secret@.len() > 0 && s.webhook_secret_file is None,
        config.email.resend matches Some(s) ==> s.api_key@.len() > 0 && s.api_key_file is None,
        config.oauth.google matches Some(s) ==> s.client_secret_file is None,
        config.oauth.microsoft matches Some(s) ==> s.client_secret_file is None,
    ensures
        !config.refused(reads, e),
{
}

/// Where the administrator's token is well given, it is the payment's secrets that
/// are looked at next, the key before the webhook's, and each is told by name.
pub proof fn badly_given_payment_is_told_next(
    config: Config,
    reads: Seq<SecretFile>,
    e: ConfigError,
    s: StripeConfig,
)
    requires
        config.refused(reads, e),
        config.api.admin_token_file is None,
        config.billing.stripe == Some(s),
    ensures
        s.secret_key@.len() > 0 && s.secret_key_file is Some ==> (e matches ConfigError::Both(name)
            && name@ == "billing.stripe.secret_key"@),
        s.secret_key@.len() == 0 && s.secret_key_file is None ==> (e matches ConfigError::Required(
            name,
        ) && name@ == "billing.stripe.secret_key"@),
        (s.secret_key@.len() > 0 && s.secret_key_file is None && s.webhook_secret@.len() > 0
            && s.webhook_secret_file is Some) ==> (e matches ConfigError::Both(name) && name@
            == "billing.stripe.webhook_secret"@),
        (s.secret_key@.len() > 0 && s.secret_key_file is None && s.webhook_secret@.len() == 0
            && s.webhook_secret_file is None) ==> (e matches ConfigError::Required(name) && name@
            == "billing.stripe.webhook_secret"@),
{
    let none = None::<SecretFile>;
    assert(optional_secret("api.admin_token"@, config.api.admin_token, none, Ok(config.api.admin_token)));
    assert(resolved_optional(
        "api.admin_token"@,
        config.api.admin_token,
        config.api.admin_token_file,
        reads,
        Ok(config.api.admin_token),
    ));
}

/// Where those are well given, the mail's key is looked at, then the secrets of
/// Google's client and of Microsoft's, and each is told by name.
pub proof fn badly_given_services_are_told_last(
    config: Config,
    reads: Seq<SecretFile>,
    e: ConfigError,
)
    requires
        config.refused(reads, e),
        config.api.admin_token_file is None,
        config.billing.stripe is None,
    ensures
        (config.email.resend matches Some(s) && s.api_key@.len() > 0 && s.api_key_file is Some) ==> (
        e matches ConfigError::Both(name) && name@ == "email.resend.api_key"@),
        (config.email.resend matches Some(s) && s.api_key@.len() == 0 && s.api_key_file is None)
            ==> (e matches ConfigError::Required(name) && name@ == "email.resend.api_key"@),
        (config.email.resend is None && (config.oauth.google matches Some(s) && s.client_secret
            is Some && s.client_secret_file is Some)) ==> (e matches ConfigError::Both(name)
            && name@ == "oauth.google.client_secret"@),
        (config.email.resend is None && config.oauth.google is None && (
        config.oauth.microsoft matches Some(s) && s.client_secret is Some && s.client_secret_file
            is Some)) ==> (e matches ConfigError::Both(name) && name@
            == "oauth.microsoft.client_secret"@),
{
}

} // verus!
