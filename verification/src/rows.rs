//! The rows the store keeps, and the types handed out of it.

use crate::table::{copy_text, Row};
use vstd::prelude::*;

verus! {

/// A watched service: one mailbox folder or address book, with where to send
/// its signals.
#[derive(Debug)]
pub struct Watch {
    /// Watch identifier, and the `account` field of its events.
    pub id: String,
    /// IMAP server host; for an address book, the host that keys its identity.
    pub imap_host: String,
    /// IMAP server port.
    pub imap_port: u16,
    /// Login (authentication identity).
    pub login: String,
    /// Encrypted password; empty where the PIM account holds the credential.
    pub enc_password: String,
    /// Mailbox to watch.
    pub mailbox: String,
    /// Where signed events are posted.
    pub notify_url: String,
    /// Shared secret that signs deliveries.
    pub hmac_secret: String,
    /// The previous secret, while a rotation overlaps.
    pub hmac_secret_prev: Option<String>,
    /// Unix time at which the previous secret stops being signed with.
    pub hmac_secret_prev_expires: Option<i64>,
    /// The account the service is paid from.
    pub account_id: String,
    /// The provider domain the service is grouped by.
    pub provider: String,
    /// `password` or `oauth`.
    pub auth_kind: String,
    /// Paid-through time; `None` where never activated.
    pub watching_until: Option<i64>,
    /// Whether the next credit is drawn from the pool at expiry.
    pub auto_renew: bool,
    /// Whether the service is enabled (the user's pause toggle).
    pub active: bool,
    /// `imap` or `carddav`.
    pub source_kind: String,
    /// Address book URL; `None` for IMAP.
    pub carddav_url: Option<String>,
    /// Last address book checkpoint; `None` until the first poll.
    pub carddav_sync_token: Option<String>,
    /// Poll interval of this address book; `None` for the default.
    pub carddav_poll_secs: Option<i64>,
}

impl Clone for Watch {
    fn clone(&self) -> (r: Self)
        ensures
            r == *self,
    {
        Watch {
            id: self.id.clone(),
            imap_host: self.imap_host.clone(),
            imap_port: self.imap_port,
            login: self.login.clone(),
            enc_password: self.enc_password.clone(),
            mailbox: self.mailbox.clone(),
            notify_url: self.notify_url.clone(),
            hmac_secret: self.hmac_secret.clone(),
            hmac_secret_prev: copy_text(&self.hmac_secret_prev),
            hmac_secret_prev_expires: self.hmac_secret_prev_expires,
            account_id: self.account_id.clone(),
            provider: self.provider.clone(),
            auth_kind: self.auth_kind.clone(),
            watching_until: self.watching_until,
            auto_renew: self.auto_renew,
            active: self.active,
            source_kind: self.source_kind.clone(),
            carddav_url: copy_text(&self.carddav_url),
            carddav_sync_token: copy_text(&self.carddav_sync_token),
            carddav_poll_secs: self.carddav_poll_secs,
        }
    }
}

impl Row for Watch {
    fn copied(&self) -> (r: Self) {
        self.clone()
    }
}

/// A recorded delivery outcome.
#[derive(Debug)]
pub struct DeliveryRow {
    /// Owning watch id.
    pub account: String,
    /// Event kind.
    pub event: String,
    /// Affected UID.
    pub uid: u32,
    /// Whether the endpoint acknowledged (2xx).
    pub ok: bool,
    /// Final HTTP status, if any response was received.
    pub status: Option<u16>,
    /// Final error message, if the delivery failed.
    pub error: Option<String>,
    /// Number of attempts made.
    pub attempts: u32,
    /// Unix time of the final attempt.
    pub at: i64,
}

impl Clone for DeliveryRow {
    fn clone(&self) -> (r: Self)
        ensures
            r == *self,
    {
        DeliveryRow {
            account: self.account.clone(),
            event: self.event.clone(),
            uid: self.uid,
            ok: self.ok,
            status: self.status,
            error: copy_text(&self.error),
            attempts: self.attempts,
            at: self.at,
        }
    }
}

impl Row for DeliveryRow {
    fn copied(&self) -> (r: Self) {
        self.clone()
    }
}

/// An account: its e-mail identity and its credit pool.
#[derive(Debug)]
pub struct AccountRow {
    /// Account id.
    pub id: String,
    /// E-mail identity; `None` for an account without one.
    pub email: Option<String>,
    /// Credits left in the pool.
    pub credits: i64,
}

impl Clone for AccountRow {
    fn clone(&self) -> (r: Self)
        ensures
            r == *self,
    {
        AccountRow {
            id: self.id.clone(),
            email: copy_text(&self.email),
            credits: self.credits,
        }
    }
}

impl Row for AccountRow {
    fn copied(&self) -> (r: Self) {
        self.clone()
    }
}

/// An account as it is kept.
#[derive(Debug)]
pub struct AccountRecord {
    /// Account id.
    pub id: String,
    /// E-mail identity.
    pub email: Option<String>,
    /// Credits left in the pool.
    pub credits: i64,
    /// Whether the free credit was granted.
    pub free_credited: bool,
}

impl Clone for AccountRecord {
    fn clone(&self) -> (r: Self)
        ensures
            r == *self,
    {
        AccountRecord {
            id: self.id.clone(),
            email: copy_text(&self.email),
            credits: self.credits,
            free_credited: self.free_credited,
        }
    }
}

impl Row for AccountRecord {
    fn copied(&self) -> (r: Self) {
        self.clone()
    }
}

/// A PIM account: a proven connection of an identity over one protocol.
#[derive(Debug)]
pub struct MembershipRow {
    /// The identity.
    pub mailbox_key: String,
    /// `imap` or `carddav`.
    pub protocol: String,
    /// Login used to prove control.
    pub login: String,
    /// IMAP host, or the address book host.
    pub imap_host: String,
    /// Server port.
    pub imap_port: u16,
    /// Address book root; `None` for IMAP.
    pub base_url: Option<String>,
}

impl Clone for MembershipRow {
    fn clone(&self) -> (r: Self)
        ensures
            r == *self,
    {
        MembershipRow {
            mailbox_key: self.mailbox_key.clone(),
            protocol: self.protocol.clone(),
            login: self.login.clone(),
            imap_host: self.imap_host.clone(),
            imap_port: self.imap_port,
            base_url: copy_text(&self.base_url),
        }
    }
}

impl Row for MembershipRow {
    fn copied(&self) -> (r: Self) {
        self.clone()
    }
}

/// A PIM account as it is kept.
#[derive(Debug)]
pub struct MailboxRecord {
    /// The account that proved it.
    pub account_id: String,
    /// The connection.
    pub member: MembershipRow,
    /// When it was first declared.
    pub added_at: i64,
}

impl Clone for MailboxRecord {
    fn clone(&self) -> (r: Self)
        ensures
            r == *self,
    {
        MailboxRecord {
            account_id: self.account_id.clone(),
            member: self.member.clone(),
            added_at: self.added_at,
        }
    }
}

impl Row for MailboxRecord {
    fn copied(&self) -> (r: Self) {
        self.clone()
    }
}

/// A pending OAuth authorization, kept between its start and its callback.
#[derive(Debug)]
pub struct OauthSession {
    /// State echoed back on the callback.
    pub state: String,
    /// PKCE code verifier for the token exchange.
    pub verifier: String,
    /// Redirect URI the flow was started with.
    pub redirect_uri: String,
    /// Where the code is exchanged.
    pub token_endpoint: String,
    /// Client id.
    pub client_id: String,
    /// Encrypted client secret, if there is one.
    pub enc_client_secret: Option<String>,
    /// Resource indicator, if the provider needs one.
    pub resource: Option<String>,
    /// Scope requested.
    pub scope: Option<String>,
    /// The account to join, if the flow carried one.
    pub account_id: Option<String>,
    /// Login of the mailbox.
    pub login: String,
    /// Host of the mailbox.
    pub imap_host: String,
    /// Port of the mailbox.
    pub imap_port: u16,
    /// Folder to watch.
    pub mailbox: String,
    /// `imap` or `carddav`.
    pub source_kind: String,
    /// Address book root; `None` for IMAP.
    pub carddav_url: Option<String>,
}

impl Clone for OauthSession {
    fn clone(&self) -> (r: Self)
        ensures
            r == *self,
    {
        OauthSession {
            state: self.state.clone(),
            verifier: self.verifier.clone(),
            redirect_uri: self.redirect_uri.clone(),
            token_endpoint: self.token_endpoint.clone(),
            client_id: self.client_id.clone(),
            enc_client_secret: copy_text(&self.enc_client_secret),
            resource: copy_text(&self.resource),
            scope: copy_text(&self.scope),
            account_id: copy_text(&self.account_id),
            login: self.login.clone(),
            imap_host: self.imap_host.clone(),
            imap_port: self.imap_port,
            mailbox: self.mailbox.clone(),
            source_kind: self.source_kind.clone(),
            carddav_url: copy_text(&self.carddav_url),
        }
    }
}

impl Row for OauthSession {
    fn copied(&self) -> (r: Self) {
        self.clone()
    }
}

/// A pending OAuth authorization as it is kept.
#[derive(Debug)]
pub struct OauthSessionRecord {
    /// The authorization.
    pub session: OauthSession,
    /// When it was started.
    pub created_at: i64,
}

impl Clone for OauthSessionRecord {
    fn clone(&self) -> (r: Self)
        ensures
            r == *self,
    {
        OauthSessionRecord {
            session: self.session.clone(),
            created_at: self.created_at,
        }
    }
}

impl Row for OauthSessionRecord {
    fn copied(&self) -> (r: Self) {
        self.clone()
    }
}

/// The OAuth credential of a proven mailbox.
#[derive(Debug)]
pub struct OauthCredential {
    /// The account.
    pub account_id: String,
    /// The identity.
    pub mailbox_key: String,
    /// Encrypted refresh token.
    pub enc_refresh_token: String,
    /// Where tokens are refreshed.
    pub token_endpoint: String,
    /// Client id.
    pub client_id: String,
    /// Encrypted client secret, if there is one.
    pub enc_client_secret: Option<String>,
    /// Resource indicator, if the provider needs one.
    pub resource: Option<String>,
    /// Scope granted.
    pub scope: Option<String>,
}

impl Clone for OauthCredential {
    fn clone(&self) -> (r: Self)
        ensures
            r == *self,
    {
        OauthCredential {
            account_id: self.account_id.clone(),
            mailbox_key: self.mailbox_key.clone(),
            enc_refresh_token: self.enc_refresh_token.clone(),
            token_endpoint: self.token_endpoint.clone(),
            client_id: self.client_id.clone(),
            enc_client_secret: copy_text(&self.enc_client_secret),
            resource: copy_text(&self.resource),
            scope: copy_text(&self.scope),
        }
    }
}

impl Row for OauthCredential {
    fn copied(&self) -> (r: Self) {
        self.clone()
    }
}

/// An OAuth credential as it is kept.
#[derive(Debug)]
pub struct OauthCredentialRecord {
    /// The credential.
    pub cred: OauthCredential,
    /// When it was last written.
    pub updated_at: i64,
}

impl Clone for OauthCredentialRecord {
    fn clone(&self) -> (r: Self)
        ensures
            r == *self,
    {
        OauthCredentialRecord {
            cred: self.cred.clone(),
            updated_at: self.updated_at,
        }
    }
}

impl Row for OauthCredentialRecord {
    fn copied(&self) -> (r: Self) {
        self.clone()
    }
}

/// The password credential of a proven identity.
#[derive(Debug)]
pub struct PasswordRecord {
    /// The account.
    pub account_id: String,
    /// The identity.
    pub mailbox_key: String,
    /// Encrypted password.
    pub enc_password: String,
    /// When it was last written.
    pub updated_at: i64,
}

impl Clone for PasswordRecord {
    fn clone(&self) -> (r: Self)
        ensures
            r == *self,
    {
        PasswordRecord {
            account_id: self.account_id.clone(),
            mailbox_key: self.mailbox_key.clone(),
            enc_password: self.enc_password.clone(),
            updated_at: self.updated_at,
        }
    }
}

impl Row for PasswordRecord {
    fn copied(&self) -> (r: Self) {
        self.clone()
    }
}

/// A claimed free trial.
#[derive(Debug)]
pub struct ClaimRecord {
    /// Account and provider, joined by `|`.
    pub key: String,
    /// The account.
    pub account_id: String,
    /// When it was claimed.
    pub claimed_at: i64,
}

impl Clone for ClaimRecord {
    fn clone(&self) -> (r: Self)
        ensures
            r == *self,
    {
        ClaimRecord {
            key: self.key.clone(),
            account_id: self.account_id.clone(),
            claimed_at: self.claimed_at,
        }
    }
}

impl Row for ClaimRecord {
    fn copied(&self) -> (r: Self) {
        self.clone()
    }
}

/// A pending sign-in link, kept by the hash of its token.
#[derive(Debug)]
pub struct MagicLinkRecord {
    /// Hash of the token.
    pub token_hash: String,
    /// The address it was sent to.
    pub email: String,
    /// When it was made.
    pub created_at: i64,
}

impl Clone for MagicLinkRecord {
    fn clone(&self) -> (r: Self)
        ensures
            r == *self,
    {
        MagicLinkRecord {
            token_hash: self.token_hash.clone(),
            email: self.email.clone(),
            created_at: self.created_at,
        }
    }
}

impl Row for MagicLinkRecord {
    fn copied(&self) -> (r: Self) {
        self.clone()
    }
}

/// A capability link, kept by the hash of its token.
#[derive(Debug)]
pub struct CapabilityRecord {
    /// Hash of the token.
    pub token_hash: String,
    /// The account it opens.
    pub account_id: String,
    /// When it was issued.
    pub created_at: i64,
    /// When it stops working; `None` for never.
    pub expires_at: Option<i64>,
}

impl Clone for CapabilityRecord {
    fn clone(&self) -> (r: Self)
        ensures
            r == *self,
    {
        CapabilityRecord {
            token_hash: self.token_hash.clone(),
            account_id: self.account_id.clone(),
            created_at: self.created_at,
            expires_at: self.expires_at,
        }
    }
}

impl Row for CapabilityRecord {
    fn copied(&self) -> (r: Self) {
        self.clone()
    }
}

/// A pending purchase.
#[derive(Debug)]
pub struct CheckoutRecord {
    /// Our reference for it.
    pub session_id: String,
    /// The account to credit.
    pub account_id: String,
    /// How many credits it buys.
    pub quantity: i64,
    /// Whether the credits were added.
    pub fulfilled: bool,
    /// When it was started.
    pub created_at: i64,
}

impl Clone for CheckoutRecord {
    fn clone(&self) -> (r: Self)
        ensures
            r == *self,
    {
        CheckoutRecord {
            session_id: self.session_id.clone(),
            account_id: self.account_id.clone(),
            quantity: self.quantity,
            fulfilled: self.fulfilled,
            created_at: self.created_at,
        }
    }
}

impl Row for CheckoutRecord {
    fn copied(&self) -> (r: Self) {
        self.clone()
    }
}

} // verus!
