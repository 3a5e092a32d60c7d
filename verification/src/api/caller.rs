//! Who makes a request.

use crate::api::reply::ApiError;
use crate::digest::{token_matches, token_hash_of};
use crate::store::Store;
use crate::table::{opt_str, opt_text};
use crate::text::{same, stands_at, strip_prefix, trim, trim_of};
use crate::util::now_secs;
use vstd::prelude::*;

verus! {

/// Who makes a request.
#[derive(Debug)]
pub enum Caller {
    /// Whoever runs the server: sees and touches every account.
    Admin,
    /// An account, by its capability link: sees and touches its own.
    Account(String),
}

impl Caller {
    pub open spec fn account(self) -> Option<Seq<char>> {
        match self {
            Caller::Admin => None,
            Caller::Account(id) => Some(id@),
        }
    }

    /// The account that a request is held to, if it is held to one.
    pub fn scope(&self) -> (r: Option<String>)
        ensures
            opt_text(r) == self.account(),
    {
        match self {
            Caller::Admin => None,
            Caller::Account(id) => Some(id.clone()),
        }
    }

    /// Whether the caller may touch what an account owns.
    pub open spec fn may(self, account_id: Seq<char>) -> bool {
        self.account() matches Some(id) ==> id == account_id
    }

    /// Whether the caller may touch what an account owns.
    pub fn owns(&self, account_id: &str) -> (r: bool)
        ensures
            r == self.may(account_id@),
    {
        match self {
            Caller::Admin => true,
            Caller::Account(id) => same(id.as_str(), account_id),
        }
    }
}

/// The token of an `Authorization` header.
pub open spec fn bearer_of(header: Option<Seq<char>>) -> Option<Seq<char>> {
    match header {
        Some(h) => if stands_at(h, "Bearer "@, 0) {
            Some(trim_of(h.skip("Bearer "@.len() as int)))
        } else {
            None
        },
        None => None,
    }
}

/// The token of an `Authorization` header.
pub fn bearer(header: Option<&str>) -> (r: Option<String>)
    ensures
        opt_text(r) == bearer_of(opt_str(header)),
{
    match header {
        Some(h) => match strip_prefix(h, "Bearer ") {
            Some(rest) => Some(trim(rest.as_str())),
            None => None,
        },
        None => None,
    }
}

/// Whether a token is the master token.
pub open spec fn is_master(admin: Option<Seq<char>>, token: Seq<char>) -> bool {
    admin matches Some(a) && crate::digest::sha256(crate::digest::utf8(token))
        == crate::digest::sha256(crate::digest::utf8(a))
}

/// Whether this is who makes a request, at a time.
pub open spec fn identifies(
    store: Store,
    header: Option<Seq<char>>,
    admin: Option<Seq<char>>,
    now: int,
    r: Result<Caller, ApiError>,
) -> bool {
    match bearer_of(header) {
        None => r == Err::<Caller, ApiError>(ApiError::Unauthorized),
        Some(token) => if is_master(admin, token) {
            r == Ok::<Caller, ApiError>(Caller::Admin)
        } else {
            r == (match store.opens(token, now) {
                Some(id) => Ok::<Caller, ApiError>(Caller::Account(id)),
                None => Err(ApiError::Unauthorized),
            })
        },
    }
}

/// Who makes a request, at a time: the master token is the administrator's, a
/// capability link an account's, and anything else is refused.
pub fn authenticate_at(
    store: &Store,
    header: Option<&str>,
    admin_token: &Option<String>,
    now: i64,
) -> (r: Result<Caller, ApiError>)
    ensures
        identifies(*store, opt_str(header), opt_text(*admin_token), now as int, r),
{
    let token = match bearer(header) {
        Some(token) => token,
        None => return Err(ApiError::Unauthorized),
    };
    if let Some(admin) = admin_token {
        if token_matches(token.as_str(), admin.as_str()) {
            return Ok(Caller::Admin);
        }
    }
    match store.resolve_capability_at(token.as_str(), now) {
        Some(id) => Ok(Caller::Account(id)),
        None => Err(ApiError::Unauthorized),
    }
}

/// Who makes a request, now.
pub fn authenticate(store: &Store, header: Option<&str>, admin_token: &Option<String>) -> (r: Result<
    Caller,
    ApiError,
>)
    ensures
        exists|now: i64| #[trigger]
            identifies(*store, opt_str(header), opt_text(*admin_token), now as int, r),
{
    let now: i64 = now_secs();
    let r = authenticate_at(store, header, admin_token, now);
    assert(identifies(*store, opt_str(header), opt_text(*admin_token), now as int, r));
    r
}

/// The account that a header's capability link opens at a time.
pub open spec fn link_account(store: Store, header: Option<Seq<char>>, now: int) -> Option<String> {
    match bearer_of(header) {
        Some(token) => store.opens(token, now),
        None => None,
    }
}

/// The account of a request that only an account can make, at a time.
pub fn capability_account_at(store: &Store, header: Option<&str>, now: i64) -> (r: Result<
    String,
    ApiError,
>)
    ensures
        r == (match link_account(*store, opt_str(header), now as int) {
            Some(id) => Ok::<String, ApiError>(id),
            None => Err(ApiError::Unauthorized),
        }),
{
    let token = match bearer(header) {
        Some(token) => token,
        None => return Err(ApiError::Unauthorized),
    };
    match store.resolve_capability_at(token.as_str(), now) {
        Some(id) => Ok(id),
        None => Err(ApiError::Unauthorized),
    }
}

/// The account of a request that only an account can make, now.
pub fn capability_account(store: &Store, header: Option<&str>) -> (r: Result<String, ApiError>)
    ensures
        exists|now: i64|
            r == (match #[trigger] link_account(*store, opt_str(header), now as int) {
                Some(id) => Ok::<String, ApiError>(id),
                None => Err(ApiError::Unauthorized),
            }),
{
    let now: i64 = now_secs();
    capability_account_at(store, header, now)
}

/// Revokes the capability link of a request; whether there was one.
pub fn signout(store: &mut Store, header: Option<&str>) -> (r: Result<bool, ApiError>)
    ensures
        old(store).wf() ==> final(store).wf(),
        match bearer_of(opt_str(header)) {
            None => r == Err::<bool, ApiError>(ApiError::Unauthorized) && *final(store) == *old(
                store,
            ),
            Some(token) => {
                &&& r == Ok::<bool, ApiError>(
                    crate::table::any_where(
                        old(store).capabilities@,
                        crate::store::capability_is(token_hash_of(token)),
                    ),
                )
                &&& final(store).capabilities@ == crate::table::delete_where(
                    old(store).capabilities@,
                    crate::store::capability_is(token_hash_of(token)),
                )
                &&& *final(store) == (Store {
                    capabilities: final(store).capabilities,
                    ..*old(store)
                })
            },
        },
{
    match bearer(header) {
        Some(token) => Ok(store.revoke_capability(token.as_str())),
        None => Err(ApiError::Unauthorized),
    }
}

/// A request without a capability link, and with no master token, is refused
/// whatever the store holds.
pub proof fn nothing_is_open_to_everyone(
    store: Store,
    admin: Option<Seq<char>>,
    now: int,
    r: Result<Caller, ApiError>,
)
    requires
        identifies(store, None, admin, now, r),
    ensures
        r == Err::<Caller, ApiError>(ApiError::Unauthorized),
{
}

/// The administrator may touch everything, and an account what is its own.
pub proof fn accounts_touch_their_own(id: String, account: Seq<char>)
    ensures
        Caller::Admin.may(account),
        Caller::Account(id).may(account) <==> id@ == account,
        Caller::Admin.account() is None,
        Caller::Account(id).account() == Some(id@),
{
}

/// A token stands behind the word `Bearer` and a space, and may have white space
/// around it; a header that begins otherwise has none.
pub proof fn token_stands_behind_bearer(token: Seq<char>, header: Seq<char>)
    ensures
        bearer_of(Some("Bearer "@ + token)) == Some(trim_of(token)),
        bearer_of(None) is None,
        header.len() < 7 || header.take(7) != seq!['B', 'e', 'a', 'r', 'e', 'r', ' '] ==> bearer_of(
            Some(header),
        ) is None,
        header.len() >= 7 && header.take(7) == seq!['B', 'e', 'a', 'r', 'e', 'r', ' '] ==> bearer_of(
            Some(header),
        ) == Some(trim_of(header.skip(7))),
{
    reveal_strlit("Bearer ");
    assert("Bearer "@.len() == 7);
    assert("Bearer "@ =~= seq!['B', 'e', 'a', 'r', 'e', 'r', ' ']);
    let h = "Bearer "@ + token;
    assert(h.subrange(0, 7) =~= "Bearer "@);
    assert(h.skip(7) =~= token);
    if header.len() >= 7 {
        assert(header.subrange(0, 7) =~= header.take(7));
    }
}

/// Whoever presents the master token is the administrator, and nobody else is,
/// but for a token with the same digest; without a master token there is no
/// administrator.
pub proof fn master_token_is_the_administrators(
    store: Store,
    token: Seq<char>,
    admin: Option<Seq<char>>,
    now: int,
    r: Result<Caller, ApiError>,
)
    requires
        identifies(store, Some("Bearer "@ + token), admin, now, r),
    ensures
        admin == Some(trim_of(token)) ==> r == Ok::<Caller, ApiError>(Caller::Admin),
        admin is None ==> r != Ok::<Caller, ApiError>(Caller::Admin),
        (r == Ok::<Caller, ApiError>(Caller::Admin) && admin is Some) ==> crate::digest::sha256(
            crate::digest::utf8(trim_of(token)),
        ) == crate::digest::sha256(crate::digest::utf8(admin->0)),
        (r matches Ok(Caller::Account(id))) ==> store.opens(trim_of(token), now) == Some(
            r->Ok_0->Account_0,
        ),
        (admin is None && store.opens(trim_of(token), now) is None) ==> r == Err::<Caller, ApiError>(
            ApiError::Unauthorized,
        ),
        (admin is None && store.opens(trim_of(token), now) is Some) ==> r == Ok::<Caller, ApiError>(
            Caller::Account(store.opens(trim_of(token), now)->0),
        ),
{
    token_stands_behind_bearer(token, "Bearer "@ + token);
}

/// A request that only an account can make is the account's whose link it
/// presents; the master token opens no account.
pub proof fn links_lead_to_their_account(store: Store, token: Seq<char>, now: int)
    ensures
        link_account(store, Some("Bearer "@ + token), now) == store.opens(trim_of(token), now),
        link_account(store, None, now) is None,
{
    token_stands_behind_bearer(token, "Bearer "@ + token);
}

} // verus!
