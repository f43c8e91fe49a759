//! Signing up, logging in and out, and looking accounts up.
use vstd::prelude::*;
use crate::auth::{auth_outcome, authenticate, bearer_token, get_auth_token, opt_view, AuthGate};
use crate::clock::{new_id, current_time};
use crate::errors::{auth_error, ApiError};
use crate::responses::{TokenResponse, UserResponse};
use crate::store::{Account, AccountView, Store, StoreView, TokenView};
use crate::tokens::{is_token_char, issue, issued, random_alphanumeric, revoke, revoked, TOKEN_LENGTH};

verus! {

/// What signing up `name` with account id `id` and first token `token` gives.
pub open spec fn signup_outcome(v: StoreView, name: Seq<char>, id: u128, token: Seq<char>) -> Result<
    (),
    ApiError,
> {
    if v.has_username(name) {
        Err(ApiError::UsernameClaimed)
    } else if v.has_account(id) || v.has_token(token) {
        Err(ApiError::Internal)
    } else {
        Ok(())
    }
}

/// `after` is `before` with the account `id` named `name` and one session for it
/// holding `token`.
pub open spec fn signed_up(
    before: StoreView,
    after: StoreView,
    name: Seq<char>,
    hash: Seq<char>,
    id: u128,
    token: Seq<char>,
) -> bool {
    exists|token_id: u128, created_at: i64|
        after == (StoreView {
            accounts: before.accounts.push(AccountView { id, username: name, password_hash: hash }),
            tokens: before.tokens.push(
                TokenView { id: token_id, account_id: id, token, created_at },
            ),
            ..before
        })
}

/// Whether an account already has the username `name`.
pub fn username_already_claimed(store: &Store, name: &str) -> (r: bool)
    requires
        store@.wf(),
    ensures
        r == store@.has_username(name@),
{
    store.account_by_name(name).is_some()
}

/// Creates the account `id` named `username` with the stored password digest
/// `password_hash`, and its first session holding `token`. Fails with
/// `UsernameClaimed` when the name is taken and with `Internal` when the id or
/// the token is already in use; on failure nothing changes.
pub fn create_account(
    store: &mut Store,
    username: &str,
    password_hash: String,
    id: u128,
    token: String,
    token_id: u128,
    now: i64,
) -> (r: Result<TokenResponse, ApiError>)
    requires
        old(store)@.wf(),
    ensures
        final(store)@.wf(),
        match signup_outcome(old(store)@, username@, id, token@) {
            Err(e) => r == Err::<TokenResponse, ApiError>(e) && final(store)@ == old(store)@,
            Ok(()) => r matches Ok(t) && t.token@ == token@ && final(store)@ == (StoreView {
                accounts: old(store)@.accounts.push(
                    AccountView { id, username: username@, password_hash: password_hash@ },
                ),
                tokens: old(store)@.tokens.push(
                    TokenView { id: token_id, account_id: id, token: token@, created_at: now },
                ),
                ..old(store)@
            }),
        },
{
    if store.account_by_name(username).is_some() {
        return Err(ApiError::UsernameClaimed);
    }
    if store.has_account(id) || store.has_token(token.as_str()) {
        return Err(ApiError::Internal);
    }
    let response = TokenResponse::new(token.as_str());
    let ghost v0 = store@;
    let added = store.insert_account(id, username.to_owned(), password_hash);
    assert(added is Ok);
    let ghost v1 = store@;
    assert(!v1.has_token(token@)) by {
        assert(v1.tokens == v0.tokens);
    }
    assert(v1.has_account(id)) by {
        assert(v1.accounts[v1.accounts.len() - 1].id == id);
    }
    let given = store.insert_token(token_id, id, token, now);
    assert(given is Ok);
    Ok(response)
}

/// Signs up `username` with the stored password digest `password_hash` and
/// returns the token of its first session. The account id and the token are
/// drawn at random. Fails with `UsernameClaimed` exactly when the name is taken.
pub fn create_user(store: &mut Store, username: &str, password_hash: String) -> (r: Result<
    TokenResponse,
    ApiError,
>)
    requires
        old(store)@.wf(),
    ensures
        final(store)@.wf(),
        r == Err::<TokenResponse, ApiError>(ApiError::UsernameClaimed) <==> old(store)@.has_username(
            username@,
        ),
        old(store)@.accounts.len() == 0 ==> r is Ok,
        r is Err ==> final(store)@ == old(store)@,
        r matches Ok(t) ==> {
            &&& exists|id: u128|
                signed_up(old(store)@, final(store)@, username@, password_hash@, id, t.token@)
            &&& t.token@.len() == TOKEN_LENGTH
            &&& forall|i: int| 0 <= i < t.token@.len() ==> is_token_char(#[trigger] t.token@[i])
        },
{
    let token = random_alphanumeric(TOKEN_LENGTH);
    let ghost t = token@;
    let id = new_id();
    let token_id = new_id();
    let now = current_time();
    proof {
        if old(store)@.accounts.len() == 0 {
            lemma_no_accounts_no_tokens(old(store)@);
        }
    }
    let r = create_account(store, username, password_hash, id, token, token_id, now);
    proof {
        if r is Ok {
            assert(signed_up(old(store)@, final(store)@, username@, password_hash@, id, t));
        }
    }
    r
}

/// A store without accounts holds no session either.
proof fn lemma_no_accounts_no_tokens(v: StoreView)
    requires
        v.wf(),
        v.accounts.len() == 0,
    ensures
        v.tokens.len() == 0,
        forall|t: Seq<char>| !#[trigger] v.has_token(t),
        forall|name: Seq<char>| !#[trigger] v.has_username(name),
        forall|id: u128| !#[trigger] v.has_account(id),
{
    if v.tokens.len() > 0 {
        assert(v.has_account(v.tokens[0].account_id));
    }
}

/// The account to log in as: fails with `UserNotFound` when no account has
/// the name. The caller checks the password against the returned digest.
pub fn login_account(store: &Store, username: &str) -> (r: Result<Account, ApiError>)
    requires
        store@.wf(),
    ensures
        match store@.account_by_name(username@) {
            None => r == Err::<Account, ApiError>(ApiError::UserNotFound),
            Some(a) => r matches Ok(acct) && acct@ == a,
        },
{
    match store.account_by_name(username) {
        Some(a) => Ok(a),
        None => Err(ApiError::UserNotFound),
    }
}

/// Finishes a login once the password was checked: a wrong password fails with
/// `WrongPassword`, a right one opens a new session for `account_id`.
pub fn complete_login(store: &mut Store, account_id: u128, password_valid: bool) -> (r: Result<
    TokenResponse,
    ApiError,
>)
    requires
        old(store)@.wf(),
    ensures
        final(store)@.wf(),
        !password_valid ==> r == Err::<TokenResponse, ApiError>(ApiError::WrongPassword),
        password_valid && !old(store)@.has_account(account_id) ==> r == Err::<
            TokenResponse,
            ApiError,
        >(ApiError::Internal),
        password_valid && old(store)@.has_account(account_id) && old(store)@.tokens.len() == 0
            ==> r is Ok,
        r is Err ==> final(store)@ == old(store)@,
        r matches Ok(t) ==> {
            &&& password_valid
            &&& issued(old(store)@, final(store)@, account_id, t.token@)
            &&& t.token@.len() == TOKEN_LENGTH
            &&& forall|i: int| 0 <= i < t.token@.len() ==> is_token_char(#[trigger] t.token@[i])
        },
{
    if !password_valid {
        return Err(ApiError::WrongPassword);
    }
    match issue(store, account_id) {
        Ok(t) => Ok(TokenResponse { token: t }),
        Err(_) => Err(ApiError::Internal),
    }
}

/// The account that the `Authorization` header identifies.
pub fn me(gate: &AuthGate, store: &Store, header: Option<&str>) -> (r: Result<UserResponse, ApiError>)
    requires
        gate.wf(),
        store@.wf(),
    ensures
        match auth_outcome(store@, opt_view(header)) {
            Err(e) => r == Err::<UserResponse, ApiError>(auth_error(e)),
            Ok(a) => r matches Ok(u) && u.id == a.id && u.username@ == a.username,
        },
{
    match authenticate(gate, store, header) {
        Ok(u) => Ok(u),
        Err(e) => Err(ApiError::from_auth(e)),
    }
}

/// Ends the session whose token the `Authorization` header carries.
pub fn logout(gate: &AuthGate, store: &mut Store, header: Option<&str>) -> (r: Result<(), ApiError>)
    requires
        gate.wf(),
        old(store)@.wf(),
    ensures
        final(store)@.wf(),
        match auth_outcome(old(store)@, opt_view(header)) {
            Err(e) => r == Err::<(), ApiError>(auth_error(e)) && final(store)@ == old(store)@,
            Ok(a) => r is Ok && revoked(
                old(store)@,
                final(store)@,
                bearer_token(opt_view(header)->Some_0)->Some_0,
            ),
        },
{
    let who = authenticate(gate, store, header);
    match who {
        Err(e) => Err(ApiError::from_auth(e)),
        Ok(_) => {
            match header {
                Some(h) => match get_auth_token(gate, h) {
                    Some(t) => {
                        revoke(store, t.as_str());
                        Ok(())
                    },
                    None => Err(ApiError::MalformedAuthHeader),
                },
                None => Err(ApiError::MissingAuthHeader),
            }
        },
    }
}

/// The account named `username`.
pub fn get_user(store: &Store, username: &str) -> (r: Result<UserResponse, ApiError>)
    requires
        store@.wf(),
    ensures
        match store@.account_by_name(username@) {
            None => r == Err::<UserResponse, ApiError>(ApiError::UserNotFound),
            Some(a) => r matches Ok(u) && u.id == a.id && u.username@ == a.username,
        },
{
    match store.account_by_name(username) {
        Some(a) => Ok(UserResponse { id: a.id, username: a.username }),
        None => Err(ApiError::UserNotFound),
    }
}

/// Usernames are unique: once `name` has signed up, the name is taken, so
/// signing it up again (`create_user` or `create_account`) fails with
/// `UsernameClaimed` (status 422), whatever id and token are drawn; the first
/// sign-up succeeds when the name, the id and the token are all unused.
pub proof fn lemma_username_unique(
    v0: StoreView,
    v1: StoreView,
    name: Seq<char>,
    hash: Seq<char>,
    id: u128,
    token: Seq<char>,
    id2: u128,
    token2: Seq<char>,
)
    requires
        signed_up(v0, v1, name, hash, id, token),
    ensures
        !v0.has_username(name) && !v0.has_account(id) && !v0.has_token(token) ==> signup_outcome(
            v0,
            name,
            id,
            token,
        ) == Ok::<(), ApiError>(()),
        v1.has_username(name),
        signup_outcome(v1, name, id2, token2) == Err::<(), ApiError>(ApiError::UsernameClaimed),
        crate::errors::status_of(ApiError::UsernameClaimed) == 422,
{
    let last = v1.accounts.len() - 1;
    assert(v1.accounts[last].username == name);
}

} // verus!
