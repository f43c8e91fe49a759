//! Turning an `Authorization` header into the account it identifies.
use vstd::prelude::*;
use crate::responses::UserResponse;
use crate::store::{AccountView, Store, StoreView, TokenView};
use crate::tokens::{issued, revoked};
use regex::Regex;

verus! {

#[verifier::external_type_specification]
#[verifier::external_body]
pub struct ExRegex(Regex);

/// The pattern a compiled regular expression was built from.
pub uninterp spec fn pattern_of(re: Regex) -> Seq<char>;

/// The shape of a valid header value: the exact prefix `Bearer ` and the token.
pub const BEARER_PATTERN: &'static str = "(?s)^Bearer (.*)$";

/// Relies on `regex::Regex::new`: on success the regex is the one written by `p`.
/// It fails only on an invalid pattern or one over the size limit, which the
/// header pattern is not.
#[verifier::external_body]
fn compile(p: &str) -> (r: Option<Regex>)
    ensures
        r matches Some(re) ==> pattern_of(re) == p@,
        p@ == BEARER_PATTERN@ ==> r is Some,
{
    Regex::new(p).ok()
}

/// Relies on `regex::Regex::captures` and `Captures::get`: for the pattern
/// `(?s)^Bearer (.*)$` a text matches exactly when it starts with `Bearer `
/// (with the `s` flag `.` matches every character, `\n` included; `^` and `$`
/// anchor at the ends of the text), and group 1 is all that follows the prefix.
#[verifier::external_body]
fn first_group(re: &Regex, text: &str) -> (r: Option<String>)
    ensures
        pattern_of(*re) == BEARER_PATTERN@ ==> (r matches Some(t) ==> bearer_token(text@) == Some(
            t@,
        )),
        pattern_of(*re) == BEARER_PATTERN@ ==> (r is None ==> bearer_token(text@) is None),
{
    let caps = re.captures(text)?;
    let m = caps.get(1)?;
    Some(m.as_str().to_string())
}

/// The prefix that every valid header value starts with.
pub open spec fn bearer_prefix() -> Seq<char> {
    seq!['B', 'e', 'a', 'r', 'e', 'r', ' ']
}

/// The token that a header value carries: what follows `Bearer `, verbatim,
/// provided the value starts with it.
pub open spec fn bearer_token(h: Seq<char>) -> Option<Seq<char>> {
    if h.len() >= 7 && h.take(7) == bearer_prefix() {
        Some(h.skip(7))
    } else {
        None
    }
}

/// Why a request could not be authenticated.
#[derive(Debug, Clone, Copy, PartialEq, Eq, Structural)]
pub enum AuthError {
    /// No `Authorization` header was sent.
    MissingHeader,
    /// The header is not of the form `Bearer <token>`.
    MalformedHeader,
    /// No session holds the token.
    InvalidToken,
}

/// What authenticating `header` against the store `v` gives.
pub open spec fn auth_outcome(v: StoreView, header: Option<Seq<char>>) -> Result<AccountView, AuthError> {
    match header {
        None => Err(AuthError::MissingHeader),
        Some(h) => match bearer_token(h) {
            None => Err(AuthError::MalformedHeader),
            Some(t) => match v.identity_of(t) {
                None => Err(AuthError::InvalidToken),
                Some(a) => Ok(a),
            },
        },
    }
}

pub open spec fn opt_view(h: Option<&str>) -> Option<Seq<char>> {
    match h {
        Some(s) => Some(s@),
        None => None,
    }
}

/// Whether the result of an authentication is the outcome `o`.
pub open spec fn same_outcome(r: Result<UserResponse, AuthError>, o: Result<AccountView, AuthError>) -> bool {
    match (r, o) {
        (Ok(u), Ok(a)) => u.id == a.id && u.username@ == a.username,
        (Err(e), Err(f)) => e == f,
        _ => false,
    }
}

/// Resolves bearer headers to accounts. Holds the header pattern, compiled once.
pub struct AuthGate {
    pattern: Regex,
}

impl AuthGate {
    pub closed spec fn wf(&self) -> bool {
        pattern_of(self.pattern) == BEARER_PATTERN@
    }

    /// Compiles the header pattern.
    pub fn new() -> (r: Option<AuthGate>)
        ensures
            r is Some,
            r matches Some(g) ==> g.wf(),
    {
        match compile(BEARER_PATTERN) {
            Some(re) => Some(AuthGate { pattern: re }),
            None => None,
        }
    }
}

/// The token that the header value carries, if it has the bearer form.
pub fn get_auth_token(gate: &AuthGate, header: &str) -> (r: Option<String>)
    requires
        gate.wf(),
    ensures
        r matches Some(t) ==> bearer_token(header@) == Some(t@),
        r is None ==> bearer_token(header@) is None,
{
    first_group(&gate.pattern, header)
}

/// The account that the `Authorization` header value identifies: missing
/// header, malformed header and unknown token each fail with their own error.
pub fn authenticate(gate: &AuthGate, store: &Store, header: Option<&str>) -> (r: Result<
    UserResponse,
    AuthError,
>)
    requires
        gate.wf(),
        store@.wf(),
    ensures
        same_outcome(r, auth_outcome(store@, opt_view(header))),
{
    let h = match header {
        Some(h) => h,
        None => return Err(AuthError::MissingHeader),
    };
    let token = match get_auth_token(gate, h) {
        Some(t) => t,
        None => return Err(AuthError::MalformedHeader),
    };
    match store.identity_of(token.as_str()) {
        Some(a) => Ok(UserResponse { id: a.id, username: a.username }),
        None => Err(AuthError::InvalidToken),
    }
}

/// An account that authentication yields is an account of the store.
pub proof fn lemma_authenticated_account_exists(v: StoreView, header: Option<Seq<char>>)
    requires
        auth_outcome(v, header) is Ok,
    ensures
        v.has_account(auth_outcome(v, header)->Ok_0.id),
{
    let t = bearer_token(header->Some_0)->Some_0;
    let owner = v.token_owner(t)->Some_0;
    let j = choose|j: int| 0 <= j < v.accounts.len() && v.accounts[j].id == owner;
    assert(v.accounts[j].id == owner);
}

/// A header value `Bearer <token>` carries exactly `token`.
pub proof fn lemma_bearer_header(token: Seq<char>)
    ensures
        bearer_token(bearer_prefix() + token) == Some(token),
{
    let h = bearer_prefix() + token;
    assert(h.take(7) =~= bearer_prefix());
    assert(h.skip(7) =~= token);
}

/// Issuing a token for an account and then authenticating with `Bearer <token>`
/// yields that account.
pub proof fn lemma_issue_then_authenticate(
    before: StoreView,
    after: StoreView,
    account_id: u128,
    token: Seq<char>,
)
    requires
        issued(before, after, account_id, token),
        after.wf(),
    ensures
        auth_outcome(after, Some(bearer_prefix() + token)) matches Ok(a) && a.id == account_id,
{
    lemma_bearer_header(token);
    let last = after.tokens.len() - 1;
    assert(after.tokens[last].token == token);
    assert(after.tokens[last].account_id == account_id);
    assert(after.has_token(token));
    let i = choose|i: int| 0 <= i < after.tokens.len() && after.tokens[i].token == token;
    assert(i == last);
    assert(after.has_account(after.tokens[last].account_id));
}

/// After revoking a token, authenticating with `Bearer <token>` fails with
/// `InvalidToken`.
pub proof fn lemma_revoke_then_authenticate(before: StoreView, after: StoreView, token: Seq<char>)
    requires
        revoked(before, after, token),
    ensures
        auth_outcome(after, Some(bearer_prefix() + token)) == Err::<AccountView, AuthError>(
            AuthError::InvalidToken,
        ),
{
    lemma_bearer_header(token);
    if after.has_token(token) {
        let i = choose|i: int| 0 <= i < after.tokens.len() && after.tokens[i].token == token;
        before.tokens.lemma_filter_pred(|r: TokenView| r.token != token, i);
    }
}

} // verus!
