//! Issuing and revoking session tokens.
use vstd::prelude::*;
use crate::clock::{new_id, current_time};
use crate::store::{Store, StoreError, StoreView, TokenView};
use rand::distributions::Alphanumeric;
use rand::rngs::OsRng;
use rand::Rng;

verus! {

/// Number of characters in a session token.
pub const TOKEN_LENGTH: usize = 32;

/// The characters a token is drawn from: ASCII letters and digits.
pub open spec fn is_token_char(c: char) -> bool {
    ('A' <= c && c <= 'Z') || ('a' <= c && c <= 'z') || ('0' <= c && c <= '9')
}

/// Relies on rand's `Alphanumeric` distribution sampled from `OsRng`: `len`
/// characters, each an ASCII letter or digit.
#[verifier::external_body]
pub(crate) fn random_alphanumeric(len: usize) -> (r: String)
    ensures
        r@.len() == len,
        forall|i: int| 0 <= i < r@.len() ==> is_token_char(#[trigger] r@[i]),
{
    OsRng.sample_iter(&Alphanumeric).take(len).collect()
}

/// `after` is `before` with one more session row, for `account_id`, holding `token`.
pub open spec fn issued(before: StoreView, after: StoreView, account_id: u128, token: Seq<char>) -> bool {
    exists|id: u128, created_at: i64|
        after == (StoreView {
            tokens: before.tokens.push(
                TokenView { id, account_id, token, created_at },
            ),
            ..before
        })
}

/// `after` is `before` without any session row holding `token`.
pub open spec fn revoked(before: StoreView, after: StoreView, token: Seq<char>) -> bool {
    after == (StoreView { tokens: before.tokens.filter(|r: TokenView| r.token != token), ..before })
}

/// Creates a session for `account_id` and returns its token, which is drawn at
/// random. Fails with `ForeignKeyViolation` when the account does not exist, and
/// with `UniqueViolation` when the drawn token is already held.
pub fn issue(store: &mut Store, account_id: u128) -> (r: Result<String, StoreError>)
    requires
        old(store)@.wf(),
    ensures
        final(store)@.wf(),
        r == Err::<String, StoreError>(StoreError::ForeignKeyViolation) <==> !old(store)@.has_account(
            account_id,
        ),
        r == Err::<String, StoreError>(StoreError::UniqueViolation) ==> old(store)@.has_account(
            account_id,
        ),
        old(store)@.has_account(account_id) && old(store)@.tokens.len() == 0 ==> r is Ok,
        r is Err ==> final(store)@ == old(store)@,
        r matches Ok(t) ==> {
            &&& issued(old(store)@, final(store)@, account_id, t@)
            &&& t@.len() == TOKEN_LENGTH
            &&& forall|i: int| 0 <= i < t@.len() ==> is_token_char(#[trigger] t@[i])
        },
{
    let token = random_alphanumeric(TOKEN_LENGTH);
    let id = new_id();
    let now = current_time();
    let ghost t = token@;
    match store.insert_token(id, account_id, token.clone(), now) {
        Ok(()) => {
            assert(final(store)@ == (StoreView {
                tokens: old(store)@.tokens.push(
                    TokenView { id, account_id, token: t, created_at: now },
                ),
                ..old(store)@
            }));
            Ok(token)
        },
        Err(e) => Err(e),
    }
}

/// Deletes every session holding `token`. Revoking an unknown token changes nothing.
pub fn revoke(store: &mut Store, token: &str)
    requires
        old(store)@.wf(),
    ensures
        final(store)@.wf(),
        revoked(old(store)@, final(store)@, token@),
{
    store.delete_tokens(token);
}

} // verus!
