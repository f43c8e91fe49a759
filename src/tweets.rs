//! Posting tweets.
use vstd::prelude::*;
use crate::auth::{auth_outcome, authenticate, lemma_authenticated_account_exists, opt_view, AuthGate};
use crate::clock::{new_id, current_time};
use crate::errors::{auth_error, ApiError};
use crate::responses::TweetResponse;
use crate::store::{PostView, Store, StoreView};

verus! {

/// Largest number of characters (Unicode scalar values) a tweet may hold.
pub const MAX_TWEET_LENGTH: usize = 140;

/// Whether a tweet's text is acceptable, and if not, why.
pub open spec fn text_check(text: Seq<char>) -> Result<(), ApiError> {
    if text.len() == 0 {
        Err(ApiError::EmptyTweet)
    } else if text.len() > MAX_TWEET_LENGTH {
        Err(ApiError::TweetTooLong)
    } else {
        Ok(())
    }
}

/// `after` is `before` with the post `id` by `author` holding `text`.
pub open spec fn posted(before: StoreView, after: StoreView, author: u128, id: u128, text: Seq<char>) -> bool {
    exists|created_at: i64|
        after == (StoreView {
            posts: before.posts.push(PostView { id, author_id: author, text, created_at }),
            ..before
        })
}

/// Checks a tweet's text: from 1 to 140 characters.
pub fn validate_tweet(text: &str) -> (r: Result<(), ApiError>)
    ensures
        r == text_check(text@),
{
    let n = text.unicode_len();
    if n == 0 {
        Err(ApiError::EmptyTweet)
    } else if n > MAX_TWEET_LENGTH {
        Err(ApiError::TweetTooLong)
    } else {
        Ok(())
    }
}

/// Stores the tweet `text` by `author` under `id` at time `now`, after checking
/// its length. Fails with `Internal` when the author is unknown or the id is
/// taken; on failure nothing changes.
pub fn post_tweet_with(store: &mut Store, author: u128, text: &str, id: u128, now: i64) -> (r: Result<
    TweetResponse,
    ApiError,
>)
    requires
        old(store)@.wf(),
    ensures
        final(store)@.wf(),
        match text_check(text@) {
            Err(e) => r == Err::<TweetResponse, ApiError>(e) && final(store)@ == old(store)@,
            Ok(()) => if old(store)@.has_account(author) && !old(store)@.has_post(id) {
                r matches Ok(t) && t.id == id && t.text@ == text@ && final(store)@ == (StoreView {
                    posts: old(store)@.posts.push(
                        PostView { id, author_id: author, text: text@, created_at: now },
                    ),
                    ..old(store)@
                })
            } else {
                r == Err::<TweetResponse, ApiError>(ApiError::Internal) && final(store)@ == old(
                    store,
                )@
            },
        },
{
    match validate_tweet(text) {
        Err(e) => return Err(e),
        Ok(()) => {},
    }
    let body = text.to_owned();
    match store.insert_post(id, author, body, now) {
        Ok(()) => Ok(TweetResponse { id, text: text.to_owned() }),
        Err(_) => Err(ApiError::Internal),
    }
}

/// Posts `text` as the account that the `Authorization` header identifies. The
/// length is checked first, then the header; the post id is drawn at random
/// and the time is the current one.
pub fn post_tweet(gate: &AuthGate, store: &mut Store, header: Option<&str>, text: &str) -> (r: Result<
    TweetResponse,
    ApiError,
>)
    requires
        gate.wf(),
        old(store)@.wf(),
    ensures
        final(store)@.wf(),
        text_check(text@) matches Err(e) ==> r == Err::<TweetResponse, ApiError>(e),
        text_check(text@) is Ok ==> match auth_outcome(old(store)@, opt_view(header)) {
            Err(e) => r == Err::<TweetResponse, ApiError>(auth_error(e)),
            Ok(a) => {
                &&& r matches Ok(t) ==> t.text@ == text@ && posted(
                    old(store)@,
                    final(store)@,
                    a.id,
                    t.id,
                    text@,
                )
                &&& r is Err ==> r == Err::<TweetResponse, ApiError>(ApiError::Internal)
            },
        },
        text_check(text@) is Ok && auth_outcome(old(store)@, opt_view(header)) is Ok && old(
            store,
        )@.posts.len() == 0 ==> r is Ok,
        r is Err ==> final(store)@ == old(store)@,
{
    match validate_tweet(text) {
        Err(e) => return Err(e),
        Ok(()) => {},
    }
    proof {
        if auth_outcome(old(store)@, opt_view(header)) is Ok {
            lemma_authenticated_account_exists(old(store)@, opt_view(header));
        }
    }
    let user = match authenticate(gate, store, header) {
        Ok(u) => u,
        Err(e) => return Err(ApiError::from_auth(e)),
    };
    let id = new_id();
    let now = current_time();
    post_tweet_with(store, user.id, text, id, now)
}

/// The length bound is exact: 140 characters are accepted, 141 are refused
/// with `TweetTooLong`, whose message states the maximum.
pub proof fn lemma_tweet_length_boundary(text: Seq<char>)
    ensures
        text.len() == MAX_TWEET_LENGTH ==> text_check(text) is Ok,
        text.len() == MAX_TWEET_LENGTH + 1 ==> text_check(text) == Err::<(), ApiError>(
            ApiError::TweetTooLong,
        ),
        crate::errors::message_of(ApiError::TweetTooLong) == Some(
            "Tweet is too long. Max then is 140"@,
        ),
        crate::errors::status_of(ApiError::TweetTooLong) == 422,
{
}

} // verus!
