//! Values handed back to callers.
use vstd::prelude::*;

verus! {

/// The success envelope: the payload under `data`.
pub struct ApiResponse<T> {
    pub data: T,
}

impl<T> ApiResponse<T> {
    pub fn new(data: T) -> (r: Self)
        ensures
            r.data == data,
    {
        ApiResponse { data }
    }
}

/// A freshly handed out session token.
pub struct TokenResponse {
    pub token: String,
}

impl TokenResponse {
    pub fn new(token: &str) -> (r: Self)
        ensures
            r.token@ == token@,
    {
        TokenResponse { token: token.to_owned() }
    }
}

/// An account as others see it.
pub struct UserResponse {
    pub id: u128,
    pub username: String,
}

/// A post that was just created.
pub struct TweetResponse {
    pub id: u128,
    pub text: String,
}

/// One entry of a timeline: a post with its author.
pub struct TimelineTweet {
    pub id: u128,
    pub text: String,
    pub created_at: i64,
    pub user: UserResponse,
}

} // verus!
