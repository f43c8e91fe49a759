//! Errors as callers see them, and the uniform error envelope.
use vstd::prelude::*;
use crate::auth::AuthError;

verus! {

/// A failed request: each variant has an HTTP status and a message.
#[derive(Debug, Clone, Copy, PartialEq, Eq, Structural)]
pub enum ApiError {
    MissingAuthHeader,
    MalformedAuthHeader,
    InvalidToken,
    UsernameClaimed,
    SelfFollow,
    DuplicateFollow,
    TweetTooLong,
    EmptyTweet,
    UserNotFound,
    WrongPassword,
    Internal,
}

pub open spec fn status_of(e: ApiError) -> u16 {
    match e {
        ApiError::MissingAuthHeader => 400,
        ApiError::MalformedAuthHeader => 400,
        ApiError::InvalidToken => 403,
        ApiError::UsernameClaimed => 422,
        ApiError::SelfFollow => 422,
        ApiError::DuplicateFollow => 422,
        ApiError::TweetTooLong => 422,
        ApiError::EmptyTweet => 422,
        ApiError::UserNotFound => 404,
        ApiError::WrongPassword => 403,
        ApiError::Internal => 500,
    }
}

pub open spec fn auth_error(e: AuthError) -> ApiError {
    match e {
        AuthError::MissingHeader => ApiError::MissingAuthHeader,
        AuthError::MalformedHeader => ApiError::MalformedAuthHeader,
        AuthError::InvalidToken => ApiError::InvalidToken,
    }
}

pub open spec fn message_of(e: ApiError) -> Option<Seq<char>> {
    match e {
        ApiError::MissingAuthHeader => Some("Missing value for `Authorization` header"@),
        ApiError::MalformedAuthHeader => Some("Unable to parse Authorization header value"@),
        ApiError::InvalidToken => Some("Invalid auth token"@),
        ApiError::UsernameClaimed => Some("Username is already claimed"@),
        ApiError::SelfFollow => Some("You cannot follow yourself"@),
        ApiError::DuplicateFollow => Some("You cannot follow the same user twice"@),
        ApiError::TweetTooLong => Some("Tweet is too long. Max then is 140"@),
        ApiError::EmptyTweet => Some("Tweet cannot be empty"@),
        ApiError::UserNotFound => Some("User not found"@),
        ApiError::WrongPassword => None,
        ApiError::Internal => Some("Internal server error"@),
    }
}

pub open spec fn str_opt_view(o: Option<&str>) -> Option<Seq<char>> {
    match o {
        Some(s) => Some(s@),
        None => None,
    }
}

impl ApiError {
    /// The error that a failed authentication is reported as.
    pub fn from_auth(e: AuthError) -> (r: ApiError)
        ensures
            r == auth_error(e),
    {
        match e {
            AuthError::MissingHeader => ApiError::MissingAuthHeader,
            AuthError::MalformedHeader => ApiError::MalformedAuthHeader,
            AuthError::InvalidToken => ApiError::InvalidToken,
        }
    }

    /// The HTTP status code.
    pub fn status(&self) -> (r: u16)
        ensures
            r == status_of(*self),
    {
        match self {
            ApiError::MissingAuthHeader => 400,
            ApiError::MalformedAuthHeader => 400,
            ApiError::InvalidToken => 403,
            ApiError::UsernameClaimed => 422,
            ApiError::SelfFollow => 422,
            ApiError::DuplicateFollow => 422,
            ApiError::TweetTooLong => 422,
            ApiError::EmptyTweet => 422,
            ApiError::UserNotFound => 404,
            ApiError::WrongPassword => 403,
            ApiError::Internal => 500,
        }
    }

    /// The message shown to the caller; `None` where the generic fallback is used.
    pub fn message(&self) -> (r: Option<&'static str>)
        ensures
            str_opt_view(r) == message_of(*self),
    {
        match self {
            ApiError::MissingAuthHeader => Some("Missing value for `Authorization` header"),
            ApiError::MalformedAuthHeader => Some("Unable to parse Authorization header value"),
            ApiError::InvalidToken => Some("Invalid auth token"),
            ApiError::UsernameClaimed => Some("Username is already claimed"),
            ApiError::SelfFollow => Some("You cannot follow yourself"),
            ApiError::DuplicateFollow => Some("You cannot follow the same user twice"),
            ApiError::TweetTooLong => Some("Tweet is too long. Max then is 140"),
            ApiError::EmptyTweet => Some("Tweet cannot be empty"),
            ApiError::UserNotFound => Some("User not found"),
            ApiError::WrongPassword => None,
            ApiError::Internal => Some("Internal server error"),
        }
    }
}

pub open spec fn digit_char(d: nat) -> char {
    if d == 0 {
        '0'
    } else if d == 1 {
        '1'
    } else if d == 2 {
        '2'
    } else if d == 3 {
        '3'
    } else if d == 4 {
        '4'
    } else if d == 5 {
        '5'
    } else if d == 6 {
        '6'
    } else if d == 7 {
        '7'
    } else if d == 8 {
        '8'
    } else {
        '9'
    }
}

/// The decimal digits of `n`, most significant first.
pub open spec fn decimal(n: nat) -> Seq<char>
    decreases n,
{
    if n < 10 {
        seq![digit_char(n)]
    } else {
        decimal(n / 10).push(digit_char(n % 10))
    }
}

fn digit_text(d: u16) -> (r: &'static str)
    requires
        d < 10,
    ensures
        r@ == seq![digit_char(d as nat)],
{
    let r = match d {
        0 => "0",
        1 => "1",
        2 => "2",
        3 => "3",
        4 => "4",
        5 => "5",
        6 => "6",
        7 => "7",
        8 => "8",
        _ => "9",
    };
    proof {
        reveal_strlit("0");
        reveal_strlit("1");
        reveal_strlit("2");
        reveal_strlit("3");
        reveal_strlit("4");
        reveal_strlit("5");
        reveal_strlit("6");
        reveal_strlit("7");
        reveal_strlit("8");
        reveal_strlit("9");
    }
    assert(r@ =~= seq![digit_char(d as nat)]);
    r
}

/// `n` written in decimal.
pub fn decimal_text(n: u16) -> (r: String)
    ensures
        r@ == decimal(n as nat),
    decreases n,
{
    if n < 10 {
        digit_text(n).to_owned()
    } else {
        let mut s = decimal_text(n / 10);
        s.append(digit_text(n % 10));
        s
    }
}

/// The body of an error response.
pub struct ErrorBody {
    pub status_code: String,
    pub message: String,
}

/// The message used when a failure carries none of its own.
pub const FALLBACK_MESSAGE: &'static str = "Something went wrong";

/// Shapes every failed response into the same error envelope: the status code in
/// decimal and the failure's message, or the generic fallback when it has none.
pub struct ErrorReponseToJson;

impl ErrorReponseToJson {
    pub fn body(&self, status: u16, message: Option<&str>) -> (r: ErrorBody)
        ensures
            r.status_code@ == decimal(status as nat),
            message matches Some(m) ==> r.message@ == m@,
            message is None ==> r.message@ == FALLBACK_MESSAGE@,
    {
        let text = match message {
            Some(m) => m.to_owned(),
            None => FALLBACK_MESSAGE.to_owned(),
        };
        ErrorBody { status_code: decimal_text(status), message: text }
    }

    /// The error envelope for a failure of this library.
    pub fn error_body(&self, e: ApiError) -> (r: ErrorBody)
        ensures
            r.status_code@ == decimal(status_of(e) as nat),
            message_of(e) matches Some(m) ==> r.message@ == m,
            message_of(e) is None ==> r.message@ == FALLBACK_MESSAGE@,
    {
        self.body(e.status(), e.message())
    }
}

} // verus!
