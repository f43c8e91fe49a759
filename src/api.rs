//! The HTTP surface: routes, methods, payloads and the running environment.
use vstd::prelude::*;

verus! {

/// An HTTP method.
#[derive(Debug, Clone, Copy, PartialEq, Eq, Structural)]
pub enum Method {
    Get,
    Post,
    Head,
    Put,
    Delete,
    Connect,
    Options,
    Trace,
    Patch,
}

/// A route: its pattern, and the path of one of its requests.
pub trait Url {
    /// The route pattern, with `:name` for a path parameter.
    fn url_spec() -> (r: &'static str);

    /// The path of this request.
    fn url(&self) -> (r: String);
}

/// An endpoint: its route and its method.
pub trait ApiEndpoint {
    type Url: Url;

    fn method() -> (r: Method);
}

/// The payload of a request without a body.
pub struct NoPayload;

/// Body of a sign-up request.
pub struct CreateUserPayload {
    pub username: String,
    pub password: String,
}

/// Body of a login request.
pub struct LoginPayload {
    pub password: String,
}

/// Body of a request that posts a tweet.
pub struct CreateTweetPayload {
    pub text: String,
}

/// `GET /users/:username`
pub struct GetUser;

pub struct GetUserUrl {
    pub username: String,
}

/// `POST /tweets`
pub struct PostTweet;

pub struct PostTweetUrl;

/// `GET /me`
pub struct Me;

pub struct MeUrl;

/// `POST /users/:username/session`
pub struct Login;

pub struct LoginUrl {
    pub username: String,
}

/// `POST /users`
pub struct CreateUser;

pub struct CreateUserUrl;

fn concat3(a: &str, b: &str, c: &str) -> (r: String)
    ensures
        r@ == a@ + b@ + c@,
{
    let mut s = a.to_owned();
    s.append(b);
    s.append(c);
    s
}

impl Url for GetUserUrl {
    fn url_spec() -> (r: &'static str)
        ensures
            r@ == "/users/:username"@,
    {
        "/users/:username"
    }

    fn url(&self) -> (r: String)
        ensures
            r@ == "/users/"@ + self.username@,
    {
        let mut s = "/users/".to_owned();
        s.append(self.username.as_str());
        s
    }
}

impl Url for PostTweetUrl {
    fn url_spec() -> (r: &'static str)
        ensures
            r@ == "/tweets"@,
    {
        "/tweets"
    }

    fn url(&self) -> (r: String)
        ensures
            r@ == "/tweets"@,
    {
        "/tweets".to_owned()
    }
}

impl Url for MeUrl {
    fn url_spec() -> (r: &'static str)
        ensures
            r@ == "/me"@,
    {
        "/me"
    }

    fn url(&self) -> (r: String)
        ensures
            r@ == "/me"@,
    {
        "/me".to_owned()
    }
}

impl Url for LoginUrl {
    fn url_spec() -> (r: &'static str)
        ensures
            r@ == "/users/:username/session"@,
    {
        "/users/:username/session"
    }

    fn url(&self) -> (r: String)
        ensures
            r@ == "/users/"@ + self.username@ + "/session"@,
    {
        concat3("/users/", self.username.as_str(), "/session")
    }
}

impl Url for CreateUserUrl {
    fn url_spec() -> (r: &'static str)
        ensures
            r@ == "/users"@,
    {
        "/users"
    }

    fn url(&self) -> (r: String)
        ensures
            r@ == "/users"@,
    {
        "/users".to_owned()
    }
}

impl ApiEndpoint for GetUser {
    type Url = GetUserUrl;

    fn method() -> (r: Method)
        ensures
            r == Method::Get,
    {
        Method::Get
    }
}

impl ApiEndpoint for PostTweet {
    type Url = PostTweetUrl;

    fn method() -> (r: Method)
        ensures
            r == Method::Post,
    {
        Method::Post
    }
}

impl ApiEndpoint for Me {
    type Url = MeUrl;

    fn method() -> (r: Method)
        ensures
            r == Method::Get,
    {
        Method::Get
    }
}

impl ApiEndpoint for Login {
    type Url = LoginUrl;

    fn method() -> (r: Method)
        ensures
            r == Method::Post,
    {
        Method::Post
    }
}

impl ApiEndpoint for CreateUser {
    type Url = CreateUserUrl;

    fn method() -> (r: Method)
        ensures
            r == Method::Post,
    {
        Method::Post
    }
}

/// The environment the server runs in.
#[derive(Debug, Clone, Copy, PartialEq, Eq, Structural)]
pub enum Env {
    Production,
    Development,
    Test,
}

impl Env {
    pub fn is_test(&self) -> (r: bool)
        ensures
            r == (*self == Env::Test),
    {
        match self {
            Env::Test => true,
            _ => false,
        }
    }

    /// The environment named `name`: `production`, `development` or `test`.
    pub fn from_name(name: &str) -> (r: Option<Env>)
        ensures
            r == (if name@ == "production"@ {
                Some(Env::Production)
            } else if name@ == "development"@ {
                Some(Env::Development)
            } else if name@ == "test"@ {
                Some(Env::Test)
            } else {
                None::<Env>
            }),
    {
        let n = name.to_owned();
        if n == "production".to_owned() {
            Some(Env::Production)
        } else if n == "development".to_owned() {
            Some(Env::Development)
        } else if n == "test".to_owned() {
            Some(Env::Test)
        } else {
            None
        }
    }
}

/// A message shown to the user until it is cleared.
pub enum FlashMsg {
    Notice(String),
    Error(String),
}

/// The message currently shown, if any.
pub struct Flash {
    msg: Option<FlashMsg>,
}

impl Flash {
    pub closed spec fn message(&self) -> Option<FlashMsg> {
        self.msg
    }

    pub fn new() -> (r: Flash)
        ensures
            r.message() is None,
    {
        Flash { msg: None }
    }

    pub fn set_notice(&mut self, notice: &str)
        ensures
            final(self).message() matches Some(FlashMsg::Notice(n)) && n@ == notice@,
    {
        self.msg = Some(FlashMsg::Notice(notice.to_owned()));
    }

    pub fn set_error(&mut self, error: &str)
        ensures
            final(self).message() matches Some(FlashMsg::Error(e)) && e@ == error@,
    {
        self.msg = Some(FlashMsg::Error(error.to_owned()));
    }

    pub fn clear(&mut self)
        ensures
            final(self).message() is None,
    {
        self.msg = None;
    }

    pub fn get(&self) -> (r: Option<&FlashMsg>)
        ensures
            match (r, self.message()) {
                (None, None) => true,
                (Some(m), Some(n)) => *m == n,
                _ => false,
            },
    {
        self.msg.as_ref()
    }
}

} // verus!
