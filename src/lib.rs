//! A small social network: accounts, bearer-token sessions, follow edges,
//! posts and a paginated timeline.
//!
//! [`store::Store`] holds the four relations with their uniqueness and
//! reference constraints. [`auth`] turns an `Authorization` header into an
//! account, [`tokens`] issues and revokes sessions, [`follows`] keeps the
//! follow graph, [`tweets`] validates and stores posts, and [`timeline`]
//! merges an account's posts with those it follows, newest first, in pages.
//! [`users`] holds the account endpoints, [`errors`] the uniform error
//! envelope and [`api`] the routes and payloads.
pub mod api;
pub mod auth;
pub mod clock;
pub mod errors;
pub mod follows;
pub mod responses;
pub mod store;
pub mod timeline;
pub mod tokens;
pub mod tweets;
pub mod users;
