use witter::api::{
    ApiEndpoint, CreateUserUrl, Flash, FlashMsg, GetUser, GetUserUrl, Login, LoginUrl, Me, MeUrl,
    Method, PostTweetUrl, Url,
};
use witter::auth::AuthGate;
use witter::errors::{decimal_text, ApiError, ErrorReponseToJson};
use witter::follows::{follow, follow_with, followers, following};
use witter::responses::{ApiResponse, TokenResponse};
use witter::store::{Store, StoreError};
use witter::timeline::{page_number, page_size, timeline, MAX_PAGE_SIZE};
use witter::tweets::{post_tweet, post_tweet_with, validate_tweet, MAX_TWEET_LENGTH};
use witter::users::create_account;

fn bearer(token: &str) -> String {
    format!("Bearer {}", token)
}

fn sign_up(store: &mut Store, name: &str, id: u128) -> String {
    let token = format!("token-{}", name);
    create_account(store, name, "digest".to_string(), id, token.clone(), id + 1000, 1)
        .expect("sign-up succeeds");
    token
}

fn texts(gate: &AuthGate, store: &Store, token: &str, page: Option<usize>, size: Option<usize>) -> Vec<String> {
    let header = bearer(token);
    timeline(gate, store, Some(header.as_str()), page, size)
        .unwrap()
        .into_iter()
        .map(|t| t.text)
        .collect()
}

#[test]
fn following_another_user() {
    let gate = AuthGate::new().unwrap();
    let mut store = Store::new();
    let bob = sign_up(&mut store, "bob", 1);
    sign_up(&mut store, "alice", 2);
    assert!(following(&store, "bob").unwrap().is_empty());
    assert!(followers(&store, "alice").unwrap().is_empty());

    let header = bearer(&bob);
    assert!(follow(&gate, &mut store, Some(header.as_str()), "alice").is_ok());

    let bob_follows = following(&store, "bob").unwrap();
    assert_eq!(bob_follows.len(), 1);
    assert_eq!(bob_follows[0].username, "alice");
    assert_eq!(bob_follows[0].id, 2);
    assert!(following(&store, "alice").unwrap().is_empty());
    let alice_followers = followers(&store, "alice").unwrap();
    assert_eq!(alice_followers.len(), 1);
    assert_eq!(alice_followers[0].username, "bob");
    assert!(followers(&store, "bob").unwrap().is_empty());
}

#[test]
fn follow_same_user_twice() {
    let gate = AuthGate::new().unwrap();
    let mut store = Store::new();
    let bob = sign_up(&mut store, "bob", 1);
    sign_up(&mut store, "alice", 2);
    let header = bearer(&bob);
    assert!(follow(&gate, &mut store, Some(header.as_str()), "alice").is_ok());
    let e = follow(&gate, &mut store, Some(header.as_str()), "alice").err().unwrap();
    assert_eq!(e.status(), 422);
    assert_eq!(e.message(), Some("You cannot follow the same user twice"));
    assert_eq!(following(&store, "bob").unwrap().len(), 1);
}

#[test]
fn cannot_follow_self() {
    let gate = AuthGate::new().unwrap();
    let mut store = Store::new();
    let bob = sign_up(&mut store, "bob", 1);
    let header = bearer(&bob);
    let e = follow(&gate, &mut store, Some(header.as_str()), "bob").err().unwrap();
    assert_eq!(e.status(), 422);
    assert_eq!(e.message(), Some("You cannot follow yourself"));
}

#[test]
fn following_unknown_user_is_not_found() {
    let mut store = Store::new();
    sign_up(&mut store, "bob", 1);
    assert_eq!(follow_with(&mut store, 1, "nobody", 9, 1).err(), Some(ApiError::UserNotFound));
    assert_eq!(following(&store, "nobody").err(), Some(ApiError::UserNotFound));
    assert_eq!(followers(&store, "nobody").err(), Some(ApiError::UserNotFound));
}

#[test]
fn store_refuses_a_duplicate_or_dangling_follow() {
    let mut store = Store::new();
    sign_up(&mut store, "bob", 1);
    sign_up(&mut store, "alice", 2);
    assert_eq!(store.insert_follow(10, 1, 2, 5), Ok(()));
    assert_eq!(store.insert_follow(11, 1, 2, 6), Err(StoreError::UniqueViolation));
    assert_eq!(store.insert_follow(12, 1, 1, 6), Err(StoreError::CheckViolation));
    assert_eq!(store.insert_follow(13, 1, 3, 6), Err(StoreError::ForeignKeyViolation));
    assert!(store.is_following(1, 2));
    assert!(!store.is_following(2, 1));
}

#[test]
fn posting_a_valid_tweet() {
    let gate = AuthGate::new().unwrap();
    let mut store = Store::new();
    let bob = sign_up(&mut store, "bob", 1);
    let header = bearer(&bob);
    let t = post_tweet(&gate, &mut store, Some(header.as_str()), "Hello, World!").unwrap();
    assert_eq!(t.text, "Hello, World!");
    assert_eq!(store.post_count(), 1);
    assert_eq!(store.post_at(0).id, t.id);
}

#[test]
fn posting_a_tweet_that_is_too_long() {
    let gate = AuthGate::new().unwrap();
    let mut store = Store::new();
    let bob = sign_up(&mut store, "bob", 1);
    let header = bearer(&bob);
    let text = "a".repeat(1000);
    let e = post_tweet(&gate, &mut store, Some(header.as_str()), &text).err().unwrap();
    assert_eq!(e.status(), 422);
    assert_eq!(e.message(), Some(format!("Tweet is too long. Max then is {}", MAX_TWEET_LENGTH).as_str()));
    assert_eq!(store.post_count(), 0);
}

#[test]
fn posting_a_tweet_with_exactly_the_max_length() {
    let gate = AuthGate::new().unwrap();
    let mut store = Store::new();
    let bob = sign_up(&mut store, "bob", 1);
    let header = bearer(&bob);
    let text = "a".repeat(MAX_TWEET_LENGTH);
    let t = post_tweet(&gate, &mut store, Some(header.as_str()), &text).unwrap();
    assert_eq!(t.text.chars().count(), 140);
}

#[test]
fn a_tweet_of_140_multibyte_characters_is_stored_unchanged() {
    let gate = AuthGate::new().unwrap();
    let mut store = Store::new();
    let bob = sign_up(&mut store, "bob", 1);
    let header = bearer(&bob);
    let text = "é".repeat(140);
    assert_eq!(text.len(), 280);
    let t = post_tweet(&gate, &mut store, Some(header.as_str()), &text).unwrap();
    assert_eq!(t.text, text);
    assert_eq!(store.post_at(0).text, text);
}

#[test]
fn tweet_length_counts_characters() {
    assert_eq!(validate_tweet(&"é".repeat(140)), Ok(()));
    assert_eq!(validate_tweet(&"é".repeat(141)), Err(ApiError::TweetTooLong));
    assert_eq!(validate_tweet(&"a".repeat(141)), Err(ApiError::TweetTooLong));
    assert_eq!(validate_tweet(""), Err(ApiError::EmptyTweet));
    assert_eq!(validate_tweet("x"), Ok(()));
}

#[test]
fn tweet_length_is_checked_before_the_header() {
    let gate = AuthGate::new().unwrap();
    let mut store = Store::new();
    let text = "a".repeat(141);
    assert_eq!(post_tweet(&gate, &mut store, None, &text).err(), Some(ApiError::TweetTooLong));
    assert_eq!(post_tweet(&gate, &mut store, None, "hi").err(), Some(ApiError::MissingAuthHeader));
}

#[test]
fn sees_own_tweets() {
    let gate = AuthGate::new().unwrap();
    let mut store = Store::new();
    let bob = sign_up(&mut store, "bob", 1);
    post_tweet_with(&mut store, 1, "oldest", 100, 10).unwrap();
    post_tweet_with(&mut store, 1, "middle", 101, 20).unwrap();
    post_tweet_with(&mut store, 1, "newest", 102, 30).unwrap();
    assert_eq!(texts(&gate, &store, &bob, None, None), vec!["newest", "middle", "oldest"]);
}

#[test]
fn sees_tweets_from_users_we_are_following() {
    let gate = AuthGate::new().unwrap();
    let mut store = Store::new();
    let bob = sign_up(&mut store, "bob", 1);
    sign_up(&mut store, "alice", 2);
    sign_up(&mut store, "carol", 3);
    post_tweet_with(&mut store, 2, "oldest", 100, 10).unwrap();
    post_tweet_with(&mut store, 2, "middle", 101, 20).unwrap();
    post_tweet_with(&mut store, 2, "newest", 102, 30).unwrap();
    post_tweet_with(&mut store, 3, "not followed", 103, 40).unwrap();
    assert!(texts(&gate, &store, &bob, None, None).is_empty());

    let header = bearer(&bob);
    assert!(follow(&gate, &mut store, Some(header.as_str()), "alice").is_ok());
    assert_eq!(texts(&gate, &store, &bob, None, None), vec!["newest", "middle", "oldest"]);
    let entries = timeline(&gate, &store, Some(header.as_str()), None, None).unwrap();
    assert_eq!(entries[0].user.username, "alice");
    assert_eq!(entries[0].user.id, 2);
    assert_eq!(entries[0].created_at, 30);
    assert_eq!(entries[0].id, 102);
}

#[test]
fn pagination() {
    let gate = AuthGate::new().unwrap();
    let mut store = Store::new();
    let bob = sign_up(&mut store, "bob", 1);
    for (k, text) in ["5", "4", "3", "2", "1"].iter().enumerate() {
        post_tweet_with(&mut store, 1, text, 100 + k as u128, 10 * k as i64).unwrap();
    }
    assert_eq!(texts(&gate, &store, &bob, Some(1), Some(2)), vec!["1", "2"]);
    assert_eq!(texts(&gate, &store, &bob, Some(2), Some(2)), vec!["3", "4"]);
    assert_eq!(texts(&gate, &store, &bob, Some(3), Some(2)), vec!["5"]);
    assert!(texts(&gate, &store, &bob, Some(4), Some(2)).is_empty());
    assert!(texts(&gate, &store, &bob, Some(usize::MAX), Some(20)).is_empty());
}

#[test]
fn pages_together_are_the_whole_feed() {
    let gate = AuthGate::new().unwrap();
    let mut store = Store::new();
    let bob = sign_up(&mut store, "bob", 1);
    for k in 0..7u128 {
        post_tweet_with(&mut store, 1, &format!("{}", k), 200 + k, 5).unwrap();
    }
    let whole = texts(&gate, &store, &bob, None, None);
    assert_eq!(whole, vec!["6", "5", "4", "3", "2", "1", "0"]);
    for k in 1..=7usize {
        let mut joined = Vec::new();
        let pages = (whole.len() + k - 1) / k;
        for p in 1..=pages {
            joined.extend(texts(&gate, &store, &bob, Some(p), Some(k)));
        }
        assert_eq!(joined, whole);
    }
}

#[test]
fn max_page_size() {
    let gate = AuthGate::new().unwrap();
    let mut store = Store::new();
    let bob = sign_up(&mut store, "bob", 1);
    for k in 0..21u128 {
        post_tweet_with(&mut store, 1, "hi", 300 + k, k as i64).unwrap();
    }
    assert_eq!(texts(&gate, &store, &bob, Some(1), Some(100)).len(), 20);
    assert_eq!(texts(&gate, &store, &bob, Some(2), Some(100)).len(), 1);
    assert_eq!(texts(&gate, &store, &bob, None, None).len(), 20);
}

#[test]
fn page_parameters_are_clamped() {
    assert_eq!(page_size(None), 20);
    assert_eq!(page_size(Some(100)), MAX_PAGE_SIZE);
    assert_eq!(page_size(Some(0)), 1);
    assert_eq!(page_size(Some(7)), 7);
    assert_eq!(page_number(None), 1);
    assert_eq!(page_number(Some(0)), 1);
    assert_eq!(page_number(Some(3)), 3);
}

#[test]
fn timeline_needs_a_valid_header() {
    let gate = AuthGate::new().unwrap();
    let store = Store::new();
    assert_eq!(timeline(&gate, &store, None, None, None).err(), Some(ApiError::MissingAuthHeader));
    assert_eq!(
        timeline(&gate, &store, Some("Bearer nope"), None, None).err(),
        Some(ApiError::InvalidToken)
    );
}

#[test]
fn error_envelope_has_code_and_message() {
    let shaper = ErrorReponseToJson;
    let b = shaper.body(500, None);
    assert_eq!(b.status_code, "500");
    assert_eq!(b.message, "Something went wrong");
    let b = shaper.body(404, Some("User not found"));
    assert_eq!(b.status_code, "404");
    assert_eq!(b.message, "User not found");
    assert_eq!(decimal_text(0), "0");
    assert_eq!(decimal_text(7), "7");
    assert_eq!(decimal_text(422), "422");
    assert_eq!(decimal_text(65535), "65535");
}

#[test]
fn routes_and_responses() {
    assert_eq!(GetUserUrl { username: "bob".to_string() }.url(), "/users/bob");
    assert_eq!(LoginUrl { username: "bob".to_string() }.url(), "/users/bob/session");
    assert_eq!(MeUrl.url(), "/me");
    assert_eq!(PostTweetUrl.url(), "/tweets");
    assert_eq!(CreateUserUrl.url(), "/users");
    assert_eq!(<GetUser as ApiEndpoint>::method(), Method::Get);
    assert_eq!(<Login as ApiEndpoint>::method(), Method::Post);
    assert_eq!(<Me as ApiEndpoint>::method(), Method::Get);
    assert_eq!(<<Login as ApiEndpoint>::Url as Url>::url_spec(), "/users/:username/session");
    assert_eq!(ApiResponse::new(5).data, 5);
    assert_eq!(TokenResponse::new("abc").token, "abc");
}

#[test]
fn flash_messages() {
    let mut flash = Flash::new();
    assert!(flash.get().is_none());
    flash.set_notice("saved");
    assert!(matches!(flash.get(), Some(FlashMsg::Notice(n)) if n == "saved"));
    flash.set_error("failed");
    assert!(matches!(flash.get(), Some(FlashMsg::Error(e)) if e == "failed"));
    flash.clear();
    assert!(flash.get().is_none());
}
