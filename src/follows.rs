//! Directed follow edges between accounts.
use vstd::prelude::*;
use crate::auth::{auth_outcome, authenticate, opt_view, AuthGate};
use crate::clock::{new_id, current_time};
use crate::errors::{auth_error, message_of, ApiError};
use crate::responses::UserResponse;
use crate::store::{AccountView, FollowView, Store, StoreError, StoreView};

verus! {

/// What `follower` following the account named `name` gives: the followee's id,
/// or why the edge is refused.
pub open spec fn follow_outcome(v: StoreView, follower: u128, name: Seq<char>) -> Result<u128, ApiError> {
    match v.account_by_name(name) {
        None => Err(ApiError::UserNotFound),
        Some(a) => if a.id == follower {
            Err(ApiError::SelfFollow)
        } else if v.follows(follower, a.id) {
            Err(ApiError::DuplicateFollow)
        } else if !v.has_account(follower) {
            Err(ApiError::Internal)
        } else {
            Ok(a.id)
        },
    }
}

/// `after` is `before` with the edge `follower -> followee` added.
pub open spec fn followed(before: StoreView, after: StoreView, follower: u128, followee: u128) -> bool {
    exists|id: u128, created_at: i64|
        after == (StoreView {
            follows: before.follows.push(
                FollowView { id, follower_id: follower, followee_id: followee, created_at },
            ),
            ..before
        })
}

/// Makes `follower` follow the account named `name`, recording the edge under
/// `id` at time `now`. Fails with `UserNotFound` when no account has that name,
/// `SelfFollow` when it is the follower, and `DuplicateFollow` when the edge is
/// already present.
pub fn follow_with(store: &mut Store, follower: u128, name: &str, id: u128, now: i64) -> (r: Result<
    (),
    ApiError,
>)
    requires
        old(store)@.wf(),
    ensures
        final(store)@.wf(),
        match follow_outcome(old(store)@, follower, name@) {
            Ok(followee) => r is Ok && final(store)@ == (StoreView {
                follows: old(store)@.follows.push(
                    FollowView { id, follower_id: follower, followee_id: followee, created_at: now },
                ),
                ..old(store)@
            }),
            Err(e) => r == Err::<(), ApiError>(e) && final(store)@ == old(store)@,
        },
{
    let followee = match store.account_by_name(name) {
        Some(a) => a,
        None => return Err(ApiError::UserNotFound),
    };
    if followee.id == follower {
        return Err(ApiError::SelfFollow);
    }
    if store.is_following(follower, followee.id) {
        return Err(ApiError::DuplicateFollow);
    }
    proof {
        let v = store@;
        let a = v.account_by_name(name@)->Some_0;
        let i = choose|i: int| 0 <= i < v.accounts.len() && v.accounts[i].username == name@;
        assert(v.has_account(a.id)) by {
            assert(v.accounts[i].id == a.id);
        }
    }
    match store.insert_follow(id, follower, followee.id, now) {
        Ok(()) => Ok(()),
        Err(StoreError::UniqueViolation) => Err(ApiError::DuplicateFollow),
        Err(_) => Err(ApiError::Internal),
    }
}

/// Makes the account that the `Authorization` header identifies follow the
/// account named `name`. The edge id is drawn at random and the time is the
/// current one.
pub fn follow(gate: &AuthGate, store: &mut Store, header: Option<&str>, name: &str) -> (r: Result<
    (),
    ApiError,
>)
    requires
        gate.wf(),
        old(store)@.wf(),
    ensures
        final(store)@.wf(),
        match auth_outcome(old(store)@, opt_view(header)) {
            Err(e) => r == Err::<(), ApiError>(auth_error(e)) && final(store)@ == old(store)@,
            Ok(a) => match follow_outcome(old(store)@, a.id, name@) {
                Err(e) => r == Err::<(), ApiError>(e) && final(store)@ == old(store)@,
                Ok(followee) => r is Ok && followed(old(store)@, final(store)@, a.id, followee),
            },
        },
{
    let user = match authenticate(gate, store, header) {
        Ok(u) => u,
        Err(e) => return Err(ApiError::from_auth(e)),
    };
    let id = new_id();
    let now = current_time();
    let r = follow_with(store, user.id, name, id, now);
    proof {
        if let Ok(followee) = follow_outcome(old(store)@, user.id, name@) {
            assert(final(store)@ == (StoreView {
                follows: old(store)@.follows.push(
                    FollowView { id, follower_id: user.id, followee_id: followee, created_at: now },
                ),
                ..old(store)@
            }));
        }
    }
    r
}

/// The ids at the other end of the edges that leave `id` (`outgoing`) or
/// arrive at `id` (otherwise), in the order the edges were made.
pub open spec fn neighbours(v: StoreView, id: u128, outgoing: bool) -> Seq<u128> {
    if outgoing {
        v.follows.filter(|e: FollowView| e.follower_id == id).map_values(|e: FollowView| e.followee_id)
    } else {
        v.follows.filter(|e: FollowView| e.followee_id == id).map_values(|e: FollowView| e.follower_id)
    }
}

/// Whether `users` lists exactly the accounts with ids `ids`, in that order.
pub open spec fn lists_accounts(v: StoreView, users: Seq<UserResponse>, ids: Seq<u128>) -> bool {
    &&& users.len() == ids.len()
    &&& forall|k: int|
        #![trigger users[k]]
        0 <= k < users.len() ==> {
            &&& users[k].id == ids[k]
            &&& v.account_by_id(ids[k]) matches Some(a) && users[k].username@ == a.username
        }
}

proof fn lemma_lists_push(
    v: StoreView,
    users: Seq<UserResponse>,
    ids: Seq<u128>,
    u: UserResponse,
    id: u128,
)
    requires
        lists_accounts(v, users, ids),
        u.id == id,
        v.account_by_id(id) matches Some(a) && u.username@ == a.username,
    ensures
        lists_accounts(v, users.push(u), ids.push(id)),
{
    let us = users.push(u);
    let is = ids.push(id);
    assert forall|k: int| #![trigger us[k]] 0 <= k < us.len() implies {
        &&& us[k].id == is[k]
        &&& v.account_by_id(is[k]) matches Some(acct) && us[k].username@ == acct.username
    } by {
        if k < users.len() {
            assert(us[k] == users[k]);
            assert(is[k] == ids[k]);
        }
    }
}

fn edge_kept(e: &crate::store::FollowEdge, id: u128, outgoing: bool) -> (r: bool)
    ensures
        r == (if outgoing { e.follower_id == id } else { e.followee_id == id }),
{
    if outgoing {
        e.follower_id == id
    } else {
        e.followee_id == id
    }
}

/// The accounts that `id` follows (`outgoing`) or that follow `id` (otherwise).
pub fn neighbour_accounts(store: &Store, id: u128, outgoing: bool) -> (r: Vec<UserResponse>)
    requires
        store@.wf(),
    ensures
        lists_accounts(store@, r@, neighbours(store@, id, outgoing)),
{
    let ghost v = store@;
    let ghost keep = if outgoing {
        |e: FollowView| e.follower_id == id
    } else {
        |e: FollowView| e.followee_id == id
    };
    let ghost other = if outgoing {
        |e: FollowView| e.followee_id
    } else {
        |e: FollowView| e.follower_id
    };
    let mut out: Vec<UserResponse> = Vec::new();
    let n = store.follow_count();
    let mut i: usize = 0;
    while i < n
        invariant
            0 <= i <= n,
            n == v.follows.len(),
            v == store@,
            v.wf(),
            keep == (if outgoing {
                |e: FollowView| e.follower_id == id
            } else {
                |e: FollowView| e.followee_id == id
            }),
            other == (if outgoing {
                |e: FollowView| e.followee_id
            } else {
                |e: FollowView| e.follower_id
            }),
            lists_accounts(v, out@, v.follows.take(i as int).filter(keep).map_values(other)),
        decreases n - i,
    {
        let e = store.follow_at(i);
        proof {
            assert(v.follows.take(i as int + 1) =~= v.follows.take(i as int).push(e@));
            v.follows.take(i as int).lemma_filter_push(e@, keep);
        }
        if edge_kept(e, id, outgoing) {
            let them = if outgoing {
                e.followee_id
            } else {
                e.follower_id
            };
            assert(them == other(e@));
            assert(v.has_account(them));
            match store.account_by_id(them) {
                Some(a) => {
                    let ghost before = out@;
                    let ghost ids0 = v.follows.take(i as int).filter(keep).map_values(other);
                    proof {
                        let j = choose|j: int| 0 <= j < v.accounts.len() && v.accounts[j].id == them;
                        assert(v.accounts[j].id == them);
                        assert(a.id == them);
                    }
                    let ghost av = a@;
                    let u = UserResponse { id: a.id, username: a.username };
                    proof {
                        let ids1 = v.follows.take(i as int + 1).filter(keep).map_values(other);
                        assert(ids1 =~= ids0.push(them));
                        assert(v.account_by_id(them) == Some(av));
                        lemma_lists_push(v, before, ids0, u, them);
                    }
                    out.push(u);
                },
                None => {
                    assert(false);
                },
            }
        } else {
            assert(!keep(e@));
            assert(v.follows.take(i as int + 1).filter(keep) == v.follows.take(i as int).filter(keep));
        }
        i = i + 1;
    }
    assert(v.follows.take(n as int) =~= v.follows);
    out
}

/// The accounts that the account named `name` follows.
pub fn following(store: &Store, name: &str) -> (r: Result<Vec<UserResponse>, ApiError>)
    requires
        store@.wf(),
    ensures
        match store@.account_by_name(name@) {
            None => r == Err::<Vec<UserResponse>, ApiError>(ApiError::UserNotFound),
            Some(a) => r matches Ok(users) && lists_accounts(store@, users@, neighbours(store@, a.id, true)),
        },
{
    match store.account_by_name(name) {
        Some(a) => Ok(neighbour_accounts(store, a.id, true)),
        None => Err(ApiError::UserNotFound),
    }
}

/// The accounts that follow the account named `name`.
pub fn followers(store: &Store, name: &str) -> (r: Result<Vec<UserResponse>, ApiError>)
    requires
        store@.wf(),
    ensures
        match store@.account_by_name(name@) {
            None => r == Err::<Vec<UserResponse>, ApiError>(ApiError::UserNotFound),
            Some(a) => r matches Ok(users) && lists_accounts(store@, users@, neighbours(store@, a.id, false)),
        },
{
    match store.account_by_name(name) {
        Some(a) => Ok(neighbour_accounts(store, a.id, false)),
        None => Err(ApiError::UserNotFound),
    }
}

/// Following oneself is refused with "You cannot follow yourself", for every
/// account.
pub proof fn lemma_self_follow_rejected(v: StoreView, x: AccountView)
    requires
        v.wf(),
        v.accounts.contains(x),
    ensures
        follow_outcome(v, x.id, x.username) == Err::<u128, ApiError>(ApiError::SelfFollow),
        message_of(ApiError::SelfFollow) == Some("You cannot follow yourself"@),
{
    let i = choose|i: int| 0 <= i < v.accounts.len() && v.accounts[i] == x;
    assert(v.has_username(x.username)) by {
        assert(v.accounts[i].username == x.username);
    }
    let j = choose|j: int| 0 <= j < v.accounts.len() && v.accounts[j].username == x.username;
    assert(j == i);
}

/// Following an account succeeds the first time and is refused with "You cannot
/// follow the same user twice" the second time.
pub proof fn lemma_follow_twice(v0: StoreView, v1: StoreView, follower: u128, name: Seq<char>)
    requires
        v0.wf(),
        v0.has_account(follower),
        v0.account_by_name(name) matches Some(b) && b.id != follower && !v0.follows(follower, b.id),
        followed(v0, v1, follower, v0.account_by_name(name)->Some_0.id),
    ensures
        follow_outcome(v0, follower, name) == Ok::<u128, ApiError>(
            v0.account_by_name(name)->Some_0.id,
        ),
        follow_outcome(v1, follower, name) == Err::<u128, ApiError>(ApiError::DuplicateFollow),
        message_of(ApiError::DuplicateFollow) == Some("You cannot follow the same user twice"@),
{
    let b = v0.account_by_name(name)->Some_0;
    assert(v1.accounts == v0.accounts);
    assert(v1.account_by_name(name) == v0.account_by_name(name));
    let last = v1.follows.len() - 1;
    assert(v1.follows[last].follower_id == follower && v1.follows[last].followee_id == b.id);
    assert(v1.follows(follower, b.id));
}

} // verus!
