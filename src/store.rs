//! The four relations of the social network (accounts, session tokens, follow
//! edges and posts) with the uniqueness and reference constraints that the
//! backing store enforces.
use vstd::prelude::*;

verus! {

/// An account row.
pub struct Account {
    pub id: u128,
    pub username: String,
    pub password_hash: String,
}

/// A session token row.
pub struct SessionToken {
    pub id: u128,
    pub account_id: u128,
    pub token: String,
    pub created_at: i64,
}

/// A follow edge: `follower_id` sees the posts of `followee_id`.
pub struct FollowEdge {
    pub id: u128,
    pub follower_id: u128,
    pub followee_id: u128,
    pub created_at: i64,
}

/// A post (tweet) row.
pub struct Post {
    pub id: u128,
    pub author_id: u128,
    pub text: String,
    pub created_at: i64,
}

pub struct AccountView {
    pub id: u128,
    pub username: Seq<char>,
    pub password_hash: Seq<char>,
}

pub struct TokenView {
    pub id: u128,
    pub account_id: u128,
    pub token: Seq<char>,
    pub created_at: i64,
}

pub struct FollowView {
    pub id: u128,
    pub follower_id: u128,
    pub followee_id: u128,
    pub created_at: i64,
}

pub struct PostView {
    pub id: u128,
    pub author_id: u128,
    pub text: Seq<char>,
    pub created_at: i64,
}

impl View for Account {
    type V = AccountView;

    open spec fn view(&self) -> AccountView {
        AccountView { id: self.id, username: self.username@, password_hash: self.password_hash@ }
    }
}

impl View for SessionToken {
    type V = TokenView;

    open spec fn view(&self) -> TokenView {
        TokenView {
            id: self.id,
            account_id: self.account_id,
            token: self.token@,
            created_at: self.created_at,
        }
    }
}

impl View for FollowEdge {
    type V = FollowView;

    open spec fn view(&self) -> FollowView {
        FollowView {
            id: self.id,
            follower_id: self.follower_id,
            followee_id: self.followee_id,
            created_at: self.created_at,
        }
    }
}

impl View for Post {
    type V = PostView;

    open spec fn view(&self) -> PostView {
        PostView {
            id: self.id,
            author_id: self.author_id,
            text: self.text@,
            created_at: self.created_at,
        }
    }
}

/// The contents of a [`Store`]: each relation as its rows in insertion order.
pub struct StoreView {
    pub accounts: Seq<AccountView>,
    pub tokens: Seq<TokenView>,
    pub follows: Seq<FollowView>,
    pub posts: Seq<PostView>,
}

impl StoreView {
    pub open spec fn empty() -> StoreView {
        StoreView {
            accounts: Seq::empty(),
            tokens: Seq::empty(),
            follows: Seq::empty(),
            posts: Seq::empty(),
        }
    }

    pub open spec fn has_account(self, id: u128) -> bool {
        exists|i: int| 0 <= i < self.accounts.len() && self.accounts[i].id == id
    }

    pub open spec fn has_username(self, name: Seq<char>) -> bool {
        exists|i: int| 0 <= i < self.accounts.len() && self.accounts[i].username == name
    }

    pub open spec fn has_token(self, t: Seq<char>) -> bool {
        exists|i: int| 0 <= i < self.tokens.len() && self.tokens[i].token == t
    }

    pub open spec fn has_post(self, id: u128) -> bool {
        exists|i: int| 0 <= i < self.posts.len() && self.posts[i].id == id
    }

    /// Whether the edge `follower -> followee` is present.
    pub open spec fn follows(self, follower: u128, followee: u128) -> bool {
        exists|i: int|
            0 <= i < self.follows.len() && self.follows[i].follower_id == follower
                && self.follows[i].followee_id == followee
    }

    /// The account with the given id.
    pub open spec fn account_by_id(self, id: u128) -> Option<AccountView> {
        if self.has_account(id) {
            Some(
                self.accounts[choose|i: int| 0 <= i < self.accounts.len() && self.accounts[i].id == id],
            )
        } else {
            None
        }
    }

    /// The account with the given username.
    pub open spec fn account_by_name(self, name: Seq<char>) -> Option<AccountView> {
        if self.has_username(name) {
            Some(
                self.accounts[choose|i: int|
                    0 <= i < self.accounts.len() && self.accounts[i].username == name],
            )
        } else {
            None
        }
    }

    /// The id of the account that holds session token `t`.
    pub open spec fn token_owner(self, t: Seq<char>) -> Option<u128> {
        if self.has_token(t) {
            Some(
                self.tokens[choose|i: int| 0 <= i < self.tokens.len() && self.tokens[i].token == t].account_id,
            )
        } else {
            None
        }
    }

    /// The account that session token `t` identifies.
    pub open spec fn identity_of(self, t: Seq<char>) -> Option<AccountView> {
        match self.token_owner(t) {
            Some(id) => self.account_by_id(id),
            None => None,
        }
    }

    pub open spec fn accounts_wf(self) -> bool {
        &&& forall|i: int, j: int|
            0 <= i < self.accounts.len() && 0 <= j < self.accounts.len() && self.accounts[i].id
                == self.accounts[j].id ==> i == j
        &&& forall|i: int, j: int|
            0 <= i < self.accounts.len() && 0 <= j < self.accounts.len()
                && self.accounts[i].username == self.accounts[j].username ==> i == j
    }

    pub open spec fn tokens_wf(self) -> bool {
        &&& forall|i: int, j: int|
            0 <= i < self.tokens.len() && 0 <= j < self.tokens.len() && self.tokens[i].token
                == self.tokens[j].token ==> i == j
        &&& forall|i: int|
            0 <= i < self.tokens.len() ==> #[trigger] self.has_account(self.tokens[i].account_id)
    }

    pub open spec fn follows_wf(self) -> bool {
        &&& forall|i: int, j: int|
            0 <= i < self.follows.len() && 0 <= j < self.follows.len()
                && self.follows[i].follower_id == self.follows[j].follower_id
                && self.follows[i].followee_id == self.follows[j].followee_id ==> i == j
        &&& forall|i: int|
            0 <= i < self.follows.len() ==> #[trigger] self.follows[i].follower_id
                != self.follows[i].followee_id
        &&& forall|i: int|
            0 <= i < self.follows.len() ==> #[trigger] self.has_account(self.follows[i].follower_id)
        &&& forall|i: int|
            0 <= i < self.follows.len() ==> #[trigger] self.has_account(self.follows[i].followee_id)
    }

    pub open spec fn posts_wf(self) -> bool {
        &&& forall|i: int, j: int|
            0 <= i < self.posts.len() && 0 <= j < self.posts.len() && self.posts[i].id
                == self.posts[j].id ==> i == j
        &&& forall|i: int|
            0 <= i < self.posts.len() ==> #[trigger] self.has_account(self.posts[i].author_id)
    }

    /// The constraints of the store: unique account ids and usernames, unique
    /// tokens, unique follow pairs without self loops, unique post ids, and every
    /// reference to an account resolves.
    pub open spec fn wf(self) -> bool {
        &&& self.accounts_wf()
        &&& self.tokens_wf()
        &&& self.follows_wf()
        &&& self.posts_wf()
    }
}

/// Why the store refused a write.
#[derive(Debug, Clone, Copy, PartialEq, Eq, Structural)]
pub enum StoreError {
    /// A uniqueness constraint would be broken.
    UniqueViolation,
    /// A row would reference an account that does not exist.
    ForeignKeyViolation,
    /// A follow edge would point from an account to itself.
    CheckViolation,
}

/// An in-memory relational store holding the four relations.
pub struct Store {
    accounts: Vec<Account>,
    tokens: Vec<SessionToken>,
    follows: Vec<FollowEdge>,
    posts: Vec<Post>,
}

impl View for Store {
    type V = StoreView;

    closed spec fn view(&self) -> StoreView {
        StoreView {
            accounts: self.accounts@.map_values(|a: Account| a@),
            tokens: self.tokens@.map_values(|t: SessionToken| t@),
            follows: self.follows@.map_values(|f: FollowEdge| f@),
            posts: self.posts@.map_values(|p: Post| p@),
        }
    }
}

pub fn copy_account(a: &Account) -> (r: Account)
    ensures
        r@ == a@,
{
    Account { id: a.id, username: a.username.clone(), password_hash: a.password_hash.clone() }
}

impl Store {
    /// An empty store.
    pub fn new() -> (r: Store)
        ensures
            r@ == StoreView::empty(),
            r@.wf(),
    {
        let r = Store { accounts: Vec::new(), tokens: Vec::new(), follows: Vec::new(), posts: Vec::new() };
        assert(r@.accounts =~= Seq::<AccountView>::empty());
        assert(r@.tokens =~= Seq::<TokenView>::empty());
        assert(r@.follows =~= Seq::<FollowView>::empty());
        assert(r@.posts =~= Seq::<PostView>::empty());
        r
    }

    /// The account with the given username, if any.
    pub fn account_by_name(&self, name: &str) -> (r: Option<Account>)
        requires
            self@.wf(),
        ensures
            r matches Some(a) ==> Some(a@) == self@.account_by_name(name@),
            r is None ==> self@.account_by_name(name@) is None,
    {
        let key = name.to_owned();
        let mut i: usize = 0;
        while i < self.accounts.len()
            invariant
                0 <= i <= self.accounts.len(),
                key@ == name@,
                self@.wf(),
                forall|k: int| 0 <= k < i ==> self@.accounts[k].username != name@,
            decreases self.accounts.len() - i,
        {
            if self.accounts[i].username == key {
                let ghost v = self@;
                assert(v.accounts[i as int].username == name@);
                assert(v.has_username(name@));
                let ghost j = choose|j: int| 0 <= j < v.accounts.len() && v.accounts[j].username == name@;
                assert(j == i);
                return Some(copy_account(&self.accounts[i]));
            }
            i = i + 1;
        }
        None
    }

    /// The account with the given id, if any.
    pub fn account_by_id(&self, id: u128) -> (r: Option<Account>)
        requires
            self@.wf(),
        ensures
            r matches Some(a) ==> Some(a@) == self@.account_by_id(id),
            r is None ==> self@.account_by_id(id) is None,
    {
        let mut i: usize = 0;
        while i < self.accounts.len()
            invariant
                0 <= i <= self.accounts.len(),
                self@.wf(),
                forall|k: int| 0 <= k < i ==> self@.accounts[k].id != id,
            decreases self.accounts.len() - i,
        {
            if self.accounts[i].id == id {
                let ghost v = self@;
                assert(v.accounts[i as int].id == id);
                assert(v.has_account(id));
                let ghost j = choose|j: int| 0 <= j < v.accounts.len() && v.accounts[j].id == id;
                assert(j == i);
                return Some(copy_account(&self.accounts[i]));
            }
            i = i + 1;
        }
        None
    }

    /// Whether some session row holds token `t`.
    pub fn has_token(&self, t: &str) -> (r: bool)
        ensures
            r == self@.has_token(t@),
    {
        match self.token_index(t) {
            Some(_) => true,
            None => false,
        }
    }

    fn token_index(&self, t: &str) -> (r: Option<usize>)
        ensures
            r matches Some(i) ==> i < self@.tokens.len() && self@.tokens[i as int].token == t@,
            r is None ==> !self@.has_token(t@),
    {
        let key = t.to_owned();
        let mut i: usize = 0;
        while i < self.tokens.len()
            invariant
                0 <= i <= self.tokens.len(),
                key@ == t@,
                forall|k: int| 0 <= k < i ==> self@.tokens[k].token != t@,
            decreases self.tokens.len() - i,
        {
            if self.tokens[i].token == key {
                return Some(i);
            }
            i = i + 1;
        }
        None
    }

    /// The account that session token `t` belongs to, if the token is present.
    pub fn identity_of(&self, t: &str) -> (r: Option<Account>)
        requires
            self@.wf(),
        ensures
            r matches Some(a) ==> Some(a@) == self@.identity_of(t@),
            r is None ==> self@.identity_of(t@) is None,
    {
        match self.token_index(t) {
            Some(i) => {
                let ghost v = self@;
                assert(v.has_token(t@));
                let ghost j = choose|j: int| 0 <= j < v.tokens.len() && v.tokens[j].token == t@;
                assert(j == i);
                self.account_by_id(self.tokens[i].account_id)
            },
            None => None,
        }
    }

    /// Whether the edge `follower -> followee` is present.
    pub fn is_following(&self, follower: u128, followee: u128) -> (r: bool)
        ensures
            r == self@.follows(follower, followee),
    {
        let mut i: usize = 0;
        while i < self.follows.len()
            invariant
                0 <= i <= self.follows.len(),
                forall|k: int|
                    0 <= k < i ==> !(self@.follows[k].follower_id == follower
                        && self@.follows[k].followee_id == followee),
            decreases self.follows.len() - i,
        {
            if self.follows[i].follower_id == follower && self.follows[i].followee_id == followee {
                assert(self@.follows[i as int].follower_id == follower);
                return true;
            }
            i = i + 1;
        }
        false
    }

    /// Whether a post with the given id is present.
    pub fn has_post(&self, id: u128) -> (r: bool)
        ensures
            r == self@.has_post(id),
    {
        let mut i: usize = 0;
        while i < self.posts.len()
            invariant
                0 <= i <= self.posts.len(),
                forall|k: int| 0 <= k < i ==> self@.posts[k].id != id,
            decreases self.posts.len() - i,
        {
            if self.posts[i].id == id {
                assert(self@.posts[i as int].id == id);
                return true;
            }
            i = i + 1;
        }
        false
    }

    /// Whether an account with the given id is present.
    pub fn has_account(&self, id: u128) -> (r: bool)
        requires
            self@.wf(),
        ensures
            r == self@.has_account(id),
    {
        self.account_by_id(id).is_some()
    }

    /// Adds an account. Refused when the id or the username is already taken.
    pub fn insert_account(&mut self, id: u128, username: String, password_hash: String) -> (r:
        Result<(), StoreError>)
        requires
            old(self)@.wf(),
        ensures
            final(self)@.wf(),
            r is Ok <==> !old(self)@.has_account(id) && !old(self)@.has_username(username@),
            r is Err ==> r == Err::<(), StoreError>(StoreError::UniqueViolation) && final(self)@ == old(self)@,
            r is Ok ==> final(self)@ == (StoreView {
                accounts: old(self)@.accounts.push(
                    AccountView { id, username: username@, password_hash: password_hash@ },
                ),
                ..old(self)@
            }),
    {
        let taken_id = self.account_by_id(id).is_some();
        let taken_name = self.account_by_name(username.as_str()).is_some();
        if taken_id || taken_name {
            return Err(StoreError::UniqueViolation);
        }
        let ghost v0 = self@;
        let a = Account { id, username, password_hash };
        let ghost av = a@;
        self.accounts.push(a);
        proof {
            let v = self@;
            assert(v.accounts =~= v0.accounts.push(av));
            assert(v.tokens == v0.tokens);
            assert(v.follows == v0.follows);
            assert(v.posts == v0.posts);
            lemma_accounts_grow(v0, v);
        }
        Ok(())
    }

    /// Adds a session token for an account. Refused when the account does not
    /// exist or the token is already held.
    pub fn insert_token(&mut self, id: u128, account_id: u128, token: String, created_at: i64) -> (r:
        Result<(), StoreError>)
        requires
            old(self)@.wf(),
        ensures
            final(self)@.wf(),
            r == Err::<(), StoreError>(StoreError::ForeignKeyViolation) <==> !old(self)@.has_account(
                account_id,
            ),
            r == Err::<(), StoreError>(StoreError::UniqueViolation) <==> old(self)@.has_account(
                account_id,
            ) && old(self)@.has_token(token@),
            r is Ok <==> old(self)@.has_account(account_id) && !old(self)@.has_token(token@),
            r is Err ==> final(self)@ == old(self)@,
            r is Ok ==> final(self)@ == (StoreView {
                tokens: old(self)@.tokens.push(
                    TokenView { id, account_id, token: token@, created_at },
                ),
                ..old(self)@
            }),
    {
        if !self.has_account(account_id) {
            return Err(StoreError::ForeignKeyViolation);
        }
        if self.has_token(token.as_str()) {
            return Err(StoreError::UniqueViolation);
        }
        let ghost v0 = self@;
        let t = SessionToken { id, account_id, token, created_at };
        let ghost tv = t@;
        self.tokens.push(t);
        proof {
            let v = self@;
            assert(v.tokens =~= v0.tokens.push(tv));
            assert(v.accounts == v0.accounts);
            assert(v.follows == v0.follows);
            assert(v.posts == v0.posts);
            assert(v.has_account(tv.account_id));
            assert forall|x: u128| v.has_account(x) == v0.has_account(x) by {}
        }
        Ok(())
    }

    /// Adds the follow edge `follower -> followee`. Refused when either account is
    /// missing, when the two are the same account, or when the edge is present.
    pub fn insert_follow(&mut self, id: u128, follower: u128, followee: u128, created_at: i64) -> (r:
        Result<(), StoreError>)
        requires
            old(self)@.wf(),
        ensures
            final(self)@.wf(),
            r == Err::<(), StoreError>(StoreError::ForeignKeyViolation) <==> !old(self)@.has_account(
                follower,
            ) || !old(self)@.has_account(followee),
            r == Err::<(), StoreError>(StoreError::CheckViolation) <==> old(self)@.has_account(
                follower,
            ) && old(self)@.has_account(followee) && follower == followee,
            r == Err::<(), StoreError>(StoreError::UniqueViolation) <==> old(self)@.has_account(
                follower,
            ) && old(self)@.has_account(followee) && follower != followee && old(self)@.follows(
                follower,
                followee,
            ),
            r is Ok <==> old(self)@.has_account(follower) && old(self)@.has_account(followee)
                && follower != followee && !old(self)@.follows(follower, followee),
            r is Err ==> final(self)@ == old(self)@,
            r is Ok ==> final(self)@ == (StoreView {
                follows: old(self)@.follows.push(
                    FollowView { id, follower_id: follower, followee_id: followee, created_at },
                ),
                ..old(self)@
            }),
    {
        if !self.has_account(follower) || !self.has_account(followee) {
            return Err(StoreError::ForeignKeyViolation);
        }
        if follower == followee {
            return Err(StoreError::CheckViolation);
        }
        if self.is_following(follower, followee) {
            return Err(StoreError::UniqueViolation);
        }
        let ghost v0 = self@;
        let e = FollowEdge { id, follower_id: follower, followee_id: followee, created_at };
        let ghost ev = e@;
        self.follows.push(e);
        proof {
            let v = self@;
            assert(v.follows =~= v0.follows.push(ev));
            assert(v.accounts == v0.accounts);
            assert(v.tokens == v0.tokens);
            assert(v.posts == v0.posts);
            assert forall|x: u128| v.has_account(x) == v0.has_account(x) by {}
        }
        Ok(())
    }

    /// Adds a post. Refused when the author does not exist or the id is taken.
    pub fn insert_post(&mut self, id: u128, author: u128, text: String, created_at: i64) -> (r:
        Result<(), StoreError>)
        requires
            old(self)@.wf(),
        ensures
            final(self)@.wf(),
            r == Err::<(), StoreError>(StoreError::ForeignKeyViolation) <==> !old(self)@.has_account(
                author,
            ),
            r == Err::<(), StoreError>(StoreError::UniqueViolation) <==> old(self)@.has_account(
                author,
            ) && old(self)@.has_post(id),
            r is Ok <==> old(self)@.has_account(author) && !old(self)@.has_post(id),
            r is Err ==> final(self)@ == old(self)@,
            r is Ok ==> final(self)@ == (StoreView {
                posts: old(self)@.posts.push(
                    PostView { id, author_id: author, text: text@, created_at },
                ),
                ..old(self)@
            }),
    {
        if !self.has_account(author) {
            return Err(StoreError::ForeignKeyViolation);
        }
        if self.has_post(id) {
            return Err(StoreError::UniqueViolation);
        }
        let ghost v0 = self@;
        let p = Post { id, author_id: author, text, created_at };
        let ghost pv = p@;
        self.posts.push(p);
        proof {
            let v = self@;
            assert(v.posts =~= v0.posts.push(pv));
            assert(v.accounts == v0.accounts);
            assert(v.tokens == v0.tokens);
            assert(v.follows == v0.follows);
            assert forall|x: u128| v.has_account(x) == v0.has_account(x) by {}
        }
        Ok(())
    }

    /// Number of follow edges.
    pub fn follow_count(&self) -> (r: usize)
        ensures
            r == self@.follows.len(),
    {
        self.follows.len()
    }

    /// The follow edge at position `i`.
    pub fn follow_at(&self, i: usize) -> (r: &FollowEdge)
        requires
            i < self@.follows.len(),
        ensures
            r@ == self@.follows[i as int],
    {
        &self.follows[i]
    }

    /// Number of posts.
    pub fn post_count(&self) -> (r: usize)
        ensures
            r == self@.posts.len(),
    {
        self.posts.len()
    }

    /// The post at position `i`.
    pub fn post_at(&self, i: usize) -> (r: &Post)
        requires
            i < self@.posts.len(),
        ensures
            r@ == self@.posts[i as int],
    {
        &self.posts[i]
    }

    /// Deletes every session row that holds token `t`; nothing else changes.
    pub fn delete_tokens(&mut self, t: &str)
        requires
            old(self)@.wf(),
        ensures
            final(self)@.wf(),
            final(self)@ == (StoreView {
                tokens: old(self)@.tokens.filter(|r: TokenView| r.token != t@),
                ..old(self)@
            }),
    {
        let key = t.to_owned();
        let ghost v0 = self@;
        let ghost keep = |r: TokenView| r.token != t@;
        let mut kept: Vec<SessionToken> = Vec::new();
        let old_tokens = &self.tokens;
        let mut i: usize = 0;
        while i < old_tokens.len()
            invariant
                0 <= i <= old_tokens.len(),
                key@ == t@,
                keep == (|r: TokenView| r.token != t@),
                old_tokens@.map_values(|x: SessionToken| x@) == v0.tokens,
                kept@.map_values(|x: SessionToken| x@) == v0.tokens.take(i as int).filter(keep),
            decreases old_tokens.len() - i,
        {
            let r = &old_tokens[i];
            proof {
                assert(v0.tokens[i as int] == r@);
                assert(v0.tokens.take(i as int + 1) =~= v0.tokens.take(i as int).push(r@));
                v0.tokens.take(i as int).lemma_filter_push(r@, keep);
            }
            let same = r.token == key;
            if !same {
                let c = SessionToken {
                    id: r.id,
                    account_id: r.account_id,
                    token: r.token.clone(),
                    created_at: r.created_at,
                };
                let ghost before = kept@;
                assert(c@ == r@);
                assert(keep(r@));
                kept.push(c);
                assert(kept@ =~= before.push(c));
                assert(kept@.map_values(|x: SessionToken| x@) =~= before.map_values(
                    |x: SessionToken| x@,
                ).push(c@));
            } else {
                assert(!keep(r@));
            }
            i = i + 1;
        }
        assert(v0.tokens.take(old_tokens.len() as int) =~= v0.tokens);
        self.tokens = kept;
        proof {
            let v = self@;
            assert(v.tokens == v0.tokens.filter(keep));
            assert(v.accounts == v0.accounts);
            assert(v.follows == v0.follows);
            assert(v.posts == v0.posts);
            assert forall|x: u128| v.has_account(x) == v0.has_account(x) by {}
            assert forall|a: int, b: int|
                0 <= a < v.tokens.len() && 0 <= b < v.tokens.len() && v.tokens[a].token
                    == v.tokens[b].token implies a == b by {
                lemma_filter_unique_tokens(v0.tokens, keep, a, b);
            }
            assert forall|a: int| 0 <= a < v.tokens.len() implies #[trigger] v.has_account(
                v.tokens[a].account_id,
            ) by {
                assert(v0.tokens.filter(keep).contains(v.tokens[a]));
                v0.tokens.lemma_filter_contains_rev(keep, v.tokens[a]);
                let k = choose|k: int| 0 <= k < v0.tokens.len() && v0.tokens[k] == v.tokens[a];
                assert(v0.has_account(v0.tokens[k].account_id));
            }
        }
    }
}

/// Keeping a subsequence of rows with unique tokens keeps them unique.
proof fn lemma_filter_unique_tokens(s: Seq<TokenView>, keep: spec_fn(TokenView) -> bool, a: int, b: int)
    requires
        forall|i: int, j: int|
            0 <= i < s.len() && 0 <= j < s.len() && s[i].token == s[j].token ==> i == j,
        0 <= a < s.filter(keep).len(),
        0 <= b < s.filter(keep).len(),
        s.filter(keep)[a].token == s.filter(keep)[b].token,
    ensures
        a == b,
    decreases s.len(),
{
    reveal_with_fuel(Seq::filter, 1);
    if s.len() > 0 {
        let f = s.drop_last().filter(keep);
        if keep(s.last()) {
            if a < f.len() && b < f.len() {
                lemma_filter_unique_tokens(s.drop_last(), keep, a, b);
            } else if a < f.len() || b < f.len() {
                let x = if a < f.len() { a } else { b };
                assert(f.contains(f[x]));
                s.drop_last().lemma_filter_contains_rev(keep, f[x]);
                let k = choose|k: int| 0 <= k < s.drop_last().len() && s.drop_last()[k] == f[x];
                assert(s[k].token == s[s.len() - 1].token);
            }
        } else {
            lemma_filter_unique_tokens(s.drop_last(), keep, a, b);
        }
    }
}

/// Adding an account keeps every account reference resolvable.
proof fn lemma_accounts_grow(v0: StoreView, v: StoreView)
    requires
        v0.accounts.len() <= v.accounts.len(),
        forall|i: int| 0 <= i < v0.accounts.len() ==> v.accounts[i] == v0.accounts[i],
    ensures
        forall|id: u128| v0.has_account(id) ==> #[trigger] v.has_account(id),
{
    assert forall|id: u128| v0.has_account(id) implies #[trigger] v.has_account(id) by {
        let i = choose|i: int| 0 <= i < v0.accounts.len() && v0.accounts[i].id == id;
        assert(v.accounts[i].id == id);
    }
}

} // verus!
