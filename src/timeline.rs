//! The timeline: an account's own posts and the posts of everyone it follows,
//! newest first, cut into pages.
use vstd::prelude::*;
use crate::auth::{auth_outcome, authenticate, opt_view, AuthGate};
use crate::errors::{auth_error, ApiError};
use crate::responses::{TimelineTweet, UserResponse};
use crate::store::{Post, PostView, Store, StoreView};

verus! {

/// Page size used when none is asked for, and the largest one served.
pub const MAX_PAGE_SIZE: usize = 20;

/// Whether post `p` belongs in the timeline of account `me`.
pub open spec fn in_feed(v: StoreView, me: u128, p: PostView) -> bool {
    p.author_id == me || v.follows(me, p.author_id)
}

/// Whether `a` comes before `b` in a timeline: it is newer, or as new with a
/// larger id.
pub open spec fn newer(a: PostView, b: PostView) -> bool {
    a.created_at > b.created_at || (a.created_at == b.created_at && a.id > b.id)
}

/// `q` with `x` placed before the first post that it is newer than.
pub open spec fn insert_newest_first(x: PostView, q: Seq<PostView>) -> Seq<PostView>
    decreases q.len(),
{
    if q.len() == 0 {
        seq![x]
    } else if newer(x, q[0]) {
        seq![x] + q
    } else {
        seq![q[0]] + insert_newest_first(x, q.drop_first())
    }
}

/// The posts of `q` ordered newest first.
pub open spec fn newest_first(q: Seq<PostView>) -> Seq<PostView>
    decreases q.len(),
{
    if q.len() == 0 {
        q
    } else {
        insert_newest_first(q.last(), newest_first(q.drop_last()))
    }
}

/// The whole timeline of account `me`.
pub open spec fn feed(v: StoreView, me: u128) -> Seq<PostView> {
    newest_first(v.posts.filter(|p: PostView| in_feed(v, me, p)))
}

/// Page `page` (counted from 1) of `s` when pages hold `size` items.
pub open spec fn page_of<A>(s: Seq<A>, page: nat, size: nat) -> Seq<A> {
    let start = (page - 1) * size;
    if start >= s.len() {
        Seq::empty()
    } else if start + size >= s.len() {
        s.subrange(start, s.len() as int)
    } else {
        s.subrange(start, start + size)
    }
}

/// The page size served for a request: 20 when none is given, at most 20, at
/// least 1.
pub open spec fn served_page_size(requested: Option<usize>) -> nat {
    match requested {
        None => MAX_PAGE_SIZE as nat,
        Some(k) => if k > MAX_PAGE_SIZE {
            MAX_PAGE_SIZE as nat
        } else if k < 1 {
            1
        } else {
            k as nat
        },
    }
}

/// The page served for a request: 1 when none is given; page 0 is page 1.
pub open spec fn served_page(requested: Option<usize>) -> nat {
    match requested {
        None => 1,
        Some(p) => if p < 1 {
            1
        } else {
            p as nat
        },
    }
}

pub fn page_size(requested: Option<usize>) -> (r: usize)
    ensures
        r == served_page_size(requested),
        1 <= r <= MAX_PAGE_SIZE,
{
    match requested {
        None => MAX_PAGE_SIZE,
        Some(k) => if k > MAX_PAGE_SIZE {
            MAX_PAGE_SIZE
        } else if k < 1 {
            1
        } else {
            k
        },
    }
}

pub fn page_number(requested: Option<usize>) -> (r: usize)
    ensures
        r == served_page(requested),
        r >= 1,
{
    match requested {
        None => 1,
        Some(p) => if p < 1 {
            1
        } else {
            p
        },
    }
}

/// Inserting at the first position whose post `x` is newer than is what
/// `insert_newest_first` does.
proof fn lemma_insert_at(x: PostView, q: Seq<PostView>, k: int)
    requires
        0 <= k <= q.len(),
        forall|j: int| 0 <= j < k ==> !newer(x, #[trigger] q[j]),
        k < q.len() ==> newer(x, q[k]),
    ensures
        insert_newest_first(x, q) == q.insert(k, x),
    decreases q.len(),
{
    if q.len() == 0 {
        assert(q.insert(k, x) =~= seq![x]);
    } else if newer(x, q[0]) {
        if k > 0 {
            assert(!newer(x, q[0]));
        }
        assert(q.insert(0, x) =~= seq![x] + q);
    } else {
        let rest = q.drop_first();
        assert forall|j: int| 0 <= j < k - 1 implies !newer(x, #[trigger] rest[j]) by {
            assert(rest[j] == q[j + 1]);
        }
        if k - 1 < rest.len() {
            assert(rest[k - 1] == q[k]);
        }
        lemma_insert_at(x, rest, k - 1);
        assert(seq![q[0]] + rest.insert(k - 1, x) =~= q.insert(k, x));
    }
}

pub fn copy_post(p: &Post) -> (r: Post)
    ensures
        r@ == p@,
{
    Post { id: p.id, author_id: p.author_id, text: p.text.clone(), created_at: p.created_at }
}

fn is_newer(a: &Post, b: &Post) -> (r: bool)
    ensures
        r == newer(a@, b@),
{
    a.created_at > b.created_at || (a.created_at == b.created_at && a.id > b.id)
}

/// Places `x` into `out` before the first post that it is newer than.
fn insert_post_newest_first(out: &mut Vec<Post>, x: Post)
    ensures
        final(out)@.map_values(|p: Post| p@) == insert_newest_first(
            x@,
            old(out)@.map_values(|p: Post| p@),
        ),
{
    let ghost q = out@.map_values(|p: Post| p@);
    let mut k: usize = 0;
    while k < out.len()
        invariant
            0 <= k <= out.len(),
            q == out@.map_values(|p: Post| p@),
            forall|j: int| 0 <= j < k ==> !newer(x@, #[trigger] q[j]),
        ensures
            0 <= k <= out.len(),
            forall|j: int| 0 <= j < k ==> !newer(x@, #[trigger] q[j]),
            k < out.len() ==> newer(x@, q[k as int]),
        decreases out.len() - k,
    {
        if is_newer(&x, &out[k]) {
            break;
        }
        k = k + 1;
    }
    proof {
        lemma_insert_at(x@, q, k as int);
    }
    let ghost xv = x@;
    out.insert(k, x);
    assert(out@.map_values(|p: Post| p@) =~= q.insert(k as int, xv));
}

/// The whole timeline of account `me`, newest first.
pub fn feed_posts(store: &Store, me: u128) -> (r: Vec<Post>)
    ensures
        r@.map_values(|p: Post| p@) == feed(store@, me),
{
    let ghost v = store@;
    let ghost keep = |p: PostView| in_feed(v, me, p);
    let mut out: Vec<Post> = Vec::new();
    let n = store.post_count();
    let mut i: usize = 0;
    assert(out@.map_values(|p: Post| p@) =~= newest_first(v.posts.take(0).filter(keep))) by {
        assert(v.posts.take(0).filter(keep) =~= Seq::<PostView>::empty()) by {
            reveal_with_fuel(Seq::filter, 1);
        }
    }
    while i < n
        invariant
            0 <= i <= n,
            n == v.posts.len(),
            v == store@,
            keep == (|p: PostView| in_feed(v, me, p)),
            out@.map_values(|p: Post| p@) == newest_first(v.posts.take(i as int).filter(keep)),
        decreases n - i,
    {
        let p = store.post_at(i);
        let ghost before = v.posts.take(i as int).filter(keep);
        proof {
            assert(v.posts.take(i as int + 1) =~= v.posts.take(i as int).push(p@));
            v.posts.take(i as int).lemma_filter_push(p@, keep);
        }
        let mine = p.author_id == me;
        let wanted = mine || store.is_following(me, p.author_id);
        if wanted {
            assert(keep(p@));
            let c = copy_post(p);
            insert_post_newest_first(&mut out, c);
            proof {
                let after = before.push(p@);
                assert(after.drop_last() =~= before);
                assert(after.last() == p@);
            }
        } else {
            assert(!keep(p@));
        }
        i = i + 1;
    }
    assert(v.posts.take(n as int) =~= v.posts);
    out
}

/// Page `page` (counted from 1) of `items` when pages hold `size` posts.
pub fn paginate(items: &Vec<Post>, page: usize, size: usize) -> (r: Vec<Post>)
    requires
        page >= 1,
        size >= 1,
    ensures
        r@.map_values(|p: Post| p@) == page_of(
            items@.map_values(|p: Post| p@),
            page as nat,
            size as nat,
        ),
{
    let ghost s = items@.map_values(|p: Post| p@);
    let len = items.len();
    assert((page as int - 1) * (size as int) <= 0xffff_ffff_ffff_ffff * 0xffff_ffff_ffff_ffff)
        by (nonlinear_arith)
        requires
            0 <= page as int - 1 <= 0xffff_ffff_ffff_ffff,
            0 <= size as int <= 0xffff_ffff_ffff_ffff,
    ;
    let start_wide: u128 = (page as u128 - 1) * (size as u128);
    let mut out: Vec<Post> = Vec::new();
    if start_wide >= len as u128 {
        assert(out@.map_values(|p: Post| p@) =~= page_of(s, page as nat, size as nat));
        return out;
    }
    let start = start_wide as usize;
    let end = if start_wide + size as u128 >= len as u128 {
        len
    } else {
        start + size
    };
    let mut i: usize = start;
    while i < end
        invariant
            start <= i <= end <= len,
            len == items@.len(),
            s == items@.map_values(|p: Post| p@),
            out@.map_values(|p: Post| p@) == s.subrange(start as int, i as int),
        decreases end - i,
    {
        let c = copy_post(&items[i]);
        assert(c@ == s[i as int]);
        let ghost before = out@;
        out.push(c);
        proof {
            assert(out@ =~= before.push(c));
            let m0 = before.map_values(|p: Post| p@);
            assert(out@.map_values(|p: Post| p@) =~= m0.push(c@));
            assert(m0.push(c@) =~= s.subrange(start as int, i as int + 1));
        }
        i = i + 1;
    }
    assert(out@.map_values(|p: Post| p@) =~= page_of(s, page as nat, size as nat));
    out
}

/// Item `k` of a page is item `(page - 1) * size + k` of the whole.
pub proof fn lemma_page_index<A>(s: Seq<A>, page: nat, size: nat, k: int)
    requires
        page >= 1,
        0 <= k < page_of(s, page, size).len(),
    ensures
        0 <= (page - 1) * size + k < s.len(),
        page_of(s, page, size)[k] == s[(page - 1) * size + k],
{
    let start = (page - 1) * size;
    assert(start >= 0) by (nonlinear_arith)
        requires
            page >= 1,
            start == (page - 1) * size,
    ;
}

proof fn lemma_insert_contains(x: PostView, q: Seq<PostView>, y: PostView)
    ensures
        insert_newest_first(x, q).contains(y) <==> (y == x || q.contains(y)),
    decreases q.len(),
{
    let r = insert_newest_first(x, q);
    if q.len() == 0 {
        assert(r[0] == x);
    } else if newer(x, q[0]) {
        assert(r =~= seq![x] + q);
        if q.contains(y) {
            let j = choose|j: int| 0 <= j < q.len() && q[j] == y;
            assert(r[j + 1] == y);
        }
        assert(r[0] == x);
    } else {
        let rest = q.drop_first();
        lemma_insert_contains(x, rest, y);
        let t = insert_newest_first(x, rest);
        assert(r =~= seq![q[0]] + t);
        if r.contains(y) {
            let j = choose|j: int| 0 <= j < r.len() && r[j] == y;
            if j > 0 {
                assert(t[j - 1] == y);
                if rest.contains(y) {
                    let m = choose|m: int| 0 <= m < rest.len() && rest[m] == y;
                    assert(q[m + 1] == y);
                }
            } else {
                assert(q[0] == y);
            }
        }
        if q.contains(y) {
            let j = choose|j: int| 0 <= j < q.len() && q[j] == y;
            if j == 0 {
                assert(r[0] == y);
            } else {
                assert(rest[j - 1] == y);
                let m = choose|m: int| 0 <= m < t.len() && t[m] == y;
                assert(r[m + 1] == y);
            }
        }
        if y == x {
            let m = choose|m: int| 0 <= m < t.len() && t[m] == y;
            assert(r[m + 1] == y);
        }
    }
}

/// Ordering posts newest first keeps exactly the same posts.
pub proof fn lemma_newest_first_contains(q: Seq<PostView>, y: PostView)
    ensures
        newest_first(q).contains(y) <==> q.contains(y),
    decreases q.len(),
{
    if q.len() > 0 {
        lemma_newest_first_contains(q.drop_last(), y);
        lemma_insert_contains(q.last(), newest_first(q.drop_last()), y);
        if q.drop_last().contains(y) {
            let j = choose|j: int| 0 <= j < q.drop_last().len() && q.drop_last()[j] == y;
            assert(q[j] == y);
        }
        if q.contains(y) && y != q.last() {
            let j = choose|j: int| 0 <= j < q.len() && q[j] == y;
            assert(q.drop_last()[j] == y);
        }
        if y == q.last() {
            assert(q[q.len() - 1] == y);
        }
    }
}

/// Every post of a timeline is a post of the store.
pub proof fn lemma_feed_posts_stored(v: StoreView, me: u128, y: PostView)
    requires
        feed(v, me).contains(y),
    ensures
        v.posts.contains(y),
        in_feed(v, me, y),
{
    let keep = |p: PostView| in_feed(v, me, p);
    lemma_newest_first_contains(v.posts.filter(keep), y);
    v.posts.lemma_filter_contains_rev(keep, y);
    let j = choose|j: int| 0 <= j < v.posts.filter(keep).len() && v.posts.filter(keep)[j] == y;
    v.posts.lemma_filter_pred(keep, j);
}

/// Pages 1 to `n` of `s`, one after the other.
pub open spec fn first_pages<A>(s: Seq<A>, size: nat, n: nat) -> Seq<A>
    decreases n,
{
    if n == 0 {
        Seq::empty()
    } else {
        first_pages(s, size, (n - 1) as nat) + page_of(s, n, size)
    }
}

/// How many pages of `size` items `len` items fill: the ceiling of `len / size`.
pub open spec fn page_count(len: nat, size: nat) -> nat {
    if size == 0 {
        0
    } else {
        ((len + size - 1) / size as int) as nat
    }
}

proof fn lemma_first_pages_prefix<A>(s: Seq<A>, size: nat, n: nat)
    requires
        size >= 1,
    ensures
        n * size >= s.len() ==> first_pages(s, size, n) == s,
        n * size < s.len() ==> first_pages(s, size, n) == s.take((n * size) as int),
    decreases n,
{
    if n > 0 {
        let m = (n - 1) as nat;
        lemma_first_pages_prefix(s, size, m);
        assert(n * size == m * size + size) by (nonlinear_arith)
            requires
                m == n - 1,
        ;
        assert(m * size >= 0) by (nonlinear_arith);
        let start = m * size;
        assert(start == (n - 1) * size);
        if start >= s.len() {
            assert(first_pages(s, size, n) =~= s);
        } else if start + size >= s.len() {
            assert(first_pages(s, size, n) =~= s.take(start as int) + s.subrange(
                start as int,
                s.len() as int,
            ));
            assert(first_pages(s, size, n) =~= s);
        } else {
            assert(first_pages(s, size, n) =~= s.take(start as int) + s.subrange(
                start as int,
                (start + size) as int,
            ));
            assert(first_pages(s, size, n) =~= s.take((n * size) as int));
        }
    } else {
        assert(0 * size == 0);
        if s.len() == 0 {
            assert(first_pages(s, size, n) =~= s);
        } else {
            assert(first_pages(s, size, n) =~= s.take(0));
        }
    }
}

/// Pagination is complete: for any page size k of at least 1, pages 1 to
/// ceil(N/k) of a sequence of N items, one after the other, are the sequence
/// itself, each item once and in order.
pub proof fn lemma_pages_complete<A>(s: Seq<A>, size: nat)
    requires
        size >= 1,
    ensures
        first_pages(s, size, page_count(s.len(), size)) == s,
{
    let x = s.len() + size - 1;
    let n = page_count(s.len(), size);
    vstd::arithmetic::div_mod::lemma_fundamental_div_mod(x as int, size as int);
    assert(n * size >= s.len()) by (nonlinear_arith)
        requires
            n == x / size as int,
            x == size * (x / size as int) + x % size as int,
            x % size as int <= size - 1,
            x == s.len() + size - 1,
            size >= 1,
    ;
    lemma_first_pages_prefix(s, size, n);
}

/// Page sizes above the limit are clamped: asking for more than 20 serves
/// pages of 20, and no page holds more than 20 items.
pub proof fn lemma_page_size_clamp<A>(s: Seq<A>, page: nat, requested: usize)
    requires
        page >= 1,
        requested > MAX_PAGE_SIZE,
    ensures
        served_page_size(Some(requested)) == MAX_PAGE_SIZE,
        page_of(s, page, served_page_size(Some(requested))).len() <= MAX_PAGE_SIZE,
{
    let start = (page - 1) * (MAX_PAGE_SIZE as nat);
    assert(start >= 0) by (nonlinear_arith)
        requires
            page >= 1,
            start == (page - 1) * (MAX_PAGE_SIZE as nat),
    ;
}

/// Whether each post of `q` is newer than every post after it.
pub open spec fn strictly_newest_first(q: Seq<PostView>) -> bool {
    forall|i: int, j: int| 0 <= i < j < q.len() ==> newer(#[trigger] q[i], #[trigger] q[j])
}

pub open spec fn distinct_ids(q: Seq<PostView>) -> bool {
    forall|i: int, j: int| 0 <= i < q.len() && 0 <= j < q.len() && q[i].id == q[j].id ==> i == j
}

proof fn lemma_filter_distinct(q: Seq<PostView>, keep: spec_fn(PostView) -> bool)
    requires
        distinct_ids(q),
    ensures
        distinct_ids(q.filter(keep)),
    decreases q.len(),
{
    if q.len() > 0 {
        let d = q.drop_last();
        assert(distinct_ids(d)) by {
            assert forall|i: int, j: int|
                0 <= i < d.len() && 0 <= j < d.len() && d[i].id == d[j].id implies i == j by {
                assert(q[i] == d[i] && q[j] == d[j]);
            }
        }
        lemma_filter_distinct(d, keep);
        assert(q =~= d.push(q.last()));
        d.lemma_filter_push(q.last(), keep);
        let f = d.filter(keep);
        if keep(q.last()) {
            let g = f.push(q.last());
            assert forall|i: int, j: int|
                0 <= i < g.len() && 0 <= j < g.len() && g[i].id == g[j].id implies i == j by {
                if i < f.len() && j == f.len() {
                    assert(f.contains(f[i]));
                    d.lemma_filter_contains_rev(keep, f[i]);
                    let m = choose|m: int| 0 <= m < d.len() && d[m] == f[i];
                    assert(q[m].id == q[q.len() - 1].id);
                } else if j < f.len() && i == f.len() {
                    assert(f.contains(f[j]));
                    d.lemma_filter_contains_rev(keep, f[j]);
                    let m = choose|m: int| 0 <= m < d.len() && d[m] == f[j];
                    assert(q[m].id == q[q.len() - 1].id);
                }
            }
        }
    }
}

proof fn lemma_insert_ordered(x: PostView, q: Seq<PostView>)
    requires
        strictly_newest_first(q),
        forall|k: int| 0 <= k < q.len() ==> (#[trigger] q[k]).id != x.id,
    ensures
        strictly_newest_first(insert_newest_first(x, q)),
    decreases q.len(),
{
    let r = insert_newest_first(x, q);
    if q.len() == 0 {
    } else if newer(x, q[0]) {
        assert(r =~= seq![x] + q);
        assert forall|i: int, j: int| 0 <= i < j < r.len() implies newer(
            #[trigger] r[i],
            #[trigger] r[j],
        ) by {
            if i == 0 {
                if j > 1 {
                    assert(newer(q[0], q[j - 1]));
                }
            } else {
                assert(newer(q[i - 1], q[j - 1]));
            }
        }
    } else {
        let rest = q.drop_first();
        assert(q[0].id != x.id);
        assert(newer(q[0], x));
        assert forall|i: int, j: int| 0 <= i < j < rest.len() implies newer(
            #[trigger] rest[i],
            #[trigger] rest[j],
        ) by {
            assert(newer(q[i + 1], q[j + 1]));
        }
        assert forall|k: int| 0 <= k < rest.len() implies (#[trigger] rest[k]).id != x.id by {
            assert(q[k + 1].id != x.id);
        }
        lemma_insert_ordered(x, rest);
        let t = insert_newest_first(x, rest);
        assert(r =~= seq![q[0]] + t);
        assert forall|i: int, j: int| 0 <= i < j < r.len() implies newer(
            #[trigger] r[i],
            #[trigger] r[j],
        ) by {
            if i == 0 {
                let y = t[j - 1];
                assert(t.contains(y));
                lemma_insert_contains(x, rest, y);
                if y != x {
                    let m = choose|m: int| 0 <= m < rest.len() && rest[m] == y;
                    assert(newer(q[0], q[m + 1]));
                }
            } else {
                assert(newer(t[i - 1], t[j - 1]));
            }
        }
    }
}

proof fn lemma_newest_first_ordered(q: Seq<PostView>)
    requires
        distinct_ids(q),
    ensures
        strictly_newest_first(newest_first(q)),
    decreases q.len(),
{
    if q.len() > 0 {
        let d = q.drop_last();
        assert(distinct_ids(d)) by {
            assert forall|i: int, j: int|
                0 <= i < d.len() && 0 <= j < d.len() && d[i].id == d[j].id implies i == j by {
                assert(q[i] == d[i] && q[j] == d[j]);
            }
        }
        lemma_newest_first_ordered(d);
        let r0 = newest_first(d);
        assert forall|k: int| 0 <= k < r0.len() implies (#[trigger] r0[k]).id != q.last().id by {
            assert(r0.contains(r0[k]));
            lemma_newest_first_contains(d, r0[k]);
            let m = choose|m: int| 0 <= m < d.len() && d[m] == r0[k];
            assert(q[m] == r0[k]);
        }
        lemma_insert_ordered(q.last(), r0);
    }
}

/// A timeline lists its posts newest first (larger id first among equally new
/// posts), so no post appears twice.
pub proof fn lemma_feed_ordered(v: StoreView, me: u128)
    requires
        v.wf(),
    ensures
        strictly_newest_first(feed(v, me)),
        forall|i: int, j: int|
            0 <= i < j < feed(v, me).len() ==> #[trigger] feed(v, me)[i] != #[trigger] feed(v, me)[j],
{
    let keep = |p: PostView| in_feed(v, me, p);
    lemma_filter_distinct(v.posts, keep);
    lemma_newest_first_ordered(v.posts.filter(keep));
    let f = feed(v, me);
    assert forall|i: int, j: int| 0 <= i < j < f.len() implies #[trigger] f[i] != #[trigger] f[j] by {
        assert(newer(f[i], f[j]));
    }
}

/// Whether timeline entry `e` shows post `p` with its author.
pub open spec fn shows(v: StoreView, e: TimelineTweet, p: PostView) -> bool {
    &&& e.id == p.id
    &&& e.text@ == p.text
    &&& e.created_at == p.created_at
    &&& e.user.id == p.author_id
    &&& v.account_by_id(p.author_id) matches Some(a) && e.user.username@ == a.username
}

/// Whether `entries` shows the posts `posts`, one for one.
pub open spec fn shows_all(v: StoreView, entries: Seq<TimelineTweet>, posts: Seq<PostView>) -> bool {
    &&& entries.len() == posts.len()
    &&& forall|k: int| 0 <= k < entries.len() ==> shows(v, #[trigger] entries[k], posts[k])
}

/// The entries showing `posts`, each with its author.
fn with_authors(store: &Store, posts: &Vec<Post>) -> (r: Vec<TimelineTweet>)
    requires
        store@.wf(),
        forall|k: int| 0 <= k < posts@.len() ==> store@.has_account(#[trigger] posts@[k].author_id),
    ensures
        shows_all(store@, r@, posts@.map_values(|p: Post| p@)),
{
    let ghost v = store@;
    let ghost s = posts@.map_values(|p: Post| p@);
    let mut out: Vec<TimelineTweet> = Vec::new();
    let mut i: usize = 0;
    while i < posts.len()
        invariant
            0 <= i <= posts.len(),
            v == store@,
            v.wf(),
            s == posts@.map_values(|p: Post| p@),
            forall|k: int| 0 <= k < posts@.len() ==> v.has_account(#[trigger] posts@[k].author_id),
            out@.len() == i,
            forall|k: int| 0 <= k < i ==> shows(v, #[trigger] out@[k], s[k]),
        decreases posts.len() - i,
    {
        let p = &posts[i];
        assert(v.has_account(posts@[i as int].author_id));
        match store.account_by_id(p.author_id) {
            Some(a) => {
                proof {
                    let j = choose|j: int| 0 <= j < v.accounts.len() && v.accounts[j].id == p.author_id;
                    assert(v.accounts[j].id == p.author_id);
                }
                let ghost av = a@;
                let e = TimelineTweet {
                    id: p.id,
                    text: p.text.clone(),
                    created_at: p.created_at,
                    user: UserResponse { id: a.id, username: a.username },
                };
                assert(shows(v, e, s[i as int]));
                out.push(e);
            },
            None => {
                assert(false);
            },
        }
        i = i + 1;
    }
    out
}

/// The posts of the page of `me`'s timeline.
pub open spec fn timeline_page(v: StoreView, me: u128, page: Option<usize>, size: Option<usize>) -> Seq<
    PostView,
> {
    page_of(feed(v, me), served_page(page), served_page_size(size))
}

/// Page `page` (default 1) of the timeline of the account that `header`
/// authenticates, at most `size` (default and limit 20) posts, newest first.
pub fn timeline(
    gate: &AuthGate,
    store: &Store,
    header: Option<&str>,
    page: Option<usize>,
    size: Option<usize>,
) -> (r: Result<Vec<TimelineTweet>, ApiError>)
    requires
        gate.wf(),
        store@.wf(),
    ensures
        match auth_outcome(store@, opt_view(header)) {
            Err(e) => r == Err::<Vec<TimelineTweet>, ApiError>(auth_error(e)),
            Ok(a) => r matches Ok(entries) && shows_all(
                store@,
                entries@,
                timeline_page(store@, a.id, page, size),
            ),
        },
        r matches Ok(entries) ==> entries@.len() <= MAX_PAGE_SIZE,
{
    let size_served = page_size(size);
    let page_served = page_number(page);
    let me = match authenticate(gate, store, header) {
        Ok(u) => u,
        Err(e) => return Err(ApiError::from_auth(e)),
    };
    let all = feed_posts(store, me.id);
    let chosen = paginate(&all, page_served, size_served);
    let ghost v = store@;
    proof {
        let f = feed(v, me.id);
        let pg = chosen@.map_values(|p: Post| p@);
        assert forall|k: int| 0 <= k < chosen@.len() implies v.has_account(
            #[trigger] chosen@[k].author_id,
        ) by {
            assert(pg[k] == chosen@[k]@);
            assert(pg == page_of(f, page_served as nat, size_served as nat));
            lemma_page_index(f, page_served as nat, size_served as nat, k);
            let start = (page_served as nat - 1) * size_served as nat;
            assert(pg[k] == f[start + k]);
            assert(f.contains(f[start + k]));
            lemma_feed_posts_stored(v, me.id, f[start + k]);
            let j = choose|j: int| 0 <= j < v.posts.len() && v.posts[j] == f[start + k];
            assert(v.has_account(v.posts[j].author_id));
        }
    }
    let entries = with_authors(store, &chosen);
    Ok(entries)
}

} // verus!
