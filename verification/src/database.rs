//! The store: exclusive owner of the ordered post collection.
//!
//! Insertion order is listing order. The store itself never fails; callers
//! serialize access to it (one mutual-exclusion boundary around every
//! operation) outside this crate.

use vstd::prelude::*;
use crate::models::{Post, PostView};

verus! {

/// In-memory, process-lifetime post collection.
pub struct Database {
    posts: Vec<Post>,
}

impl View for Database {
    type V = Seq<PostView>;

    closed spec fn view(&self) -> Seq<PostView> {
        self.posts@.map_values(|p: Post| p@)
    }
}

/// The first post at or after position `i` whose id is `id`.
pub open spec fn find_from(s: Seq<PostView>, id: u128, i: int) -> Option<PostView>
    decreases s.len() - i,
{
    if i < 0 || i >= s.len() {
        None
    } else if s[i].id == id {
        Some(s[i])
    } else {
        find_from(s, id, i + 1)
    }
}

/// The first post in `s` whose id is `id`.
pub open spec fn spec_find(s: Seq<PostView>, id: u128) -> Option<PostView> {
    find_from(s, id, 0)
}

/// Whether some post in `s` carries the id.
pub open spec fn has_id(s: Seq<PostView>, id: u128) -> bool {
    exists|k: int| 0 <= k < s.len() && #[trigger] s[k].id == id
}

/// Whether no two posts in `s` share an id.
pub open spec fn distinct_ids(s: Seq<PostView>) -> bool {
    forall|i: int, j: int| 0 <= i < j < s.len() ==> #[trigger] s[i].id != #[trigger] s[j].id
}

impl Database {
    /// An empty store.
    pub fn new() -> (d: Database)
        ensures
            d@ == Seq::<PostView>::empty(),
    {
        let d = Database { posts: Vec::new() };
        proof {
            assert(d@ =~= Seq::<PostView>::empty());
        }
        d
    }

    /// Appends the post at the end of the sequence. Always succeeds.
    pub fn add_post(&mut self, post: Post)
        ensures
            final(self)@ == old(self)@.push(post@),
    {
        let ghost before = self@;
        let ghost pv = post@;
        self.posts.push(post);
        proof {
            assert(self@ =~= before.push(pv));
        }
    }

    /// A snapshot copy of all posts, in insertion order. Never fails.
    pub fn list(&self) -> (r: Vec<Post>)
        ensures
            r@.map_values(|p: Post| p@) == self@,
    {
        let mut r: Vec<Post> = Vec::new();
        let mut i: usize = 0;
        while i < self.posts.len()
            invariant
                i <= self.posts.len(),
                r@.len() == i,
                forall|k: int| 0 <= k < i ==> #[trigger] r@[k]@ == self@[k],
            decreases self.posts.len() - i,
        {
            let p = self.posts[i].duplicate();
            r.push(p);
            proof {
                assert(self@[i as int] == self.posts@[i as int]@);
            }
            i = i + 1;
        }
        proof {
            assert(r@.map_values(|p: Post| p@) =~= self@);
        }
        r
    }

    /// A copy of the first post whose id matches, if any. Never fails.
    pub fn find_post(&self, id: u128) -> (r: Option<Post>)
        ensures
            match r {
                Some(p) => spec_find(self@, id) == Some(p@),
                None => spec_find(self@, id) is None,
            },
    {
        let mut i: usize = 0;
        while i < self.posts.len()
            invariant
                i <= self.posts.len(),
                find_from(self@, id, 0) == find_from(self@, id, i as int),
            decreases self.posts.len() - i,
        {
            if self.posts[i].id == id {
                return Some(self.posts[i].duplicate());
            }
            i = i + 1;
        }
        None
    }
}

/// Scanning a sequence with one more post at the end first walks the
/// original sequence.
proof fn lemma_find_from_push(s: Seq<PostView>, p: PostView, id: u128, i: int)
    requires
        0 <= i <= s.len(),
        forall|k: int| i <= k < s.len() ==> #[trigger] s[k].id != id,
    ensures
        find_from(s.push(p), id, i) == (if p.id == id { Some(p) } else { None::<PostView> }),
    decreases s.len() - i,
{
    if i == s.len() {
        assert(s.push(p)[i] == p);
        if p.id != id {
            assert(find_from(s.push(p), id, i + 1) is None);
        }
    } else {
        lemma_find_from_push(s, p, id, i + 1);
        assert(s.push(p)[i] == s[i]);
    }
}

/// Round trip: a post just added to a store none of whose posts carries its
/// id is exactly what a lookup of that id then returns.
pub proof fn lemma_add_then_find(s: Seq<PostView>, p: PostView)
    requires
        !has_id(s, p.id),
    ensures
        spec_find(s.push(p), p.id) == Some(p),
{
    assert(forall|k: int| 0 <= k < s.len() ==> #[trigger] s[k].id != p.id);
    lemma_find_from_push(s, p, p.id, 0);
}

/// Uniqueness of lookups: while all ids in the store are distinct, looking up
/// the id of any stored post returns that post and no other.
pub proof fn lemma_find_unique(s: Seq<PostView>, i: int)
    requires
        distinct_ids(s),
        0 <= i < s.len(),
    ensures
        spec_find(s, s[i].id) == Some(s[i]),
{
    lemma_find_unique_from(s, i, 0);
}

/// Helper for `lemma_find_unique`: the scan from any position at or before
/// the matching post reaches it.
proof fn lemma_find_unique_from(s: Seq<PostView>, i: int, j: int)
    requires
        distinct_ids(s),
        0 <= j <= i < s.len(),
    ensures
        find_from(s, s[i].id, j) == Some(s[i]),
    decreases i - j,
{
    if j < i {
        lemma_find_unique_from(s, i, j + 1);
    }
}

/// The store state after a run of additions, in the order they were made.
pub open spec fn add_all(s: Seq<PostView>, ps: Seq<PostView>) -> Seq<PostView>
    decreases ps.len(),
{
    if ps.len() == 0 {
        s
    } else {
        add_all(s.push(ps[0]), ps.skip(1))
    }
}

/// Listing order: any run of additions leaves the store holding exactly the
/// posts it held before followed by the added posts, in the order they were
/// added — so a listing after N creations shows those N posts in creation
/// order.
pub proof fn lemma_listing_order(s: Seq<PostView>, ps: Seq<PostView>)
    ensures
        add_all(s, ps) == s + ps,
    decreases ps.len(),
{
    if ps.len() == 0 {
        assert(add_all(s, ps) =~= s + ps);
    } else {
        lemma_listing_order(s.push(ps[0]), ps.skip(1));
        assert(s.push(ps[0]) + ps.skip(1) =~= s + ps);
    }
}

} // verus!
