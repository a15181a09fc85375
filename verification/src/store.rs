//! What the pipeline persists: indexed posts, profiles and the cursor of the
//! subscription, as a mathematical model.

use crate::text::same_text;
use vstd::prelude::*;

verus! {

/// An indexed post: who wrote it, the content identifier of its record and its address.
pub struct PostKey {
    pub author: Seq<char>,
    pub cid: Seq<char>,
    pub uri: Seq<char>,
}

/// The persisted state that the pipeline reads and writes.
pub struct StoreState {
    /// The indexed posts.
    pub posts: Set<PostKey>,
    /// The authors that have a profile.
    pub profiles: Set<Seq<char>>,
    /// The cursor of the subscription; `None` while the subscription has no state yet.
    pub cursor: Option<i64>,
}

impl StoreState {
    /// A store that holds nothing.
    pub open spec fn empty() -> StoreState {
        StoreState { posts: Set::empty(), profiles: Set::empty(), cursor: None }
    }

    /// The store once `author` has a profile.
    pub open spec fn ensure_profile(self, author: Seq<char>) -> StoreState {
        StoreState { profiles: self.profiles.insert(author), ..self }
    }

    /// The store once the post has been inserted; a post that is there stays there once.
    pub open spec fn insert_post(self, author: Seq<char>, cid: Seq<char>, uri: Seq<char>) -> StoreState {
        StoreState { posts: self.posts.insert(PostKey { author, cid, uri }), ..self }
    }

    /// The store once every post with the address `uri` has been deleted.
    pub open spec fn delete_post(self, uri: Seq<char>) -> StoreState {
        StoreState { posts: self.posts.filter(|post: PostKey| post.uri != uri), ..self }
    }

    /// The store once the subscription has been given its state: a cursor of 0, where it
    /// had none.
    pub open spec fn create_cursor(self) -> StoreState {
        if self.cursor is None {
            StoreState { cursor: Some(0), ..self }
        } else {
            self
        }
    }

    /// The store once the cursor has been moved to `seq`; a subscription without state
    /// has no cursor to move.
    pub open spec fn update_cursor(self, seq: i64) -> StoreState {
        if self.cursor is Some {
            StoreState { cursor: Some(seq), ..self }
        } else {
            self
        }
    }

    /// Whether a post with the address `uri` is indexed.
    pub open spec fn has_post_at(self, uri: Seq<char>) -> bool {
        exists|post: PostKey| #[trigger] self.posts.contains(post) && post.uri == uri
    }
}

/// Deleting the posts at an address at which none is indexed changes nothing.
pub proof fn lemma_delete_absent(store: StoreState, uri: Seq<char>)
    requires
        !store.has_post_at(uri),
    ensures
        store.delete_post(uri) == store,
{
    assert(store.posts.filter(|post: PostKey| post.uri != uri) =~= store.posts);
}

/// Inserting a post that is indexed changes nothing.
pub proof fn lemma_insert_present(
    store: StoreState,
    author: Seq<char>,
    cid: Seq<char>,
    uri: Seq<char>,
)
    requires
        store.posts.contains(PostKey { author, cid, uri }),
    ensures
        store.insert_post(author, cid, uri) == store,
{
    assert(store.posts.insert(PostKey { author, cid, uri }) =~= store.posts);
}

/// What a run of persistence calls does to any store it is made on: the posts it leaves
/// inserted, the addresses it deletes at, the profiles it ensures and the last cursor
/// it sets, if it sets one.
pub struct Effect {
    pub inserted: Set<PostKey>,
    pub deleted: Set<Seq<char>>,
    pub profiles: Set<Seq<char>>,
    pub cursor: Option<i64>,
}

impl Effect {
    /// The effect of no call.
    pub open spec fn none() -> Effect {
        Effect {
            inserted: Set::empty(),
            deleted: Set::empty(),
            profiles: Set::empty(),
            cursor: None,
        }
    }

    /// The effect of ensuring a profile.
    pub open spec fn ensure_profile(author: Seq<char>) -> Effect {
        Effect { profiles: set![author], ..Effect::none() }
    }

    /// The effect of inserting a post.
    pub open spec fn insert_post(author: Seq<char>, cid: Seq<char>, uri: Seq<char>) -> Effect {
        Effect { inserted: set![PostKey { author, cid, uri }], ..Effect::none() }
    }

    /// The effect of deleting the posts at an address.
    pub open spec fn delete_post(uri: Seq<char>) -> Effect {
        Effect { deleted: set![uri], ..Effect::none() }
    }

    /// The effect of moving the cursor.
    pub open spec fn update_cursor(seq: i64) -> Effect {
        Effect { cursor: Some(seq), ..Effect::none() }
    }

    /// The store that the run leaves of `store`.
    pub open spec fn on(self, store: StoreState) -> StoreState {
        StoreState {
            posts: Set::new(
                |post: PostKey|
                    self.inserted.contains(post) || (store.posts.contains(post)
                        && !self.deleted.contains(post.uri)),
            ),
            profiles: store.profiles.union(self.profiles),
            cursor: if store.cursor is Some && self.cursor is Some {
                self.cursor
            } else {
                store.cursor
            },
        }
    }

    /// The effect of this run followed by the run `later`.
    pub open spec fn followed_by(self, later: Effect) -> Effect {
        Effect {
            inserted: Set::new(
                |post: PostKey|
                    later.inserted.contains(post) || (self.inserted.contains(post)
                        && !later.deleted.contains(post.uri)),
            ),
            deleted: self.deleted.union(later.deleted),
            profiles: self.profiles.union(later.profiles),
            cursor: if later.cursor is Some {
                later.cursor
            } else {
                self.cursor
            },
        }
    }
}

/// No call leaves the store as it is.
pub proof fn lemma_effect_none(store: StoreState)
    ensures
        Effect::none().on(store) == store,
{
    let after = Effect::none().on(store);
    assert(after.posts =~= store.posts);
    assert(after.profiles =~= store.profiles);
}

/// The effects of the single calls are what the calls do to the store.
pub proof fn lemma_effect_of_calls(
    store: StoreState,
    author: Seq<char>,
    cid: Seq<char>,
    uri: Seq<char>,
    seq: i64,
)
    ensures
        Effect::ensure_profile(author).on(store) == store.ensure_profile(author),
        Effect::insert_post(author, cid, uri).on(store) == store.insert_post(author, cid, uri),
        Effect::delete_post(uri).on(store) == store.delete_post(uri),
        Effect::update_cursor(seq).on(store) == store.update_cursor(seq),
{
    let a = Effect::ensure_profile(author).on(store);
    assert(a.posts =~= store.posts);
    assert(a.profiles =~= store.profiles.insert(author));
    let b = Effect::insert_post(author, cid, uri).on(store);
    assert(b.posts =~= store.posts.insert(PostKey { author, cid, uri }));
    assert(b.profiles =~= store.profiles);
    let c = Effect::delete_post(uri).on(store);
    assert(c.posts =~= store.posts.filter(|post: PostKey| post.uri != uri));
    assert(c.profiles =~= store.profiles);
    let d = Effect::update_cursor(seq).on(store);
    assert(d.posts =~= store.posts);
    assert(d.profiles =~= store.profiles);
}

/// Making one run after another has the effect of the two runs taken together.
pub proof fn lemma_effect_followed_by(first: Effect, later: Effect, store: StoreState)
    ensures
        later.on(first.on(store)) == first.followed_by(later).on(store),
{
    let a = later.on(first.on(store));
    let b = first.followed_by(later).on(store);
    assert(a.posts =~= b.posts);
    assert(a.profiles =~= b.profiles);
}

/// Making a run a second time, right after the first, changes nothing.
pub proof fn lemma_effect_twice(effect: Effect, store: StoreState)
    ensures
        effect.on(effect.on(store)) == effect.on(store),
{
    let a = effect.on(effect.on(store));
    let b = effect.on(store);
    assert(a.posts =~= b.posts);
    assert(a.profiles =~= b.profiles);
}

/// An indexed post as a store holds it.
#[derive(Debug, Clone)]
pub struct IndexedPost {
    pub author_did: String,
    pub cid: String,
    pub uri: String,
}

impl View for IndexedPost {
    type V = PostKey;

    open spec fn view(&self) -> PostKey {
        PostKey { author: self.author_did@, cid: self.cid@, uri: self.uri@ }
    }
}

/// The keys of stored posts.
pub open spec fn post_keys(rows: Seq<IndexedPost>) -> Seq<PostKey> {
    rows.map_values(|row: IndexedPost| row@)
}

/// The names of stored profiles.
pub open spec fn profile_names(rows: Seq<String>) -> Seq<Seq<char>> {
    rows.map_values(|row: String| row@)
}

/// A store in memory, which does what the persistence behind the pipeline is asked to
/// do: it holds each post and each profile once, and one cursor.
pub struct MemoryStore {
    posts: Vec<IndexedPost>,
    profiles: Vec<String>,
    cursor: Option<i64>,
}

impl View for MemoryStore {
    type V = StoreState;

    closed spec fn view(&self) -> StoreState {
        StoreState {
            posts: post_keys(self.posts@).to_set(),
            profiles: profile_names(self.profiles@).to_set(),
            cursor: self.cursor,
        }
    }
}

impl MemoryStore {
    /// Whether the store holds each post and each profile once. Every store that
    /// [`MemoryStore::new`] makes does, and no call changes that.
    pub closed spec fn well_formed(&self) -> bool {
        &&& post_keys(self.posts@).no_duplicates()
        &&& profile_names(self.profiles@).no_duplicates()
    }

    /// A store that holds nothing.
    pub fn new() -> (store: MemoryStore)
        ensures
            store.well_formed(),
            store@ == StoreState::empty(),
    {
        let store = MemoryStore { posts: Vec::new(), profiles: Vec::new(), cursor: None };
        assert(store@.posts =~= Set::<PostKey>::empty());
        assert(store@.profiles =~= Set::<Seq<char>>::empty());
        store
    }

    /// The persisted cursor, if the subscription has its state.
    pub fn fetch_cursor(&self) -> (cursor: Option<i64>)
        ensures
            cursor == self@.cursor,
    {
        self.cursor
    }

    /// Gives the subscription its state, with a cursor of 0, where it has none. Says
    /// whether it did.
    pub fn create_cursor_state(&mut self) -> (created: bool)
        requires
            old(self).well_formed(),
        ensures
            final(self).well_formed(),
            final(self)@ == old(self)@.create_cursor(),
            created == (old(self)@.cursor is None),
    {
        if self.cursor.is_none() {
            self.cursor = Some(0);
            true
        } else {
            false
        }
    }

    /// Moves the cursor to `seq`, where the subscription has its state. Says whether it
    /// did.
    pub fn update_cursor(&mut self, seq: i64) -> (updated: bool)
        requires
            old(self).well_formed(),
        ensures
            final(self).well_formed(),
            final(self)@ == old(self)@.update_cursor(seq),
            updated == (old(self)@.cursor is Some),
    {
        if self.cursor.is_some() {
            self.cursor = Some(seq);
            true
        } else {
            false
        }
    }

    /// How many posts are indexed.
    pub fn post_count(&self) -> (n: usize)
        requires
            self.well_formed(),
        ensures
            n == self@.posts.len(),
            self@.posts.finite(),
    {
        proof {
            post_keys(self.posts@).unique_seq_to_set();
        }
        self.posts.len()
    }

    /// How many authors have a profile.
    pub fn profile_count(&self) -> (n: usize)
        requires
            self.well_formed(),
        ensures
            n == self@.profiles.len(),
            self@.profiles.finite(),
    {
        proof {
            profile_names(self.profiles@).unique_seq_to_set();
        }
        self.profiles.len()
    }

    /// Where the post stands among the stored ones, if it is stored.
    fn find_post(&self, author_did: &str, cid: &str, uri: &str) -> (r: Option<usize>)
        ensures
            r matches Some(at) ==> at < self.posts@.len() && self.posts@[at as int]@ == (PostKey {
                author: author_did@,
                cid: cid@,
                uri: uri@,
            }),
            r is None ==> !post_keys(self.posts@).contains(
                PostKey { author: author_did@, cid: cid@, uri: uri@ },
            ),
    {
        let ghost key = PostKey { author: author_did@, cid: cid@, uri: uri@ };
        let mut i: usize = 0;
        while i < self.posts.len()
            invariant
                i <= self.posts.len(),
                key == (PostKey { author: author_did@, cid: cid@, uri: uri@ }),
                forall|j: int| 0 <= j < i ==> post_keys(self.posts@)[j] != key,
            decreases self.posts.len() - i,
        {
            let row = &self.posts[i];
            if same_text(row.author_did.as_str(), author_did) && same_text(row.cid.as_str(), cid)
                && same_text(row.uri.as_str(), uri) {
                return Some(i);
            }
            i = i + 1;
        }
        None
    }

    /// Whether the post is indexed.
    pub fn has_post(&self, author_did: &str, cid: &str, uri: &str) -> (r: bool)
        ensures
            r == self@.posts.contains(PostKey { author: author_did@, cid: cid@, uri: uri@ }),
    {
        match self.find_post(author_did, cid, uri) {
            Some(at) => {
                assert(post_keys(self.posts@)[at as int] == self.posts@[at as int]@);
                true
            },
            None => false,
        }
    }

    /// Whether `author_did` has a profile.
    pub fn has_profile(&self, author_did: &str) -> (r: bool)
        ensures
            r == self@.profiles.contains(author_did@),
    {
        let mut i: usize = 0;
        while i < self.profiles.len()
            invariant
                i <= self.profiles.len(),
                forall|j: int| 0 <= j < i ==> profile_names(self.profiles@)[j] != author_did@,
            decreases self.profiles.len() - i,
        {
            if same_text(self.profiles[i].as_str(), author_did) {
                assert(profile_names(self.profiles@)[i as int] == author_did@);
                return true;
            }
            i = i + 1;
        }
        false
    }

    /// Inserts the post; one that is indexed already stays as it is.
    pub fn insert_post(&mut self, author_did: &str, cid: &str, uri: &str)
        requires
            old(self).well_formed(),
        ensures
            final(self).well_formed(),
            final(self)@ == old(self)@.insert_post(author_did@, cid@, uri@),
    {
        let ghost key = PostKey { author: author_did@, cid: cid@, uri: uri@ };
        let ghost before = post_keys(self.posts@);
        match self.find_post(author_did, cid, uri) {
            Some(at) => {
                assert(before[at as int] == key);
                assert(before.to_set().insert(key) =~= before.to_set());
            },
            None => {
                let row = IndexedPost {
                    author_did: author_did.to_owned(),
                    cid: cid.to_owned(),
                    uri: uri.to_owned(),
                };
                self.posts.push(row);
                assert(post_keys(self.posts@) =~= before.push(key));
                assert(before.push(key).to_set() =~= before.to_set().insert(key)) by {
                    assert forall|k: PostKey| before.push(key).contains(k) implies before.contains(
                        k,
                    ) || k == key by {
                        let j = choose|j: int|
                            0 <= j < before.push(key).len() && before.push(key)[j] == k;
                        if j < before.len() {
                            assert(before[j] == k);
                        }
                    }
                    assert forall|k: PostKey| before.contains(k) || k == key implies before.push(
                        key,
                    ).contains(k) by {
                        if k == key {
                            assert(before.push(key)[before.len() as int] == k);
                        } else {
                            let j = choose|j: int| 0 <= j < before.len() && before[j] == k;
                            assert(before.push(key)[j] == k);
                        }
                    }
                }
            },
        }
    }

    /// Sees to it that `author_did` has a profile.
    pub fn ensure_profile(&mut self, author_did: &str)
        requires
            old(self).well_formed(),
        ensures
            final(self).well_formed(),
            final(self)@ == old(self)@.ensure_profile(author_did@),
    {
        let ghost before = profile_names(self.profiles@);
        if self.has_profile(author_did) {
            assert(before.to_set().insert(author_did@) =~= before.to_set());
        } else {
            self.profiles.push(author_did.to_owned());
            assert(profile_names(self.profiles@) =~= before.push(author_did@));
            assert(before.push(author_did@).to_set() =~= before.to_set().insert(author_did@)) by {
                let after = before.push(author_did@);
                assert forall|k: Seq<char>| after.contains(k) implies before.contains(k) || k
                    == author_did@ by {
                    let j = choose|j: int| 0 <= j < after.len() && after[j] == k;
                    if j < before.len() {
                        assert(before[j] == k);
                    }
                }
                assert forall|k: Seq<char>| before.contains(k) || k
                    == author_did@ implies after.contains(k) by {
                    if k == author_did@ {
                        assert(after[before.len() as int] == k);
                    } else {
                        let j = choose|j: int| 0 <= j < before.len() && before[j] == k;
                        assert(after[j] == k);
                    }
                }
            }
        }
    }

    /// Deletes every post with the address `uri`. Says whether there was one.
    pub fn delete_post(&mut self, uri: &str) -> (deleted: bool)
        requires
            old(self).well_formed(),
        ensures
            final(self).well_formed(),
            final(self)@ == old(self)@.delete_post(uri@),
            deleted == old(self)@.has_post_at(uri@),
    {
        let ghost before = post_keys(self.posts@);
        let mut kept: Vec<IndexedPost> = Vec::new();
        let mut deleted = false;
        let mut i: usize = 0;
        while i < self.posts.len()
            invariant
                i <= self.posts.len(),
                before == post_keys(self.posts@),
                before.no_duplicates(),
                post_keys(kept@).no_duplicates(),
                forall|k: PostKey|
                    post_keys(kept@).contains(k) <==> (exists|j: int|
                        0 <= j < i && before[j] == k && k.uri != uri@),
                deleted <==> (exists|j: int| 0 <= j < i && (#[trigger] before[j]).uri == uri@),
            decreases self.posts.len() - i,
        {
            let ghost kept_before = post_keys(kept@);
            let ghost key = before[i as int];
            assert(key == self.posts@[i as int]@);
            if same_text(self.posts[i].uri.as_str(), uri) {
                deleted = true;
            } else {
                kept.push(self.posts[i].clone_row());
                assert(post_keys(kept@) =~= kept_before.push(key));
                assert(!kept_before.contains(key)) by {
                    if kept_before.contains(key) {
                        let j = choose|j: int| 0 <= j < i && before[j] == key && key.uri != uri@;
                        assert(before[j] == before[i as int]);
                    }
                }
                assert forall|k: PostKey| post_keys(kept@).contains(k) <==> (exists|j: int|
                    0 <= j < i + 1 && before[j] == k && k.uri != uri@) by {
                    if post_keys(kept@).contains(k) {
                        let at = choose|at: int|
                            0 <= at < post_keys(kept@).len() && post_keys(kept@)[at] == k;
                        if at < kept_before.len() {
                            assert(kept_before[at] == k);
                            assert(kept_before.contains(k));
                        } else {
                            assert(before[i as int] == k);
                        }
                    }
                    if exists|j: int| 0 <= j < i + 1 && before[j] == k && k.uri != uri@ {
                        let j = choose|j: int| 0 <= j < i + 1 && before[j] == k && k.uri != uri@;
                        if j < i {
                            assert(kept_before.contains(k));
                            let at = choose|at: int|
                                0 <= at < kept_before.len() && kept_before[at] == k;
                            assert(post_keys(kept@)[at] == k);
                        } else {
                            assert(post_keys(kept@)[kept_before.len() as int] == k);
                        }
                    }
                }
            }
            i = i + 1;
        }
        proof {
            let target = before.to_set().filter(|post: PostKey| post.uri != uri@);
            assert(post_keys(kept@).to_set() =~= target) by {
                assert forall|k: PostKey| post_keys(kept@).to_set().contains(k)
                    <==> target.contains(k) by {
                    if target.contains(k) {
                        let j = choose|j: int| 0 <= j < before.len() && before[j] == k;
                        assert(0 <= j < i && before[j] == k && k.uri != uri@);
                    }
                }
            }
            assert(deleted == old(self)@.has_post_at(uri@)) by {
                if deleted {
                    let j = choose|j: int| 0 <= j < i && (#[trigger] before[j]).uri == uri@;
                    assert(before.contains(before[j]));
                    assert(before.to_set().contains(before[j]));
                }
                if old(self)@.has_post_at(uri@) {
                    let post = choose|post: PostKey| #[trigger]
                        old(self)@.posts.contains(post) && post.uri == uri@;
                    let j = choose|j: int| 0 <= j < before.len() && before[j] == post;
                    assert(before[j].uri == uri@);
                }
            }
        }
        self.posts = kept;
        deleted
    }
}

impl IndexedPost {
    /// A copy of the row.
    pub fn clone_row(&self) -> (copy: IndexedPost)
        ensures
            copy@ == self@,
    {
        IndexedPost {
            author_did: self.author_did.clone(),
            cid: self.cid.clone(),
            uri: self.uri.clone(),
        }
    }
}

} // verus!
