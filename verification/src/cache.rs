//! The response cache: pages kept under the identity of the request that
//! asked for them, each for a limited time.

use crate::path::{
    canonical, canonical_path, lemma_canonical_by_segments, representation, representation_of,
    segments, Representation,
};
use crate::router::Method;
use vstd::prelude::*;
use vstd::std_specs::cmp::PartialEqSpecImpl;

verus! {

/// The identity of a request, as far as the cache tells requests apart: the
/// method, the canonical path, and the representation that the path asks for.
#[derive(Debug, Eq)]
pub struct CacheKey {
    pub method: Method,
    pub path: String,
    pub representation: Representation,
}

/// What a `CacheKey` holds.
pub struct CacheKeyView {
    pub method: Method,
    pub path: Seq<char>,
    pub representation: Representation,
}

impl View for CacheKey {
    type V = CacheKeyView;

    open spec fn view(&self) -> CacheKeyView {
        CacheKeyView {
            method: self.method,
            path: self.path@,
            representation: self.representation,
        }
    }
}

/// The key of a request with this method and path. Paths that differ in a
/// trailing slash alone have one key.
pub open spec fn key_of(method: Method, path: Seq<char>) -> CacheKeyView {
    CacheKeyView {
        method,
        path: canonical(path),
        representation: representation(canonical(path)),
    }
}

impl Clone for CacheKey {
    fn clone(&self) -> (key: CacheKey)
        ensures
            key == *self,
    {
        CacheKey {
            method: self.method,
            path: self.path.clone(),
            representation: self.representation,
        }
    }
}

impl PartialEq for CacheKey {
    fn eq(&self, other: &CacheKey) -> (same: bool) {
        self.method == other.method && self.representation == other.representation && self.path
            == other.path
    }
}

impl PartialEqSpecImpl for CacheKey {
    open spec fn obeys_eq_spec() -> bool {
        true
    }

    open spec fn eq_spec(&self, other: &CacheKey) -> bool {
        self@ == other@
    }
}

impl CacheKey {
    /// Derives the key of a request.
    pub fn of(method: Method, path: &str) -> (key: CacheKey)
        ensures
            key@ == key_of(method, path@),
    {
        let path = canonical_path(path);
        let representation = representation_of(path.as_str());
        CacheKey { method, path, representation }
    }
}

/// A response as the cache keeps it: the status, the representation of the
/// body, and the body.
#[derive(Debug, Eq)]
pub struct CachedResponse {
    pub status: u16,
    pub representation: Representation,
    pub body: String,
}

/// What a `CachedResponse` holds.
pub struct ResponseView {
    pub status: u16,
    pub representation: Representation,
    pub body: Seq<char>,
}

impl View for CachedResponse {
    type V = ResponseView;

    open spec fn view(&self) -> ResponseView {
        ResponseView {
            status: self.status,
            representation: self.representation,
            body: self.body@,
        }
    }
}

impl Clone for CachedResponse {
    fn clone(&self) -> (response: CachedResponse)
        ensures
            response == *self,
    {
        CachedResponse {
            status: self.status,
            representation: self.representation,
            body: self.body.clone(),
        }
    }
}

impl PartialEq for CachedResponse {
    fn eq(&self, other: &CachedResponse) -> (same: bool) {
        self.status == other.status && self.representation == other.representation && self.body
            == other.body
    }
}

impl PartialEqSpecImpl for CachedResponse {
    open spec fn obeys_eq_spec() -> bool {
        true
    }

    open spec fn eq_spec(&self, other: &CachedResponse) -> bool {
        self@ == other@
    }
}

/// What an optional response holds.
pub open spec fn response_view(response: Option<CachedResponse>) -> Option<ResponseView> {
    match response {
        Some(r) => Some(r@),
        None => None,
    }
}

/// An entry of the cache, as contracts see it: the response, the time at
/// which it was stored, and the number of seconds for which it may be served.
pub struct EntryView {
    pub response: ResponseView,
    pub stored_at: u64,
    pub max_age: u64,
}

/// Whether an entry may still be served at `now`: it is not older than its
/// maximum age.
pub open spec fn fresh(entry: EntryView, now: u64) -> bool {
    now - entry.stored_at <= entry.max_age
}

/// What a read of `key` at `now` gives: the response stored under the key
/// if it is still fresh, otherwise nothing.
pub open spec fn lookup(
    cache: Map<CacheKeyView, EntryView>,
    key: CacheKeyView,
    now: u64,
) -> Option<ResponseView> {
    if cache.contains_key(key) && fresh(cache[key], now) {
        Some(cache[key].response)
    } else {
        None
    }
}

struct Slot {
    key: CacheKey,
    response: CachedResponse,
    stored_at: u64,
    max_age: u64,
}

impl Slot {
    spec fn entry(self) -> EntryView {
        EntryView { response: self.response@, stored_at: self.stored_at, max_age: self.max_age }
    }
}

/// The map that a list of slots stands for; a later slot replaces an earlier
/// one with the same key.
spec fn slots_map(slots: Seq<Slot>) -> Map<CacheKeyView, EntryView>
    decreases slots.len(),
{
    if slots.len() == 0 {
        Map::empty()
    } else {
        slots_map(slots.drop_last()).insert(slots.last().key@, slots.last().entry())
    }
}

/// Slots from `from` on that do not hold `key` do not matter to what the map
/// says of `key`.
proof fn lemma_slots_after(slots: Seq<Slot>, from: int, key: CacheKeyView)
    requires
        0 <= from <= slots.len(),
        forall|j: int| from <= j < slots.len() ==> (#[trigger] slots[j]).key@ != key,
    ensures
        slots_map(slots).contains_key(key) == slots_map(slots.take(from)).contains_key(key),
        slots_map(slots).contains_key(key) ==> slots_map(slots)[key] == slots_map(
            slots.take(from),
        )[key],
    decreases slots.len() - from,
{
    if from == slots.len() {
        assert(slots.take(from) =~= slots);
    } else {
        let shorter = slots.drop_last();
        assert(slots.last() == slots[slots.len() - 1]);
        assert forall|j: int| from <= j < shorter.len() implies (#[trigger] shorter[j]).key@
            != key by {
            assert(shorter[j] == slots[j]);
        }
        lemma_slots_after(shorter, from, key);
        assert(shorter.take(from) =~= slots.take(from));
    }
}

/// A cache of responses, held in memory. A read never serves an entry that is
/// older than its maximum age.
pub struct ResponseCache {
    slots: Vec<Slot>,
}

impl View for ResponseCache {
    type V = Map<CacheKeyView, EntryView>;

    closed spec fn view(&self) -> Map<CacheKeyView, EntryView> {
        slots_map(self.slots@)
    }
}

impl ResponseCache {
    /// An empty cache.
    pub fn new() -> (cache: ResponseCache)
        ensures
            cache@ == Map::<CacheKeyView, EntryView>::empty(),
    {
        ResponseCache { slots: Vec::new() }
    }

    /// Reads the response stored under `key`. An entry that is older than its
    /// maximum age at `now` is not served: the read is a miss.
    pub fn get(&self, key: &CacheKey, now: u64) -> (found: Option<CachedResponse>)
        ensures
            response_view(found) == lookup(self@, key@, now),
    {
        let mut i: usize = self.slots.len();
        while i > 0
            invariant
                i <= self.slots.len(),
                forall|j: int| i <= j < self.slots.len() ==> (#[trigger] self.slots@[j]).key@ != key@,
            decreases i,
        {
            i = i - 1;
            let slot = &self.slots[i];
            if slot.key == *key {
                proof {
                    lemma_slots_after(self.slots@, i + 1, key@);
                    assert(self.slots@.take(i + 1).drop_last() =~= self.slots@.take(i as int));
                    assert(self.slots@.take(i + 1).last() == self.slots@[i as int]);
                }
                if now <= slot.stored_at || now - slot.stored_at <= slot.max_age {
                    return Some(slot.response.clone());
                } else {
                    return None;
                }
            }
        }
        proof {
            lemma_slots_after(self.slots@, 0, key@);
        }
        None
    }

    /// Removes the entry under `key`. Where there is none, nothing changes.
    pub fn delete(&mut self, key: &CacheKey)
        ensures
            final(self)@ == old(self)@.remove(key@),
    {
        let mut taken: Vec<Slot> = Vec::new();
        core::mem::swap(&mut self.slots, &mut taken);
        let mut kept: Vec<Slot> = Vec::new();
        let ghost all = taken@;
        assert(taken@.take(0) =~= Seq::<Slot>::empty());
        assert(slots_map(kept@) =~= slots_map(taken@.take(0)).remove(key@));
        for slot in it: taken
            invariant
                it.seq() == all,
                slots_map(kept@) == slots_map(it.seq().take(it.index() as int)).remove(key@),
        {
            let ghost done = it.seq().take(it.index() as int);
            let ghost upto = it.seq().take(it.index() + 1);
            proof {
                assert(upto.drop_last() =~= done);
                assert(upto.last() == slot);
            }
            if slot.key == *key {
                assert(slots_map(upto).remove(key@) =~= slots_map(done).remove(key@));
            } else {
                let ghost before = kept@;
                kept.push(slot);
                proof {
                    assert(kept@.drop_last() =~= before);
                    assert(slots_map(kept@) =~= slots_map(upto).remove(key@));
                }
            }
        }
        assert(all.take(all.len() as int) =~= all);
        self.slots = kept;
    }

    /// Stores `response` under `key` as of `now`, to be served for `max_age`
    /// seconds. It replaces what was stored under the key.
    pub fn put(&mut self, key: CacheKey, response: CachedResponse, max_age: u64, now: u64)
        ensures
            final(self)@ == old(self)@.insert(
                key@,
                EntryView { response: response@, stored_at: now, max_age },
            ),
    {
        self.delete(&key);
        let ghost before = self.slots@;
        self.slots.push(Slot { key, response, stored_at: now, max_age });
        proof {
            assert(self.slots@.drop_last() =~= before);
            assert(self@ =~= old(self)@.insert(
                key@,
                EntryView { response: response@, stored_at: now, max_age },
            ));
        }
    }
}

/// Two requests have the same key exactly where they have the same method
/// and their paths have the same segments: a trailing slash makes no
/// difference to the key, and nothing else about the path is lost.
pub proof fn lemma_key_by_segments(method: Method, a: Seq<char>, other: Method, b: Seq<char>)
    ensures
        key_of(method, a) == key_of(other, b) <==> method == other && segments(a) == segments(b),
{
    lemma_canonical_by_segments(a, b);
}

/// Removing the entry under a key twice is removing it once, and removing
/// it where there is none changes nothing.
pub proof fn lemma_delete_is_idempotent(cache: Map<CacheKeyView, EntryView>, key: CacheKeyView)
    ensures
        cache.remove(key).remove(key) == cache.remove(key),
        !cache.contains_key(key) ==> cache.remove(key) == cache,
        lookup(cache.remove(key), key, 0) is None,
{
    assert(cache.remove(key).remove(key) =~= cache.remove(key));
    if !cache.contains_key(key) {
        assert(cache.remove(key) =~= cache);
    }
}

/// A response is read back from the time at which it was stored until it is
/// `max_age` seconds old, and never after that.
pub proof fn lemma_entry_is_served_while_fresh(
    cache: Map<CacheKeyView, EntryView>,
    key: CacheKeyView,
    response: ResponseView,
    max_age: u64,
    stored_at: u64,
    now: u64,
)
    ensures
        lookup(cache.insert(key, EntryView { response, stored_at, max_age }), key, now) == if now
            - stored_at <= max_age {
            Some(response)
        } else {
            None
        },
{
}

} // verus!
