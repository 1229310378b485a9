//! The responses that were given lately: a bounded cache by response id.
use vstd::prelude::*;
use moka::policy::EvictionPolicy;
use moka::sync::Cache;

verus! {

/// How many responses the cache holds.
pub const MAX_RESPONSE_CACHE_ENTRIES: u64 = 1024;

/// What is stored of a response: to which thread it belongs, who asked, and which model was
/// asked.
#[derive(Debug)]
pub struct StoredResponse {
    pub thread_id: String,
    pub sender_id: String,
    pub model: String,
}

impl Clone for StoredResponse {
    fn clone(&self) -> (r: Self)
        ensures
            r == *self,
    {
        StoredResponse {
            thread_id: self.thread_id.clone(),
            sender_id: self.sender_id.clone(),
            model: self.model.clone(),
        }
    }
}

/// The cache of the crate `moka`. What it holds is `cached_in`.
#[verifier::external_type_specification]
#[verifier::external_body]
#[verifier::reject_recursive_types(K)]
#[verifier::reject_recursive_types(V)]
#[verifier::reject_recursive_types(S)]
pub struct ExCache<K, V, S>(moka::sync::Cache<K, V, S>);

/// What a cache of responses holds.
pub uninterp spec fn cached_in(c: Cache<String, StoredResponse>) -> Map<Seq<char>, StoredResponse>;

/// How many responses a cache holds before others leave: the capacity that it was made with.
pub uninterp spec fn limit_of(c: Cache<String, StoredResponse>) -> nat;

/// No responses.
pub open spec fn no_responses() -> Map<Seq<char>, StoredResponse> {
    Map::empty()
}

/// Whether everything in `part` is in `whole`.
pub open spec fn is_part_of(
    part: Map<Seq<char>, StoredResponse>,
    whole: Map<Seq<char>, StoredResponse>,
) -> bool {
    forall|id: Seq<char>| #[trigger]
        part.contains_key(id) ==> whole.contains_key(id) && part[id] == whole[id]
}

/// Whether there are at most `limit` responses.
pub open spec fn fits(m: Map<Seq<char>, StoredResponse>, limit: nat) -> bool {
    m.dom().finite() && m.len() <= limit
}

/// Whether `now` is what is left of `whole` in a cache with this limit: all of it where it
/// fits, and otherwise some part of it.
pub open spec fn is_left_of(
    now: Map<Seq<char>, StoredResponse>,
    whole: Map<Seq<char>, StoredResponse>,
    limit: nat,
) -> bool {
    is_part_of(now, whole) && (fits(whole, limit) ==> now == whole)
}

/// `Cache::builder` with `max_capacity` and `eviction_policy`, and `build` on it: a cache
/// that holds nothing, with the capacity as its limit.
#[verifier::external_body]
fn cache_new(capacity: u64) -> (r: Cache<String, StoredResponse>)
    requires
        capacity > 0,
    ensures
        cached_in(r) == no_responses(),
        limit_of(r) == capacity,
{
    Cache::builder().max_capacity(capacity).eviction_policy(EvictionPolicy::lru()).build()
}

/// `Cache::insert`: puts the response under the id, in place of one that was there. Responses
/// leave the cache at the same time only where it holds more than its limit; which ones is
/// left open.
#[verifier::external_body]
fn cache_insert(c: &mut Cache<String, StoredResponse>, id: String, response: StoredResponse)
    ensures
        limit_of(*final(c)) == limit_of(*old(c)),
        is_left_of(
            cached_in(*final(c)),
            cached_in(*old(c)).insert(id@, response),
            limit_of(*old(c)),
        ),
{
    c.insert(id, response)
}

/// `Cache::get`: a clone of the response under the id, if the cache holds it. Responses leave
/// the cache afterwards only where it holds more than its limit; which ones is left open.
#[verifier::external_body]
fn cache_get(c: &mut Cache<String, StoredResponse>, id: &str) -> (r: Option<StoredResponse>)
    ensures
        r == if cached_in(*old(c)).contains_key(id@) {
            Some(cached_in(*old(c))[id@])
        } else {
            None
        },
        limit_of(*final(c)) == limit_of(*old(c)),
        is_left_of(cached_in(*final(c)), cached_in(*old(c)), limit_of(*old(c))),
{
    c.get(id)
}

/// The responses that were given lately. Once it holds more than its limit, responses may
/// leave it at any time.
pub struct ResponseCache {
    cache: Cache<String, StoredResponse>,
}

impl View for ResponseCache {
    type V = Map<Seq<char>, StoredResponse>;

    closed spec fn view(&self) -> Map<Seq<char>, StoredResponse> {
        cached_in(self.cache)
    }
}

impl ResponseCache {
    /// How many responses it holds before others leave.
    pub closed spec fn limit(self) -> nat {
        limit_of(self.cache)
    }

    /// A cache without responses.
    pub fn new() -> (r: Self)
        ensures
            r@ == no_responses(),
            r.limit() == MAX_RESPONSE_CACHE_ENTRIES,
    {
        ResponseCache { cache: cache_new(MAX_RESPONSE_CACHE_ENTRIES) }
    }

    /// Puts a response in.
    pub fn insert(&mut self, id: &str, response: StoredResponse)
        ensures
            final(self).limit() == old(self).limit(),
            is_left_of(final(self)@, old(self)@.insert(id@, response), old(self).limit()),
    {
        cache_insert(&mut self.cache, id.to_owned(), response)
    }

    /// The response with the id, if it is still there.
    pub fn get(&mut self, id: &str) -> (r: Option<StoredResponse>)
        ensures
            r == if old(self)@.contains_key(id@) {
                Some(old(self)@[id@])
            } else {
                None
            },
            final(self).limit() == old(self).limit(),
            is_left_of(final(self)@, old(self)@, old(self).limit()),
    {
        cache_get(&mut self.cache, id)
    }
}

/// What a cache has under an id after a response was put in is that response, whatever leaves
/// the cache; and it has it where the cache is not full.
pub proof fn law_cache_gives_what_was_put(
    before: Map<Seq<char>, StoredResponse>,
    after: Map<Seq<char>, StoredResponse>,
    later: Map<Seq<char>, StoredResponse>,
    id: Seq<char>,
    response: StoredResponse,
    limit: nat,
)
    requires
        is_left_of(after, before.insert(id, response), limit),
        is_left_of(later, after, limit),
    ensures
        later.contains_key(id) ==> later[id] == response,
        fits(before, limit) && (before.len() < limit || before.contains_key(id))
            ==> later.contains_key(id),
{
    broadcast use vstd::map::group_map_axioms;
    if fits(before, limit) && (before.len() < limit || before.contains_key(id)) {
        let whole = before.insert(id, response);
        assert(whole.dom() =~= before.dom().insert(id));
        assert(fits(whole, limit));
    }
}

} // verus!
