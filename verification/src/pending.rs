//! The requests to the HTTP interface that wait for their answer, one for each conversation.
use vstd::prelude::*;
use dashmap::DashMap;
use dashmap::mapref::entry::Entry;

verus! {

/// What is remembered of a request that is answered piece by piece.
#[derive(Debug)]
pub struct StreamPending {
    pub sender_id: String,
    pub model: String,
    pub previous_response_id: Option<String>,
    pub store_response: bool,
}

/// How a request waits for its answer.
#[derive(Debug)]
pub enum PendingRequest {
    /// It is answered at once.
    Sync,
    /// It is answered piece by piece.
    Stream(StreamPending),
}

impl PendingRequest {
    /// Whether the request is answered piece by piece.
    pub fn is_stream(&self) -> (r: bool)
        ensures
            r == (self is Stream),
    {
        match self {
            PendingRequest::Stream(_) => true,
            PendingRequest::Sync => false,
        }
    }
}

/// What a map of requests holds: for each conversation that is a key, its request.
pub uninterp spec fn requests_in(m: DashMap<String, PendingRequest>) -> Map<
    Seq<char>,
    PendingRequest,
>;

/// No requests.
pub open spec fn no_requests() -> Map<Seq<char>, PendingRequest> {
    Map::empty()
}

/// `DashMap::new`: a map that holds nothing.
#[verifier::external_body]
fn map_new() -> (r: DashMap<String, PendingRequest>)
    ensures
        requests_in(r) == no_requests(),
{
    DashMap::new()
}

/// `DashMap::entry`: puts the request under the conversation if nothing is there, and leaves
/// the map as it is otherwise.
#[verifier::external_body]
fn map_claim(m: &mut DashMap<String, PendingRequest>, chat_id: String, request: PendingRequest) -> (r:
    bool)
    ensures
        r == !requests_in(*old(m)).contains_key(chat_id@),
        requests_in(*final(m)) == if requests_in(*old(m)).contains_key(chat_id@) {
            requests_in(*old(m))
        } else {
            requests_in(*old(m)).insert(chat_id@, request)
        },
{
    match m.entry(chat_id) {
        Entry::Occupied(_) => false,
        Entry::Vacant(place) => {
            place.insert(request);
            true
        },
    }
}

/// `DashMap::remove`: takes the conversation out with its request, which it gives back.
#[verifier::external_body]
fn map_remove(m: &mut DashMap<String, PendingRequest>, chat_id: &str) -> (r: Option<PendingRequest>)
    ensures
        requests_in(*final(m)) == requests_in(*old(m)).remove(chat_id@),
        r == if requests_in(*old(m)).contains_key(chat_id@) {
            Some(requests_in(*old(m))[chat_id@])
        } else {
            None
        },
{
    m.remove(chat_id).map(|entry| entry.1)
}

/// `DashMap::get`: the request under the conversation, of which it is said whether it is
/// answered piece by piece.
#[verifier::external_body]
fn map_get_is_stream(m: &DashMap<String, PendingRequest>, chat_id: &str) -> (r: Option<bool>)
    ensures
        r == if requests_in(*m).contains_key(chat_id@) {
            Some(requests_in(*m)[chat_id@] is Stream)
        } else {
            None
        },
{
    m.get(chat_id).map(|entry| entry.value().is_stream())
}

/// The requests that wait, by their conversations.
pub struct PendingTable {
    requests: DashMap<String, PendingRequest>,
}

impl View for PendingTable {
    type V = Map<Seq<char>, PendingRequest>;

    closed spec fn view(&self) -> Map<Seq<char>, PendingRequest> {
        requests_in(self.requests)
    }
}

impl PendingTable {
    /// A table without requests.
    pub fn new() -> (r: Self)
        ensures
            r@ == no_requests(),
    {
        PendingTable { requests: map_new() }
    }

    /// Lets a request wait in its conversation, unless one waits there already.
    pub fn claim(&mut self, chat_id: &str, request: PendingRequest) -> (r: bool)
        ensures
            r == !old(self)@.contains_key(chat_id@),
            final(self)@ == if old(self)@.contains_key(chat_id@) {
                old(self)@
            } else {
                old(self)@.insert(chat_id@, request)
            },
    {
        map_claim(&mut self.requests, chat_id.to_owned(), request)
    }

    /// Takes the request of a conversation out.
    pub fn release(&mut self, chat_id: &str) -> (r: Option<PendingRequest>)
        ensures
            final(self)@ == old(self)@.remove(chat_id@),
            r == if old(self)@.contains_key(chat_id@) {
                Some(old(self)@[chat_id@])
            } else {
                None
            },
    {
        map_remove(&mut self.requests, chat_id)
    }

    /// Whether a request waits in the conversation that is answered piece by piece.
    pub fn is_streaming(&self, chat_id: &str) -> (r: bool)
        ensures
            r == (self@.contains_key(chat_id@) && self@[chat_id@] is Stream),
    {
        match map_get_is_stream(&self.requests, chat_id) {
            Some(stream) => stream,
            None => false,
        }
    }
}

} // verus!
