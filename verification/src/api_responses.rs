//! Requests for a response: the conversation that one goes on with, how it waits for the
//! agent, and what it is answered with. The caller talks to the store and to the agent.
use vstd::prelude::*;
use vstd::string::*;
use crate::api_error::{api_error, ApiError};
use crate::api_error;
use crate::api_input::{normalize_responses_input, parse_chat_message_value, ParsedChatInput};
use crate::api_input;
use crate::bus::{InboundMessage, OutboundMessage};
use crate::json::{Json, JsonView};
use crate::json;
use crate::message::PartView;
use crate::outside;
use crate::pending::{PendingRequest, PendingTable, StreamPending};
use crate::response_cache::{ResponseCache, StoredResponse};
use crate::response_cache;
use crate::text;

verus! {

broadcast use vstd::string::group_string_axioms;

/// How long a request waits for the agent.
pub const AGENT_TIMEOUT_SECS: u64 = 60;

/// Who asks where nobody is named.
pub const DEFAULT_API_USER: &'static str = "api_user";

/// The model where none is named.
pub const DEFAULT_RESPONSE_MODEL: &'static str = "isanagent";

/// A request for a response.
#[derive(Debug)]
pub struct ResponsesRequest {
    pub input: Json,
    pub model: Option<String>,
    pub previous_response_id: Option<String>,
    pub store: Option<bool>,
    pub user: Option<String>,
    pub stream: Option<bool>,
    /// The thread that a new conversation is to have.
    pub thread_id: Option<String>,
}

fn or_default(s: &Option<String>, default_value: &str) -> (r: String)
    ensures
        r@ == match *s {
            Some(t) => t@,
            None => default_value@,
        },
{
    match s {
        Some(t) => t.clone(),
        None => default_value.to_owned(),
    }
}

// ---------------------------------------------------------------------------
// The request
// ---------------------------------------------------------------------------

/// Reads what a request says.
pub fn read_input(request: &ResponsesRequest) -> (r: Result<ParsedChatInput, ApiError>)
    ensures
        match api_input::responses_input(request.input@) {
            Ok((content, images)) => r matches Ok(p) && p.content@ == content
                && p.attachments.deep_view() == images,
            Err(why) => r matches Err(e) && api_error::is_error(e, 400, "invalid_input"@, why),
        },
{
    match normalize_responses_input(&request.input) {
        Ok(p) => Ok(p),
        Err(why) => Err(api_error(400, "invalid_input", why.as_str())),
    }
}

/// Reads what a chat request says.
pub fn read_chat(message: &Json) -> (r: Result<ParsedChatInput, ApiError>)
    ensures
        match api_input::chat_message(message@) {
            Ok((content, images)) => r matches Ok(p) && p.content@ == content
                && p.attachments.deep_view() == images,
            Err(why) => r matches Err(e) && api_error::is_error(e, 400, "invalid_input"@, why),
        },
{
    match parse_chat_message_value(message) {
        Ok(p) => Ok(p),
        Err(why) => Err(api_error(400, "invalid_input", why.as_str())),
    }
}

/// A chat of its own for a chat request.
pub fn new_chat_id() -> (r: String)
    ensures
        outside::is_hyphenated_uuid(r@),
{
    outside::new_hyphenated_uuid()
}

/// Whether the response is stored; it is where nothing is said.
pub fn stores_response(request: &ResponsesRequest) -> (r: bool)
    ensures
        r == (request.store != Some(false)),
{
    match request.store {
        Some(v) => v,
        None => true,
    }
}

/// Whether the response is given piece by piece.
pub fn streams_response(request: &ResponsesRequest) -> (r: bool)
    ensures
        r == (request.stream == Some(true)),
{
    match request.stream {
        Some(v) => v,
        None => false,
    }
}

// ---------------------------------------------------------------------------
// The conversation
// ---------------------------------------------------------------------------

/// The conversation that a request goes on with, or begins.
#[derive(Debug)]
pub struct Conversation {
    pub thread_id: String,
    pub sender_id: String,
    pub model: String,
    pub previous_response_id: Option<String>,
}

/// Goes on after the store was asked for the response that a request goes on from. One that
/// was found is remembered.
pub fn after_store_lookup(
    cache: &mut ResponseCache,
    id: &str,
    found: Result<Option<StoredResponse>, String>,
) -> (r: Result<StoredResponse, ApiError>)
    ensures
        final(cache).limit() == old(cache).limit(),
        match found {
            Ok(Some(stored)) => r == Ok::<StoredResponse, ApiError>(stored)
                && response_cache::is_left_of(
                final(cache)@,
                old(cache)@.insert(id@, stored),
                old(cache).limit(),
            ),
            Ok(None) => final(cache)@ == old(cache)@ && (r matches Err(e) && api_error::is_error(
                e,
                404,
                "previous_response_not_found"@,
                "Unknown previous_response_id: "@ + id@,
            )),
            Err(_) => final(cache)@ == old(cache)@ && (r matches Err(e) && api_error::is_error(
                e,
                500,
                "response_store_unavailable"@,
                "Failed to load response state."@,
            )),
        },
{
    match found {
        Ok(Some(stored)) => {
            cache.insert(id, stored.clone());
            Ok(stored)
        },
        Ok(None) => {
            let mut why: String = "Unknown previous_response_id: ".to_owned();
            why.append(id);
            Err(api_error(404, "previous_response_not_found", why.as_str()))
        },
        Err(_) => Err(
            api_error(500, "response_store_unavailable", "Failed to load response state."),
        ),
    }
}

/// Whether `c` goes on from the response `id`, of which `stored` was kept: in its thread, and
/// with what the request says before what was stored.
pub open spec fn goes_on(
    c: Conversation,
    request: ResponsesRequest,
    id: Seq<char>,
    stored: StoredResponse,
) -> bool {
    &&& c.thread_id@ == stored.thread_id@
    &&& c.sender_id@ == match request.user {
        Some(u) => u@,
        None => stored.sender_id@,
    }
    &&& c.model@ == match request.model {
        Some(m) => m@,
        None => stored.model@,
    }
    &&& c.previous_response_id matches Some(p) && p@ == id
}

/// Goes on with the conversation of a response that was given before.
pub fn continue_conversation(request: &ResponsesRequest, id: &str, stored: StoredResponse) -> (r:
    Conversation)
    ensures
        goes_on(r, *request, id@, stored),
{
    Conversation {
        thread_id: stored.thread_id,
        sender_id: or_default(&request.user, stored.sender_id.as_str()),
        model: or_default(&request.model, stored.model.as_str()),
        previous_response_id: Some(id.to_owned()),
    }
}

/// The thread that a request asks for, or why it cannot have it.
pub open spec fn thread_asked(raw: Seq<char>) -> Result<Seq<char>, Seq<char>> {
    if text::trim(raw).len() == 0 {
        Err("thread_id must be a non-empty UUID when provided."@)
    } else {
        match outside::uuid_named(text::trim(raw)) {
            Some(u) => Ok(u),
            None => Err("thread_id must be a valid UUID."@),
        }
    }
}

/// Whether `r` is what a request without an earlier response begins with: a conversation in
/// the thread that it asks for, or in one of its own, or why it cannot have that thread.
pub open spec fn begins(request: ResponsesRequest, r: Option<Result<Conversation, ApiError>>) -> bool {
    &&& match request.thread_id {
        Some(raw) => match thread_asked(raw@) {
            Ok(u) => r matches Some(Ok(c)) && c.thread_id@ == u,
            Err(why) => r matches Some(Err(e)) && api_error::is_error(
                e,
                400,
                "invalid_thread_id"@,
                why,
            ),
        },
        None => r matches Some(Ok(_)),
    }
    &&& forall|raw: String|
        request.thread_id == Some(raw) && #[trigger] outside::is_hyphenated_uuid(raw@) ==> (
        r matches Some(Ok(c)) && c.thread_id@ == raw@)
    &&& r matches Some(Ok(c)) ==> outside::is_hyphenated_uuid(c.thread_id@) && c.sender_id@
        == match request.user {
        Some(u) => u@,
        None => DEFAULT_API_USER@,
    } && c.model@ == match request.model {
        Some(m) => m@,
        None => DEFAULT_RESPONSE_MODEL@,
    } && c.previous_response_id is None
}

/// Begins a conversation: in the thread that is asked for, or in one of its own. A thread can
/// always be asked for by the name under which it was begun.
pub fn new_conversation(request: &ResponsesRequest) -> (r: Result<Conversation, ApiError>)
    ensures
        begins(*request, Some(r)),
{
    let thread_id: String = match &request.thread_id {
        Some(raw) => {
            proof {
                if outside::is_hyphenated_uuid(raw@) {
                    lemma_no_white_space_at_ends(raw@);
                }
            }
            let trimmed: String = text::trimmed(raw.as_str());
            if trimmed.as_str().is_empty() {
                return Err(
                    api_error(
                        400,
                        "invalid_thread_id",
                        "thread_id must be a non-empty UUID when provided.",
                    ),
                );
            }
            match outside::parse_uuid(trimmed.as_str()) {
                Some(u) => u,
                None => {
                    return Err(
                        api_error(400, "invalid_thread_id", "thread_id must be a valid UUID."),
                    );
                },
            }
        },
        None => outside::new_hyphenated_uuid(),
    };
    Ok(
        Conversation {
            thread_id,
            sender_id: or_default(&request.user, DEFAULT_API_USER),
            model: or_default(&request.model, DEFAULT_RESPONSE_MODEL),
            previous_response_id: None,
        },
    )
}

proof fn lemma_no_white_space_at_ends(s: Seq<char>)
    requires
        outside::is_hyphenated_uuid(s),
    ensures
        text::trim(s) == s,
{
    assert('0' <= s[0] <= '9' || 'a' <= s[0] <= 'f');
    assert('0' <= s[35] <= '9' || 'a' <= s[35] <= 'f');
    assert(!text::is_white_space(s[0]));
    assert(!text::is_white_space(s[35]));
    assert(s.first() == s[0] && s.last() == s[35]);
}

/// How a request begins.
#[derive(Debug)]
pub enum ResponsesStart {
    /// The store is asked for the response that the request goes on from.
    AskStore,
    /// The request goes on, or begins, in this conversation.
    Ready(Conversation),
}

/// Begins a request: reads what it says, and finds its conversation. The store is asked only
/// for a response that is not remembered.
pub fn begin_response(cache: &mut ResponseCache, request: &ResponsesRequest) -> (r: Result<
    (ParsedChatInput, ResponsesStart),
    ApiError,
>)
    ensures
        response_cache::is_left_of(final(cache)@, old(cache)@, old(cache).limit()),
        final(cache).limit() == old(cache).limit(),
        match api_input::responses_input(request.input@) {
            Err(why) => r matches Err(e) && api_error::is_error(e, 400, "invalid_input"@, why),
            Ok((content, images)) => {
                &&& r matches Ok((p, _)) ==> p.content@ == content && p.attachments.deep_view()
                    == images
                &&& match request.previous_response_id {
                    Some(id) => r matches Ok((_, start)) && if old(cache)@.contains_key(id@) {
                        start matches ResponsesStart::Ready(c) && goes_on(
                            c,
                            *request,
                            id@,
                            old(cache)@[id@],
                        )
                    } else {
                        start is AskStore
                    },
                    None => begins(
                        *request,
                        match r {
                            Ok((_, ResponsesStart::Ready(c))) => Some(Ok(c)),
                            Ok((_, ResponsesStart::AskStore)) => None,
                            Err(e) => Some(Err(e)),
                        },
                    ),
                }
            },
        },
{
    let input: ParsedChatInput = match read_input(request) {
        Ok(p) => p,
        Err(e) => {
            return Err(e);
        },
    };
    match &request.previous_response_id {
        Some(id) => {
            match cache.get(id.as_str()) {
                Some(stored) => {
                    let c = continue_conversation(request, id.as_str(), stored);
                    Ok((input, ResponsesStart::Ready(c)))
                },
                None => Ok((input, ResponsesStart::AskStore)),
            }
        },
        None => match new_conversation(request) {
            Ok(c) => Ok((input, ResponsesStart::Ready(c))),
            Err(e) => Err(e),
        },
    }
}

/// What is kept of a conversation's response leads back into the conversation: in the same
/// thread, and with the same sender and model unless the next request names others.
pub proof fn law_conversation_goes_on(
    before: Conversation,
    stored: StoredResponse,
    after: Conversation,
    request: ResponsesRequest,
    id: Seq<char>,
)
    requires
        stored.thread_id@ == before.thread_id@,
        stored.sender_id@ == before.sender_id@,
        stored.model@ == before.model@,
        goes_on(after, request, id, stored),
    ensures
        after.thread_id@ == before.thread_id@,
        request.user is None ==> after.sender_id@ == before.sender_id@,
        request.model is None ==> after.model@ == before.model@,
{
}

// ---------------------------------------------------------------------------
// Waiting for the agent
// ---------------------------------------------------------------------------

/// Lets a request wait in its conversation. Only one waits at a time.
pub fn claim_conversation(table: &mut PendingTable, chat_id: &str, request: PendingRequest) -> (r:
    Result<(), ApiError>)
    ensures
        if old(table)@.contains_key(chat_id@) {
            final(table)@ == old(table)@ && (r matches Err(e) && api_error::is_error(
                e,
                409,
                "conversation_busy"@,
                "A request is already in-flight for this conversation."@,
            ))
        } else {
            r is Ok && final(table)@ == old(table)@.insert(chat_id@, request)
        },
{
    if table.claim(chat_id, request) {
        Ok(())
    } else {
        Err(
            api_error(
                409,
                "conversation_busy",
                "A request is already in-flight for this conversation.",
            ),
        )
    }
}

/// What a request that is answered piece by piece leaves behind while it waits.
pub fn stream_pending(conversation: &Conversation, store_response: bool) -> (r: PendingRequest)
    ensures
        r matches PendingRequest::Stream(p) && p.sender_id@ == conversation.sender_id@ && p.model@
            == conversation.model@ && p.previous_response_id == conversation.previous_response_id
            && p.store_response == store_response,
{
    PendingRequest::Stream(
        StreamPending {
            sender_id: conversation.sender_id.clone(),
            model: conversation.model.clone(),
            previous_response_id: match &conversation.previous_response_id {
                Some(p) => Some(p.clone()),
                None => None,
            },
            store_response,
        },
    )
}

/// Writes the message that brings a request to the agent.
pub fn request_message(
    channel: &str,
    sender_id: &str,
    chat_id: &str,
    input: ParsedChatInput,
) -> (r: InboundMessage)
    ensures
        r.channel@ == channel@,
        r.sender_id@ == sender_id@,
        r.chat_id@ == chat_id@,
        r.thread_id is None,
        r.content == input.content,
        r.attachments == input.attachments,
        r.metadata@.len() == 0,
{
    InboundMessage {
        channel: channel.to_owned(),
        sender_id: sender_id.to_owned(),
        chat_id: chat_id.to_owned(),
        thread_id: None,
        content: input.content,
        attachments: input.attachments,
        metadata: Vec::new(),
    }
}

/// Takes back a request that could not be brought to the agent.
pub fn after_failed_send(
    table: &mut PendingTable,
    chat_id: &str,
    streaming: bool,
    error: &str,
) -> (r: ApiError)
    ensures
        final(table)@ == old(table)@.remove(chat_id@),
        api_error::is_error(
            r,
            500,
            "agent_queue_unavailable"@,
            if streaming {
                "Failed to enqueue request: "@ + error@
            } else {
                "Failed to enqueue request for the agent."@
            },
        ),
{
    let _taken: Option<PendingRequest> = table.release(chat_id);
    if streaming {
        let mut why: String = "Failed to enqueue request: ".to_owned();
        why.append(error);
        api_error(500, "agent_queue_unavailable", why.as_str())
    } else {
        api_error(500, "agent_queue_unavailable", "Failed to enqueue request for the agent.")
    }
}

/// What came of the wait for the agent.
#[derive(Debug)]
pub enum AgentWait {
    Replied(OutboundMessage),
    /// The agent is gone.
    Closed,
    TimedOut,
}

/// Goes on after the wait for the agent. Where no answer came the request waits no more.
pub fn after_wait(table: &mut PendingTable, chat_id: &str, wait: AgentWait) -> (r: Result<
    OutboundMessage,
    ApiError,
>)
    ensures
        match wait {
            AgentWait::Replied(reply) => r == Ok::<OutboundMessage, ApiError>(reply)
                && final(table)@ == old(table)@,
            AgentWait::Closed => final(table)@ == old(table)@.remove(chat_id@) && (r matches Err(e)
                && api_error::is_error(
                e,
                500,
                "agent_channel_closed"@,
                "Agent channel closed unexpectedly."@,
            )),
            AgentWait::TimedOut => final(table)@ == old(table)@.remove(chat_id@) && (
            r matches Err(e) && api_error::is_error(
                e,
                504,
                "agent_timeout"@,
                "Request timed out waiting for Agent."@,
            )),
        },
{
    match wait {
        AgentWait::Replied(reply) => Ok(reply),
        AgentWait::Closed => {
            let _taken: Option<PendingRequest> = table.release(chat_id);
            Err(api_error(500, "agent_channel_closed", "Agent channel closed unexpectedly."))
        },
        AgentWait::TimedOut => {
            let _taken: Option<PendingRequest> = table.release(chat_id);
            Err(api_error(504, "agent_timeout", "Request timed out waiting for Agent."))
        },
    }
}

/// A conversation in which a request failed to reach the agent, or got no answer, is free
/// for the next.
pub proof fn law_failed_request_frees_conversation(
    before: Map<Seq<char>, PendingRequest>,
    chat_id: Seq<char>,
    request: PendingRequest,
)
    ensures
        !before.insert(chat_id, request).remove(chat_id).contains_key(chat_id),
        forall|other: Seq<char>|
            other != chat_id ==> before.insert(chat_id, request).remove(
                chat_id,
            ).contains_key(other) == #[trigger] before.contains_key(other),
{
}

// ---------------------------------------------------------------------------
// The response
// ---------------------------------------------------------------------------

/// Whether `s` can name a response.
pub open spec fn is_response_id(s: Seq<char>) -> bool {
    exists|id: Seq<char>| #[trigger] outside::is_simple_uuid(id) && s == "resp_"@ + id
}

/// The name of a new response.
pub fn new_response_id() -> (r: String)
    ensures
        is_response_id(r@),
{
    let id: String = outside::new_simple_uuid();
    let mut out: String = "resp_".to_owned();
    out.append(id.as_str());
    assert(outside::is_simple_uuid(id@));
    out
}

/// What is stored of a response.
pub fn stored_response(thread_id: &str, sender_id: &str, model: &str) -> (r: StoredResponse)
    ensures
        r.thread_id@ == thread_id@,
        r.sender_id@ == sender_id@,
        r.model@ == model@,
{
    StoredResponse {
        thread_id: thread_id.to_owned(),
        sender_id: sender_id.to_owned(),
        model: model.to_owned(),
    }
}

/// Goes on after a response was stored.
pub fn after_persist(
    cache: &mut ResponseCache,
    response_id: &str,
    stored: StoredResponse,
    persisted: Result<(), String>,
) -> (r: Result<(), ApiError>)
    ensures
        final(cache).limit() == old(cache).limit(),
        match persisted {
            Ok(_) => r is Ok && response_cache::is_left_of(
                final(cache)@,
                old(cache)@.insert(response_id@, stored),
                old(cache).limit(),
            ),
            Err(_) => final(cache)@ == old(cache)@ && (r matches Err(e) && api_error::is_error(
                e,
                500,
                "response_store_unavailable"@,
                "Failed to persist response state."@,
            )),
        },
{
    match persisted {
        Ok(_) => {
            cache.insert(response_id, stored);
            Ok(())
        },
        Err(_) => Err(
            api_error(500, "response_store_unavailable", "Failed to persist response state."),
        ),
    }
}

/// A response as it is given.
pub open spec fn response_body(
    response_id: Seq<char>,
    created_at: int,
    conversation: Conversation,
    message_id: Seq<char>,
    content: Seq<char>,
) -> JsonView {
    JsonView::Object(
        seq![
            ("id"@, JsonView::Str(response_id)),
            ("object"@, JsonView::Str("response"@)),
            ("created_at"@, JsonView::Number(text::signed_decimal(created_at))),
            ("model"@, JsonView::Str(conversation.model@)),
            ("status"@, JsonView::Str("completed"@)),
            (
                "previous_response_id"@,
                match conversation.previous_response_id {
                    Some(p) => JsonView::Str(p@),
                    None => JsonView::Null,
                },
            ),
            ("thread_id"@, JsonView::Str(conversation.thread_id@)),
            ("output"@, JsonView::Array(seq![output_item(message_id, content)])),
        ],
    )
}

/// The message in a response.
pub open spec fn output_item(message_id: Seq<char>, content: Seq<char>) -> JsonView {
    JsonView::Object(
        seq![
            ("id"@, JsonView::Str(message_id)),
            ("type"@, JsonView::Str("message"@)),
            ("role"@, JsonView::Str("assistant"@)),
            ("content"@, JsonView::Array(seq![output_text(content)])),
        ],
    )
}

/// The text in a response.
pub open spec fn output_text(content: Seq<char>) -> JsonView {
    JsonView::Object(
        seq![
            ("type"@, JsonView::Str("output_text"@)),
            ("text"@, JsonView::Str(content)),
            ("annotations"@, JsonView::Array(Seq::empty())),
        ],
    )
}

fn write_output_text(content: &str) -> (r: Json)
    ensures
        r@ == output_text(content@),
{
    let mut members: Vec<(String, Json)> = json::no_members();
    json::put(&mut members, "type", json::string("output_text"));
    json::put(&mut members, "text", json::string(content));
    json::put(&mut members, "annotations", json::empty_list());
    let out = json::object(members);
    assert(out@->Object_0 =~= output_text(content@)->Object_0);
    out
}

fn write_output_item(message_id: &str, content: &str) -> (r: Json)
    ensures
        r@ == output_item(message_id@, content@),
{
    let mut members: Vec<(String, Json)> = json::no_members();
    json::put(&mut members, "id", json::string(message_id));
    json::put(&mut members, "type", json::string("message"));
    json::put(&mut members, "role", json::string("assistant"));
    json::put(&mut members, "content", json::list_of_one(write_output_text(content)));
    let out = json::object(members);
    assert(out@->Object_0 =~= output_item(message_id@, content@)->Object_0);
    out
}

/// Writes a response. `message_id` names the message in it.
pub fn write_response(
    response_id: &str,
    created_at: i64,
    conversation: &Conversation,
    message_id: &str,
    content: &str,
) -> (r: Json)
    ensures
        r@ == response_body(
            response_id@,
            created_at as int,
            *conversation,
            message_id@,
            content@,
        ),
{
    let mut members: Vec<(String, Json)> = json::no_members();
    json::put(&mut members, "id", json::string(response_id));
    json::put(&mut members, "object", json::string("response"));
    json::put(&mut members, "created_at", Json::Number(text::signed_decimal_text(created_at)));
    json::put(&mut members, "model", json::string(conversation.model.as_str()));
    json::put(&mut members, "status", json::string("completed"));
    json::put(
        &mut members,
        "previous_response_id",
        json::optional_string(&conversation.previous_response_id),
    );
    json::put(&mut members, "thread_id", json::string(conversation.thread_id.as_str()));
    json::put(&mut members, "output", json::list_of_one(write_output_item(message_id, content)));
    let out = json::object(members);
    assert(out@->Object_0 =~= response_body(
        response_id@,
        created_at as int,
        *conversation,
        message_id@,
        content@,
    )->Object_0);
    out
}

/// Whether `s` can name a message in a response.
pub open spec fn is_message_id(s: Seq<char>) -> bool {
    exists|id: Seq<char>| #[trigger] outside::is_simple_uuid(id) && s == "msg_"@ + id
}

/// The name of a new message in a response.
pub fn new_message_id() -> (r: String)
    ensures
        is_message_id(r@),
{
    let id: String = outside::new_simple_uuid();
    let mut out: String = "msg_".to_owned();
    out.append(id.as_str());
    assert(outside::is_simple_uuid(id@));
    out
}

// ---------------------------------------------------------------------------
// A request step by step
// ---------------------------------------------------------------------------

/// What is to be done next for a request.
#[derive(Debug)]
pub enum ResponsesStep {
    /// Ask the store for the response that the request goes on from.
    AskStore { input: ParsedChatInput, id: String },
    /// Bring the message to the agent. An answer that is given piece by piece begins with the
    /// event.
    Send { conversation: Conversation, message: InboundMessage, opening: Option<StreamEvent> },
    /// Wait for the agent.
    Wait { conversation: Conversation },
    /// Give the answer of the agent piece by piece.
    Stream { thread_id: String },
    /// Store the response, which has this content.
    Persist {
        conversation: Conversation,
        response_id: String,
        stored: StoredResponse,
        content: String,
    },
    /// Answer with the response.
    Reply(Json),
    /// Answer with the error.
    Fail(ApiError),
}

/// Whether `m` brings what was said to the agent, in the conversation.
pub open spec fn brings(
    m: InboundMessage,
    channel: Seq<char>,
    c: Conversation,
    input: ParsedChatInput,
) -> bool {
    &&& m.channel@ == channel
    &&& m.sender_id@ == c.sender_id@
    &&& m.chat_id@ == c.thread_id@
    &&& m.thread_id is None
    &&& m.content@ == input.content@
    &&& m.attachments.deep_view() == input.attachments.deep_view()
    &&& m.metadata@.len() == 0
}

/// Whether `p` is what waits for an answer in the conversation.
pub open spec fn waits_for(p: PendingRequest, request: ResponsesRequest, c: Conversation) -> bool {
    if request.stream == Some(true) {
        p matches PendingRequest::Stream(s) && s.sender_id@ == c.sender_id@ && s.model@ == c.model@
            && s.previous_response_id == c.previous_response_id && s.store_response == (
        request.store != Some(false))
    } else {
        p is Sync
    }
}

/// Whether a request goes on in the conversation with the step: the message is on its way to
/// the agent and the request waits, unless another one waits already.
pub open spec fn opens(
    before: Map<Seq<char>, PendingRequest>,
    after: Map<Seq<char>, PendingRequest>,
    channel: Seq<char>,
    request: ResponsesRequest,
    c: Conversation,
    input: ParsedChatInput,
    step: ResponsesStep,
) -> bool {
    if before.contains_key(c.thread_id@) {
        &&& after == before
        &&& step matches ResponsesStep::Fail(e) && api_error::is_error(
            e,
            409,
            "conversation_busy"@,
            "A request is already in-flight for this conversation."@,
        )
    } else {
        &&& after.contains_key(c.thread_id@)
        &&& after == before.insert(c.thread_id@, after[c.thread_id@])
        &&& waits_for(after[c.thread_id@], request, c)
        &&& step matches ResponsesStep::Send { conversation, message, opening }
        &&& conversation == c
        &&& brings(message, channel, c, input)
        &&& if request.stream == Some(true) {
            opening matches Some(StreamEvent::Completion { content, thread_id, response_id })
                && content@.len() == 0 && thread_id@ == c.thread_id@ && response_id@.len() == 0
        } else {
            opening is None
        }
    }
}

fn open_conversation(
    table: &mut PendingTable,
    channel: &str,
    request: &ResponsesRequest,
    conversation: Conversation,
    input: ParsedChatInput,
) -> (r: ResponsesStep)
    ensures
        opens(old(table)@, final(table)@, channel@, *request, conversation, input, r),
{
    let streams: bool = streams_response(request);
    let pending: PendingRequest = if streams {
        stream_pending(&conversation, stores_response(request))
    } else {
        PendingRequest::Sync
    };
    if let Err(e) = claim_conversation(table, conversation.thread_id.as_str(), pending) {
        return ResponsesStep::Fail(e);
    }
    let opening: Option<StreamEvent> = if streams {
        Some(opening_event(conversation.thread_id.as_str()))
    } else {
        None
    };
    let message: InboundMessage = request_message(
        channel,
        conversation.sender_id.as_str(),
        conversation.thread_id.as_str(),
        input,
    );
    ResponsesStep::Send { conversation, message, opening }
}

/// Whether a request begins with the step: it is refused where it says nothing, or asks for a
/// thread that it cannot have; it asks the store for a response that is not remembered; and
/// else it goes on in its conversation.
pub open spec fn starts(
    remembered: Map<Seq<char>, StoredResponse>,
    before: Map<Seq<char>, PendingRequest>,
    after: Map<Seq<char>, PendingRequest>,
    channel: Seq<char>,
    request: ResponsesRequest,
    step: ResponsesStep,
) -> bool {
    match api_input::responses_input(request.input@) {
        Err(why) => {
            &&& after == before
            &&& step matches ResponsesStep::Fail(e) && api_error::is_error(
                e,
                400,
                "invalid_input"@,
                why,
            )
        },
        Ok((content, images)) => match request.previous_response_id {
            Some(id) => if remembered.contains_key(id@) {
                exists|c: Conversation, input: ParsedChatInput|
                    #![trigger opens(before, after, channel, request, c, input, step)]
                    goes_on(c, request, id@, remembered[id@]) && says(input, content, images)
                        && opens(before, after, channel, request, c, input, step)
            } else {
                &&& after == before
                &&& step matches ResponsesStep::AskStore { input, id: asked } && asked@ == id@
                    && says(input, content, images)
            },
            None => {
                ||| exists|c: Conversation, input: ParsedChatInput|
                    #![trigger opens(before, after, channel, request, c, input, step)]
                    begins(request, Some(Ok(c))) && says(input, content, images) && opens(
                        before,
                        after,
                        channel,
                        request,
                        c,
                        input,
                        step,
                    )
                ||| (step matches ResponsesStep::Fail(e) && begins(request, Some(Err(e))) && after
                    == before)
            },
        },
    }
}

/// Whether `input` holds the text and the images.
pub open spec fn says(
    input: ParsedChatInput,
    content: Seq<char>,
    images: Seq<PartView>,
) -> bool {
    input.content@ == content && input.attachments.deep_view() == images
}

/// Begins a request.
pub fn start_response(
    cache: &mut ResponseCache,
    table: &mut PendingTable,
    channel: &str,
    request: &ResponsesRequest,
) -> (r: ResponsesStep)
    ensures
        response_cache::is_left_of(final(cache)@, old(cache)@, old(cache).limit()),
        final(cache).limit() == old(cache).limit(),
        starts(old(cache)@, old(table)@, final(table)@, channel@, *request, r),
{
    let ghost remembered = cache@;
    let ghost before = table@;
    match begin_response(cache, request) {
        Err(e) => ResponsesStep::Fail(e),
        Ok((input, ResponsesStart::Ready(c))) => {
            let step = open_conversation(table, channel, request, c, input);
            assert(opens(before, table@, channel@, *request, c, input, step));
            step
        },
        Ok((input, ResponsesStart::AskStore)) => match &request.previous_response_id {
            Some(id) => ResponsesStep::AskStore { input, id: id.clone() },
            None => {
                assert(false);
                ResponsesStep::AskStore { input, id: String::new() }
            },
        },
    }
}

/// Goes on after the store was asked.
pub fn after_lookup(
    cache: &mut ResponseCache,
    table: &mut PendingTable,
    channel: &str,
    request: &ResponsesRequest,
    input: ParsedChatInput,
    id: &str,
    found: Result<Option<StoredResponse>, String>,
) -> (r: ResponsesStep)
    ensures
        final(cache).limit() == old(cache).limit(),
        match found {
            Ok(Some(stored)) => {
                &&& response_cache::is_left_of(
                    final(cache)@,
                    old(cache)@.insert(id@, stored),
                    old(cache).limit(),
                )
                &&& exists|c: Conversation|
                    #![trigger opens(old(table)@, final(table)@, channel@, *request, c, input, r)]
                    goes_on(c, *request, id@, stored) && opens(
                        old(table)@,
                        final(table)@,
                        channel@,
                        *request,
                        c,
                        input,
                        r,
                    )
            },
            Ok(None) => {
                &&& final(cache)@ == old(cache)@
                &&& final(table)@ == old(table)@
                &&& r matches ResponsesStep::Fail(e) && api_error::is_error(
                    e,
                    404,
                    "previous_response_not_found"@,
                    "Unknown previous_response_id: "@ + id@,
                )
            },
            Err(_) => {
                &&& final(cache)@ == old(cache)@
                &&& final(table)@ == old(table)@
                &&& r matches ResponsesStep::Fail(e) && api_error::is_error(
                    e,
                    500,
                    "response_store_unavailable"@,
                    "Failed to load response state."@,
                )
            },
        },
{
    let ghost before = table@;
    match after_store_lookup(cache, id, found) {
        Err(e) => ResponsesStep::Fail(e),
        Ok(stored) => {
            let c = continue_conversation(request, id, stored);
            let step = open_conversation(table, channel, request, c, input);
            assert(opens(before, table@, channel@, *request, c, input, step));
            step
        },
    }
}

/// Whether the step follows the attempt to hand the request to the agent: the answer is waited
/// for, or the conversation is free again.
pub open spec fn follows_send(
    before: Map<Seq<char>, PendingRequest>,
    after: Map<Seq<char>, PendingRequest>,
    request: ResponsesRequest,
    conversation: Conversation,
    sent: Result<(), String>,
    r: ResponsesStep,
) -> bool {
    match sent {
        Ok(_) => after == before && if request.stream == Some(true) {
            r matches ResponsesStep::Stream { thread_id } && thread_id == conversation.thread_id
        } else {
            r == (ResponsesStep::Wait { conversation })
        },
        Err(why) => {
            &&& after == before.remove(conversation.thread_id@)
            &&& r matches ResponsesStep::Fail(e) && api_error::is_error(
                e,
                500,
                "agent_queue_unavailable"@,
                if request.stream == Some(true) {
                    "Failed to enqueue request: "@ + why@
                } else {
                    "Failed to enqueue request for the agent."@
                },
            )
        },
    }
}

/// Goes on after the message was brought to the agent, or could not be.
pub fn after_send(
    table: &mut PendingTable,
    request: &ResponsesRequest,
    conversation: Conversation,
    sent: Result<(), String>,
) -> (r: ResponsesStep)
    ensures
        follows_send(old(table)@, final(table)@, *request, conversation, sent, r),
{
    let streams: bool = streams_response(request);
    match sent {
        Ok(_) => {
            if streams {
                ResponsesStep::Stream { thread_id: conversation.thread_id }
            } else {
                ResponsesStep::Wait { conversation }
            }
        },
        Err(why) => {
            let e = after_failed_send(
                table,
                conversation.thread_id.as_str(),
                streams,
                why.as_str(),
            );
            ResponsesStep::Fail(e)
        },
    }
}

/// Whether `j` is a response in the conversation with this content.
pub open spec fn is_response(
    j: JsonView,
    response_id: Seq<char>,
    created_at: int,
    c: Conversation,
    content: Seq<char>,
) -> bool {
    exists|message_id: Seq<char>|
        is_message_id(message_id) && j == #[trigger] response_body(
            response_id,
            created_at,
            c,
            message_id,
            content,
        )
}

/// Whether the step follows the wait for the agent. The response is stored first, unless the
/// request says otherwise.
pub open spec fn follows_reply(
    before: Map<Seq<char>, PendingRequest>,
    after: Map<Seq<char>, PendingRequest>,
    request: ResponsesRequest,
    conversation: Conversation,
    wait: AgentWait,
    created_at: int,
    r: ResponsesStep,
) -> bool {
    match wait {
        AgentWait::Replied(reply) => after == before && if request.store
            == Some(false) {
            r matches ResponsesStep::Reply(j) && exists|id: Seq<char>|
                #[trigger] is_response_id(id) && is_response(
                    j@,
                    id,
                    created_at,
                    conversation,
                    reply.content@,
                )
        } else {
            r matches ResponsesStep::Persist { conversation: c, response_id, stored, content }
                && c == conversation && is_response_id(response_id@) && stored.thread_id@
                == c.thread_id@ && stored.sender_id@ == c.sender_id@ && stored.model@
                == c.model@ && content == reply.content
        },
        AgentWait::Closed => {
            &&& after == before.remove(conversation.thread_id@)
            &&& r matches ResponsesStep::Fail(e) && api_error::is_error(
                e,
                500,
                "agent_channel_closed"@,
                "Agent channel closed unexpectedly."@,
            )
        },
        AgentWait::TimedOut => {
            &&& after == before.remove(conversation.thread_id@)
            &&& r matches ResponsesStep::Fail(e) && api_error::is_error(
                e,
                504,
                "agent_timeout"@,
                "Request timed out waiting for Agent."@,
            )
        },
    }
}

/// Goes on after the wait for the agent. The response is stored first, unless the request
/// says otherwise.
pub fn after_reply(
    table: &mut PendingTable,
    request: &ResponsesRequest,
    conversation: Conversation,
    wait: AgentWait,
    created_at: i64,
) -> (r: ResponsesStep)
    ensures
        follows_reply(
            old(table)@,
            final(table)@,
            *request,
            conversation,
            wait,
            created_at as int,
            r,
        ),
{
    match after_wait(table, conversation.thread_id.as_str(), wait) {
        Err(e) => ResponsesStep::Fail(e),
        Ok(reply) => {
            let response_id: String = new_response_id();
            if stores_response(request) {
                let stored = stored_response(
                    conversation.thread_id.as_str(),
                    conversation.sender_id.as_str(),
                    conversation.model.as_str(),
                );
                ResponsesStep::Persist { conversation, response_id, stored, content: reply.content }
            } else {
                let message_id: String = new_message_id();
                let body = write_response(
                    response_id.as_str(),
                    created_at,
                    &conversation,
                    message_id.as_str(),
                    reply.content.as_str(),
                );
                assert(is_response(
                    body@,
                    response_id@,
                    created_at as int,
                    conversation,
                    reply.content@,
                ));
                ResponsesStep::Reply(body)
            }
        },
    }
}

/// Goes on after the response was stored, or could not be. One that was stored is remembered.
pub fn after_write(
    cache: &mut ResponseCache,
    conversation: &Conversation,
    response_id: &str,
    stored: StoredResponse,
    content: &str,
    created_at: i64,
    persisted: Result<(), String>,
) -> (r: ResponsesStep)
    ensures
        final(cache).limit() == old(cache).limit(),
        match persisted {
            Ok(_) => {
                &&& response_cache::is_left_of(
                    final(cache)@,
                    old(cache)@.insert(response_id@, stored),
                    old(cache).limit(),
                )
                &&& r matches ResponsesStep::Reply(j) && is_response(
                    j@,
                    response_id@,
                    created_at as int,
                    *conversation,
                    content@,
                )
            },
            Err(_) => {
                &&& final(cache)@ == old(cache)@
                &&& r matches ResponsesStep::Fail(e) && api_error::is_error(
                    e,
                    500,
                    "response_store_unavailable"@,
                    "Failed to persist response state."@,
                )
            },
        },
{
    match after_persist(cache, response_id, stored, persisted) {
        Err(e) => ResponsesStep::Fail(e),
        Ok(_) => {
            let message_id: String = new_message_id();
            let body = write_response(
                response_id,
                created_at,
                conversation,
                message_id.as_str(),
                content,
            );
            assert(is_response(body@, response_id@, created_at as int, *conversation, content@));
            ResponsesStep::Reply(body)
        },
    }
}

/// A request that finds another one waiting in its conversation is refused and changes
/// nothing; one that does not leaves every other conversation as it was.
pub proof fn law_requests_do_not_disturb_each_other(
    before: Map<Seq<char>, PendingRequest>,
    after: Map<Seq<char>, PendingRequest>,
    channel: Seq<char>,
    request: ResponsesRequest,
    c: Conversation,
    input: ParsedChatInput,
    step: ResponsesStep,
    other: Seq<char>,
)
    requires
        opens(before, after, channel, request, c, input, step),
        other != c.thread_id@ || before.contains_key(c.thread_id@),
    ensures
        after.contains_key(other) == before.contains_key(other),
        before.contains_key(other) ==> after[other] == before[other],
{
}

// ---------------------------------------------------------------------------
// Answers piece by piece
// ---------------------------------------------------------------------------

/// One piece of an answer.
#[derive(Debug)]
pub enum StreamEvent {
    ToolCallStarted { tool_name: String, args: String },
    ToolProgress { tool_name: String, message: String },
    ToolCallFinished { tool_name: String, result: String },
    AgentThought { thought: String },
    Completion { content: String, thread_id: String, response_id: String },
    Error { message: String },
}

/// A piece of an answer as it is given.
pub open spec fn event_body(e: StreamEvent) -> JsonView {
    JsonView::Object(
        match e {
            StreamEvent::ToolCallStarted { tool_name, args } => seq![
                ("type"@, JsonView::Str("tool_call_started"@)),
                ("tool_name"@, JsonView::Str(tool_name@)),
                ("args"@, JsonView::Str(args@)),
            ],
            StreamEvent::ToolProgress { tool_name, message } => seq![
                ("type"@, JsonView::Str("tool_progress"@)),
                ("tool_name"@, JsonView::Str(tool_name@)),
                ("message"@, JsonView::Str(message@)),
            ],
            StreamEvent::ToolCallFinished { tool_name, result } => seq![
                ("type"@, JsonView::Str("tool_call_finished"@)),
                ("tool_name"@, JsonView::Str(tool_name@)),
                ("result"@, JsonView::Str(result@)),
            ],
            StreamEvent::AgentThought { thought } => seq![
                ("type"@, JsonView::Str("agent_thought"@)),
                ("thought"@, JsonView::Str(thought@)),
            ],
            StreamEvent::Completion { content, thread_id, response_id } => seq![
                ("type"@, JsonView::Str("completion"@)),
                ("content"@, JsonView::Str(content@)),
                ("thread_id"@, JsonView::Str(thread_id@)),
                ("response_id"@, JsonView::Str(response_id@)),
            ],
            StreamEvent::Error { message } => seq![
                ("type"@, JsonView::Str("error"@)),
                ("message"@, JsonView::Str(message@)),
            ],
        },
    )
}

impl StreamEvent {
    /// The piece as it is given.
    pub fn body(&self) -> (r: Json)
        ensures
            r@ == event_body(*self),
    {
        let mut members: Vec<(String, Json)> = json::no_members();
        match self {
            StreamEvent::ToolCallStarted { tool_name, args } => {
                json::put(&mut members, "type", json::string("tool_call_started"));
                json::put(&mut members, "tool_name", json::string(tool_name.as_str()));
                json::put(&mut members, "args", json::string(args.as_str()));
            },
            StreamEvent::ToolProgress { tool_name, message } => {
                json::put(&mut members, "type", json::string("tool_progress"));
                json::put(&mut members, "tool_name", json::string(tool_name.as_str()));
                json::put(&mut members, "message", json::string(message.as_str()));
            },
            StreamEvent::ToolCallFinished { tool_name, result } => {
                json::put(&mut members, "type", json::string("tool_call_finished"));
                json::put(&mut members, "tool_name", json::string(tool_name.as_str()));
                json::put(&mut members, "result", json::string(result.as_str()));
            },
            StreamEvent::AgentThought { thought } => {
                json::put(&mut members, "type", json::string("agent_thought"));
                json::put(&mut members, "thought", json::string(thought.as_str()));
            },
            StreamEvent::Completion { content, thread_id, response_id } => {
                json::put(&mut members, "type", json::string("completion"));
                json::put(&mut members, "content", json::string(content.as_str()));
                json::put(&mut members, "thread_id", json::string(thread_id.as_str()));
                json::put(&mut members, "response_id", json::string(response_id.as_str()));
            },
            StreamEvent::Error { message } => {
                json::put(&mut members, "type", json::string("error"));
                json::put(&mut members, "message", json::string(message.as_str()));
            },
        }
        let out = json::object(members);
        assert(out@->Object_0 =~= event_body(*self)->Object_0);
        out
    }
}

/// The piece with which an answer begins: it names the thread, so that the request can be
/// cancelled.
pub fn opening_event(thread_id: &str) -> (r: StreamEvent)
    ensures
        r matches StreamEvent::Completion { content, thread_id: t, response_id } && content@.len()
            == 0 && t@ == thread_id@ && response_id@.len() == 0,
{
    StreamEvent::Completion {
        content: String::new(),
        thread_id: thread_id.to_owned(),
        response_id: String::new(),
    }
}

/// What happens while the agent works, as far as an answer tells of it.
#[derive(Debug)]
pub enum TelemetryEvent {
    ToolCallStarted { chat_id: String, tool_name: String, args: String },
    ToolProgress { chat_id: String, tool_name: String, message: String },
    ToolCallFinished { chat_id: String, tool_name: String, result: String },
    AgentThought { chat_id: String, thought: String },
    /// Anything else.
    Other,
}

/// The conversation that an event belongs to, and the piece of an answer that tells of it.
pub open spec fn told_of(event: TelemetryEvent) -> Option<(Seq<char>, StreamEvent)> {
    match event {
        TelemetryEvent::ToolCallStarted { chat_id, tool_name, args } => Some(
            (chat_id@, StreamEvent::ToolCallStarted { tool_name, args }),
        ),
        TelemetryEvent::ToolProgress { chat_id, tool_name, message } => Some(
            (chat_id@, StreamEvent::ToolProgress { tool_name, message }),
        ),
        TelemetryEvent::ToolCallFinished { chat_id, tool_name, result } => Some(
            (chat_id@, StreamEvent::ToolCallFinished { tool_name, result }),
        ),
        TelemetryEvent::AgentThought { chat_id, thought } => Some(
            (chat_id@, StreamEvent::AgentThought { thought }),
        ),
        TelemetryEvent::Other => None,
    }
}

/// Whether this is what an answer tells of what happens: only one that is given piece by piece
/// tells of it.
pub open spec fn is_told(
    table: Map<Seq<char>, PendingRequest>,
    event: TelemetryEvent,
    r: Option<(String, StreamEvent)>,
) -> bool {
    match told_of(event) {
        Some((chat, piece)) => if table.contains_key(chat) && table[chat] is Stream {
            r matches Some((c, p)) && c@ == chat && p == piece
        } else {
            r is None
        },
        None => r is None,
    }
}

/// Decides what an answer tells of what happens: only one that is given piece by piece tells
/// of it.
pub fn handle_telemetry(table: &PendingTable, event: TelemetryEvent) -> (r: Option<
    (String, StreamEvent),
>)
    ensures
        is_told(table@, event, r),
{
    let told: Option<(String, StreamEvent)> = match event {
        TelemetryEvent::ToolCallStarted { chat_id, tool_name, args } => Some(
            (chat_id, StreamEvent::ToolCallStarted { tool_name, args }),
        ),
        TelemetryEvent::ToolProgress { chat_id, tool_name, message } => Some(
            (chat_id, StreamEvent::ToolProgress { tool_name, message }),
        ),
        TelemetryEvent::ToolCallFinished { chat_id, tool_name, result } => Some(
            (chat_id, StreamEvent::ToolCallFinished { tool_name, result }),
        ),
        TelemetryEvent::AgentThought { chat_id, thought } => Some(
            (chat_id, StreamEvent::AgentThought { thought }),
        ),
        TelemetryEvent::Other => None,
    };
    match told {
        Some((chat_id, piece)) => {
            if table.is_streaming(chat_id.as_str()) {
                Some((chat_id, piece))
            } else {
                None
            }
        },
        None => None,
    }
}

/// Where an answer of the agent goes.
#[derive(Debug)]
pub enum Delivery {
    /// To the request that waits for it.
    Whole(OutboundMessage),
    /// To the request that is answered piece by piece. It gets the response with this id.
    Pieces { request: StreamPending, response_id: String, message: OutboundMessage },
    /// Nobody waits for it.
    Nobody,
}

/// Whether this is where an answer goes: to the request that waited for it in its conversation.
pub open spec fn is_delivery(
    before: Map<Seq<char>, PendingRequest>,
    message: OutboundMessage,
    r: Delivery,
) -> bool {
    if before.contains_key(message.chat_id@) {
        match before[message.chat_id@] {
            PendingRequest::Sync => r == Delivery::Whole(message),
            PendingRequest::Stream(p) => r matches Delivery::Pieces {
                request,
                response_id,
                message: m,
            } && request == p && m == message && is_response_id(response_id@),
        }
    } else {
        r is Nobody
    }
}

/// Decides where an answer goes. The request that waited waits no more.
pub fn deliver(table: &mut PendingTable, message: OutboundMessage) -> (r: Delivery)
    ensures
        final(table)@ == old(table)@.remove(message.chat_id@),
        is_delivery(old(table)@, message, r),
{
    match table.release(message.chat_id.as_str()) {
        Some(PendingRequest::Sync) => Delivery::Whole(message),
        Some(PendingRequest::Stream(request)) => {
            Delivery::Pieces { request, response_id: new_response_id(), message }
        },
        None => Delivery::Nobody,
    }
}

/// Whether this is the last piece of an answer: the answer itself, or that it could not be stored.
pub open spec fn is_closing(
    persisted: Result<(), String>,
    content: Seq<char>,
    thread_id: Seq<char>,
    response_id: Seq<char>,
    r: StreamEvent,
) -> bool {
    match persisted {
        Ok(_) => r matches StreamEvent::Completion { content: c, thread_id: t, response_id: i }
            && c@ == content && t@ == thread_id && i@ == response_id,
        Err(_) => r matches StreamEvent::Error { message } && message@
            == "Failed to persist response state."@,
    }
}

/// The last piece of an answer: the answer itself, or that it could not be stored. Nothing
/// fails where it is not to be stored.
pub fn closing_event(
    persisted: &Result<(), String>,
    content: &str,
    thread_id: &str,
    response_id: &str,
) -> (r: StreamEvent)
    ensures
        is_closing(*persisted, content@, thread_id@, response_id@, r),
{
    match persisted {
        Ok(_) => StreamEvent::Completion {
            content: content.to_owned(),
            thread_id: thread_id.to_owned(),
            response_id: response_id.to_owned(),
        },
        Err(_) => StreamEvent::Error { message: "Failed to persist response state.".to_owned() },
    }
}

// ---------------------------------------------------------------------------
// Laws
// ---------------------------------------------------------------------------

/// A request that finds its conversation free reaches the agent as it was written, images and
/// all, under the one who sent it and in its conversation; and the conversation is taken until
/// the answer comes.
pub proof fn law_request_reaches_the_agent(
    before: Map<Seq<char>, PendingRequest>,
    after: Map<Seq<char>, PendingRequest>,
    channel: Seq<char>,
    request: ResponsesRequest,
    c: Conversation,
    input: ParsedChatInput,
    step: ResponsesStep,
)
    requires
        opens(before, after, channel, request, c, input, step),
        !before.contains_key(c.thread_id@),
    ensures
        after.contains_key(c.thread_id@),
        step matches ResponsesStep::Send { conversation, message, opening } && conversation == c
            && message.channel@ == channel && message.chat_id@ == c.thread_id@
            && message.sender_id@ == c.sender_id@ && message.content@ == input.content@
            && message.attachments.deep_view() == input.attachments.deep_view()
            && message.metadata@.len() == 0 && (opening is Some <==> request.stream == Some(true)),
        request.stream == Some(true) ==> (after[c.thread_id@] matches PendingRequest::Stream(s)
            && s.sender_id@ == c.sender_id@ && s.model@ == c.model@ && (s.store_response <==> !(
        request.store == Some(false)))),
        request.stream != Some(true) ==> after[c.thread_id@] is Sync,
        forall|other: Seq<char>| #[trigger]
            before.contains_key(other) ==> after.contains_key(other) && after[other]
                == before[other],
{
}

/// A request into a conversation that is taken is refused as such.
pub proof fn law_taken_conversation_refuses(
    before: Map<Seq<char>, PendingRequest>,
    after: Map<Seq<char>, PendingRequest>,
    channel: Seq<char>,
    request: ResponsesRequest,
    c: Conversation,
    input: ParsedChatInput,
    step: ResponsesStep,
)
    requires
        opens(before, after, channel, request, c, input, step),
        before.contains_key(c.thread_id@),
    ensures
        after == before,
        step matches ResponsesStep::Fail(e) && e.status == 409 && e.code@ == "conversation_busy"@,
{
}

/// What a request says of its user and its model counts also where a conversation goes on; the
/// thread is that of the response it goes on from, whatever the request says.
pub proof fn law_request_speaks_for_itself(
    c: Conversation,
    request: ResponsesRequest,
    id: Seq<char>,
    stored: StoredResponse,
)
    requires
        goes_on(c, request, id, stored),
    ensures
        c.thread_id@ == stored.thread_id@,
        request.user matches Some(u) ==> c.sender_id@ == u@,
        request.user is None ==> c.sender_id@ == stored.sender_id@,
        request.model matches Some(m) ==> c.model@ == m@,
        request.model is None ==> c.model@ == stored.model@,
        c.previous_response_id is Some && (c.previous_response_id->0)@ == id,
{
}

/// A new conversation is in the thread that the request names, where that is the name of one,
/// and in a thread of its own where it names none; a name that is none is refused. Who asks and
/// which model answers are taken from the request, or else the defaults.
pub proof fn law_new_conversation_is_as_asked(
    request: ResponsesRequest,
    r: Option<Result<Conversation, ApiError>>,
)
    requires
        begins(request, r),
    ensures
        request.thread_id is None ==> r matches Some(Ok(_)),
        request.thread_id matches Some(raw) ==> (text::trim(raw@).len() == 0 ==> (r matches Some(
            Err(e),
        ) && e.status == 400 && e.code@ == "invalid_thread_id"@)),
        request.thread_id matches Some(raw) ==> (outside::uuid_named(text::trim(raw@)) is None
            ==> (r matches Some(Err(e)) && e.status == 400)),
        request.thread_id matches Some(raw) ==> (text::trim(raw@).len() > 0 ==> (
        outside::uuid_named(text::trim(raw@)) matches Some(u) ==> (r matches Some(Ok(c))
            && c.thread_id@ == u))),
        r matches Some(Ok(c)) ==> (request.user matches Some(u) ==> c.sender_id@ == u@),
        r matches Some(Ok(c)) ==> (request.user is None ==> c.sender_id@ == "api_user"@),
        r matches Some(Ok(c)) ==> (request.model matches Some(m) ==> c.model@ == m@),
        r matches Some(Ok(c)) ==> (request.model is None ==> c.model@ == "isanagent"@),
        r matches Some(Ok(c)) ==> c.previous_response_id is None,
{
}

/// A request whose input cannot be read is refused and changes nothing; one that goes on from a
/// response that is not remembered waits for the store; one that goes on from one that is goes
/// on in that thread.
pub proof fn law_request_starts_as_it_must(
    remembered: Map<Seq<char>, StoredResponse>,
    before: Map<Seq<char>, PendingRequest>,
    after: Map<Seq<char>, PendingRequest>,
    channel: Seq<char>,
    request: ResponsesRequest,
    step: ResponsesStep,
)
    requires
        starts(remembered, before, after, channel, request, step),
    ensures
        api_input::responses_input(request.input@) is Err ==> after == before && (step
            matches ResponsesStep::Fail(e) && e.status == 400 && e.code@ == "invalid_input"@),
        api_input::responses_input(request.input@) matches Ok((content, images)) ==> (
        request.previous_response_id matches Some(id) ==> (!remembered.contains_key(id@) ==> after
            == before && (step matches ResponsesStep::AskStore { input, id: asked } && asked@
            == id@ && input.content@ == content && input.attachments.deep_view() == images))),
        api_input::responses_input(request.input@) matches Ok((content, images)) ==> (
        request.previous_response_id matches Some(id) ==> (remembered.contains_key(id@)
            && !before.contains_key(remembered[id@].thread_id@) ==> (step
            matches ResponsesStep::Send { conversation, message, opening } && message.chat_id@
            == remembered[id@].thread_id@ && message.content@ == content
            && message.attachments.deep_view() == images))),
        api_input::responses_input(request.input@) matches Ok((content, images)) ==> (
        request.previous_response_id is None && step is Send ==> (step
            matches ResponsesStep::Send { conversation, message, opening } && message.content@
            == content && message.attachments.deep_view() == images && message.chat_id@
            == conversation.thread_id@)),
{
}

/// A response tells its id, its model, its thread and the response it went on from, and holds
/// the answer as one message of the assistant with one text.
pub proof fn law_response_holds_the_answer(
    response_id: Seq<char>,
    created_at: int,
    c: Conversation,
    message_id: Seq<char>,
    content: Seq<char>,
)
    ensures
        ({
            let body = response_body(response_id, created_at, c, message_id, content);
            &&& body.text_at("id"@) == Some(response_id)
            &&& body.text_at("object"@) == Some("response"@)
            &&& body.text_at("model"@) == Some(c.model@)
            &&& body.text_at("status"@) == Some("completed"@)
            &&& body.text_at("thread_id"@) == Some(c.thread_id@)
            &&& body.get("previous_response_id"@) == Some(
                match c.previous_response_id {
                    Some(p) => JsonView::Str(p@),
                    None => JsonView::Null,
                },
            )
            &&& body.get("created_at"@) == Some(
                JsonView::Number(text::signed_decimal(created_at)),
            )
            &&& body.get("output"@) matches Some(JsonView::Array(items))
            &&& items.len() == 1
            &&& items[0].text_at("id"@) == Some(message_id)
            &&& items[0].text_at("role"@) == Some("assistant"@)
            &&& items[0].text_at("type"@) == Some("message"@)
            &&& items[0].get("content"@) matches Some(JsonView::Array(parts))
            &&& parts.len() == 1
            &&& parts[0].text_at("text"@) == Some(content)
            &&& parts[0].text_at("type"@) == Some("output_text"@)
        }),
{
    reveal_strlit("id");
    reveal_strlit("object");
    reveal_strlit("created_at");
    reveal_strlit("model");
    reveal_strlit("status");
    reveal_strlit("previous_response_id");
    reveal_strlit("thread_id");
    reveal_strlit("output");
    reveal_strlit("type");
    reveal_strlit("role");
    reveal_strlit("content");
    reveal_strlit("text");
    reveal_strlit("annotations");
    assert("id"@.len() == 2 && "object"@.len() == 6 && "created_at"@.len() == 10 && "model"@.len()
        == 5 && "status"@.len() == 6 && "previous_response_id"@.len() == 20 && "thread_id"@.len()
        == 9 && "output"@.len() == 6 && "type"@.len() == 4 && "role"@.len() == 4
        && "content"@.len() == 7 && "text"@.len() == 4);
    assert("object"@[1] == 'b' && "output"@[1] == 'u' && "status"@[1] == 't');
    assert("type"@[0] == 't' && "role"@[0] == 'r' && "text"@[1] == 'e' && "type"@[1] == 'y');
    let body = response_body(response_id, created_at, c, message_id, content)->Object_0;
    json::lemma_member_at(body, "id"@, 0);
    json::lemma_member_at(body, "object"@, 1);
    json::lemma_member_at(body, "created_at"@, 2);
    json::lemma_member_at(body, "model"@, 3);
    json::lemma_member_at(body, "status"@, 4);
    json::lemma_member_at(body, "previous_response_id"@, 5);
    json::lemma_member_at(body, "thread_id"@, 6);
    json::lemma_member_at(body, "output"@, 7);
    let item = output_item(message_id, content)->Object_0;
    json::lemma_member_at(item, "id"@, 0);
    json::lemma_member_at(item, "type"@, 1);
    json::lemma_member_at(item, "role"@, 2);
    json::lemma_member_at(item, "content"@, 3);
    let part = output_text(content)->Object_0;
    json::lemma_member_at(part, "type"@, 0);
    json::lemma_member_at(part, "text"@, 1);
}

/// Each piece of an answer tells its kind and what belongs to it.
pub proof fn law_pieces_tell_what_happens(e: StreamEvent)
    ensures
        e matches StreamEvent::ToolCallStarted { tool_name, args } ==> event_body(e).text_at(
            "type"@,
        ) == Some("tool_call_started"@) && event_body(e).text_at("tool_name"@) == Some(tool_name@)
            && event_body(e).text_at("args"@) == Some(args@),
        e matches StreamEvent::ToolProgress { tool_name, message } ==> event_body(e).text_at(
            "type"@,
        ) == Some("tool_progress"@) && event_body(e).text_at("tool_name"@) == Some(tool_name@)
            && event_body(e).text_at("message"@) == Some(message@),
        e matches StreamEvent::ToolCallFinished { tool_name, result } ==> event_body(e).text_at(
            "type"@,
        ) == Some("tool_call_finished"@) && event_body(e).text_at("tool_name"@) == Some(tool_name@)
            && event_body(e).text_at("result"@) == Some(result@),
        e matches StreamEvent::AgentThought { thought } ==> event_body(e).text_at("type"@) == Some(
            "agent_thought"@,
        ) && event_body(e).text_at("thought"@) == Some(thought@),
        e matches StreamEvent::Completion { content, thread_id, response_id } ==> event_body(
            e,
        ).text_at("type"@) == Some("completion"@) && event_body(e).text_at("content"@) == Some(
            content@,
        ) && event_body(e).text_at("thread_id"@) == Some(thread_id@) && event_body(e).text_at(
            "response_id"@,
        ) == Some(response_id@),
        e matches StreamEvent::Error { message } ==> event_body(e).text_at("type"@) == Some(
            "error"@,
        ) && event_body(e).text_at("message"@) == Some(message@),
{
    reveal_strlit("type");
    reveal_strlit("tool_name");
    reveal_strlit("args");
    reveal_strlit("message");
    reveal_strlit("result");
    reveal_strlit("thought");
    reveal_strlit("content");
    reveal_strlit("thread_id");
    reveal_strlit("response_id");
    assert("type"@.len() == 4 && "tool_name"@.len() == 9 && "args"@.len() == 4 && "message"@.len()
        == 7 && "result"@.len() == 6 && "thought"@.len() == 7 && "content"@.len() == 7
        && "thread_id"@.len() == 9 && "response_id"@.len() == 11);
    assert("type"@[0] == 't' && "args"@[0] == 'a');
    let members = event_body(e)->Object_0;
    json::lemma_member_at(members, "type"@, 0);
    json::lemma_member_at(members, members[1].0, 1);
    if members.len() > 2 {
        json::lemma_member_at(members, members[2].0, 2);
    }
    if members.len() > 3 {
        json::lemma_member_at(members, members[3].0, 3);
    }
}

/// What happens in a conversation is told there and nowhere else, as what it is.
pub proof fn law_events_are_told_where_they_happen(event: TelemetryEvent)
    ensures
        event matches TelemetryEvent::ToolCallStarted { chat_id, tool_name, args } ==> told_of(
            event,
        ) == Some((chat_id@, StreamEvent::ToolCallStarted { tool_name, args })),
        event matches TelemetryEvent::ToolProgress { chat_id, tool_name, message } ==> told_of(
            event,
        ) == Some((chat_id@, StreamEvent::ToolProgress { tool_name, message })),
        event matches TelemetryEvent::ToolCallFinished { chat_id, tool_name, result } ==> told_of(
            event,
        ) == Some((chat_id@, StreamEvent::ToolCallFinished { tool_name, result })),
        event matches TelemetryEvent::AgentThought { chat_id, thought } ==> told_of(event) == Some(
            (chat_id@, StreamEvent::AgentThought { thought }),
        ),
        event is Other ==> told_of(event) is None,
{
}

/// The ids of responses and of messages cannot be taken for one another.
pub proof fn law_ids_are_told_apart(id: Seq<char>)
    ensures
        is_response_id(id) ==> text::starts_with(id, "resp_"@),
        is_message_id(id) ==> text::starts_with(id, "msg_"@),
        !(is_response_id(id) && is_message_id(id)),
{
    reveal_strlit("resp_");
    reveal_strlit("msg_");
    assert("resp_"@[0] == 'r' && "msg_"@[0] == 'm');
    if is_response_id(id) {
        let u = choose|u: Seq<char>| #[trigger] outside::is_simple_uuid(u) && id == "resp_"@ + u;
        text::lemma_starts_with_concat("resp_"@, u);
        assert(id[0] == 'r');
    }
    if is_message_id(id) {
        let u = choose|u: Seq<char>| #[trigger] outside::is_simple_uuid(u) && id == "msg_"@ + u;
        text::lemma_starts_with_concat("msg_"@, u);
        assert(id[0] == 'm');
    }
}

/// A request that reached the agent is waited for, whole or piece by piece as it was asked; one
/// that did not is refused, and its conversation is free again.
pub proof fn law_sent_request_is_waited_for(
    before: Map<Seq<char>, PendingRequest>,
    after: Map<Seq<char>, PendingRequest>,
    request: ResponsesRequest,
    conversation: Conversation,
    sent: Result<(), String>,
    r: ResponsesStep,
)
    requires
        follows_send(before, after, request, conversation, sent, r),
    ensures
        sent is Ok ==> after == before,
        sent is Ok && request.stream == Some(true) ==> (r matches ResponsesStep::Stream {
            thread_id,
        } && thread_id@ == conversation.thread_id@),
        sent is Ok && request.stream != Some(true) ==> r == (ResponsesStep::Wait { conversation }),
        sent is Err ==> !after.contains_key(conversation.thread_id@) && (r
            matches ResponsesStep::Fail(e) && e.status == 500),
        sent matches Err(why) ==> (request.stream == Some(true) ==> (r matches ResponsesStep::Fail(
            e,
        ) && text::ends_with(e.message@, why@))),
        forall|other: Seq<char>|
            other != conversation.thread_id@ ==> after.contains_key(other)
                == #[trigger] before.contains_key(other),
{
    if let Err(why) = sent {
        let said = "Failed to enqueue request: "@ + why@;
        assert(said.subrange(said.len() - why@.len(), said.len() as int) =~= why@);
    }
}

/// What the agent answered is given: at once where it is not to be stored, and else it is stored
/// first, under the conversation's thread, user and model. Where no answer comes the request
/// fails and its conversation is free again.
pub proof fn law_answer_is_given(
    before: Map<Seq<char>, PendingRequest>,
    after: Map<Seq<char>, PendingRequest>,
    request: ResponsesRequest,
    conversation: Conversation,
    wait: AgentWait,
    created_at: int,
    r: ResponsesStep,
)
    requires
        follows_reply(before, after, request, conversation, wait, created_at, r),
    ensures
        wait matches AgentWait::Replied(reply) ==> (request.store == Some(false) ==> (r
            matches ResponsesStep::Reply(j) && holds_answer(j@, conversation, reply.content@))),
        wait matches AgentWait::Replied(reply) ==> (request.store != Some(false) ==> (r
            matches ResponsesStep::Persist { conversation: c, response_id, stored, content } && c
            == conversation && content@ == reply.content@ && stored.thread_id@
            == conversation.thread_id@ && stored.sender_id@ == conversation.sender_id@
            && stored.model@ == conversation.model@)),
        !(wait is Replied) ==> r is Fail && !after.contains_key(conversation.thread_id@),
        wait is TimedOut ==> (r->Fail_0).status == 504,
        wait is Closed ==> (r->Fail_0).status == 500,
{
    if let AgentWait::Replied(reply) = wait {
        if request.store == Some(false) {
            if let ResponsesStep::Reply(j) = r {
                let id = choose|id: Seq<char>| #[trigger]
                    is_response_id(id) && is_response(
                        j@,
                        id,
                        created_at,
                        conversation,
                        reply.content@,
                    );
                lemma_response_holds(j@, id, created_at, conversation, reply.content@);
            }
        }
    }
}

/// Whether a response tells of its thread and model, and its one message says this.
pub open spec fn holds_answer(j: JsonView, c: Conversation, content: Seq<char>) -> bool {
    &&& j.text_at("thread_id"@) == Some(c.thread_id@)
    &&& j.text_at("model"@) == Some(c.model@)
    &&& j.get("output"@) matches Some(JsonView::Array(items))
    &&& items.len() == 1
    &&& items[0].text_at("role"@) == Some("assistant"@)
    &&& items[0].get("content"@) matches Some(JsonView::Array(parts))
    &&& parts.len() == 1
    &&& parts[0].text_at("text"@) == Some(content)
}

proof fn lemma_response_holds(
    j: JsonView,
    response_id: Seq<char>,
    created_at: int,
    c: Conversation,
    content: Seq<char>,
)
    requires
        is_response(j, response_id, created_at, c, content),
    ensures
        holds_answer(j, c, content),
        j.text_at("id"@) == Some(response_id),
{
    let message_id = choose|message_id: Seq<char>|
        is_message_id(message_id) && j == #[trigger] response_body(
            response_id,
            created_at,
            c,
            message_id,
            content,
        );
    law_response_holds_the_answer(response_id, created_at, c, message_id, content);
}

/// A response has the id that it was given, and holds the answer of its conversation.
pub proof fn law_response_is_the_answer(
    j: JsonView,
    response_id: Seq<char>,
    created_at: int,
    c: Conversation,
    content: Seq<char>,
)
    requires
        is_response(j, response_id, created_at, c, content),
    ensures
        j.text_at("id"@) == Some(response_id),
        j.text_at("thread_id"@) == Some(c.thread_id@),
        j.get("output"@) matches Some(JsonView::Array(items)) && items.len() == 1 && (
        items[0].get("content"@) matches Some(JsonView::Array(parts)) && parts.len() == 1
            && parts[0].text_at("text"@) == Some(content)),
{
    lemma_response_holds(j, response_id, created_at, c, content);
}

/// An answer reaches the request that waits in its conversation, whole where it waits for the
/// whole and with what it needs for the last piece where it is given piece by piece; without such
/// a request it reaches nobody.
pub proof fn law_answer_reaches_who_waits(
    before: Map<Seq<char>, PendingRequest>,
    message: OutboundMessage,
    r: Delivery,
)
    requires
        is_delivery(before, message, r),
    ensures
        r is Nobody <==> !before.contains_key(message.chat_id@),
        before.contains_key(message.chat_id@) && before[message.chat_id@] is Sync ==> r
            == Delivery::Whole(message),
        before.contains_key(message.chat_id@) ==> (before[message.chat_id@]
            matches PendingRequest::Stream(p) ==> (r matches Delivery::Pieces {
            request,
            response_id,
            message: m,
        } && request == p && m == message && text::starts_with(response_id@, "resp_"@))),
{
    if let Delivery::Pieces { request, response_id, message: m } = r {
        law_ids_are_told_apart(response_id@);
    }
}

/// The last piece of an answer is the answer, with its thread and its id, unless it could not be
/// stored: then it is an error and nothing of the answer is given.
pub proof fn law_last_piece_is_the_answer(
    persisted: Result<(), String>,
    content: Seq<char>,
    thread_id: Seq<char>,
    response_id: Seq<char>,
    r: StreamEvent,
)
    requires
        is_closing(persisted, content, thread_id, response_id, r),
    ensures
        persisted is Ok ==> event_body(r).text_at("content"@) == Some(content) && event_body(
            r,
        ).text_at("thread_id"@) == Some(thread_id) && event_body(r).text_at("response_id"@) == Some(
            response_id,
        ) && event_body(r).text_at("type"@) == Some("completion"@),
        persisted is Err ==> event_body(r).text_at("type"@) == Some("error"@),
{
    law_pieces_tell_what_happens(r);
}

/// What happens is told to the request that waits in that conversation for pieces, and to no
/// other.
pub proof fn law_pieces_are_told_to_who_waits(
    table: Map<Seq<char>, PendingRequest>,
    chat_id: String,
    tool_name: String,
    args: String,
    r: Option<(String, StreamEvent)>,
)
    requires
        is_told(table, TelemetryEvent::ToolCallStarted { chat_id, tool_name, args }, r),
    ensures
        r is Some <==> table.contains_key(chat_id@) && table[chat_id@] is Stream,
        r matches Some((c, p)) ==> c@ == chat_id@ && p == (StreamEvent::ToolCallStarted {
            tool_name,
            args,
        }),
{
}

} // verus!
