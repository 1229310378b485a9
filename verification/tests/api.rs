use isanagent::api_auth::{
    bearer_token_matches, is_loopback_bind, require_bearer_auth, validate_bind_security, ApiSetup,
};
use isanagent::api_cron::{after_step, trigger_message, CronEvent, CronPhase, CronStep, CronTrigger};
use isanagent::api_error::{api_error, memory_error, MemoryReply};
use isanagent::api_input::{normalize_responses_input, parse_chat_message_value, ParsedChatInput};
use isanagent::api_jobs::{
    after_cancel, answer_message, answer_not_sent, known_ticket, list_limit, ClarificationTicket,
};
use isanagent::api_responses::{
    after_failed_send, after_lookup, after_persist, after_reply, after_send, after_store_lookup,
    after_wait, after_write, begin_response, claim_conversation, closing_event,
    continue_conversation, deliver, handle_telemetry, new_chat_id, new_message_id,
    new_response_id, opening_event, read_chat, request_message, start_response, stored_response,
    stores_response, stream_pending, streams_response, write_response, AgentWait, Conversation,
    Delivery, ResponsesRequest, ResponsesStart, ResponsesStep, StreamEvent, TelemetryEvent,
};
use isanagent::api_threads::{
    after_clearing, after_deletion, bare_thread_id, chat_messages_to_ui_transcript,
    clamp_thread_list_limit, required_thread, required_user, resolve_memory_thread_id,
    strip_runtime_context_prefix, thread_deletion, thread_entries, thread_list_error,
    thread_memory_error, truncate_chat_preview, DeletionStep, ThreadRow,
};
use isanagent::api_ui::{
    find_ui_asset, is_reserved_api_path, ui_asset, ui_cache_control, ui_fallback, ui_index,
    UiAsset, UiReply,
};
use isanagent::bus::{
    get_background_job_id, metadata_text, metadata_truthy, InboundMessage, OutboundMessage,
    METADATA_AUTONOMOUS_FORBID_FINAL_WITHOUT_TOOLS, METADATA_CLARIFICATION_TICKET_ID,
    METADATA_SYNTHETIC_BACKGROUND_RESUME, METADATA_SYNTHETIC_CRON_TRIGGER,
};
use isanagent::config::ApiConfig;
use isanagent::history_cells::{chat_messages_to_terminal_cells, Cell};
use isanagent::json::Json;
use isanagent::message::{ChatMessage, ContentPart, RUNTIME_CONTEXT_END_SUFFIX};
use isanagent::pending::{PendingRequest, PendingTable};
use isanagent::response_cache::ResponseCache;

fn text(s: &str) -> Json {
    Json::Str(s.to_string())
}

fn object(members: Vec<(&str, Json)>) -> Json {
    Json::Object(members.into_iter().map(|(k, v)| (k.to_string(), v)).collect())
}

fn at<'a>(j: &'a Json, key: &str) -> &'a Json {
    match j {
        Json::Object(members) => match members.iter().find(|m| m.0 == key) {
            Some(m) => &m.1,
            None => panic!("no member {key}"),
        },
        other => panic!("{:?}", other),
    }
}

fn word(j: &Json) -> &str {
    match j {
        Json::Str(s) => s,
        other => panic!("{:?}", other),
    }
}

fn first(j: &Json) -> &Json {
    match j {
        Json::Array(items) => &items[0],
        other => panic!("{:?}", other),
    }
}

fn outbound(chat_id: &str, content: &str) -> OutboundMessage {
    OutboundMessage {
        channel: "api".to_string(),
        chat_id: chat_id.to_string(),
        thread_id: None,
        content: content.to_string(),
        metadata: Vec::new(),
    }
}

// ---- who may use the interface ----

#[test]
fn api_config_supports_ui_flags() {
    let config = ApiConfig {
        enabled: Some(true),
        port: 8080,
        serve_ui: Some(true),
        bind_address: Some("127.0.0.1".to_string()),
        auth_token: None,
    };
    assert_eq!(config.enabled, Some(true));
    assert_eq!(config.port, 8080);
    assert_eq!(config.serve_ui, Some(true));
    assert_eq!(config.bind_address.as_deref(), Some("127.0.0.1"));
}

#[test]
fn loopback_binds_recognized() {
    assert!(is_loopback_bind("127.0.0.1"));
    assert!(is_loopback_bind("::1"));
    assert!(is_loopback_bind("[::1]")); // bracketed IPv6 literal
    assert!(is_loopback_bind("localhost"));
    assert!(is_loopback_bind("127.0.0.5")); // all of 127.0.0.0/8
    assert!(!is_loopback_bind("0.0.0.0"));
    assert!(!is_loopback_bind("::")); // unspecified IPv6 is NOT loopback
    assert!(!is_loopback_bind("192.168.1.10"));
    // A hostname that merely starts with "127." must NOT be treated as loopback.
    assert!(!is_loopback_bind("127.example.com"));
}

#[test]
fn addresses_are_read_strictly() {
    assert!(!is_loopback_bind("127.0.0"));
    assert!(!is_loopback_bind("127.0.0.256"));
    assert!(!is_loopback_bind("127.0.0.01"));
    assert!(is_loopback_bind("0:0:0:0:0:0:0:1"));
    assert!(is_loopback_bind("::0.0.0.1"));
    assert!(!is_loopback_bind("::2"));
    assert!(!is_loopback_bind("1::1::1"));
    assert!(!is_loopback_bind(""));
}

#[test]
fn refuses_public_bind_without_token() {
    assert!(validate_bind_security("127.0.0.1", false).is_ok());
    let err = validate_bind_security("0.0.0.0", false).expect_err("must refuse public+no-token");
    assert!(
        err.contains("auth_token") || err.contains("127.0.0.1"),
        "err={err}"
    );
    assert!(validate_bind_security("0.0.0.0", true).is_ok());
}

#[test]
fn bearer_match_rules() {
    assert!(bearer_token_matches(Some("Bearer s3cret"), "s3cret"));
    assert!(bearer_token_matches(Some("bearer s3cret"), "s3cret"));
    assert!(!bearer_token_matches(Some("Bearer wrong0"), "s3cret"));
    assert!(!bearer_token_matches(Some("s3cret"), "s3cret")); // missing scheme
    assert!(!bearer_token_matches(None, "s3cret"));
    assert!(!bearer_token_matches(Some("Bearer s3cret"), "")); // empty expected never matches
}

#[test]
fn v1_requires_bearer_when_token_configured() {
    assert_eq!(require_bearer_auth(None, "topsecret").unwrap_err().status, 401);
    assert!(require_bearer_auth(Some("Bearer topsecret"), "topsecret").is_ok());
}

#[test]
fn requests_without_the_token_are_refused() {
    assert!(require_bearer_auth(Some("Bearer s3cret"), "s3cret").is_ok());
    let e = require_bearer_auth(None, "s3cret").unwrap_err();
    assert_eq!(e.status, 401);
    assert_eq!(e.code, "unauthorized");
}

#[test]
fn the_token_comes_from_the_configuration_first() {
    let mut config = ApiConfig {
        enabled: None,
        port: 1,
        serve_ui: None,
        bind_address: Some("  ".to_string()),
        auth_token: Some(" a ".to_string()),
    };
    let env = Some("b".to_string());
    let setup = ApiSetup::new(&config, &env);
    assert_eq!(setup.auth_token.as_deref(), Some("a"));
    assert_eq!(setup.resolved_bind_address(), "127.0.0.1");
    config.auth_token = Some("  ".to_string());
    config.bind_address = Some(" 0.0.0.0 ".to_string());
    let setup = ApiSetup::new(&config, &env);
    assert_eq!(setup.auth_token.as_deref(), Some("b"));
    assert_eq!(setup.resolved_bind_address(), "0.0.0.0");
}

#[test]
fn errors_have_a_body() {
    let body = api_error(404, "not_found", "gone").body();
    assert_eq!(word(at(at(&body, "error"), "code")), "not_found");
    assert_eq!(word(at(at(&body, "error"), "message")), "gone");
    assert!(memory_error(&MemoryReply::Done).is_ok());
    assert_eq!(
        memory_error(&MemoryReply::Refused("x".to_string())).unwrap_err().code,
        "memory_error"
    );
    assert_eq!(
        memory_error(&MemoryReply::Closed).unwrap_err().code,
        "memory_unavailable"
    );
}

// ---- what a request says ----

#[test]
fn plain_input_is_trimmed() {
    let p = normalize_responses_input(&text("  hi ")).unwrap();
    assert_eq!(p.content, "hi");
    assert!(p.attachments.is_empty());
    assert_eq!(
        normalize_responses_input(&text("   ")).unwrap_err(),
        "Responses input did not contain any text or image content."
    );
    assert!(normalize_responses_input(&Json::Null).is_err());
    // A chat message is taken as it is.
    assert_eq!(parse_chat_message_value(&text("  hi ")).unwrap().content, "  hi ");
    assert_eq!(
        parse_chat_message_value(&Json::Null).unwrap_err(),
        "Chat message must be a string or an array of content parts."
    );
}

#[test]
fn parts_are_put_together() {
    let part = |t: &str| object(vec![("type", text("text")), ("text", text(t))]);
    let image = object(vec![
        ("type", text("image_url")),
        ("image_url", object(vec![("url", text("data:x"))])),
    ]);
    let p = parse_chat_message_value(&Json::Array(vec![part("a"), image, part("b")])).unwrap();
    assert_eq!(p.content, "a\n\nb");
    assert_eq!(p.attachments.len(), 1);
    match &p.attachments[0] {
        ContentPart::ImageUrl { image_url } => assert_eq!(image_url.url, "data:x"),
        other => panic!("{:?}", other),
    }
    let message = object(vec![
        ("role", text("user")),
        ("content", Json::Array(vec![part("c")])),
    ]);
    let n = normalize_responses_input(&Json::Array(vec![message])).unwrap();
    assert_eq!(n.content, "c");
}

#[test]
fn chat_requests_get_a_chat_of_their_own() {
    assert_ne!(new_chat_id(), new_chat_id());
    assert_eq!(new_chat_id().len(), 36);
    assert_eq!(read_chat(&text("hi")).unwrap().content, "hi");
    let e = read_chat(&Json::Null).unwrap_err();
    assert_eq!((e.status, e.code.as_str()), (400, "invalid_input"));
}

// ---- responses ----

fn request() -> ResponsesRequest {
    ResponsesRequest {
        input: text("hi"),
        model: None,
        previous_response_id: None,
        store: None,
        user: None,
        stream: None,
        thread_id: None,
    }
}

fn conversation() -> Conversation {
    Conversation {
        thread_id: "t".to_string(),
        sender_id: "u".to_string(),
        model: "m".to_string(),
        previous_response_id: None,
    }
}

fn ready(r: &ResponsesRequest) -> Conversation {
    let mut cache = ResponseCache::new();
    match begin_response(&mut cache, r) {
        Ok((_, ResponsesStart::Ready(c))) => c,
        other => panic!("{:?}", other),
    }
}

#[test]
fn a_new_conversation_has_its_defaults() {
    let c = ready(&request());
    assert_eq!(c.sender_id, "api_user");
    assert_eq!(c.model, "isanagent");
    assert_eq!(c.thread_id.len(), 36);
    assert!(c.previous_response_id.is_none());
    assert!(stores_response(&request()));
    assert!(!streams_response(&request()));
}

#[test]
fn a_thread_can_be_asked_for() {
    let mut r = request();
    r.thread_id = Some(" 550E8400-E29B-41D4-A716-446655440000 ".to_string());
    assert_eq!(ready(&r).thread_id, "550e8400-e29b-41d4-a716-446655440000");
    let mut cache = ResponseCache::new();
    r.thread_id = Some("  ".to_string());
    let e = begin_response(&mut cache, &r).unwrap_err();
    assert_eq!(e.code, "invalid_thread_id");
    assert_eq!(e.message, "thread_id must be a non-empty UUID when provided.");
    r.thread_id = Some("nope".to_string());
    let e = begin_response(&mut cache, &r).unwrap_err();
    assert_eq!(e.message, "thread_id must be a valid UUID.");
    r.input = text(" ");
    let e = begin_response(&mut cache, &r).unwrap_err();
    assert_eq!((e.status, e.code.as_str()), (400, "invalid_input"));
}

#[test]
fn a_conversation_goes_on() {
    let mut cache = ResponseCache::new();
    let mut r = request();
    r.previous_response_id = Some("resp_1".to_string());
    assert!(matches!(
        begin_response(&mut cache, &r),
        Ok((_, ResponsesStart::AskStore))
    ));
    let stored = stored_response("t", "u", "m");
    let found = after_store_lookup(&mut cache, "resp_1", Ok(Some(stored))).unwrap();
    let c = continue_conversation(&r, "resp_1", found);
    assert_eq!(c.thread_id, "t");
    assert_eq!(c.sender_id, "u");
    assert_eq!(c.model, "m");
    assert_eq!(c.previous_response_id.as_deref(), Some("resp_1"));
    r.user = Some("other".to_string());
    match begin_response(&mut cache, &r) {
        Ok((_, ResponsesStart::Ready(c))) => {
            assert_eq!(c.thread_id, "t");
            assert_eq!(c.sender_id, "other");
        }
        other => panic!("{:?}", other),
    }
}

#[test]
fn an_unknown_response_is_not_gone_on_from() {
    let mut cache = ResponseCache::new();
    let e = after_store_lookup(&mut cache, "x", Ok(None)).unwrap_err();
    assert_eq!(e.status, 404);
    assert_eq!(e.message, "Unknown previous_response_id: x");
    let e = after_store_lookup(&mut cache, "x", Err("disk".to_string())).unwrap_err();
    assert_eq!((e.status, e.code.as_str()), (500, "response_store_unavailable"));
}

#[test]
fn one_request_waits_at_a_time() {
    let mut table = PendingTable::new();
    assert!(claim_conversation(&mut table, "t", PendingRequest::Sync).is_ok());
    let e = claim_conversation(&mut table, "t", PendingRequest::Sync).unwrap_err();
    assert_eq!((e.status, e.code.as_str()), (409, "conversation_busy"));
    let e = after_failed_send(&mut table, "t", true, "full");
    assert_eq!(e.message, "Failed to enqueue request: full");
    assert!(claim_conversation(&mut table, "t", PendingRequest::Sync).is_ok());
    let e = after_wait(&mut table, "t", AgentWait::TimedOut).unwrap_err();
    assert_eq!((e.status, e.code.as_str()), (504, "agent_timeout"));
    assert!(claim_conversation(&mut table, "t", PendingRequest::Sync).is_ok());
    let e = after_wait(&mut table, "t", AgentWait::Closed).unwrap_err();
    assert_eq!((e.status, e.code.as_str()), (500, "agent_channel_closed"));
    let reply = after_wait(&mut table, "t", AgentWait::Replied(outbound("t", "ok"))).unwrap();
    assert_eq!(reply.content, "ok");
}

#[test]
fn a_request_is_answered_step_by_step() {
    let mut cache = ResponseCache::new();
    let mut table = PendingTable::new();
    let r = request();
    let (c, message) = match start_response(&mut cache, &mut table, "api", &r) {
        ResponsesStep::Send {
            conversation,
            message,
            opening,
        } => {
            assert!(opening.is_none());
            (conversation, message)
        }
        other => panic!("{:?}", other),
    };
    assert_eq!(message.content, "hi");
    assert_eq!(message.chat_id, c.thread_id);
    let thread = c.thread_id.clone();
    assert!(!table.claim(&thread, PendingRequest::Sync));
    let c = match after_send(&mut table, &r, c, Ok(())) {
        ResponsesStep::Wait { conversation } => conversation,
        other => panic!("{:?}", other),
    };
    deliver(&mut table, outbound(&thread, "hello"));
    let replied = AgentWait::Replied(outbound(&thread, "hello"));
    let (c, id, stored, content) = match after_reply(&mut table, &r, c, replied, 7) {
        ResponsesStep::Persist {
            conversation,
            response_id,
            stored,
            content,
        } => (conversation, response_id, stored, content),
        other => panic!("{:?}", other),
    };
    assert_eq!(stored.thread_id, thread);
    match after_write(&mut cache, &c, &id, stored, &content, 7, Ok(())) {
        ResponsesStep::Reply(body) => {
            assert_eq!(word(at(&body, "id")), id);
            assert_eq!(word(at(&body, "thread_id")), thread);
        }
        other => panic!("{:?}", other),
    }
    // The next request goes on in the same thread.
    let mut next = request();
    next.previous_response_id = Some(id);
    next.stream = Some(true);
    match start_response(&mut cache, &mut table, "api", &next) {
        ResponsesStep::Send {
            conversation,
            opening,
            ..
        } => {
            assert_eq!(conversation.thread_id, thread);
            assert!(opening.is_some());
            assert!(table.is_streaming(&thread));
            match after_send(&mut table, &next, conversation, Err("full".to_string())) {
                ResponsesStep::Fail(e) => {
                    assert_eq!(e.message, "Failed to enqueue request: full")
                }
                other => panic!("{:?}", other),
            }
        }
        other => panic!("{:?}", other),
    }
    assert!(table.claim(&thread, PendingRequest::Sync));
}

#[test]
fn responses_route_still_works_when_ui_is_enabled() {
    let mut cache = ResponseCache::new();
    let mut table = PendingTable::new();
    let mut r = request();
    r.input = text("Hello from UI");
    r.store = Some(true);
    let ResponsesStep::Send {
        conversation,
        message,
        ..
    } = start_response(&mut cache, &mut table, "api", &r)
    else {
        panic!("not sent")
    };
    assert_eq!(message.content, "Hello from UI");
    let ResponsesStep::Wait { conversation } = after_send(&mut table, &r, conversation, Ok(()))
    else {
        panic!("not waiting")
    };
    let answer = outbound(&message.chat_id, "UI path still reaches responses.");
    let replied = match deliver(&mut table, answer) {
        Delivery::Whole(reply) => AgentWait::Replied(reply),
        other => panic!("{:?}", other),
    };
    let ResponsesStep::Persist {
        conversation,
        response_id,
        stored,
        content,
    } = after_reply(&mut table, &r, conversation, replied, 7)
    else {
        panic!("not stored")
    };
    let ResponsesStep::Reply(payload) =
        after_write(&mut cache, &conversation, &response_id, stored, &content, 7, Ok(()))
    else {
        panic!("not answered")
    };
    assert_eq!(word(at(&payload, "object")), "response");
    let part = first(at(first(at(&payload, "output")), "content"));
    assert_eq!(word(at(part, "text")), "UI path still reaches responses.");
}

#[test]
fn the_store_is_asked_for_what_is_not_remembered() {
    let mut cache = ResponseCache::new();
    let mut table = PendingTable::new();
    let mut r = request();
    r.previous_response_id = Some("resp_9".to_string());
    r.store = Some(false);
    let (input, id) = match start_response(&mut cache, &mut table, "api", &r) {
        ResponsesStep::AskStore { input, id } => (input, id),
        other => panic!("{:?}", other),
    };
    let found = Ok(Some(stored_response("t", "u", "m")));
    let c = match after_lookup(&mut cache, &mut table, "api", &r, input, &id, found) {
        ResponsesStep::Send { conversation, .. } => conversation,
        other => panic!("{:?}", other),
    };
    assert_eq!(c.thread_id, "t");
    // What is not to be stored is answered at once.
    match after_reply(&mut table, &r, c, AgentWait::Replied(outbound("t", "x")), 7) {
        ResponsesStep::Reply(body) => assert_eq!(word(at(&body, "previous_response_id")), "resp_9"),
        other => panic!("{:?}", other),
    }
}

#[test]
fn the_agent_gets_what_was_asked() {
    let m = request_message(
        "api",
        "u",
        "t",
        ParsedChatInput {
            content: "hi".to_string(),
            attachments: Vec::new(),
        },
    );
    assert_eq!(m.channel, "api");
    assert_eq!(m.chat_id, "t");
    assert_eq!(m.content, "hi");
    assert!(m.thread_id.is_none() && m.metadata.is_empty());
}

#[test]
fn a_response_is_written_out() {
    let mut c = conversation();
    c.previous_response_id = Some("p".to_string());
    let body = write_response("resp_1", -5, &c, "msg_1", "hello");
    assert_eq!(word(at(&body, "id")), "resp_1");
    assert_eq!(word(at(&body, "object")), "response");
    assert!(matches!(at(&body, "created_at"), Json::Number(n) if n == "-5"));
    assert_eq!(word(at(&body, "status")), "completed");
    assert_eq!(word(at(&body, "previous_response_id")), "p");
    match at(&body, "output") {
        Json::Array(items) => {
            assert_eq!(items.len(), 1);
            assert_eq!(word(at(&items[0], "id")), "msg_1");
            match at(&items[0], "content") {
                Json::Array(parts) => {
                    assert_eq!(word(at(&parts[0], "type")), "output_text");
                    assert_eq!(word(at(&parts[0], "text")), "hello");
                }
                other => panic!("{:?}", other),
            }
        }
        other => panic!("{:?}", other),
    }
    assert!(new_response_id().starts_with("resp_"));
    assert_eq!(new_message_id().len(), 4 + 32);
}

#[test]
fn a_stored_response_is_remembered() {
    let mut cache = ResponseCache::new();
    assert!(after_persist(&mut cache, "resp_1", stored_response("t", "u", "m"), Ok(())).is_ok());
    assert_eq!(cache.get("resp_1").map(|s| s.thread_id), Some("t".to_string()));
    assert!(cache.get("resp_2").is_none());
    let failed = Err("disk".to_string());
    let e = after_persist(&mut cache, "resp_2", stored_response("t", "u", "m"), failed);
    assert_eq!(e.unwrap_err().message, "Failed to persist response state.");
    assert!(cache.get("resp_2").is_none());
}

#[test]
fn answers_go_to_who_waits() {
    let mut table = PendingTable::new();
    assert!(matches!(deliver(&mut table, outbound("t", "x")), Delivery::Nobody));
    table.claim("t", PendingRequest::Sync);
    assert!(matches!(deliver(&mut table, outbound("t", "x")), Delivery::Whole(_)));
    table.claim("t", stream_pending(&conversation(), true));
    match deliver(&mut table, outbound("t", "x")) {
        Delivery::Pieces {
            request,
            response_id,
            message,
        } => {
            assert_eq!(request.sender_id, "u");
            assert!(request.store_response);
            assert!(response_id.starts_with("resp_"));
            assert_eq!(message.content, "x");
        }
        other => panic!("{:?}", other),
    }
    assert!(matches!(deliver(&mut table, outbound("t", "x")), Delivery::Nobody));
}

#[test]
fn only_streams_hear_of_the_work() {
    let started = || TelemetryEvent::ToolCallStarted {
        chat_id: "t".to_string(),
        tool_name: "exec".to_string(),
        args: "{}".to_string(),
    };
    let mut table = PendingTable::new();
    assert!(handle_telemetry(&table, started()).is_none());
    table.claim("t", PendingRequest::Sync);
    assert!(handle_telemetry(&table, started()).is_none());
    table.release("t");
    table.claim("t", stream_pending(&conversation(), false));
    let (chat, piece) = handle_telemetry(&table, started()).unwrap();
    assert_eq!(chat, "t");
    let body = piece.body();
    assert_eq!(word(at(&body, "type")), "tool_call_started");
    assert_eq!(word(at(&body, "tool_name")), "exec");
    assert!(handle_telemetry(&table, TelemetryEvent::Other).is_none());
}

#[test]
fn pieces_are_written_out() {
    let kind = |e: StreamEvent| word(at(&e.body(), "type")).to_string();
    assert_eq!(kind(opening_event("t")), "completion");
    assert_eq!(kind(closing_event(&Ok(()), "c", "t", "r")), "completion");
    let failed = closing_event(&Err("disk".to_string()), "c", "t", "r");
    assert_eq!(
        word(at(&failed.body(), "message")),
        "Failed to persist response state."
    );
    assert_eq!(kind(failed), "error");
    assert_eq!(
        kind(StreamEvent::AgentThought {
            thought: "x".to_string()
        }),
        "agent_thought"
    );
}

// ---- threads ----

#[test]
fn threads_belong_to_the_channel() {
    assert_eq!(resolve_memory_thread_id("api", "abc"), "api:abc:");
    assert_eq!(resolve_memory_thread_id("api", "api:abc:"), "api:abc:");
    assert_eq!(bare_thread_id("api:abc:"), "abc");
    assert_eq!(bare_thread_id("abc"), "abc");
}

#[test]
fn a_thread_is_deleted_for_its_user_only() {
    let d = thread_deletion("api", " abc ", " me ").unwrap();
    assert_eq!(d.bare_id, "abc");
    assert_eq!(d.memory_thread_id, "api:abc:");
    assert_eq!(d.user, "me");
    assert!(matches!(after_deletion(Ok(2), &d), DeletionStep::ClearMemory));
    match after_deletion(Ok(0), &d) {
        DeletionStep::Reply(j) => assert!(matches!(at(&j, "deleted"), Json::Bool(false))),
        other => panic!("{:?}", other),
    }
    match after_deletion(Err("x".to_string()), &d) {
        DeletionStep::Fail(e) => assert_eq!(e.code, "thread_delete_unavailable"),
        other => panic!("{:?}", other),
    }
    let j = after_clearing(Ok(()), 2, &d).unwrap();
    assert!(matches!(at(&j, "responses_removed"), Json::Number(n) if n == "2"));
    let e = after_clearing(Err("x".to_string()), 2, &d).unwrap_err();
    assert_eq!(e.code, "memory_unavailable");
    assert_eq!(thread_deletion("api", " ", "me").unwrap_err().code, "invalid_thread");
    assert_eq!(thread_deletion("api", "a", " ").unwrap_err().code, "invalid_user");
}

#[test]
fn requests_about_threads_need_their_fields() {
    assert_eq!(required_user(" a ").unwrap(), "a");
    assert_eq!(required_user(" ").unwrap_err().code, "invalid_user");
    assert_eq!(required_thread(" ").unwrap_err().message, "Empty thread id.");
    assert_eq!(clamp_thread_list_limit(None), 100);
    assert_eq!(clamp_thread_list_limit(Some(0)), 1);
    assert_eq!(clamp_thread_list_limit(Some(9999)), 500);
    assert_eq!(thread_list_error("x").code, "thread_list_unavailable");
    assert_eq!(thread_memory_error("x").code, "memory_unavailable");
}

#[test]
fn threads_show_how_they_began() {
    let row = |id: &str| ThreadRow {
        thread_id: id.to_string(),
        updated_at: 7,
        latest_response_id: "r".to_string(),
    };
    let first = format!("[Runtime Context]\nx{}hello", RUNTIME_CONTEXT_END_SUFFIX);
    let entries = thread_entries(vec![row("a"), row("b")], &vec![Some(first), None]);
    assert_eq!(entries[0].preview, "hello");
    assert_eq!(entries[1].preview, "");
    assert_eq!(entries[1].thread_id, "b");
    // Previews for other rows are not used.
    let none = thread_entries(vec![row("a")], &Vec::new());
    assert_eq!(none[0].preview, "");
    assert_eq!(strip_runtime_context_prefix("plain"), "plain");
    let long = truncate_chat_preview(&"x".repeat(100));
    assert!(long.chars().count() <= 57 && long.ends_with('…'), "{long}");
}

#[test]
fn thread_messages_qualifies_bare_chat_id_with_api_channel_prefix() {
    let chat_suffix = "list-me-123e4567-e89b-12d3-a456-426614174000";
    let memory_key = format!("api:{}:", chat_suffix);
    let stored = [(memory_key, vec![ChatMessage::user("hello from test")])];
    let asked = resolve_memory_thread_id("api", chat_suffix);
    let (_, messages) = stored.iter().find(|t| t.0 == asked).expect("thread");
    let rows = chat_messages_to_ui_transcript(messages);
    assert_eq!(rows.len(), 1);
    assert_eq!(rows[0].role, "user");
    assert!(rows[0].content.contains("hello from test"));
}

#[test]
fn the_terminal_shows_what_the_web_shows() {
    let messages = [
        ChatMessage::system("hidden"),
        ChatMessage::user("  hello "),
        ChatMessage::user(&format!("[RUNTIME CONTEXT] x{RUNTIME_CONTEXT_END_SUFFIX}\n hi")),
        ChatMessage::tool("secret", "c", None),
        ChatMessage::assistant("<think>x</think> fine"),
        ChatMessage::assistant("<think>x</think>"),
    ];
    let rows = chat_messages_to_ui_transcript(&messages);
    let cells = chat_messages_to_terminal_cells(&messages);
    assert_eq!(rows.len(), 3);
    assert_eq!(rows.len(), cells.len());
    for (row, cell) in rows.iter().zip(cells.iter()) {
        match cell {
            Cell::User { text } => assert_eq!((row.role.as_str(), &row.content), ("user", text)),
            Cell::Assistant { markdown } => {
                assert_eq!((row.role.as_str(), &row.content), ("assistant", markdown))
            }
        }
    }
    // Only the web knows a runtime context without the mark of its end.
    let open = "[RUNTIME CONTEXT] Current time is now. You are navigating and responding in \
channel: 'api', with chat ID: 'c'.\n\nhi";
    assert_eq!(strip_runtime_context_prefix(open), "hi");
    assert_eq!(strip_runtime_context_prefix("x [RUNTIME CONTEXT]"), "x [RUNTIME CONTEXT]");
    match &chat_messages_to_terminal_cells(&[ChatMessage::user(open)])[0] {
        Cell::User { text } => assert_eq!(text, open),
        other => panic!("{:?}", other),
    }
}

#[test]
fn transcripts_hide_tools() {
    let rows = chat_messages_to_ui_transcript(&[
        ChatMessage::user("hello from test"),
        ChatMessage::tool("secret", "c", None),
        ChatMessage::assistant("<think>x</think>fine"),
    ]);
    assert_eq!(rows.len(), 2);
    assert_eq!(rows[0].role, "user");
    assert!(rows[0].content.contains("hello from test"));
    assert_eq!(rows[1].content, "fine");
    assert!(rows[1].image_urls.is_none());
}

// ---- pages ----

fn assets() -> Vec<UiAsset> {
    [
        ("index.html", "text/html; charset=utf-8"),
        ("assets/app.js", "text/javascript"),
        ("favicon.ico", "image/x-icon"),
    ]
    .iter()
    .map(|(path, content_type)| UiAsset {
        path: path.to_string(),
        content_type: content_type.to_string(),
    })
    .collect()
}

#[test]
fn ui_root_serves_embedded_index_when_enabled() {
    let a = assets();
    let UiReply::File(at) = ui_index(&a) else {
        panic!("no front page")
    };
    assert_eq!(a[at].content_type, "text/html; charset=utf-8");
    assert_eq!(ui_cache_control(&a[at]), "no-cache");
}

#[test]
fn ui_asset_route_serves_embedded_asset_with_content_type() {
    let a = assets();
    let asset = a
        .iter()
        .find(|candidate| candidate.path.starts_with("assets/"))
        .expect("built ui asset");
    let UiReply::File(at) = ui_asset(&a, &asset.path["assets/".len()..]) else {
        panic!("not found")
    };
    assert_eq!(a[at].content_type, asset.content_type);
    assert_eq!(ui_cache_control(&a[at]), "public, max-age=31536000, immutable");
}

#[test]
fn pages_are_found() {
    let a = assets();
    assert_eq!(ui_index(&a), UiReply::File(0));
    assert_eq!(ui_index(&Vec::new()), UiReply::NoFrontPage);
    assert_eq!(ui_asset(&a, "app.js"), UiReply::File(1));
    assert_eq!(ui_asset(&a, "other.js"), UiReply::NotFound);
    assert_eq!(find_ui_asset(&a, "favicon.ico"), Some(2));
    assert_eq!(ui_cache_control(&a[0]), "no-cache");
    assert_eq!(ui_cache_control(&a[1]), "public, max-age=31536000, immutable");
    assert_eq!(ui_cache_control(&a[2]), "public, max-age=3600");
}

#[test]
fn ui_fallback_serves_index_for_client_routes() {
    let a = assets();
    assert_eq!(ui_fallback(&a, "/conversations/demo"), UiReply::File(0));
    assert_eq!(ui_fallback(&a, "/chat/123"), UiReply::File(0));
    assert_eq!(ui_fallback(&a, "/"), UiReply::File(0));
    assert_eq!(ui_fallback(&a, "//favicon.ico"), UiReply::File(2));
    assert_eq!(ui_fallback(&a, "/missing.js"), UiReply::NotFound);
    assert_eq!(ui_fallback(&a, "/assets"), UiReply::NotFound);
}

#[test]
fn ui_fallback_does_not_intercept_unknown_api_paths() {
    let a = assets();
    assert_eq!(ui_fallback(&a, "/v1/unknown"), UiReply::NotFound);
    assert_eq!(ui_fallback(&a, "/_mte/x"), UiReply::NotFound);
    assert!(is_reserved_api_path("v1"));
    assert!(!is_reserved_api_path("v10"));
}

// ---- jobs ----

fn trigger() -> CronTrigger {
    CronTrigger {
        job_id: "job".to_string(),
        channel: "slack".to_string(),
        chat_id: "c".to_string(),
        message: "work".to_string(),
    }
}

#[test]
fn a_job_is_brought_to_the_agent() {
    let m = trigger_message(&trigger());
    assert_eq!(m.sender_id, "cron");
    assert_eq!(m.content, "work");
    assert_eq!(get_background_job_id(&m.metadata).as_deref(), Some("cron:job"));
    assert_eq!(metadata_text(&m.metadata, "cron_job_id").as_deref(), Some("job"));
    assert_eq!(
        metadata_text(&m.metadata, "trigger_source").as_deref(),
        Some("multi_tenant_edge")
    );
    assert!(metadata_truthy(&m.metadata, METADATA_SYNTHETIC_CRON_TRIGGER));
    assert!(metadata_truthy(
        &m.metadata,
        METADATA_AUTONOMOUS_FORBID_FINAL_WITHOUT_TOOLS
    ));
}

/// The steps that a request takes, and the status that it is answered with.
fn answers(events: Vec<CronEvent>) -> (usize, u16) {
    let mut phase = CronPhase::Begun;
    let mut steps = 0;
    for event in events {
        let (next, step) = after_step(phase, event);
        phase = next;
        steps += 1;
        if let CronStep::Answer(status) = step {
            assert_eq!(phase, CronPhase::Answered);
            return (steps, status);
        }
    }
    panic!("not answered")
}

/// A scheduled job of the tests.
fn job_1() -> CronTrigger {
    CronTrigger {
        job_id: "job-1".to_string(),
        channel: "terminal".to_string(),
        chat_id: "chat-123".to_string(),
        message: "wake up".to_string(),
    }
}

/// A scheduler with one job that runs once, or again and again.
struct Schedule {
    job: Option<&'static str>,
    once: bool,
    rollback_fails: bool,
    given_back: usize,
    completed: usize,
}

fn schedule(token: &'static str, once: bool) -> Schedule {
    Schedule {
        job: Some(token),
        once,
        rollback_fails: false,
        given_back: 0,
        completed: 0,
    }
}

/// Runs a request to its end; gives the status, and what reached the agent.
fn request_job(
    s: &mut Schedule,
    id: &str,
    token: &str,
    bus_open: bool,
) -> (u16, Option<InboundMessage>) {
    let mut event = if id == "job-1" && s.job == Some(token) {
        CronEvent::Found(job_1())
    } else {
        CronEvent::Unknown
    };
    let mut phase = CronPhase::Begun;
    let mut sent = None;
    loop {
        let (next, step) = after_step(phase, event);
        phase = next;
        event = match step {
            CronStep::Answer(status) => return (status, sent),
            CronStep::Send(message) => {
                if bus_open {
                    sent = Some(message);
                    CronEvent::Succeeded
                } else {
                    CronEvent::Failed
                }
            }
            CronStep::Rollback => {
                s.given_back += 1;
                if s.rollback_fails {
                    CronEvent::Failed
                } else {
                    CronEvent::Succeeded
                }
            }
            CronStep::MarkDelivered => CronEvent::Succeeded,
            CronStep::Complete => {
                s.completed += 1;
                if s.once {
                    s.job = None;
                }
                CronEvent::Succeeded
            }
        };
    }
}

#[test]
fn mte_cron_webhook_route_enqueues_saved_message_and_returns_no_content() {
    let mut s = schedule("secret-token", false);
    let (status, sent) = request_job(&mut s, "job-1", "secret-token", true);
    assert_eq!(status, 204);
    let inbound = sent.expect("cron bus message");
    assert_eq!(inbound.channel, "terminal");
    assert_eq!(inbound.chat_id, "chat-123");
    assert_eq!(inbound.content, "wake up");
    assert_eq!(inbound.sender_id, "cron");
    assert_eq!(metadata_text(&inbound.metadata, "cron_job_id").as_deref(), Some("job-1"));
}

#[test]
fn mte_cron_webhook_route_returns_not_found_for_unknown_job_or_token() {
    let mut s = schedule("secret-token", false);
    let (status, sent) = request_job(&mut s, "job-1", "wrong-token", true);
    assert_eq!(status, 404);
    assert!(sent.is_none());
}

#[test]
fn mte_cron_webhook_route_removes_one_shot_jobs_after_first_trigger() {
    let mut s = schedule("one-shot-token", true);
    let (first, _) = request_job(&mut s, "job-1", "one-shot-token", true);
    let (second, _) = request_job(&mut s, "job-1", "one-shot-token", true);
    assert_eq!(first, 204);
    assert_eq!(second, 404);
    assert!(s.job.is_none());
    assert_eq!(s.completed, 1);
}

#[test]
fn mte_cron_webhook_route_keeps_one_shot_job_when_enqueue_fails() {
    let mut s = schedule("one-shot-token", true);
    let (status, sent) = request_job(&mut s, "job-1", "one-shot-token", false);
    assert_eq!(status, 500);
    assert!(sent.is_none());
    assert!(s.job.is_some(), "job should remain");
    assert_eq!((s.given_back, s.completed), (1, 0));
}

#[test]
fn mte_cron_webhook_route_keeps_one_shot_job_when_enqueue_and_rollback_sync_fail() {
    let mut s = schedule("one-shot-token", true);
    s.rollback_fails = true;
    let (status, _) = request_job(&mut s, "job-1", "one-shot-token", false);
    assert_eq!(status, 500);
    assert!(s.job.is_some());
    assert_eq!((s.given_back, s.completed), (1, 0));
}

#[test]
fn cron_requests_are_answered() {
    assert_eq!(
        answers(vec![
            CronEvent::Found(trigger()),
            CronEvent::Succeeded,
            CronEvent::Succeeded,
            CronEvent::Succeeded
        ]),
        (4, 204)
    );
    assert_eq!(answers(vec![CronEvent::Unknown]), (1, 404));
    assert_eq!(answers(vec![CronEvent::Failed]), (1, 500));
    // What could not be enqueued is rolled back first.
    assert_eq!(
        answers(vec![
            CronEvent::Found(trigger()),
            CronEvent::Failed,
            CronEvent::Succeeded
        ]),
        (3, 500)
    );
    assert_eq!(
        answers(vec![
            CronEvent::Found(trigger()),
            CronEvent::Succeeded,
            CronEvent::Failed
        ]),
        (3, 500)
    );
}

#[test]
fn answers_reach_the_job_that_asked() {
    let ticket = ClarificationTicket {
        job_id: "job".to_string(),
        channel: "api".to_string(),
        chat_id: "c".to_string(),
        thread_id: Some("t".to_string()),
    };
    let m = answer_message(known_ticket(Some(ticket)).unwrap(), "tick", "yes".to_string());
    assert_eq!(m.sender_id, "notification_reply");
    assert_eq!(m.thread_id.as_deref(), Some("t"));
    assert_eq!(m.content, "yes");
    assert_eq!(get_background_job_id(&m.metadata).as_deref(), Some("job"));
    assert_eq!(
        metadata_text(&m.metadata, METADATA_CLARIFICATION_TICKET_ID).as_deref(),
        Some("tick")
    );
    assert!(metadata_truthy(&m.metadata, METADATA_SYNTHETIC_BACKGROUND_RESUME));
    let e = known_ticket(None).unwrap_err();
    assert_eq!((e.status, e.code.as_str()), (404, "not_found"));
    assert_eq!(
        answer_not_sent("full").message,
        "Failed to enqueue ticket response: full"
    );
    assert_eq!(list_limit(None), 100);
    assert_eq!(list_limit(Some(3)), 3);
}

#[test]
fn a_cancelled_conversation_is_free() {
    let mut table = PendingTable::new();
    table.claim("c", PendingRequest::Sync);
    let e = after_cancel(&mut table, "c", Err("gone".to_string())).unwrap_err();
    assert_eq!((e.code.as_str(), e.message.as_str()), ("agent_unavailable", "gone"));
    assert!(!table.claim("c", PendingRequest::Sync));
    assert!(after_cancel(&mut table, "c", Ok(())).is_ok());
    assert!(table.claim("c", PendingRequest::Sync));
}
