use isanagent::api_error::MemoryReply;
use isanagent::bus::{
    set_metadata, InboundMessage, METADATA_BACKGROUND_JOB_ID, METADATA_CLARIFICATION_TICKET_ID,
    METADATA_SYNTHETIC_CRON_TRIGGER,
};
use isanagent::chat_table::ChatTable;
use isanagent::json::Json;
use isanagent::message::{
    ChatMessage, ContentPart, MessageContent, ToolCallFunction, ToolCallRequest,
};
use isanagent::routing::{
    after_append, after_context, after_job_ticket, after_jobs, after_offer, after_resolve,
    after_ticket, arrive, conclude_turn, is_background_turn, start_turn, ArrivalStep,
    BackgroundJob, OpenTicket, TurnEnd, PANIC_NOTICE,
};
use isanagent::tool_call::grep_like_preview;
use isanagent::turn::{
    compaction_need, opening_message, plan_stale_swaps, requested_compaction, CompactionTrigger,
};

fn message(chat: &str, content: &str) -> InboundMessage {
    InboundMessage {
        channel: "terminal".to_string(),
        sender_id: "me".to_string(),
        chat_id: chat.to_string(),
        thread_id: None,
        content: content.to_string(),
        attachments: Vec::new(),
        metadata: Vec::new(),
    }
}

fn ticket(job: &str, call: Option<&str>) -> OpenTicket {
    OpenTicket {
        ticket_id: "t1".to_string(),
        job_id: job.to_string(),
        tool_call_id: call.map(|c| c.to_string()),
    }
}

fn job(id: &str, state: &str) -> BackgroundJob {
    BackgroundJob {
        job_id: id.to_string(),
        state: state.to_string(),
    }
}

#[test]
fn a_message_is_first_offered_as_a_reply() {
    let mut table = ChatTable::new();
    let ArrivalStep::Offer {
        inbound,
        session_key,
    } = arrive(message("c", "hi"))
    else {
        panic!("not offered")
    };
    assert_eq!(session_key, "terminal:c:");
    assert!(matches!(
        after_offer(&mut table, inbound, true),
        ArrivalStep::Done
    ));
}

#[test]
fn a_busy_chat_keeps_messages_and_drops_schedules() {
    let mut table = ChatTable::new();
    start_turn(&mut table, &message("c", "first"), 7);
    let step = after_offer(&mut table, message("c", "second"), false);
    assert!(matches!(step, ArrivalStep::Done));
    let mut cron = message("c", "tick");
    set_metadata(
        &mut cron.metadata,
        METADATA_SYNTHETIC_CRON_TRIGGER,
        Json::Bool(true),
    );
    let step = after_offer(&mut table, cron, false);
    assert!(matches!(step, ArrivalStep::Done));
    let next = table.end_turn("c", 7);
    assert_eq!(next.map(|m| m.content), Some("second".to_string()));
    assert!(table.end_turn("c", 7).is_none());
}

#[test]
fn waiting_jobs_are_asked_in_order() {
    let mut table = ChatTable::new();
    let step = after_offer(&mut table, message("c", "yes"), false);
    let ArrivalStep::ListJobs { inbound } = step else {
        panic!("no jobs asked")
    };
    let jobs = vec![
        job("j0", "completed"),
        job("j1", "waiting"),
        job("j2", "waiting"),
    ];
    let ArrivalStep::FindJobTicket {
        inbound,
        job_id,
        rest,
    } = after_jobs(inbound, jobs)
    else {
        panic!("no job asked")
    };
    assert_eq!(job_id, "j1");
    let ArrivalStep::FindJobTicket {
        inbound,
        job_id,
        rest,
    } = after_job_ticket(inbound, job_id, rest, None)
    else {
        panic!("no second job asked")
    };
    assert_eq!(job_id, "j2");
    let step = after_job_ticket(inbound, job_id, rest, Some(ticket("other", None)));
    match step {
        ArrivalStep::Resolve {
            ticket, expressly, ..
        } => {
            assert_eq!(ticket.job_id, "j2");
            assert!(!expressly);
        }
        _ => panic!("not resolved"),
    }
    let step = after_jobs(message("c", "yes"), vec![job("j0", "completed")]);
    assert!(matches!(step, ArrivalStep::Start(m) if m.content == "yes"));
}

#[test]
fn an_answered_ticket_goes_back_to_its_call() {
    let mut table = ChatTable::new();
    let mut inbound = message("c", "blue");
    set_metadata(
        &mut inbound.metadata,
        METADATA_CLARIFICATION_TICKET_ID,
        Json::Str("t1".to_string()),
    );
    let ArrivalStep::FindTicket { inbound, ticket_id } = after_offer(&mut table, inbound, false)
    else {
        panic!("no ticket asked")
    };
    assert_eq!(ticket_id, "t1");
    let step = after_ticket(&mut table, inbound, Some(ticket("j1", Some("call-1"))));
    let ArrivalStep::Resolve {
        inbound,
        ticket,
        expressly,
    } = step
    else {
        panic!("not resolved")
    };
    assert!(expressly);
    let step = after_resolve(inbound, ticket, expressly, &MemoryReply::Done);
    let ArrivalStep::ReadContext {
        inbound,
        ticket,
        expressly,
        tool_call_id,
    } = step
    else {
        panic!("no context read")
    };
    let mut asking = ChatMessage::assistant("");
    asking.tool_calls = Some(vec![ToolCallRequest {
        id: "call-1".to_string(),
        tool_type: "function".to_string(),
        extra_content: None,
        function: ToolCallFunction {
            name: "ask_user".to_string(),
            arguments: "{}".to_string(),
        },
    }]);
    let step = after_context(inbound, ticket, expressly, &tool_call_id, Some(vec![asking]));
    let ArrivalStep::Append {
        inbound,
        ticket,
        expressly,
        message,
    } = step
    else {
        panic!("nothing appended")
    };
    assert_eq!(message.role, "tool");
    assert_eq!(message.name.as_deref(), Some("ask_user"));
    assert_eq!(message.tool_call_id.as_deref(), Some("call-1"));
    let ArrivalStep::Start(resumed) = after_append(inbound, ticket, expressly, Ok(())) else {
        panic!("not started")
    };
    assert_eq!(resumed.content, "blue");
    assert!(is_background_turn(&resumed));
    assert!(resumed
        .metadata
        .iter()
        .any(|(k, v)| k == METADATA_BACKGROUND_JOB_ID
            && matches!(v, Json::Str(id) if id == "j1")));
}

fn told(step: ArrivalStep) -> String {
    match step {
        ArrivalStep::Tell { error, .. } => error,
        _ => panic!("nothing told"),
    }
}

#[test]
fn a_job_that_does_not_go_on_is_told() {
    let resolve = |reply: MemoryReply, expressly: bool| {
        told(after_resolve(
            message("c", "x"),
            ticket("j1", None),
            expressly,
            &reply,
        ))
    };
    assert_eq!(
        resolve(MemoryReply::Closed, true),
        "Failed to resume background job [j1]: Memory actor channel closed"
    );
    assert_eq!(
        resolve(MemoryReply::NotSent("full".to_string()), false),
        "Failed to auto-resume background job [j1]: Memory actor error: full"
    );
    assert_eq!(
        resolve(MemoryReply::Refused("gone".to_string()), true),
        "Failed to resume background job [j1]: Memory node failed to resolve ticket fully: gone"
    );
    let step = after_context(message("c", "x"), ticket("j1", None), true, "k", None);
    assert_eq!(
        told(step),
        "Failed to resume background job [j1]: Failed to get session terminal:c:"
    );
    let step = after_append(
        message("c", "x"),
        ticket("j1", None),
        true,
        Err("full".to_string()),
    );
    assert_eq!(
        told(step),
        "Failed to resume background job [j1]: Failed to inject tool response into memory: full"
    );
}

#[test]
fn the_end_of_a_turn_is_reported() {
    let inbound = message("c", "x");
    let report = conclude_turn(&inbound, Some("j1"), &TurnEnd::Panicked, false);
    assert_eq!(report.stored.as_deref(), Some(PANIC_NOTICE));
    assert_eq!(report.error.as_deref(), Some(PANIC_NOTICE));
    let job = match report.job {
        Some(job) => job,
        None => panic!("no job"),
    };
    assert_eq!(job.state, "failed");
    assert_eq!(job.last_error.as_deref(), Some("Panic in reasoning loop"));
    assert_eq!(job.notice.content, "Background task finished: failed");
    let report = conclude_turn(&inbound, None, &TurnEnd::Answered("ok".to_string()), false);
    assert!(report.stored.is_none() && report.error.is_none() && report.job.is_none());
    let waiting = TurnEnd::Answered("WAITING:t1".to_string());
    let report = conclude_turn(&inbound, Some("j1"), &waiting, true);
    assert_eq!(report.job.map(|j| j.state), Some("waiting".to_string()));
}

fn text_of(m: &ChatMessage) -> String {
    match &m.content {
        Some(c) => c.text_content(),
        None => String::new(),
    }
}

#[test]
fn old_tool_results_are_archived_at_each_step() {
    let mut stored = vec![(1, ChatMessage::tool("the whole result", "c1", Some("t")))];
    for id in 2..5 {
        stored.push((id, ChatMessage::user("next")));
    }
    stored.push((5, ChatMessage::tool("fresh", "c2", Some("t"))));
    let plan = plan_stale_swaps(stored);
    assert_eq!(plan.archive.len(), 1);
    assert_eq!(plan.archive[0].full_content, "the whole result");
    assert_eq!(plan.updates.len(), 1);
    assert_eq!(plan.updates[0].0, 1);
    assert_eq!(plan.updates[0].1, plan.archive[0].compact_summary);
    assert_eq!(plan.conversation.len(), 5);
    assert_eq!(text_of(&plan.conversation[0]), plan.updates[0].1);
    assert_eq!(text_of(&plan.conversation[4]), "fresh");
}

#[test]
fn a_long_conversation_is_compacted() {
    let context = vec![
        ChatMessage::user("12345678"),
        ChatMessage::assistant("1234"),
        ChatMessage::user("12345678"),
    ];
    let asked = requested_compaction(CompactionTrigger::Manual, &context);
    assert_eq!(asked.reason, CompactionTrigger::Manual);
    assert_eq!(asked.turns_before, 2);
    let size = asked.tokens_before as usize;
    assert!(compaction_need(&context, None, 3, size + 1).is_none());
    let need = compaction_need(&context, None, 3, size);
    assert_eq!(need.map(|n| n.reason), Some(CompactionTrigger::TokenLimit));
    let need = compaction_need(&context, Some(900), 2, 900);
    assert_eq!(need.map(|n| n.reason), Some(CompactionTrigger::BothLimits));
    assert_eq!(need.map(|n| n.tokens_before), Some(900));
    let need = compaction_need(&context, Some(1), 2, size + 1);
    assert_eq!(need.map(|n| n.reason), Some(CompactionTrigger::TurnLimit));
}

#[test]
fn a_turn_opens_with_what_came() {
    let plain = opening_message("hi", Vec::new());
    assert!(matches!(plain.content, Some(MessageContent::Text(t)) if t == "hi"));
    let part = ContentPart::Text {
        text: "more".to_string(),
    };
    let rich = opening_message("hi", vec![part]);
    assert!(matches!(rich.content, Some(MessageContent::Parts(p)) if p.len() == 2));
}

fn command(text: &str) -> Json {
    Json::Object(vec![("command".to_string(), Json::Str(text.to_string()))])
}

#[test]
fn a_shell_that_searches_is_noticed() {
    assert_eq!(
        grep_like_preview("exec", &command("grep -r x .")).as_deref(),
        Some("grep -r x .")
    );
    assert!(grep_like_preview("exec", &command("ls")).is_none());
    assert!(grep_like_preview("python", &command("grep -r x .")).is_none());
    let long = format!("grep {}", "a".repeat(200));
    let shown = match grep_like_preview("exec", &command(&long)) {
        Some(s) => s,
        None => panic!("not noticed"),
    };
    assert_eq!(shown, format!("{}...", &long[..160]));
}
