use isanagent::bus::{
    clarification_session_key, get_background_job_id, metadata_text, set_metadata, InboundMessage,
    METADATA_BACKGROUND_JOB_ID, METADATA_AUTONOMOUS_SESSION, METADATA_CLARIFICATION_TICKET_ID,
};
use isanagent::chat_table::ChatTable;
use isanagent::compaction_run::{
    build_summary_request, conclude_compaction, plan_swaps, CompactionOutcome, CompactionVerdict,
    SummarizerReply,
};
use isanagent::config::{ResolvedShellPolicy, ShellPolicyMode};
use isanagent::failover::{
    after_attempt, start_fallbacks, AttemptResult, FallbackStep, RetryStep,
};
use isanagent::json::Json;
use isanagent::message::{ChatMessage, ToolCallFunction, ToolCallRequest};
use isanagent::prompt::{
    after_prompt_hooks, build_system_body, contextualize, forbids_final_without_tools,
    format_harness_todos_step_block, is_unattended_session, HostFacts, SystemPromptParts, TodoRow,
    UserPromptHookOutcome,
};
use isanagent::research::{
    context_has_tool_call, should_nudge_research_depth, text_looks_like_research_request,
};
use isanagent::routing::{
    after_offer, arrive, background_job_notification, compaction_target, conclude_turn,
    is_background_turn, job_state_after, mark_resumed, may_wake_job, receive, reply_message,
    resume_failure, start_turn, ticket_of, tool_name_for_resume, turn_error, waiting_jobs,
    ArrivalStep, BackgroundJob, Received, TurnEnd,
};
use isanagent::skills::{after_lookup, skill_request, SkillRequest, SkillStep};
use isanagent::tool_call::{
    after_approval, after_pre_hooks, conclude_tool_call, show_to_hooks, start_tool_call,
    ToolExecutionFinished, ToolStep, WAIT_SIGNAL_PREFIX,
};
use isanagent::turn::{
    after_answer, after_overflow, after_recovery, after_text, after_tool_call, assemble_context,
    begin_step, check_for_loop, compaction_trigger, count_user_turns, failure_banner,
    final_response, finalize_tool_output, finish_context, may_run_in_parallel, mirror_swap,
    nudge_message, overflow_error_text, stored_failure_text, terminal_outbound, text_message,
    tool_arguments, tool_calling_message, CompactionTrigger, LoopCheck, OverflowStep,
    RecoveryStep, StepStart, TextStep, ToolFollowUp, TurnLimits, TurnPhase, TurnState,
    CANCEL_NOTICE, MAX_ITERATIONS_MESSAGE, STUCK_MESSAGE,
};

fn inbound(chat_id: &str, content: &str) -> InboundMessage {
    InboundMessage {
        channel: "terminal".to_string(),
        sender_id: "u".to_string(),
        chat_id: chat_id.to_string(),
        thread_id: None,
        content: content.to_string(),
        attachments: Vec::new(),
        metadata: Vec::new(),
    }
}

fn limits(max_iterations: usize) -> TurnLimits {
    TurnLimits {
        max_iterations,
        doom_loop_enabled: true,
        forbid_final: false,
    }
}

fn calls(id: &str, tool: &str, arguments: &str) -> Vec<ToolCallRequest> {
    vec![ToolCallRequest {
        id: id.to_string(),
        tool_type: "function".to_string(),
        extra_content: None,
        function: ToolCallFunction {
            name: tool.to_string(),
            arguments: arguments.to_string(),
        },
    }]
}

fn args(members: Vec<(&str, &str)>) -> Json {
    Json::Object(
        members
            .into_iter()
            .map(|(k, v)| (k.to_string(), Json::Str(v.to_string())))
            .collect(),
    )
}

fn policy(mode: ShellPolicyMode) -> ResolvedShellPolicy {
    ResolvedShellPolicy {
        interactive_mode: mode,
        unattended_mode: ShellPolicyMode::Deny,
        interactive_edit_mode: mode,
        unattended_edit_mode: mode,
        approval_patterns: vec!["rm -rf".to_string()],
    }
}

// ---- a turn ----

#[test]
fn a_turn_ends_after_its_iterations() {
    let l = limits(2);
    let mut s = TurnState::new();
    for _ in 0..2 {
        assert!(matches!(begin_step(&mut s, &l, false), StepStart::Proceed));
        assert!(matches!(check_for_loop(&mut s, &l, &[]), LoopCheck::Clear));
        after_answer(&mut s, Some(10), 1);
        assert_eq!(s.phase, TurnPhase::RunningTools);
        let done = ToolExecutionFinished::Completed(Ok("x".to_string()));
        assert!(matches!(after_tool_call(&mut s, done, false), ToolFollowUp::Record(_)));
    }
    assert!(matches!(begin_step(&mut s, &l, false), StepStart::OutOfIterations));
    assert_eq!(s.phase, TurnPhase::Ended);
    assert_eq!(
        terminal_outbound(&inbound("c", "x"), false).content,
        MAX_ITERATIONS_MESSAGE
    );
}

#[test]
fn a_turn_can_be_cancelled() {
    let mut s = TurnState::new();
    assert!(matches!(begin_step(&mut s, &limits(3), true), StepStart::Cancelled));
    assert_eq!(s.phase, TurnPhase::Ended);
}

/// What a model does when it is called.
enum Reply {
    Calls(Vec<ToolCallRequest>),
    Text(String),
    Error(String),
}

/// Runs a turn on a model to its end; gives what the turn comes to, and the conversation that
/// was stored.
fn run_loop_once(
    mut model: impl FnMut(usize) -> Reply,
    max_iterations: usize,
    cancelled_before_start: bool,
    doom_loop_enabled: bool,
    forbid_final: bool,
) -> (Result<String, String>, Vec<ChatMessage>) {
    let l = TurnLimits {
        max_iterations,
        doom_loop_enabled,
        forbid_final,
    };
    let asked = inbound("loop-test-chat", "hello");
    let mut s = TurnState::new();
    let mut stored = vec![ChatMessage::user("hello")];
    let mut n = 0;
    loop {
        match begin_step(&mut s, &l, cancelled_before_start) {
            StepStart::Proceed => {}
            StepStart::Cancelled => {
                stored.push(ChatMessage::assistant(CANCEL_NOTICE));
                return (Ok(String::new()), stored);
            }
            StepStart::OutOfIterations => {
                let text = terminal_outbound(&asked, false).content;
                stored.push(ChatMessage::assistant(&text));
                return (Ok(text), stored);
            }
        }
        let context = assemble_context("test system prompt", stored.clone());
        match check_for_loop(&mut s, &l, &context) {
            LoopCheck::Clear => {}
            LoopCheck::Nudge(text) => stored.push(ChatMessage::user(&text)),
            LoopCheck::Stop => {
                let text = terminal_outbound(&asked, true).content;
                stored.push(ChatMessage::assistant(&text));
                return (Ok(text), stored);
            }
        }
        let reply = model(n);
        n += 1;
        match reply {
            Reply::Error(e) => {
                let failed = AttemptResult::Failed {
                    message: e,
                    transient: false,
                };
                let error = match after_attempt(0, failed) {
                    RetryStep::UseFallbacks { last_error } => last_error,
                    other => panic!("{:?}", other),
                };
                assert!(matches!(start_fallbacks(0), FallbackStep::Exhausted));
                stored.push(ChatMessage::assistant(&stored_failure_text(&error, true)));
                return (Err(error), stored);
            }
            Reply::Calls(made) => {
                after_answer(&mut s, None, made.len());
                stored.push(tool_calling_message("", made.clone(), None));
                for call in made {
                    let result = Err("no such tool".to_string());
                    let text = finalize_tool_output(result.clone(), 4_000);
                    stored.push(ChatMessage::tool(&text, &call.id, Some(&call.function.name)));
                    after_tool_call(&mut s, ToolExecutionFinished::Completed(result), false);
                }
            }
            Reply::Text(text) => {
                after_answer(&mut s, None, 0);
                stored.push(text_message(&text, None));
                let step = after_text(&mut s, &l, &text, &asked, &context);
                match nudge_message(&step) {
                    Some(nudge) => stored.push(nudge),
                    None => return (Ok(final_response(&text)), stored),
                }
            }
        }
    }
}

fn stored_text(m: &ChatMessage) -> String {
    m.content.as_ref().map(|c| c.text_content()).unwrap_or_default()
}

fn identical_call(_n: usize) -> Reply {
    Reply::Calls(calls("call_loop", "looping_tool", "{\"x\":1}"))
}

#[test]
fn run_reasoning_loop_persists_terminal_message_on_llm_failure() {
    let fails = |_n: usize| Reply::Error("Status 400 bad request".to_string());
    let (result, context) = run_loop_once(fails, 2, false, false, false);
    assert!(result.is_err(), "expected llm failure");
    let last = context.last().expect("last message");
    assert_eq!(last.role, "assistant");
    let text = stored_text(last);
    assert!(
        text.contains("LLM call failed after 3 attempts"),
        "persisted terminal failure not found: {text}"
    );
}

#[test]
fn run_reasoning_loop_persists_terminal_message_on_max_iterations() {
    let (result, context) =
        run_loop_once(|_n| Reply::Text("unused".to_string()), 0, false, false, false);
    assert_eq!(
        result.expect("max iterations fallback"),
        "Agent reached max reasoning iterations."
    );
    let last = context.last().expect("last message");
    assert_eq!(last.role, "assistant");
    assert_eq!(stored_text(last), "Agent reached max reasoning iterations.");
}

#[test]
fn run_reasoning_loop_persists_terminal_message_on_cancel() {
    let (result, context) =
        run_loop_once(|_n| Reply::Text("unused".to_string()), 2, true, false, false);
    assert_eq!(result.expect("cancelled run"), "");
    let last = context.last().expect("last message");
    assert_eq!(last.role, "assistant");
    let text = stored_text(last);
    assert!(
        text.contains("Request cancelled while the agent was processing this turn."),
        "persisted cancel marker missing: {text}"
    );
}

#[test]
fn doom_loop_escalates_to_hard_stop() {
    let (result, _context) = run_loop_once(identical_call, 50, false, true, false);
    let msg = result.expect("terminal message");
    assert!(
        msg.starts_with("Stopped:") && msg.contains("repeating"),
        "expected doom-loop stuck message, got: {msg}"
    );
    assert_ne!(msg, "Agent reached max reasoning iterations.");
    assert_eq!(msg, STUCK_MESSAGE);
}

#[test]
fn doom_loop_disabled_runs_to_max_iterations() {
    let (result, _context) = run_loop_once(identical_call, 3, false, false, false);
    assert_eq!(
        result.expect("terminal message"),
        "Agent reached max reasoning iterations."
    );
}

#[test]
fn doom_loop_does_not_stop_after_model_corrects() {
    let corrects = |n: usize| {
        let arguments = if n < 3 {
            "{\"x\":0}".to_string()
        } else {
            format!("{{\"x\":{n}}}")
        };
        Reply::Calls(calls(&format!("call_{n}"), "looping_tool", &arguments))
    };
    let (result, _context) = run_loop_once(corrects, 8, false, true, false);
    assert_eq!(
        result.expect("terminal message"),
        "Agent reached max reasoning iterations.",
        "a model that corrected after a nudge must not be hard-stopped"
    );
}

#[test]
fn an_overflow_is_recovered_from_once() {
    let l = limits(5);
    let mut s = TurnState::new();
    begin_step(&mut s, &l, false);
    check_for_loop(&mut s, &l, &[]);
    assert!(matches!(after_overflow(&mut s), OverflowStep::Compact));
    assert!(matches!(
        after_recovery(&mut s, CompactionOutcome::Succeeded),
        RecoveryStep::Retry
    ));
    begin_step(&mut s, &l, false);
    check_for_loop(&mut s, &l, &[]);
    assert!(matches!(after_overflow(&mut s), OverflowStep::GiveUp));
    assert_eq!(
        overflow_error_text(9, None),
        "Context overflow: input exceeds the model's window (attempted=9 max=?). \
Reduce the conversation length and retry."
    );
}

#[test]
fn forbid_final_accepts_text_after_nudge_budget() {
    let summarizes = |_n: usize| Reply::Text("here is my summary".to_string());
    let (result, context) = run_loop_once(summarizes, 10, false, false, true);
    let text = result.expect("terminal message");
    assert_eq!(text, "here is my summary");
    assert_ne!(text, "Agent reached max reasoning iterations.");
    let nudges = context.iter().filter(|m| m.role == "user").count() - 1;
    assert_eq!(nudges, 3);
}

#[test]
fn an_empty_answer_is_asked_for_again() {
    let l = limits(5);
    let mut s = TurnState::new();
    begin_step(&mut s, &l, false);
    check_for_loop(&mut s, &l, &[]);
    after_answer(&mut s, None, 1);
    let done = ToolExecutionFinished::Completed(Ok("x".to_string()));
    after_tool_call(&mut s, done, false);
    begin_step(&mut s, &l, false);
    check_for_loop(&mut s, &l, &[]);
    after_answer(&mut s, None, 0);
    assert!(matches!(
        after_text(&mut s, &l, "  ", &inbound("c", "go"), &[]),
        TextStep::AskForText
    ));
    assert_eq!(s.phase, TurnPhase::StepStart);
    match nudge_message(&TextStep::AskForText) {
        Some(m) => assert_eq!(m.role, "user"),
        None => panic!("no nudge"),
    }
    assert!(nudge_message(&TextStep::Finish).is_none());
    assert_eq!(final_response("<think>x</think>done"), "done");
}

#[test]
fn tool_calls_can_wait_and_be_cancelled() {
    let l = limits(5);
    let mut s = TurnState::new();
    begin_step(&mut s, &l, false);
    check_for_loop(&mut s, &l, &[]);
    after_answer(&mut s, None, 2);
    let done = ToolExecutionFinished::Completed(Ok("x".to_string()));
    assert!(matches!(after_tool_call(&mut s, done, true), ToolFollowUp::Record(_)));
    assert_eq!(s.phase, TurnPhase::RunningTools);
    let waits = ToolExecutionFinished::Waiting("t1".to_string());
    assert!(matches!(after_tool_call(&mut s, waits, false), ToolFollowUp::Wait(_)));
    assert_eq!(s.phase, TurnPhase::Ended);
}

#[test]
fn the_context_is_put_together() {
    let context = assemble_context(
        "you are",
        vec![
            ChatMessage::system("old"),
            ChatMessage::user("hi"),
            tool_calling_message("", calls("c1", "t", "{}"), None),
        ],
    );
    let roles: Vec<&str> = context.iter().map(|m| m.role.as_str()).collect();
    assert_eq!(roles, vec!["system", "user", "assistant", "tool"]);
    let mut context = vec![ChatMessage::user("hi")];
    finish_context(&mut context, Some("try something else"));
    assert_eq!(context.len(), 2);
    assert_eq!(context[1].role, "user");
    assert_eq!(count_user_turns(&context), 2);
}

#[test]
fn messages_of_the_model_are_kept() {
    let m = text_message("hello", Some("why".to_string()));
    assert_eq!(m.role, "assistant");
    assert_eq!(m.reasoning_content.as_deref(), Some("why"));
    let mut stored = vec![(4, ChatMessage::tool("long", "c", None))];
    mirror_swap(&mut stored, 4, "short");
    match &stored[0].1.content {
        Some(c) => assert_eq!(c.text_content(), "short"),
        None => panic!("no content"),
    }
}

#[test]
fn tool_results_are_cut() {
    assert_eq!(finalize_tool_output(Err("boom".to_string()), 10), "Error: boom");
    let cut = finalize_tool_output(Ok("x".repeat(100)), 50);
    assert_eq!(cut, format!("{}\n... [TRUNCATED FOR LENGTH]", "x".repeat(50)));
    assert_eq!(finalize_tool_output(Ok("ok".to_string()), 50), "ok");
    assert!(may_run_in_parallel(false, &[true, true]));
    assert!(!may_run_in_parallel(false, &[true, false]));
    assert!(!may_run_in_parallel(false, &[true]));
    assert!(matches!(tool_arguments(None), Json::Object(m) if m.is_empty()));
}

#[test]
fn failures_are_told() {
    let banner = failure_banner(&inbound("c", "x"), "boom");
    assert_eq!(banner.chat_id, "c");
    assert_eq!(
        banner.content,
        "LLM call failed after 3 attempts: boom\nPress /retry to try again or /cancel to abandon."
    );
    assert_eq!(banner.metadata.len(), 2);
    assert!(banner.metadata.iter().all(|(_, v)| matches!(v, Json::Bool(true))));
    let mut elsewhere = inbound("c", "x");
    elsewhere.channel = "api".to_string();
    set_metadata(
        &mut elsewhere.metadata,
        METADATA_BACKGROUND_JOB_ID,
        Json::Str("j".to_string()),
    );
    let banner = failure_banner(&elsewhere, "boom");
    assert_eq!(get_background_job_id(&banner.metadata).as_deref(), Some("j"));
    assert_eq!(banner.metadata.len(), 1);
    assert_eq!(stored_failure_text("boom", true), banner.content);
    assert_eq!(
        stored_failure_text("boom", false),
        "LLM call failed: boom\nPress /retry to try again or /cancel to abandon."
    );
}

#[test]
fn compaction_is_due() {
    assert!(compaction_trigger(1, 1, 10, 10).is_none());
    assert!(matches!(
        compaction_trigger(10, 1, 10, 10),
        Some(CompactionTrigger::TurnLimit)
    ));
    assert!(matches!(
        compaction_trigger(1, 10, 10, 10),
        Some(CompactionTrigger::TokenLimit)
    ));
    assert!(matches!(
        compaction_trigger(10, 10, 10, 10),
        Some(CompactionTrigger::BothLimits)
    ));
}

// ---- compaction ----

#[test]
fn a_compaction_is_planned_and_concluded() {
    let stored = vec![
        (1, ChatMessage::user("u1")),
        (2, ChatMessage::tool("result", "c1", Some("t"))),
        (3, ChatMessage::user("u2")),
    ];
    let plan = plan_swaps(stored, Vec::new());
    assert_eq!(plan.last_message_id, Some(3));
    assert_eq!(plan.archive.len(), 1);
    assert_eq!(plan.archive[0].tool_call_id, "c1");
    assert_eq!(plan.updates[0].0, 2);
    let request = build_summary_request(&plan.context, Some("before"), None);
    assert_eq!(request.messages.len(), 2);
    assert_eq!(request.messages[0].role, "system");
    match conclude_compaction(SummarizerReply::Parsed(args(vec![("task_overview", "t")]))) {
        CompactionVerdict::Store(done) => {
            assert_eq!(done.markdown, "## Task overview\nt");
            assert_eq!(done.filled_slots, 1);
            assert_eq!(done.summary_bytes as usize, done.markdown.len());
        }
        other => panic!("{:?}", other),
    }
    match conclude_compaction(SummarizerReply::ProviderError("down".to_string())) {
        CompactionVerdict::Stop { reason, .. } => assert_eq!(reason, "provider error: down"),
        other => panic!("{:?}", other),
    }
    assert!(matches!(
        conclude_compaction(SummarizerReply::Cancelled),
        CompactionVerdict::Stop {
            outcome: CompactionOutcome::Cancelled,
            ..
        }
    ));
    assert!(matches!(
        conclude_compaction(SummarizerReply::NotJson),
        CompactionVerdict::Stop {
            outcome: CompactionOutcome::Failed,
            ..
        }
    ));
}

// ---- tool calls ----

#[test]
fn code_is_let_through_only_when_it_may() {
    let code = args(vec![("code", "print(1)")]);
    let out = start_tool_call("python_run", &code, &policy(ShellPolicyMode::Ask), false, false);
    let preview = match out.step {
        ToolStep::AskUser { prompt, preview } => {
            assert!(prompt.starts_with("Approve running `python_run`?"), "{prompt}");
            preview
        }
        other => panic!("{:?}", other),
    };
    let granted = after_approval(Ok("yes".to_string()), preview.clone(), false);
    assert!(matches!(granted.step, ToolStep::Execute));
    assert_eq!(granted.report.unwrap().decision, "approval_granted");
    let denied = after_approval(Ok("no".to_string()), preview, true);
    match denied.step {
        ToolStep::Finish(ToolExecutionFinished::Completed(Err(e))) => {
            assert_eq!(e, "Command not approved by user; execution skipped.")
        }
        other => panic!("{:?}", other),
    }
    let blocked = start_tool_call("python_run", &code, &policy(ShellPolicyMode::Allow), true, false);
    match blocked.step {
        ToolStep::Finish(ToolExecutionFinished::Completed(Err(e))) => {
            assert!(e.starts_with("Command blocked by shell policy"), "{e}")
        }
        other => panic!("{:?}", other),
    }
    let read = start_tool_call("read_file", &code, &policy(ShellPolicyMode::Deny), false, true);
    assert!(matches!(read.step, ToolStep::RunPreHooks));
    let ls = args(vec![("command", "ls")]);
    let run = start_tool_call("exec", &ls, &policy(ShellPolicyMode::Ask), false, false);
    assert!(matches!(run.step, ToolStep::Execute));
}

#[test]
fn hooks_can_object() {
    assert!(matches!(after_pre_hooks(None), ToolStep::Execute));
    assert!(matches!(
        after_pre_hooks(Some("no".to_string())),
        ToolStep::Finish(ToolExecutionFinished::Completed(Err(_)))
    ));
    assert_eq!(show_to_hooks(&None).unwrap_err(), "tool call cancelled");
}

#[test]
fn a_call_can_wait_for_the_user() {
    let signal = format!("{}t1", WAIT_SIGNAL_PREFIX);
    match conclude_tool_call(Some(Err(signal)), None) {
        ToolExecutionFinished::Waiting(ticket) => assert_eq!(ticket, "t1"),
        other => panic!("{:?}", other),
    }
    assert!(matches!(
        conclude_tool_call(None, None),
        ToolExecutionFinished::Cancelled
    ));
    match conclude_tool_call(Some(Ok("a".to_string())), Some("b".to_string())) {
        ToolExecutionFinished::Completed(Ok(s)) => assert_eq!(s, "a\n\n[post-tool hook]\nb"),
        other => panic!("{:?}", other),
    }
}

// ---- where messages go ----

#[test]
fn inbound_queues_while_reasoning_active_second_chat_after_first() {
    let cid = "queue-seq-chat";
    let mut table = ChatTable::new();
    assert!(matches!(receive(&mut table, inbound(cid, "first")), Received::Free(_)));
    let start = start_turn(&mut table, &inbound(cid, "first"), 1);
    assert!(!start.is_background);
    assert_eq!(start.session_key, "terminal:queue-seq-chat:");
    assert!(matches!(receive(&mut table, inbound(cid, "second")), Received::Queued));
    assert!(matches!(receive(&mut table, inbound(cid, "third")), Received::Queued));
    assert!(matches!(receive(&mut table, inbound("other", "x")), Received::Free(_)));
    assert_eq!(table.turn_in(cid), Some(1));
    assert_eq!(table.end_turn(cid, 1).map(|m| m.content), Some("second".to_string()));
}

#[test]
fn cancel_clears_pending_inbound_second_provider_chat_never_starts() {
    let cid = "cancel-q-chat";
    let mut table = ChatTable::new();
    start_turn(&mut table, &inbound(cid, "first"), 1);
    assert!(matches!(receive(&mut table, inbound(cid, "second")), Received::Queued));
    assert_eq!(table.cancel(cid), Some(1));
    assert!(table.end_turn(cid, 1).is_none());
    assert!(table.turn_in(cid).is_none());
}

#[test]
fn clarification_inbound_routes_via_hub_before_reasoning_spawn() {
    let chat_id = "clar-chat";
    let sk = clarification_session_key("terminal", chat_id, None);
    let mut table = ChatTable::new();
    let ArrivalStep::Offer {
        inbound: offered,
        session_key,
    } = arrive(inbound(chat_id, "clarification reply text"))
    else {
        panic!("not offered")
    };
    assert_eq!(session_key, sk);
    let delivered = offered.content.clone();
    assert!(matches!(after_offer(&mut table, offered, true), ArrivalStep::Done));
    assert_eq!(delivered, "clarification reply text");
    assert!(table.turn_in(chat_id).is_none());
}

#[test]
fn panic_in_provider_is_caught_and_surfaces_channel_notice() {
    let report = conclude_turn(&inbound("panic-chat", "first"), None, &TurnEnd::Panicked, false);
    let notice = report.error.expect("notice");
    assert!(
        notice.contains("Internal error: reasoning loop panicked and was stopped."),
        "unexpected panic notice: {notice}"
    );
    assert_eq!(report.stored.as_deref(), Some(notice.as_str()));
}

#[test]
fn jobs_are_resumed() {
    let mut m = inbound("c", "yes");
    assert!(ticket_of(&m).is_none());
    assert!(may_wake_job(&m));
    assert!(!is_background_turn(&m));
    mark_resumed(&mut m, "job");
    assert_eq!(get_background_job_id(&m.metadata).as_deref(), Some("job"));
    assert!(is_background_turn(&m));
    set_metadata(
        &mut m.metadata,
        METADATA_CLARIFICATION_TICKET_ID,
        Json::Str("t".to_string()),
    );
    assert_eq!(ticket_of(&m).as_deref(), Some("t"));
    let waiting = waiting_jobs(vec![
        BackgroundJob {
            job_id: "a".to_string(),
            state: "running".to_string(),
        },
        BackgroundJob {
            job_id: "b".to_string(),
            state: "waiting".to_string(),
        },
    ]);
    assert_eq!(waiting.len(), 1);
    assert_eq!(waiting[0].job_id, "b");
    let context = vec![tool_calling_message("", calls("c9", "ask_user", "{}"), None)];
    assert_eq!(tool_name_for_resume(&context, "c9").as_deref(), Some("ask_user"));
    let reply = reply_message("yes", "c9", &context);
    assert_eq!(reply.role, "tool");
    assert_eq!(reply.name.as_deref(), Some("ask_user"));
    assert_eq!(
        resume_failure(true, "job", "x"),
        "Failed to resume background job [job]: x"
    );
}

#[test]
fn the_end_of_a_turn_is_told() {
    let answered = TurnEnd::Answered("ok".to_string());
    assert!(turn_error(&answered).is_none());
    assert!(turn_error(&TurnEnd::Panicked).is_some());
    assert_eq!(job_state_after(&answered, false).0, "completed");
    assert_eq!(
        job_state_after(&answered, true),
        ("failed".to_string(), Some("Cancelled".to_string()))
    );
    assert_eq!(job_state_after(&TurnEnd::Panicked, false).0, "failed");
    let waits = TurnEnd::Answered("WAITING:t1".to_string());
    assert_eq!(job_state_after(&waits, false).0, "waiting");
    let note = background_job_notification(&inbound("c", "x"), "job", false, Some("done"));
    assert_eq!(note.content, "Background task finished: done");
    assert_eq!(
        metadata_text(&note.metadata, METADATA_BACKGROUND_JOB_ID).as_deref(),
        Some("job")
    );
}

#[test]
fn a_chat_in_use_is_not_compacted() {
    let mut table = ChatTable::new();
    let target = compaction_target(&table, "terminal:c:").unwrap();
    assert_eq!(target.chat_id, "c");
    assert!(compaction_target(&table, "terminal").is_err());
    start_turn(&mut table, &inbound("c", "one"), 1);
    let e = compaction_target(&table, "terminal:c:").unwrap_err();
    assert!(e.contains("in flight for chat_id=c"), "{e}");
    assert_eq!(clarification_session_key("terminal", "c", None), "terminal:c:");
}

// ---- prompts ----

#[test]
fn the_model_is_told_where_it_is() {
    let facts = HostFacts {
        now: "noon".to_string(),
        os_family: "linux".to_string(),
        shell_family: "sh_or_bash".to_string(),
        path_separator: '/',
        windows: false,
        terminal: None,
    };
    let t = contextualize(&inbound("c", "hello"), &facts, false);
    assert!(t.contains("noon") && t.contains("'terminal'") && t.ends_with("hello"), "{t}");
    assert_eq!(
        isanagent::api_threads::strip_runtime_context_prefix(&t),
        "hello"
    );
}

#[test]
fn hooks_change_the_prompt() {
    assert_eq!(
        after_prompt_hooks(UserPromptHookOutcome::Proceed, "x".to_string()).unwrap(),
        "x"
    );
    assert!(after_prompt_hooks(UserPromptHookOutcome::Block("no".to_string()), "x".to_string()).is_err());
    let with = after_prompt_hooks(
        UserPromptHookOutcome::InjectPrefix("note".to_string()),
        "x".to_string(),
    )
    .unwrap();
    assert!(with.starts_with("note") && with.ends_with("x"), "{with}");
}

#[test]
fn the_system_prompt_is_put_together() {
    let body = build_system_body(
        &SystemPromptParts {
            system_prompt: "You are.".to_string(),
            summaries: vec!["before".to_string()],
            capabilities: "caps".to_string(),
            harness_summary: "host_os=linux".to_string(),
            todos: Some(vec![TodoRow {
                status: "pending".to_string(),
                content: "write".to_string(),
            }]),
        },
        0,
        5,
        false,
    );
    assert!(body.starts_with("You are."), "{body}");
    assert!(body.contains("before") && body.contains("caps") && body.contains("write"));
    let todos = format_harness_todos_step_block(&[TodoRow {
        status: "completed".to_string(),
        content: "ship".to_string(),
    }]);
    assert_eq!(
        todos,
        "\n\n--- Harness todos (this step) ---\n1. [x] ship\n"
    );
}

#[test]
fn autonomous_sessions_are_unattended() {
    let mut m = inbound("c", "x");
    assert!(!is_unattended_session(&m));
    set_metadata(&mut m.metadata, METADATA_AUTONOMOUS_SESSION, Json::Bool(true));
    assert!(is_unattended_session(&m));
    assert!(forbids_final_without_tools(false, true, &m));
}

#[test]
fn research_is_asked_to_read_its_sources() {
    assert!(text_looks_like_research_request("Please research the latest papers"));
    assert!(!text_looks_like_research_request("hi"));
    let searched = vec![tool_calling_message("", calls("c", "web_search", "{}"), None)];
    assert!(context_has_tool_call(&searched, "web_search"));
    assert!(!context_has_tool_call(&searched, "web_fetch"));
    assert!(!should_nudge_research_depth(&inbound("c", "hi"), &searched));
}

// ---- skills ----

#[test]
fn load_skill_rescans_on_miss_to_pick_up_a_new_skill() {
    assert!(matches!(
        after_lookup(Err("missing".to_string()), false),
        SkillStep::Rescan
    ));
    assert!(matches!(
        after_lookup(Err("missing".to_string()), true),
        SkillStep::Finish(Err(_))
    ));
    assert!(matches!(
        after_lookup(Ok("text".to_string()), false),
        SkillStep::Finish(Ok(_))
    ));
}

#[test]
fn load_skill_tool_supports_list_and_metadata() {
    assert!(matches!(
        skill_request(&args(vec![("action", "list")])),
        Ok(SkillRequest::List)
    ));
    match skill_request(&args(vec![("skill_name", "s"), ("detail", "metadata")])) {
        Ok(SkillRequest::Load {
            skill_name,
            metadata_only,
        }) => {
            assert_eq!(skill_name, "s");
            assert!(metadata_only);
        }
        other => panic!("{:?}", other),
    }
    assert!(skill_request(&Json::Null).is_err());
}
