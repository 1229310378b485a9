use isanagent::bus::{metadata_text, metadata_truthy, METADATA_SUBAGENT_STATUS, METADATA_SUBAGENT_TASK_ID};
use isanagent::json::Json;
use isanagent::plan::{plan_argument, step_output, PlanAction, PlanRun, PlanStep};
use isanagent::subagent::{
    agent_run, finished_notice, first_message, new_task, reply_to_spawn, started_notice,
    status_text, stored_end, task_label, task_list_text, truncate_for_tui, truncate_sqlite_field,
    wait_timeout_error, wake_message, AgentLookup, AgentManifest, ProviderChoice, RunDefaults,
    SubagentHarness, SubagentSettings, SubagentSpawnSpec, TaskEnd, SQLITE_CUT_MARK,
};
use isanagent::subagent_tools::{
    agent_list_text, dashboard_rows, dashboard_text, history_rows, history_text, spawn_arguments,
    task_id_argument,
};
use isanagent::task_index::TaskStatus;

fn settings(max_tasks: usize) -> SubagentSettings {
    SubagentSettings {
        max_tasks,
        max_wait_secs: 60,
        cancel_children_on_parent_cancel: true,
        wake_on_completion: true,
    }
}

fn harness(max_tasks: usize) -> SubagentHarness {
    let mut h = SubagentHarness::new(settings(max_tasks));
    h.bind_tools().unwrap();
    h
}

fn spec(parent: &str) -> SubagentSpawnSpec {
    SubagentSpawnSpec {
        parent_channel: "terminal".to_string(),
        parent_chat_id: parent.to_string(),
        parent_thread_id: None,
        prompt: "count the files".to_string(),
        wait: false,
        display_name: Some("counter".to_string()),
        agent_name: None,
        background_job_id: None,
    }
}

fn manifest(name: &str) -> AgentManifest {
    AgentManifest {
        name: name.to_string(),
        description: "d".to_string(),
        system_prompt: "be brief".to_string(),
        allowed_tools: Some(vec!["read_file".to_string()]),
        model: Some("big".to_string()),
        temperature: None,
        max_iterations: Some(7),
    }
}

fn args(members: Vec<(&str, Json)>) -> Json {
    Json::Object(members.into_iter().map(|(k, v)| (k.to_string(), v)).collect())
}

fn text(s: &str) -> Json {
    Json::Str(s.to_string())
}

fn at<'a>(j: &'a Json, key: &str) -> &'a Json {
    match j {
        Json::Object(members) => match members.iter().find(|m| m.0 == key) {
            Some(m) => &m.1,
            None => panic!("no member {key}"),
        },
        other => panic!("{:?}", other),
    }
}

#[test]
fn spawn_with_named_agent_and_no_registry_returns_error_without_panic() {
    let h = harness(4);
    let mut s = spec("p");
    s.agent_name = Some("researcher".to_string());
    let e = h.begin_spawn(&s, &AgentLookup::NoRegistry).unwrap_err();
    assert!(e.contains("Named agents are not configured"), "{e}");
    let e = h.begin_spawn(&s, &AgentLookup::Unknown).unwrap_err();
    assert!(e.contains("'researcher' not found"), "{e}");
    assert!(h.begin_spawn(&s, &AgentLookup::Found(manifest("researcher"))).is_ok());
}

#[test]
fn tools_are_bound_once() {
    let mut h = SubagentHarness::new(settings(4));
    let e = h.begin_spawn(&spec("p"), &AgentLookup::NoRegistry).unwrap_err();
    assert_eq!(e, "Subagent harness is not wired to tools yet");
    assert!(h.bind_tools().is_ok());
    assert!(h.bind_tools().is_err());
    assert!(h.cancel_children_on_parent_cancel());
}

#[test]
fn a_task_runs_and_ends() {
    let mut h = harness(1);
    let s = spec("p");
    let task = h.begin_spawn(&s, &AgentLookup::NoRegistry).unwrap();
    assert!(task.child_chat_id.starts_with("subagent-"));
    h.register(&s, &task);
    assert_eq!(
        h.check_spawn(None, &AgentLookup::NoRegistry).unwrap_err(),
        "Maximum number of sub-agent tasks (1) reached"
    );
    h.mark_running(&task.task_id);
    let shown = h.get_task(&task.task_id, "p").unwrap();
    assert!(matches!(at(&shown, "status"), Json::Str(s) if s == "running"));
    assert_eq!(
        h.get_task(&task.task_id, "other").unwrap_err(),
        "Task is not owned by the current chat"
    );
    assert!(h.get_task("nope", "p").unwrap_err().contains("not found"));
    assert_eq!(h.list_for_parent("p").len(), 1);
    assert!(h.list_for_parent("other").is_empty());
    assert_eq!(h.cancel_children_for_parent("p"), vec![task.task_id.clone()]);
    assert!(h
        .cancel_task(&task.task_id, "p")
        .unwrap()
        .starts_with("Cancellation requested for task "));
    let end = h.finish(&task.task_id, Ok("42 files".to_string()), false);
    assert_eq!(end.status, TaskStatus::Completed);
    assert_eq!(end.result.as_deref(), Some("42 files"));
    let record = h.find_task(&task.task_id, "p").unwrap();
    assert!(record.is_terminal());
    assert_eq!(record.prompt, "count the files");
    h.forget(&task.task_id);
    assert!(h.find_task(&task.task_id, "p").is_err());
    assert!(h.check_spawn(None, &AgentLookup::NoRegistry).is_ok());
}

#[test]
fn a_sub_agent_is_started_and_ended() {
    let mut h = harness(1);
    let defaults = RunDefaults {
        system_prompt: "default".to_string(),
        allowlist: None,
        max_iterations: 20,
        credentials_usable: true,
    };
    let mut s = spec("p");
    s.agent_name = Some("researcher".to_string());
    let lookup = AgentLookup::Found(manifest("researcher"));
    let start = h.spawn(&s, &lookup, &defaults).unwrap();
    assert_eq!(start.run.system_prompt, "be brief");
    assert_eq!(start.first.chat_id, start.task.child_chat_id);
    assert_eq!(start.notice.content, "Sub-agent started: researcher: counter");
    let record = h.find_task(&start.task.task_id, "p").unwrap();
    assert_eq!(record.status, TaskStatus::Running);
    assert!(h.spawn(&s, &lookup, &defaults).is_err());
    let end = h.finish(&start.task.task_id, Ok("42".to_string()), false);
    assert_eq!(end.status, TaskStatus::Completed);
    assert_eq!(stored_end(&end), (Some("42".to_string()), None));
    assert!(h.find_task(&start.task.task_id, "p").unwrap().is_terminal());
    let told = h.conclude(&s, &start.task, &end);
    assert!(told.notice.content.starts_with("Sub-agent finished (completed): researcher: counter"));
    assert!(told.wake.is_some());
    assert!(h.list_for_parent("p").is_empty());
    // An agent that is found counts only where one is named.
    s.agent_name = None;
    let plain = h.spawn(&s, &lookup, &defaults).unwrap();
    assert_eq!(plain.run.system_prompt, "default");
}

#[test]
fn tasks_fail_and_are_cancelled() {
    let mut h = harness(4);
    let s = spec("p");
    let task = h.begin_spawn(&s, &AgentLookup::NoRegistry).unwrap();
    h.register(&s, &task);
    let end = h.finish(&task.task_id, Err("boom".to_string()), false);
    assert_eq!(end.status, TaskStatus::Failed);
    assert_eq!(end.error.as_deref(), Some("boom"));
    let end = h.finish(&task.task_id, Ok("late".to_string()), true);
    assert_eq!(end.status, TaskStatus::Cancelled);
    assert_eq!(status_text(end.status), "cancelled");
    let (result, error) = stored_end(&end);
    assert_eq!(error.as_deref(), Some("cancelled"));
    assert!(result.is_none() || result.as_deref() == Some("late"));
}

#[test]
fn the_parent_is_told() {
    let s = spec("p");
    let task = new_task("0123456789abcdef".to_string(), "count the files");
    assert_eq!(task.child_chat_id, "subagent-0123456789ab");
    let started = started_notice(&s, &task);
    assert_eq!(started.chat_id, "p");
    assert_eq!(started.content, "Sub-agent started: counter");
    assert_eq!(
        metadata_text(&started.metadata, METADATA_SUBAGENT_TASK_ID).as_deref(),
        Some("0123456789abcdef")
    );
    let first = first_message(&s, &task);
    assert_eq!(first.chat_id, "subagent-0123456789ab");
    assert_eq!(first.content, "[Sub-agent: counter]\n\ncount the files");
    let end = TaskEnd {
        status: TaskStatus::Completed,
        result: Some("42".to_string()),
        error: None,
    };
    let finished = finished_notice(&s, &task, &end);
    assert_eq!(
        finished.content,
        "Sub-agent finished (completed): counter — 42"
    );
    assert_eq!(
        metadata_text(&finished.metadata, METADATA_SUBAGENT_STATUS).as_deref(),
        Some("completed")
    );
    let wake = wake_message(&s, &task, &end);
    assert_eq!(wake.sender_id, "subagent-harness");
    assert!(wake.content.ends_with("42"), "{}", wake.content);
    assert!(!metadata_truthy(&wake.metadata, "nothing"));
}

#[test]
fn long_texts_are_cut() {
    assert_eq!(truncate_for_tui("abc", 3), "abc");
    assert_eq!(truncate_for_tui("abcd", 3), "ab…");
    let cut = truncate_sqlite_field("x".repeat(100), 50);
    assert!(cut.ends_with(SQLITE_CUT_MARK));
    assert_eq!(truncate_sqlite_field("short".to_string(), 50), "short");
    assert_eq!(task_label(&None, &None, "0123456789"), "task-01234567");
    assert_eq!(
        task_label(&Some("a".to_string()), &Some("b".to_string()), "x"),
        "a: b"
    );
}

#[test]
fn a_spawn_is_answered() {
    let task = new_task("t1".to_string(), "p");
    let now = reply_to_spawn(&task, false, &None);
    assert!(matches!(at(&now, "wait"), Json::Bool(false)));
    let later = reply_to_spawn(&task, true, &Some("r".to_string()));
    assert!(matches!(at(&later, "result"), Json::Str(s) if s == "r"));
    assert_eq!(
        wait_timeout_error(60),
        "subagent_spawn timed out after 60s (wait=true)"
    );
}

#[test]
fn a_named_agent_brings_its_settings() {
    let own = agent_run(Some(&manifest("a")), "default", &None, 20, true);
    assert_eq!(own.system_prompt, "be brief");
    assert_eq!(own.allowlist, Some(vec!["read_file".to_string()]));
    assert_eq!(own.max_iterations, 7);
    assert!(matches!(own.provider, ProviderChoice::Own { .. }));
    let plain = agent_run(None, "default", &Some(vec!["x".to_string()]), 20, true);
    assert_eq!(plain.system_prompt, "default");
    assert_eq!(plain.allowlist, Some(vec!["x".to_string()]));
    assert_eq!(plain.max_iterations, 20);
    assert!(matches!(plain.provider, ProviderChoice::Parent));
    let mut any = manifest("a");
    any.allowed_tools = Some(vec!["*".to_string()]);
    any.max_iterations = Some(99);
    assert_eq!(any.allowed_tools_set(), None);
    let any = agent_run(Some(&any), "default", &Some(vec!["x".to_string()]), 20, true);
    assert_eq!(any.allowlist, Some(vec!["x".to_string()]));
    assert_eq!(any.max_iterations, 20);
    let without_key = agent_run(Some(&manifest("a")), "default", &None, 20, false);
    assert!(matches!(without_key.provider, ProviderChoice::Parent));
}

#[test]
fn the_tools_read_their_arguments() {
    let a = spawn_arguments(&args(vec![
        ("prompt", text("go")),
        ("wait", Json::Bool(true)),
        ("agent", text("")),
    ]))
    .unwrap();
    assert_eq!(a.prompt, "go");
    assert!(a.wait);
    assert!(a.agent.is_none());
    assert_eq!(spawn_arguments(&Json::Null).unwrap_err(), "Missing prompt");
    assert_eq!(task_id_argument(&args(vec![("task_id", text("x"))])).unwrap(), "x");
    assert_eq!(task_id_argument(&Json::Null).unwrap_err(), "Missing task_id");
    assert!(history_rows(&Json::Null) >= 1);
    assert!(dashboard_rows(&args(vec![("limit", Json::Number("100000".to_string()))])) < 100000);
}

#[test]
fn the_tools_write_their_answers() {
    assert_eq!(task_list_text(&[]), "No active sub-agent tasks for this chat.");
    assert_eq!(
        task_list_text(&["a".to_string(), "b".to_string()]),
        "a\nb"
    );
    assert_eq!(
        history_text(None),
        "No persisted sub-agent tasks for this chat yet."
    );
    assert_eq!(
        dashboard_text(&[], Some("h".to_string())),
        "# Task Dashboard\n\n## Active\n\n(none)\n\n\n## Recent History\n\nh"
    );
    let list = agent_list_text(Some(&vec![manifest("a")]));
    assert!(
        list.starts_with("Available named agents:\n\n- **a**: d\n  tools: [read_file]\n  model: big"),
        "{list}"
    );
    assert!(agent_list_text(None).starts_with("No named agents configured."));
}

fn step(id: &str, depends_on: &[&str]) -> PlanStep {
    PlanStep {
        id: id.to_string(),
        depends_on: depends_on.iter().map(|s| s.to_string()).collect(),
        prompt: format!("do {id}"),
        agent: None,
    }
}

#[test]
fn a_plan_runs_in_the_order_of_its_dependencies() {
    let mut run = PlanRun::new(vec![step("c", &["a", "b"]), step("b", &[]), step("a", &[])]).unwrap();
    let mut order = Vec::new();
    loop {
        match run.next_action() {
            PlanAction::Run { prompt, label, .. } => {
                if label == "plan-c" {
                    assert_eq!(
                        prompt,
                        "## Prior step a result:\nout of plan-a\n\n\
## Prior step b result:\nout of plan-b\n\ndo c"
                    );
                }
                run.record(&format!("out of {label}"));
                order.push(label);
            }
            PlanAction::Finished(report) => {
                assert!(report.starts_with("# Plan execution\n\n## Step a\nout of plan-a\n\n"));
                break;
            }
            PlanAction::Deadlock(why) => panic!("{why}"),
        }
    }
    assert_eq!(order, vec!["plan-a", "plan-b", "plan-c"]);
}

#[test]
fn a_plan_that_waits_for_itself_stops() {
    let mut run = PlanRun::new(vec![step("a", &["b"]), step("b", &["a"])]).unwrap();
    match run.next_action() {
        PlanAction::Deadlock(why) => assert_eq!(why, "Plan deadlock or missing dependency ids"),
        other => panic!("{:?}", other),
    }
    assert!(PlanRun::new(Vec::new()).is_err());
    assert!(PlanRun::new(vec![step("", &[])]).is_err());
}

#[test]
fn a_plan_is_read() {
    assert_eq!(plan_argument(&args(vec![("plan", text("{}"))])).unwrap(), "{}");
    assert!(plan_argument(&Json::Null).is_err());
    let answer = args(vec![("result", text("r"))]);
    assert_eq!(step_output(Some(&answer), "raw"), "r");
    assert_eq!(step_output(None, "raw"), "raw");
}
