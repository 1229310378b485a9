use isanagent::doom_loop::{
    check_for_doom_loop_prompt, detect_identical_consecutive, detect_repeating_sequence,
    doom_loop_active_at_tail, extract_recent_tool_signatures, hash_args, normalize_args,
    LOOKBACK_MESSAGES,
};
use isanagent::message::{ChatMessage, ToolCallFunction, ToolCallRequest};

fn tc(name: &str, args: &str) -> ToolCallRequest {
    ToolCallRequest {
        id: "id".into(),
        tool_type: "function".into(),
        extra_content: None,
        function: ToolCallFunction {
            name: name.into(),
            arguments: args.into(),
        },
    }
}

fn assistant_with_tools(calls: Vec<ToolCallRequest>) -> ChatMessage {
    ChatMessage {
        role: "assistant".into(),
        content: None,
        name: None,
        tool_calls: Some(calls),
        tool_call_id: None,
        reasoning_content: None,
        is_error: None,
    }
}

#[test]
fn identical_three_triggers() {
    let t = tc("read_file", r#"{"path":"x"}"#);
    let msgs = vec![
        assistant_with_tools(vec![t.clone()]),
        assistant_with_tools(vec![t.clone()]),
        assistant_with_tools(vec![t]),
    ];
    let p = check_for_doom_loop_prompt(&msgs).expect("prompt");
    assert!(p.contains("DOOM LOOP"));
    assert!(p.contains("read_file"));
}

#[test]
fn abab_pattern_triggers() {
    let a = tc("a", "{}");
    let b = tc("b", "{}");
    let msgs = vec![
        assistant_with_tools(vec![a.clone()]),
        assistant_with_tools(vec![b.clone()]),
        assistant_with_tools(vec![a.clone()]),
        assistant_with_tools(vec![b]),
    ];
    let p = check_for_doom_loop_prompt(&msgs).expect("prompt");
    assert!(p.contains("a → b"));
}

#[test]
fn active_at_tail_true_while_repeating() {
    let t = tc("read_file", r#"{"path":"x"}"#);
    let msgs = vec![
        assistant_with_tools(vec![t.clone()]),
        assistant_with_tools(vec![t.clone()]),
        assistant_with_tools(vec![t]),
    ];
    assert!(doom_loop_active_at_tail(&msgs));
}

#[test]
fn active_at_tail_false_after_model_corrects() {
    // The model looped (X,X,X) then changed course (Y). `check_for_doom_loop_prompt` still
    // fires on the stale X,X,X in the window, but the loop is NOT active at the tail — so
    // escalation must not count it.
    let x = tc("read_file", r#"{"path":"x"}"#);
    let y = tc("write_file", r#"{"path":"y"}"#);
    let msgs = vec![
        assistant_with_tools(vec![x.clone()]),
        assistant_with_tools(vec![x.clone()]),
        assistant_with_tools(vec![x]),
        assistant_with_tools(vec![y]),
    ];
    assert!(
        check_for_doom_loop_prompt(&msgs).is_some(),
        "stale run still detected in window"
    );
    assert!(
        !doom_loop_active_at_tail(&msgs),
        "must not be active at tail once the model has moved on"
    );
}

#[test]
fn active_at_tail_true_for_tail_anchored_cycle() {
    let a = tc("a", "{}");
    let b = tc("b", "{}");
    let msgs = vec![
        assistant_with_tools(vec![a.clone()]),
        assistant_with_tools(vec![b.clone()]),
        assistant_with_tools(vec![a]),
        assistant_with_tools(vec![b]),
    ];
    assert!(doom_loop_active_at_tail(&msgs));
}

fn paginate(offset: i32) -> ToolCallRequest {
    tc("read_file", &format!(r#"{{"path":"x","offset":{offset}}}"#))
}

#[test]
fn normalized_numeric_loop_triggers_advisory() {
    // Incrementing offset escapes the exact-hash detector but is caught by normalization.
    let msgs = vec![
        assistant_with_tools(vec![paginate(0)]),
        assistant_with_tools(vec![paginate(100)]),
        assistant_with_tools(vec![paginate(200)]),
        assistant_with_tools(vec![paginate(300)]),
    ];
    let p = check_for_doom_loop_prompt(&msgs).expect("advisory");
    assert!(p.contains("POSSIBLE LOOP"), "{p}");
    assert!(p.contains("read_file"), "{p}");
}

#[test]
fn normalized_below_threshold_does_not_trigger() {
    // Only 3 numeric-varied calls — under the (more conservative) normalized threshold of 4.
    let msgs = vec![
        assistant_with_tools(vec![paginate(0)]),
        assistant_with_tools(vec![paginate(100)]),
        assistant_with_tools(vec![paginate(200)]),
    ];
    assert!(check_for_doom_loop_prompt(&msgs).is_none());
}

#[test]
fn normalized_does_not_trigger_when_nonnumeric_args_differ() {
    // Different paths (no shared numeric-only variation) must not look like a loop.
    let msgs = vec![
        assistant_with_tools(vec![tc("read_file", r#"{"path":"a"}"#)]),
        assistant_with_tools(vec![tc("read_file", r#"{"path":"b"}"#)]),
        assistant_with_tools(vec![tc("read_file", r#"{"path":"c"}"#)]),
        assistant_with_tools(vec![tc("read_file", r#"{"path":"d"}"#)]),
    ];
    assert!(check_for_doom_loop_prompt(&msgs).is_none());
}

#[test]
fn numeric_loop_is_not_escalated_at_tail() {
    // Escalation (hard stop) must stay exact-only so legitimate bounded pagination isn't killed:
    // a numeric-varied loop nudges but is NOT active-at-tail.
    let msgs = vec![
        assistant_with_tools(vec![paginate(0)]),
        assistant_with_tools(vec![paginate(100)]),
        assistant_with_tools(vec![paginate(200)]),
        assistant_with_tools(vec![paginate(300)]),
    ];
    assert!(check_for_doom_loop_prompt(&msgs).is_some());
    assert!(!doom_loop_active_at_tail(&msgs));
}

#[test]
fn arguments_are_hashed_with_sha256() {
    assert_eq!(
        hash_args("abc"),
        "ba7816bf8f01"
    );
}

#[test]
fn numbers_are_normalized() {
    assert_eq!(
        normalize_args(r#"{"a":12,"b":3.5,"c":"x9"}"#),
        r#"{"a":0,"b":0,"c":"x0"}"#
    );
}

#[test]
fn only_recent_messages_count() {
    let t = tc("read_file", "{}");
    let mut msgs = vec![
        assistant_with_tools(vec![t.clone()]),
        assistant_with_tools(vec![t.clone()]),
        assistant_with_tools(vec![t]),
    ];
    for _ in 0..LOOKBACK_MESSAGES {
        msgs.push(ChatMessage::user("x"));
    }
    assert!(check_for_doom_loop_prompt(&msgs).is_none());
    assert!(extract_recent_tool_signatures(&msgs, LOOKBACK_MESSAGES).is_empty());
    assert_eq!(extract_recent_tool_signatures(&msgs, LOOKBACK_MESSAGES + 3).len(), 3);
}

#[test]
fn loops_are_named() {
    let msgs = vec![
        assistant_with_tools(vec![tc("a", "{}"), tc("b", "{}")]),
        assistant_with_tools(vec![tc("a", "{}"), tc("b", "{}")]),
    ];
    let signatures = extract_recent_tool_signatures(&msgs, 30);
    assert!(detect_identical_consecutive(&signatures, 3).is_none());
    assert_eq!(
        detect_repeating_sequence(&signatures),
        Some(vec!["a".to_string(), "b".to_string()])
    );
    assert!(check_for_doom_loop_prompt(&[]).is_none());
    assert!(!doom_loop_active_at_tail(&[]));
}
