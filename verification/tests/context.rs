use isanagent::context::{
    effective_context_tokens, estimate_context_tokens, estimate_message_tokens,
    repair_tool_call_context, trim_context_to_budget, CANCELLED_TOOL_RESULT, TRIM_MARKER,
};
use isanagent::message::{ChatMessage, ToolCallFunction, ToolCallRequest};

fn calling(id: &str) -> ChatMessage {
    let mut msg = ChatMessage::assistant("");
    msg.content = None;
    msg.tool_calls = Some(vec![ToolCallRequest {
        id: id.to_string(),
        tool_type: "function".to_string(),
        extra_content: None,
        function: ToolCallFunction {
            name: "t".to_string(),
            arguments: "{}".to_string(),
        },
    }]);
    msg
}

fn text_of(msg: &ChatMessage) -> String {
    match &msg.content {
        Some(c) => c.text_content(),
        None => String::new(),
    }
}

#[test]
fn estimate_tokens_counts_tool_call_args() {
    let mut msg = ChatMessage::assistant("");
    msg.content = None;
    msg.tool_calls = Some(vec![ToolCallRequest {
        id: "1".to_string(),
        tool_type: "function".to_string(),
        extra_content: None,
        function: ToolCallFunction {
            name: "t".to_string(),
            arguments: "x".repeat(400), // 400 bytes / 4 = 100 tokens
        },
    }]);
    assert_eq!(estimate_message_tokens(&msg), 100);
    assert_eq!(
        estimate_context_tokens(std::slice::from_ref(&msg)),
        100
    );
}

#[test]
fn effective_context_tokens_prefers_ground_truth() {
    // No usage yet -> fall back to the estimate.
    assert_eq!(effective_context_tokens(1000, None), 1000);
    // Provider's exact count exceeds the bytes/4 under-estimate -> use the ground truth so a
    // real overflow still triggers compaction.
    assert_eq!(effective_context_tokens(1000, Some(9000)), 9000);
    // Estimate larger (e.g. messages added since the last call) -> keep the estimate.
    assert_eq!(effective_context_tokens(9000, Some(1000)), 9000);
    // A zero ground-truth never lowers the estimate.
    assert_eq!(effective_context_tokens(1000, Some(0)), 1000);
}

#[test]
fn a_small_context_is_left_alone() {
    let mut ctx = vec![ChatMessage::system("s"), ChatMessage::user("hi")];
    trim_context_to_budget(&mut ctx, 1000);
    assert_eq!(ctx.len(), 2);
}

#[test]
fn trimming_keeps_the_first_and_the_latest() {
    let mut ctx = vec![ChatMessage::system("start")];
    for i in 0..10 {
        ctx.push(ChatMessage::user(&format!("{} {}", i, "x".repeat(400))));
    }
    trim_context_to_budget(&mut ctx, 250);
    assert_eq!(text_of(&ctx[0]), "start");
    assert_eq!(text_of(&ctx[1]), TRIM_MARKER);
    assert!(text_of(&ctx[ctx.len() - 1]).starts_with("9 "));
    assert!(estimate_context_tokens(&ctx) <= 300);
}

#[test]
fn calls_without_an_answer_get_one() {
    let mut ctx = vec![ChatMessage::user("go"), calling("c1"), ChatMessage::user("next")];
    repair_tool_call_context(&mut ctx);
    assert_eq!(ctx.len(), 4);
    assert_eq!(ctx[2].role, "tool");
    assert_eq!(ctx[2].tool_call_id.as_deref(), Some("c1"));
    assert_eq!(text_of(&ctx[2]), CANCELLED_TOOL_RESULT);
    let once = format!("{:?}", ctx);
    repair_tool_call_context(&mut ctx);
    assert_eq!(once, format!("{:?}", ctx));
}

#[test]
fn answered_calls_are_left_alone() {
    let mut ctx = vec![calling("c1"), ChatMessage::tool("ok", "c1", Some("t"))];
    repair_tool_call_context(&mut ctx);
    assert_eq!(ctx.len(), 2);
    assert_eq!(text_of(&ctx[1]), "ok");
}
