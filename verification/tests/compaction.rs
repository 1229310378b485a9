use isanagent::compaction::{
    build_compact_placeholder, effective_compaction_threshold, identify_stale_tool_swaps,
    preprocess_transcript_for_compaction, swap_all_tool_results_in_place,
    KEEP_RECENT_USER_TURNS_DEFAULT,
};
use isanagent::json::Json;
use isanagent::message::{ChatMessage, ContentPart, ImageUrl, MessageContent};
use isanagent::summary::{build_sectional_prompt, SummarySections};

/// The threshold for a percentage of the window.
fn threshold(absolute: usize, window: Option<usize>, percentage: f32, reserve: usize) -> usize {
    let valid = percentage > 0.0 && percentage <= 1.0;
    let share = match window {
        Some(w) if valid => Some((w as f32 * percentage) as usize),
        _ => None,
    };
    effective_compaction_threshold(absolute, window, share, reserve)
}

fn text(s: &str) -> Json {
    Json::Str(s.to_string())
}

fn texts(items: &[&str]) -> Json {
    Json::Array(items.iter().map(|s| text(s)).collect())
}

fn object(members: Vec<(&str, Json)>) -> Json {
    Json::Object(members.into_iter().map(|(k, v)| (k.to_string(), v)).collect())
}

fn completeness(s: &SummarySections) -> f32 {
    s.filled_slots() as f32 / 8.0
}

fn user_with_parts(parts: Vec<ContentPart>) -> ChatMessage {
    ChatMessage {
        role: "user".to_string(),
        content: Some(MessageContent::Parts(parts)),
        name: None,
        tool_calls: None,
        tool_call_id: None,
        reasoning_content: None,
        is_error: None,
    }
}

fn tool_message(text: &str) -> ChatMessage {
    ChatMessage {
        role: "tool".to_string(),
        content: Some(MessageContent::Text(text.to_string())),
        name: Some("some_tool".to_string()),
        tool_calls: None,
        tool_call_id: Some("call_0".to_string()),
        reasoning_content: None,
        is_error: None,
    }
}

#[test]
fn image_parts_are_stripped_when_enabled() {
    let parts = vec![
        ContentPart::Text {
            text: "look here".to_string(),
        },
        ContentPart::ImageUrl {
            image_url: ImageUrl {
                url: "data:image/png;base64,XXXX".to_string(),
                detail: None,
            },
        },
    ];
    let ctx = vec![user_with_parts(parts)];
    let (out, _) = preprocess_transcript_for_compaction(&ctx, true, 10_000);
    assert!(out.contains("look here"));
    assert!(
        !out.contains("XXXX") && !out.contains("[image]"),
        "image must be stripped"
    );
}

#[test]
fn image_parts_become_placeholder_when_disabled() {
    let parts = vec![
        ContentPart::Text {
            text: "describe".to_string(),
        },
        ContentPart::ImageUrl {
            image_url: ImageUrl {
                url: "data:image/png;base64,XXXX".to_string(),
                detail: None,
            },
        },
    ];
    let ctx = vec![user_with_parts(parts)];
    let (out, _) = preprocess_transcript_for_compaction(&ctx, false, 10_000);
    assert!(out.contains("describe"));
    assert!(
        out.contains("[image]"),
        "should keep placeholder when not stripping"
    );
}

#[test]
fn tool_results_truncated_to_token_cap() {
    let huge = "x".repeat(200_000); // 200k bytes ≈ 50k tokens
    let ctx = vec![tool_message(&huge)];
    let (out, _) = preprocess_transcript_for_compaction(&ctx, true, 100); // cap = 100 tokens = 400 bytes
                                                                          // The transcript line is "tool: " + truncated + "…[truncated]" + "\n\n".
                                                                          // Truncated body must be at most 400 bytes; full line is bounded around it.
    assert!(out.contains("…[truncated]"), "must mark truncation");
    let body_len = out.len();
    assert!(
        body_len < 1_000,
        "huge tool result must be truncated; got {} bytes",
        body_len
    );
}

#[test]
fn small_tool_results_pass_through_unchanged() {
    let ctx = vec![tool_message("small output")];
    let (out, _) = preprocess_transcript_for_compaction(&ctx, true, 10_000);
    assert!(out.contains("small output"));
    assert!(!out.contains("…[truncated]"));
}

#[test]
fn system_messages_are_skipped() {
    let ctx = vec![
        ChatMessage::system("system prompt content"),
        ChatMessage::user("user query"),
    ];
    let (out, _) = preprocess_transcript_for_compaction(&ctx, true, 10_000);
    assert!(out.contains("user query"));
    assert!(!out.contains("system prompt content"));
}

#[test]
fn from_json_extracts_all_slots() {
    let raw = object(vec![
        ("task_overview", text("Investigate failing CI build.")),
        ("current_state", text("Identified root cause; fix in progress.")),
        ("files_touched", texts(&["src/foo.rs", "  src/bar.rs  "])),
        ("key_decisions", texts(&["Pin reqwest 0.12"])),
        ("discoveries", texts(&["TLS handshake fails on macOS only"])),
        ("next_steps", texts(&["Write regression test", "Bump version"])),
        ("open_questions", texts(&["Should we cache the root certs?"])),
        (
            "external_refs",
            texts(&["https://github.com/seanmonstar/reqwest/issues/2024"]),
        ),
    ]);
    let s = SummarySections::from_json(&raw);
    assert_eq!(
        s.task_overview.as_deref(),
        Some("Investigate failing CI build.")
    );
    assert_eq!(s.files_touched, vec!["src/foo.rs", "src/bar.rs"]); // trimmed
    assert_eq!(s.next_steps.len(), 2);
    assert!(s.external_refs[0].starts_with("https://"));
}

#[test]
fn from_json_treats_missing_fields_as_empty() {
    // current_state missing entirely; arrays absent
    let raw = object(vec![
        ("task_overview", text("Foo")),
        ("files_touched", texts(&["a"])),
    ]);
    let s = SummarySections::from_json(&raw);
    assert!(s.task_overview.is_some());
    assert!(s.current_state.is_none());
    assert!(s.files_touched.len() == 1);
    assert!(s.key_decisions.is_empty());
    assert!(s.discoveries.is_empty());
}

#[test]
fn from_json_drops_empty_strings_and_non_string_array_entries() {
    let raw = object(vec![
        ("task_overview", text("   ")), // whitespace only → None
        ("current_state", Json::Null),
        (
            "files_touched",
            Json::Array(vec![
                text("a"),
                text(""),
                Json::Number("42".to_string()),
                Json::Null,
                text("  b  "),
            ]),
        ),
    ]);
    let s = SummarySections::from_json(&raw);
    assert!(
        s.task_overview.is_none(),
        "whitespace-only string drops to None"
    );
    assert!(s.current_state.is_none());
    assert_eq!(s.files_touched, vec!["a", "b"]);
}

#[test]
fn completeness_counts_filled_slots() {
    let empty = SummarySections::default();
    assert!((completeness(&empty) - 0.0).abs() < f32::EPSILON);

    let all_filled = SummarySections {
        task_overview: Some("a".to_string()),
        current_state: Some("b".to_string()),
        files_touched: vec!["x".to_string()],
        key_decisions: vec!["x".to_string()],
        discoveries: vec!["x".to_string()],
        next_steps: vec!["x".to_string()],
        open_questions: vec!["x".to_string()],
        external_refs: vec!["x".to_string()],
    };
    assert!((completeness(&all_filled) - 1.0).abs() < f32::EPSILON);

    let half = SummarySections {
        task_overview: Some("a".to_string()),
        current_state: Some("b".to_string()),
        files_touched: vec!["x".to_string()],
        key_decisions: vec!["x".to_string()],
        ..Default::default()
    };
    assert!((completeness(&half) - 0.5).abs() < f32::EPSILON);
}

#[test]
fn to_markdown_omits_empty_sections() {
    let s = SummarySections {
        task_overview: Some("Fix CI".to_string()),
        files_touched: vec!["src/foo.rs".to_string()],
        ..Default::default()
    };
    let md = s.to_markdown();
    assert!(md.contains("## Task overview"));
    assert!(md.contains("Fix CI"));
    assert!(md.contains("## Files touched"));
    assert!(md.contains("- src/foo.rs"));
    // Sections with no content should not appear at all.
    assert!(!md.contains("## Current state"));
    assert!(!md.contains("## Discoveries"));
    assert!(!md.contains("## External refs"));
}

#[test]
fn to_markdown_round_trips_via_from_json() {
    let original = SummarySections {
        task_overview: Some("research".to_string()),
        current_state: Some("blocked on cred refresh".to_string()),
        files_touched: vec!["src/auth.rs".to_string()],
        next_steps: vec!["wire token refresh".to_string()],
        ..Default::default()
    };
    let raw_json = original.to_json();
    let parsed = SummarySections::from_json(&raw_json);
    assert_eq!(original, parsed);
}

#[test]
fn build_sectional_prompt_includes_existing_summary_when_present() {
    let p1 = build_sectional_prompt(None, "user: do X", None);
    assert!(p1.contains("NEW TRANSCRIPT:"));
    assert!(!p1.contains("EXISTING SUMMARY"));

    let p2 = build_sectional_prompt(Some("prev summary text"), "user: continue", None);
    assert!(p2.contains("EXISTING SUMMARY TO UPDATE:"));
    assert!(p2.contains("prev summary text"));
    assert!(p2.contains("NEW TRANSCRIPT:"));
    assert!(p2.find("EXISTING SUMMARY").unwrap() < p2.find("NEW TRANSCRIPT:").unwrap());
}

#[test]
fn build_sectional_prompt_treats_blank_existing_summary_as_absent() {
    let p = build_sectional_prompt(Some("   \n  "), "user: hi", None);
    assert!(!p.contains("EXISTING SUMMARY"));
}

#[test]
fn build_sectional_prompt_appends_focus_block_when_provided() {
    let p = build_sectional_prompt(None, "user: continue", Some("keep the API design talk"));
    assert!(p.contains("FOCUS:"));
    assert!(p.contains("keep the API design talk"));
    // Focus must appear before transcript so the model reads it first.
    assert!(p.find("FOCUS:").unwrap() < p.find("NEW TRANSCRIPT:").unwrap());
}

#[test]
fn build_sectional_prompt_treats_blank_focus_as_absent() {
    let p = build_sectional_prompt(None, "user: hi", Some("   \n   "));
    assert!(!p.contains("FOCUS:"));
}

#[test]
fn effective_threshold_falls_back_to_absolute_when_window_unknown() {
    let t = threshold(100_000, None, 0.85, 16_384);
    assert_eq!(t, 100_000);
}

#[test]
fn effective_threshold_uses_percentage_when_tighter_than_absolute() {
    // 200k window * 0.85 = 170k → below 200k absolute → percentage wins
    let t = threshold(200_000, Some(200_000), 0.85, 16_384);
    // Percentage = 170k; reserve = 200k - 16k = 184k; absolute = 200k → 170k.
    assert_eq!(t, 170_000);
}

#[test]
fn effective_threshold_uses_reserve_when_tighter_than_percentage() {
    // With a generous percentage (0.99) and a 16k reserve, reserve binds first.
    let t = threshold(1_000_000, Some(200_000), 0.99, 16_384);
    // pct = 198k; reserve = 184k; absolute = 1M → 184k (reserve wins).
    assert_eq!(t, 200_000_usize.saturating_sub(16_384));
}

#[test]
fn effective_threshold_honors_absolute_as_floor() {
    // Tiny window with a tight absolute — absolute wins.
    let t = threshold(5_000, Some(200_000), 0.85, 16_384);
    assert_eq!(t, 5_000);
}

fn tool_msg_with_id(id: &str, content: &str, name: &str) -> ChatMessage {
    ChatMessage {
        role: "tool".to_string(),
        content: Some(MessageContent::Text(content.to_string())),
        name: Some(name.to_string()),
        tool_calls: None,
        tool_call_id: Some(id.to_string()),
        reasoning_content: None,
        is_error: None,
    }
}

#[test]
fn build_compact_placeholder_embeds_id_and_head() {
    let body = "Found 17 matching files:\n/foo/bar.rs\n/foo/baz.rs\n…";
    let s = build_compact_placeholder("call_42", "search_text", body);
    assert!(s.contains("call_42"));
    assert!(s.contains("search_text"));
    // Bytes count matches the original
    assert!(s.contains(&format!("bytes={}", body.len())));
    // Head excerpt is single-line (newlines flattened to spaces)
    assert!(!s.split("head=\"").nth(1).unwrap().contains('\n'));
}

#[test]
fn build_compact_placeholder_handles_multibyte_safely() {
    let body = "αβγδ ".repeat(200);
    let s = build_compact_placeholder("c1", "fetch", &body);
    // Must not panic; head trimmed to byte budget with ellipsis.
    assert!(s.contains('…'));
}

#[test]
fn swap_replaces_tool_messages_with_placeholders() {
    let mut ctx = vec![
        ChatMessage::user("find foo"),
        ChatMessage::assistant("I'll search."),
        tool_msg_with_id("c1", "huge result body".repeat(100).as_str(), "search_text"),
        ChatMessage::assistant("Found it."),
    ];
    let (swapped, cached) = swap_all_tool_results_in_place(&mut ctx);
    assert_eq!(swapped, 1);
    assert_eq!(cached.len(), 1);
    assert_eq!(cached[0].0, "c1");
    let tool_after = ctx
        .iter()
        .find(|m| m.role == "tool")
        .and_then(|m| m.content.as_ref())
        .map(|c| c.text_content())
        .unwrap();
    assert!(tool_after.starts_with("[Tool result archived."));
    assert!(tool_after.contains("c1"));
}

#[test]
fn swap_skips_tool_messages_without_id() {
    let mut ctx = vec![ChatMessage {
        role: "tool".to_string(),
        content: Some(MessageContent::Text("orphan tool result".to_string())),
        name: Some("legacy_tool".to_string()),
        tool_calls: None,
        tool_call_id: None,
        reasoning_content: None,
        is_error: None,
    }];
    let (swapped, cached) = swap_all_tool_results_in_place(&mut ctx);
    assert_eq!(swapped, 0);
    assert!(cached.is_empty());
}

fn user_msg(text: &str) -> ChatMessage {
    ChatMessage::user(text)
}
fn assistant_msg(text: &str) -> ChatMessage {
    ChatMessage::assistant(text)
}

#[test]
fn identify_stale_swaps_keeps_recent_user_turns_tools_intact() {
    // Three user turns; default keep_recent = 3 means NONE of these tool
    // results are stale (all within the keep window).
    let messages = vec![
        (1, user_msg("first")),
        (2, assistant_msg("a1")),
        (3, tool_msg_with_id("c1", "result 1", "t")),
        (4, user_msg("second")),
        (5, assistant_msg("a2")),
        (6, tool_msg_with_id("c2", "result 2", "t")),
        (7, user_msg("third")),
        (8, assistant_msg("a3")),
        (9, tool_msg_with_id("c3", "result 3", "t")),
    ];
    let stale = identify_stale_tool_swaps(&messages, KEEP_RECENT_USER_TURNS_DEFAULT);
    assert!(
        stale.is_empty(),
        "with 3 user turns and keep=3, nothing is stale; got {:?}",
        stale
    );
}

#[test]
fn identify_stale_swaps_marks_old_tool_results() {
    // Five user turns, keep_recent = 2: tools BEFORE the last 2 user turns
    // are stale.
    let messages = vec![
        (1, user_msg("first")),
        (2, tool_msg_with_id("c1", "first tool", "t")), // stale
        (3, user_msg("second")),
        (4, tool_msg_with_id("c2", "second tool", "t")), // stale
        (5, user_msg("third")),
        (6, tool_msg_with_id("c3", "third tool", "t")), // stale
        (7, user_msg("fourth")),
        (8, tool_msg_with_id("c4", "fourth tool", "t")), // keep
        (9, user_msg("fifth")),
        (10, tool_msg_with_id("c5", "fifth tool", "t")), // keep
    ];
    let stale = identify_stale_tool_swaps(&messages, 2);
    let ids: Vec<&str> = stale.iter().map(|t| t.1.as_str()).collect();
    assert_eq!(ids, vec!["c3", "c2", "c1"]); // newest-stale-first, then older
}

#[test]
fn identify_stale_swaps_skips_id_less_tool_messages() {
    let messages = vec![
        (1, user_msg("u1")),
        (
            2,
            ChatMessage {
                role: "tool".to_string(),
                content: Some(MessageContent::Text("orphan".to_string())),
                name: Some("legacy".to_string()),
                tool_calls: None,
                tool_call_id: None,
                reasoning_content: None,
                is_error: None,
            },
        ),
        (3, user_msg("u2")),
        (4, tool_msg_with_id("c_kept", "kept tool", "t")),
        (5, user_msg("u3")),
        (6, user_msg("u4")),
        (7, user_msg("u5")),
        (8, user_msg("u6")), // many user turns past the orphan
    ];
    let stale = identify_stale_tool_swaps(&messages, 2);
    // The orphan would be eligible by position, but has no tool_call_id —
    // we can't recall it, so we don't compact it.
    assert!(
        stale.iter().all(|t| !t.1.is_empty()),
        "no orphans expected; got {:?}",
        stale
    );
}

#[test]
fn identify_stale_swaps_skips_already_swapped() {
    let placeholder = build_compact_placeholder("c1", "t", "original body");
    let messages = vec![
        (1, user_msg("first")),
        (
            2,
            ChatMessage {
                role: "tool".to_string(),
                content: Some(MessageContent::Text(placeholder)),
                name: Some("t".to_string()),
                tool_calls: None,
                tool_call_id: Some("c1".to_string()),
                reasoning_content: None,
                is_error: None,
            },
        ),
        (3, user_msg("u2")),
        (4, user_msg("u3")),
        (5, user_msg("u4")),
    ];
    let stale = identify_stale_tool_swaps(&messages, 2);
    assert!(
        stale.is_empty(),
        "already-swapped messages must not be re-swapped"
    );
}

#[test]
fn swap_is_idempotent_on_already_swapped_messages() {
    let mut ctx = vec![tool_msg_with_id("c2", "first body", "x")];
    let _ = swap_all_tool_results_in_place(&mut ctx);
    let (swapped_again, cached_again) = swap_all_tool_results_in_place(&mut ctx);
    assert_eq!(swapped_again, 0, "re-swap must be a no-op");
    assert!(cached_again.is_empty());
}

#[test]
fn effective_threshold_falls_back_to_absolute_when_reserve_exceeds_window() {
    // Degenerate config (reserve >= window). Without the guard, the naive
    // computation would return 0 and trigger compaction every turn. With
    // the guard, we fall back to `absolute` (the user's explicit ceiling).
    let t = threshold(80_000, Some(50_000), 0.85, 100_000);
    assert_eq!(t, 80_000);
}

#[test]
fn effective_threshold_falls_back_to_absolute_for_invalid_percentage() {
    // percentage <= 0 or > 1: drop the window-aware path entirely.
    assert_eq!(
        threshold(80_000, Some(200_000), 0.0, 16_384),
        80_000
    );
    assert_eq!(
        threshold(80_000, Some(200_000), -0.5, 16_384),
        80_000
    );
    assert_eq!(
        threshold(80_000, Some(200_000), 1.5, 16_384),
        80_000
    );
}

#[test]
fn effective_threshold_never_returns_zero() {
    // Final `.max(1)` floor — even if a future bound regresses to zero,
    // callers never face `approx_tokens >= 0` always-true.
    assert!(threshold(0, None, 0.85, 16_384) >= 1);
    assert!(threshold(0, Some(200_000), 0.85, 16_384) >= 1);
}

#[test]
fn preprocessing_reduces_tokens_meaningfully_on_image_heavy_input() {
    // Three images and a large tool result.
    let big_image = ContentPart::ImageUrl {
        image_url: ImageUrl {
            url: format!("data:image/png;base64,{}", "A".repeat(50_000)),
            detail: None,
        },
    };
    let ctx = vec![
        user_with_parts(vec![
            ContentPart::Text {
                text: "image #1 description".to_string(),
            },
            big_image.clone(),
        ]),
        user_with_parts(vec![big_image.clone()]),
        user_with_parts(vec![big_image]),
        tool_message(&"y".repeat(80_000)), // 80kb ≈ 20k tokens, capped to 10k tokens
    ];
    // Baseline: render with no stripping and no truncation cap to estimate
    // the un-preprocessed token count.
    let (baseline, baseline_tokens) =
        preprocess_transcript_for_compaction(&ctx, false, usize::MAX);
    let (stripped, stripped_tokens) = preprocess_transcript_for_compaction(&ctx, true, 10_000);
    assert!(baseline.len() > stripped.len());
    let reduction = 1.0 - (stripped_tokens as f64 / baseline_tokens as f64);
    assert!(
        reduction >= 0.30,
        "expected ≥30% token reduction; baseline={} stripped={} reduction={:.3}",
        baseline_tokens,
        stripped_tokens,
        reduction
    );
}

#[test]
fn archiving_twice_is_archiving_once() {
    let mut ctx = vec![
        ChatMessage::user("hi"),
        tool_msg_with_id("a", "one", "x"),
        tool_msg_with_id("b", "two", "y"),
    ];
    let (n, cached) = swap_all_tool_results_in_place(&mut ctx);
    assert_eq!(n, 2);
    assert_eq!(
        cached[1],
        ("b".to_string(), "two".to_string(), "y".to_string())
    );
    let once = format!("{:?}", ctx);
    let (again, _) = swap_all_tool_results_in_place(&mut ctx);
    assert_eq!(again, 0);
    assert_eq!(once, format!("{:?}", ctx));
}

#[test]
fn placeholder_is_written_out() {
    assert_eq!(
        build_compact_placeholder("c1", "fetch", "a\nb"),
        "[Tool result archived. Recall: recall_tool_result(tool_call_id=\"c1\"). \
Original: tool=fetch bytes=3 head=\"a b\"]"
    );
}

#[test]
fn transcript_is_written_out() {
    let ctx = vec![
        ChatMessage::system("hidden"),
        ChatMessage::user("hello"),
        tool_message("done"),
    ];
    let (out, tokens) = preprocess_transcript_for_compaction(&ctx, true, 10);
    assert_eq!(out, "user: hello\n\ntool: done\n\n");
    assert_eq!(tokens, out.len() / 4);
}

#[test]
fn markdown_is_written_out() {
    let s = SummarySections {
        task_overview: Some("Fix CI".to_string()),
        files_touched: vec!["a".to_string(), "b".to_string()],
        ..Default::default()
    };
    assert_eq!(
        s.to_markdown(),
        "## Task overview\nFix CI\n\n## Files touched\n- a\n- b"
    );
}

#[test]
fn empty_entries_do_not_fill_a_slot() {
    let s = SummarySections {
        task_overview: Some("a".to_string()),
        current_state: Some(String::new()),
        files_touched: vec![String::new()],
        ..Default::default()
    };
    assert_eq!(s.filled_slots(), 1);
    assert!((completeness(&s) - 0.125).abs() < f32::EPSILON);
    assert_eq!(s.to_markdown(), "## Task overview\na");

    let mixed = SummarySections {
        files_touched: vec![String::new(), "b".to_string()],
        ..Default::default()
    };
    assert_eq!(mixed.filled_slots(), 1);
    assert_eq!(mixed.to_markdown(), "## Files touched\n- \n- b");
}
