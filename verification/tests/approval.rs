use isanagent::approval::{
    code_exec_requires_approval, command_preview, extract_code_exec_command, extract_exec_command,
    is_arbitrary_code_tool, is_code_exec_tool, normalize_command_for_matching,
    shell_approval_reply_is_grant, shell_command_uses_grep_like, should_require_shell_approval,
};
use isanagent::json::Json;
use isanagent::tool_call::append_post_tool_output;

fn args(key: &str, value: &str) -> Json {
    Json::Object(vec![(key.to_string(), Json::Str(value.to_string()))])
}

#[test]
fn category_covers_all_code_exec_tools() {
    assert!(is_code_exec_tool("exec"));
    assert!(is_code_exec_tool("python_run"));
    assert!(is_code_exec_tool("execution_run"));
    assert!(is_code_exec_tool("execution_run_background"));
    assert!(!is_code_exec_tool("read_file"));
    assert!(!is_code_exec_tool("web_search"));
}

#[test]
fn extracts_command_for_exec_and_code_for_execution_tools() {
    assert_eq!(
        extract_code_exec_command("exec", &args("command", " ls -la ")).as_deref(),
        Some("ls -la")
    );
    assert_eq!(
        extract_code_exec_command("execution_run", &args("code", "print(1)")).as_deref(),
        Some("print(1)")
    );
    assert_eq!(
        extract_code_exec_command("python_run", &args("code", "import os")).as_deref(),
        Some("import os")
    );
    // wrong key / empty -> None
    assert!(extract_code_exec_command("execution_run", &args("command", "x")).is_none());
    assert!(extract_code_exec_command("exec", &args("command", "  ")).is_none());
}

#[test]
fn arbitrary_code_always_requires_approval_benign_exec_does_not() {
    let patterns = vec!["rm -rf".to_string()];
    // Arbitrary-code tools: even benign code requires approval (closes the bypass).
    assert!(code_exec_requires_approval(
        "execution_run",
        "print('hi')",
        &patterns
    ));
    assert!(code_exec_requires_approval("python_run", "1+1", &patterns));
    // Shell `exec`: benign command does NOT require approval (preserves existing UX)...
    assert!(!code_exec_requires_approval("exec", "ls -la", &patterns));
    // ...but a destructive one does.
    assert!(code_exec_requires_approval(
        "exec",
        "rm -rf /tmp/x",
        &patterns
    ));
}

#[test]
fn approval_match_is_whitespace_insensitive() {
    let patterns = vec!["rm -rf".to_string()];
    // Extra spaces, tabs, and a mid-command newline must not get past the match.
    assert!(should_require_shell_approval("rm  -rf /tmp/x", &patterns));
    assert!(should_require_shell_approval("rm\t-rf /tmp/x", &patterns));
    assert!(should_require_shell_approval("rm\n-rf /tmp/x", &patterns));
    assert!(should_require_shell_approval("RM -RF /tmp/x", &patterns));
    // A benign command still does not match.
    assert!(!should_require_shell_approval("ls -la", &patterns));
}

#[test]
fn approval_match_is_word_boundary_not_substring() {
    // A bare `rm` pattern must match the real command but NOT words that merely contain "rm"
    // (the substring false positive: "terminal".contains("rm") is true).
    let patterns = vec!["rm".to_string()];
    assert!(should_require_shell_approval("rm -rf /tmp/x", &patterns));
    assert!(should_require_shell_approval("echo hi && rm file", &patterns));
    assert!(!should_require_shell_approval("terminal --help", &patterns));
    assert!(!should_require_shell_approval("warm up the cache", &patterns));
    assert!(!should_require_shell_approval("npm run platform", &patterns));
    assert!(!should_require_shell_approval("check firmware", &patterns));
}

#[test]
fn empty_pattern_does_not_force_approval_on_everything() {
    // `contains("")` is always true; an empty/whitespace pattern must be ignored.
    let patterns = vec!["".to_string(), "   ".to_string()];
    assert!(!should_require_shell_approval("ls -la", &patterns));
    // An empty pattern alongside a real one must not suppress the real match.
    let mixed = vec!["".to_string(), "rm -rf".to_string()];
    assert!(should_require_shell_approval("rm -rf /tmp/x", &mixed));
    assert!(!should_require_shell_approval("ls", &mixed));
}

#[test]
fn approval_reply_is_deny_default() {
    // The regression: "do not approve" must NOT grant.
    assert!(!shell_approval_reply_is_grant("do not approve"));
    assert!(!shell_approval_reply_is_grant("don't approve"));
    assert!(!shell_approval_reply_is_grant("deny"));
    assert!(!shell_approval_reply_is_grant("no"));
    assert!(!shell_approval_reply_is_grant("reject this"));
    assert!(!shell_approval_reply_is_grant(""));
    assert!(!shell_approval_reply_is_grant("   "));
    // Ambiguous / unrelated text is denied (safe default).
    assert!(!shell_approval_reply_is_grant("hmm let me think"));
    // Affirmative word buried in a negative reply must NOT grant (the denylist gap).
    assert!(!shell_approval_reply_is_grant("never approve"));
    assert!(!shell_approval_reply_is_grant("i can't approve"));
    assert!(!shell_approval_reply_is_grant("approve? actually nope"));
    assert!(!shell_approval_reply_is_grant("disapprove"));
    assert!(!shell_approval_reply_is_grant("i approve... no wait, deny"));
    // Explicit grants (incl. affirmative + neutral filler).
    assert!(shell_approval_reply_is_grant("approve"));
    assert!(shell_approval_reply_is_grant("Approved"));
    assert!(shell_approval_reply_is_grant("yes"));
    assert!(shell_approval_reply_is_grant("ok"));
    assert!(shell_approval_reply_is_grant("allow"));
    assert!(shell_approval_reply_is_grant("approve please"));
    assert!(shell_approval_reply_is_grant("approve this"));
    assert!(shell_approval_reply_is_grant("go ahead"));
    // "do" is neutral filler: it rescues genuine affirmatives ("yes do it") without weakening
    // deny-default — a negation always carries another non-filler token (see "do not approve"
    // above), and "do" on its own is not affirmative.
    assert!(shell_approval_reply_is_grant("yes do it"));
    assert!(shell_approval_reply_is_grant("yes, please do"));
    assert!(!shell_approval_reply_is_grant("do it"));
}

#[test]
fn append_post_tool_output_preserves_polarity() {
    // Appends to an Ok result, staying Ok (verification output is informational).
    let ok = append_post_tool_output(Ok("applied".into()), "tests passed");
    assert_eq!(
        ok.as_deref(),
        Ok("applied\n\n[post-tool hook]\ntests passed")
    );
    // Appends to an Err result, staying Err (the tool itself failed).
    let err = append_post_tool_output(Err("boom".into()), "lint output");
    assert_eq!(
        err.as_ref().err().map(String::as_str),
        Some("boom\n\n[post-tool hook]\nlint output")
    );
}

#[test]
fn commands_are_normalized() {
    assert_eq!(normalize_command_for_matching("  RM \t -rf\n /x "), "rm -rf /x");
}

#[test]
fn exec_is_not_arbitrary_code() {
    assert!(!is_arbitrary_code_tool("exec"));
    assert!(is_arbitrary_code_tool("python_run"));
    assert_eq!(extract_exec_command(&args("command", " ls ")).as_deref(), Some("ls"));
    assert_eq!(extract_exec_command(&Json::Null), None);
}

#[test]
fn long_commands_are_shown_cut() {
    assert_eq!(command_preview("ls"), "ls");
    let long = "x".repeat(200);
    assert_eq!(command_preview(&long), format!("{}...", "x".repeat(160)));
}

#[test]
fn grep_is_recognized() {
    assert!(shell_command_uses_grep_like("grep -r foo ."));
    assert!(shell_command_uses_grep_like("cat x | rg foo"));
    assert!(!shell_command_uses_grep_like("ls -la"));
}

#[test]
fn a_blank_reply_and_an_unknown_word_deny() {
    assert!(!shell_approval_reply_is_grant(" \n "));
    assert!(!shell_approval_reply_is_grant("yes banana"));
}
