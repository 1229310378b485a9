//! One tool call, from the policy that may stop it to the result that the model sees. The
//! caller does what the steps ask for, and hands back what came of it.
use vstd::prelude::*;
use vstd::string::*;
use crate::approval::{
    code_exec_requires_approval, command_preview, extract_code_exec_command, extract_exec_command,
    is_code_exec_tool, shell_approval_reply_is_grant, shell_command_uses_grep_like,
    shell_policy_mode_for_session,
};
use crate::approval;
use crate::config::{ResolvedShellPolicy, ShellPolicyMode};
use crate::json::{Json, JsonView};
use crate::text;

verus! {

broadcast use vstd::string::group_string_axioms;

/// A tool error that begins like this says that the tool waits for the user; the rest of it
/// is the ticket.
pub const WAIT_SIGNAL_PREFIX: &'static str = "ISANAGENT_WAIT_FOR_USER:";

/// The result of a turn that waits for the user begins like this.
pub const WAITING_FOR_USER_RESULT_PREFIX: &'static str = "WAITING:";

/// How a tool call ended.
#[derive(Debug)]
pub enum ToolExecutionFinished {
    Completed(Result<String, String>),
    Cancelled,
    /// The ticket that the call waits for.
    Waiting(String),
}

/// What the shell policy decided, as it is reported.
#[derive(Debug)]
pub struct ShellPolicyDecision {
    pub mode: String,
    pub decision: String,
    pub command_preview: String,
}

/// What is to be done next.
#[derive(Debug)]
pub enum ToolStep {
    /// Ask the user for approval with this prompt.
    AskUser { prompt: String, preview: String },
    /// Run the hooks that come before the tool.
    RunPreHooks,
    /// Run the tool.
    Execute,
    /// The call has ended.
    Finish(ToolExecutionFinished),
}

/// A step and what is reported with it.
#[derive(Debug)]
pub struct GateOutcome {
    pub report: Option<ShellPolicyDecision>,
    pub step: ToolStep,
}

/// The step that runs the tool: over the hooks, where there are any.
pub open spec fn toward_execution(has_hooks: bool) -> ToolStep {
    if has_hooks {
        ToolStep::RunPreHooks
    } else {
        ToolStep::Execute
    }
}

/// What the shell policy has to say on a call.
pub enum GateVerdict {
    /// The policy lets the call pass.
    Pass,
    /// The policy stops this command.
    Block(Seq<char>),
    /// The policy asks for approval of this command.
    Ask(Seq<char>),
}

/// What the shell policy says on a call: nothing stops a call that runs no code, has no
/// command, or needs no approval; of the others the mode of the session decides.
pub open spec fn gate(
    tool: Seq<char>,
    args: JsonView,
    policy: ResolvedShellPolicy,
    unattended: bool,
) -> GateVerdict {
    let mode = if unattended {
        policy.unattended_mode
    } else {
        policy.interactive_mode
    };
    match args.non_blank_at(approval::code_argument(tool)) {
        Some(command) => if approval::runs_code(tool) && approval::code_needs_approval(
            tool,
            command,
            policy.approval_patterns.deep_view(),
        ) {
            match mode {
                ShellPolicyMode::Allow => GateVerdict::Pass,
                ShellPolicyMode::Deny => GateVerdict::Block(command),
                ShellPolicyMode::Ask => GateVerdict::Ask(command),
            }
        } else {
            GateVerdict::Pass
        },
        None => GateVerdict::Pass,
    }
}

/// Whether the preview of the call's command can be written.
pub open spec fn gate_can_preview(tool: Seq<char>, args: JsonView) -> bool {
    approval::runs_code(tool) ==> (args.non_blank_at(approval::code_argument(tool)) matches Some(
        command,
    ) ==> approval::preview_cuts_cleanly(command))
}

/// The command of a call to the shell that searches where the search tools would do.
pub open spec fn searching_command(tool: Seq<char>, args: JsonView) -> Option<Seq<char>> {
    match args.non_blank_at("command"@) {
        Some(command) if tool == "exec"@ && approval::uses_grep_like(command) => Some(command),
        _ => None,
    }
}

/// The preview of a command that searches where the search tools would do.
pub fn grep_like_preview(tool_name: &str, args: &Json) -> (r: Option<String>)
    requires
        searching_command(tool_name@, args@) matches Some(command)
            ==> approval::preview_cuts_cleanly(command),
    ensures
        match searching_command(tool_name@, args@) {
            Some(command) => r matches Some(p) && p@ == approval::preview(command),
            None => r is None,
        },
{
    if !text::same(tool_name, "exec") {
        return None;
    }
    match extract_exec_command(args) {
        Some(command) => {
            if shell_command_uses_grep_like(command.as_str()) {
                Some(command_preview(command.as_str()))
            } else {
                None
            }
        },
        None => None,
    }
}

/// Whether a report says this.
pub open spec fn reports(
    report: Option<ShellPolicyDecision>,
    mode: Seq<char>,
    decision: Seq<char>,
    preview: Seq<char>,
) -> bool {
    report matches Some(d) && d.mode@ == mode && d.decision@ == decision && d.command_preview@
        == preview
}

/// The question that asks for approval.
pub open spec fn approval_prompt(tool: Seq<char>, command: Seq<char>) -> Seq<char> {
    "Approve running `"@ + tool + "`?\n\n```\n"@ + command
        + "\n```\n\nReply with approve or deny."@
}

/// The error of a call that the policy stops.
pub open spec fn blocked_message(command: Seq<char>) -> Seq<char> {
    "Command blocked by shell policy (mode=deny): "@ + command
}

/// Whether the step ends the call with this error.
pub open spec fn ends_with_error(step: ToolStep, message: Seq<char>) -> bool {
    step matches ToolStep::Finish(ToolExecutionFinished::Completed(Err(e))) && e@ == message
}

fn decision(mode: &str, outcome: &str, preview: String) -> (r: Option<ShellPolicyDecision>)
    ensures
        reports(r, mode@, outcome@, preview@),
{
    Some(
        ShellPolicyDecision {
            mode: mode.to_owned(),
            decision: outcome.to_owned(),
            command_preview: preview,
        },
    )
}

fn next_toward_execution(has_hooks: bool) -> (r: ToolStep)
    ensures
        r == toward_execution(has_hooks),
{
    if has_hooks {
        ToolStep::RunPreHooks
    } else {
        ToolStep::Execute
    }
}

/// Whether a call begins as the shell policy says.
pub open spec fn holds_to_policy(
    r: GateOutcome,
    tool: Seq<char>,
    args: JsonView,
    policy: ResolvedShellPolicy,
    unattended: bool,
    has_hooks: bool,
) -> bool {
    match gate(tool, args, policy, unattended) {
        GateVerdict::Pass => r.report is None && r.step == toward_execution(has_hooks),
        GateVerdict::Block(command) => {
            &&& reports(r.report, "deny"@, "blocked"@, approval::preview(command))
            &&& ends_with_error(r.step, blocked_message(command))
        },
        GateVerdict::Ask(command) => {
            &&& reports(r.report, "ask"@, "approval_requested"@, approval::preview(command))
            &&& r.step matches ToolStep::AskUser { prompt, preview }
            &&& prompt@ == approval_prompt(tool, command)
            &&& preview@ == approval::preview(command)
        },
    }
}

/// Begins a tool call: holds it to the shell policy.
pub fn start_tool_call(
    tool_name: &str,
    args: &Json,
    policy: &ResolvedShellPolicy,
    unattended_session: bool,
    has_hooks: bool,
) -> (r: GateOutcome)
    requires
        gate_can_preview(tool_name@, args@),
    ensures
        holds_to_policy(r, tool_name@, args@, *policy, unattended_session, has_hooks),
{
    if is_code_exec_tool(tool_name) {
        if let Some(command) = extract_code_exec_command(tool_name, args) {
            let preview: String = command_preview(command.as_str());
            let mode = shell_policy_mode_for_session(policy, unattended_session);
            let patterns: &[String] = policy.approval_patterns.as_slice();
            assert(patterns.deep_view() =~= policy.approval_patterns.deep_view());
            let needs: bool = code_exec_requires_approval(tool_name, command.as_str(), patterns);
            if needs {
                match mode {
                    ShellPolicyMode::Allow => {},
                    ShellPolicyMode::Deny => {
                        let mut message: String =
                            "Command blocked by shell policy (mode=deny): ".to_owned();
                        message.append(command.as_str());
                        return GateOutcome {
                            report: decision("deny", "blocked", preview),
                            step: ToolStep::Finish(
                                ToolExecutionFinished::Completed(Err(message)),
                            ),
                        };
                    },
                    ShellPolicyMode::Ask => {
                        let mut prompt: String = "Approve running `".to_owned();
                        prompt.append(tool_name);
                        prompt.append("`?\n\n```\n");
                        prompt.append(command.as_str());
                        prompt.append("\n```\n\nReply with approve or deny.");
                        let shown: String = preview.clone();
                        return GateOutcome {
                            report: decision("ask", "approval_requested", shown),
                            step: ToolStep::AskUser { prompt, preview },
                        };
                    },
                }
            }
        }
    }
    GateOutcome { report: None, step: next_toward_execution(has_hooks) }
}

/// Whether a call goes on as the user's reply says.
pub open spec fn heeds_reply(
    r: GateOutcome,
    reply: Result<String, String>,
    preview: Seq<char>,
    has_hooks: bool,
) -> bool {
    match reply {
        Ok(answer) => if approval::grants(answer@) {
            &&& reports(r.report, "ask"@, "approval_granted"@, preview)
            &&& r.step == toward_execution(has_hooks)
        } else {
            &&& reports(r.report, "ask"@, "approval_denied"@, preview)
            &&& ends_with_error(r.step, "Command not approved by user; execution skipped."@)
        },
        Err(e) => {
            &&& r.report is None
            &&& ends_with_error(r.step, "Shell policy approval failed: "@ + e@)
        },
    }
}

/// Goes on after the user was asked: the call runs if and only if the reply gives
/// approval.
pub fn after_approval(reply: Result<String, String>, preview: String, has_hooks: bool) -> (r:
    GateOutcome)
    ensures
        heeds_reply(r, reply, preview@, has_hooks),
{
    match reply {
        Ok(answer) => {
            if shell_approval_reply_is_grant(answer.as_str()) {
                GateOutcome {
                    report: decision("ask", "approval_granted", preview),
                    step: next_toward_execution(has_hooks),
                }
            } else {
                GateOutcome {
                    report: decision("ask", "approval_denied", preview),
                    step: ToolStep::Finish(
                        ToolExecutionFinished::Completed(
                            Err("Command not approved by user; execution skipped.".to_owned()),
                        ),
                    ),
                }
            }
        },
        Err(e) => {
            let mut message: String = "Shell policy approval failed: ".to_owned();
            message.append(e.as_str());
            GateOutcome {
                report: None,
                step: ToolStep::Finish(ToolExecutionFinished::Completed(Err(message))),
            }
        },
    }
}

/// Goes on after the hooks that come before the tool: a hook that objects ends the call.
pub fn after_pre_hooks(objection: Option<String>) -> (r: ToolStep)
    ensures
        match objection {
            Some(message) => ends_with_error(r, message@),
            None => r == ToolStep::Execute,
        },
{
    match objection {
        Some(message) => ToolStep::Finish(ToolExecutionFinished::Completed(Err(message))),
        None => ToolStep::Execute,
    }
}

/// What the hooks after a tool are shown of its result; nothing came back where the call
/// was cancelled.
pub open spec fn result_for_hooks(completed: Option<Result<String, String>>) -> Result<
    Seq<char>,
    Seq<char>,
> {
    match completed {
        Some(Ok(s)) => Ok(s@),
        Some(Err(e)) => Err(e@),
        None => Err("tool call cancelled"@),
    }
}

/// The views of a result's texts.
pub open spec fn result_view(r: Result<String, String>) -> Result<Seq<char>, Seq<char>> {
    match r {
        Ok(s) => Ok(s@),
        Err(e) => Err(e@),
    }
}

/// What is put behind a tool's output after the hooks have run.
pub open spec fn hook_note(hook_out: Seq<char>) -> Seq<char> {
    "\n\n[post-tool hook]\n"@ + hook_out
}

/// A result with the hooks' output behind it: a success stays one, and so does a failure.
pub open spec fn with_hook_note(r: Result<Seq<char>, Seq<char>>, hook_out: Seq<char>) -> Result<
    Seq<char>,
    Seq<char>,
> {
    match r {
        Ok(s) => Ok(s + hook_note(hook_out)),
        Err(e) => Err(e + hook_note(hook_out)),
    }
}

/// Puts the hooks' output behind a tool's result. A success stays a success, a failure a
/// failure.
pub fn append_post_tool_output(res: Result<String, String>, hook_out: &str) -> (r: Result<
    String,
    String,
>)
    ensures
        result_view(r) == with_hook_note(result_view(res), hook_out@),
{
    let mut note: String = "\n\n[post-tool hook]\n".to_owned();
    note.append(hook_out);
    match res {
        Ok(s) => {
            let mut s: String = s;
            s.append(note.as_str());
            Ok(s)
        },
        Err(s) => {
            let mut s: String = s;
            s.append(note.as_str());
            Err(s)
        },
    }
}

/// How a call ends in the abstract.
pub enum FinishView {
    Completed(Result<Seq<char>, Seq<char>>),
    Cancelled,
    Waiting(Seq<char>),
}

/// How a call ended in the abstract.
pub open spec fn finish_view(f: ToolExecutionFinished) -> FinishView {
    match f {
        ToolExecutionFinished::Completed(r) => FinishView::Completed(result_view(r)),
        ToolExecutionFinished::Cancelled => FinishView::Cancelled,
        ToolExecutionFinished::Waiting(t) => FinishView::Waiting(t@),
    }
}

/// What a tool's result comes to: an error that says so waits for the user, and what the
/// hooks printed goes behind any other result.
pub open spec fn conclusion(
    completed: Option<Result<String, String>>,
    hook_out: Option<Seq<char>>,
) -> FinishView {
    match completed {
        None => FinishView::Cancelled,
        Some(r) => match r {
            Err(e) if text::starts_with(e@, WAIT_SIGNAL_PREFIX@) => FinishView::Waiting(
                e@.skip(WAIT_SIGNAL_PREFIX@.len() as int),
            ),
            _ => FinishView::Completed(
                match hook_out {
                    Some(out) => with_hook_note(result_view(r), out),
                    None => result_view(r),
                },
            ),
        },
    }
}

/// Ends a call: with its result, with the ticket that it waits for, or as cancelled.
pub fn conclude_tool_call(
    completed: Option<Result<String, String>>,
    post_tool_output: Option<String>,
) -> (r: ToolExecutionFinished)
    ensures
        finish_view(r) == conclusion(completed, post_tool_output.deep_view()),
{
    match completed {
        None => ToolExecutionFinished::Cancelled,
        Some(res) => {
            if let Err(e) = &res {
                if let Some(ticket) = text::without_prefix(e.as_str(), WAIT_SIGNAL_PREFIX) {
                    return ToolExecutionFinished::Waiting(ticket);
                }
            }
            match post_tool_output {
                Some(out) => ToolExecutionFinished::Completed(
                    append_post_tool_output(res, out.as_str()),
                ),
                None => ToolExecutionFinished::Completed(res),
            }
        },
    }
}

/// What the hooks after a tool are shown.
pub fn show_to_hooks(completed: &Option<Result<String, String>>) -> (r: Result<String, String>)
    ensures
        result_view(r) == result_for_hooks(*completed),
{
    match completed {
        Some(Ok(s)) => Ok(s.clone()),
        Some(Err(e)) => Err(e.clone()),
        None => Err("tool call cancelled".to_owned()),
    }
}

/// Whether the tool is on its way to run.
pub open spec fn goes_on(step: ToolStep) -> bool {
    step is RunPreHooks || step is Execute
}

/// Where the policy denies, a call that needs approval ends at once with an error. Every call
/// of a tool that runs code of any kind is such a call, whatever the code is.
pub proof fn law_denied_code_never_runs(
    tool: Seq<char>,
    args: JsonView,
    policy: ResolvedShellPolicy,
    command: Seq<char>,
    unattended: bool,
    has_hooks: bool,
    first: GateOutcome,
)
    requires
        approval::runs_code(tool),
        args.non_blank_at(approval::code_argument(tool)) == Some(command),
        approval::runs_arbitrary_code(tool) || approval::code_needs_approval(
            tool,
            command,
            policy.approval_patterns.deep_view(),
        ),
        (if unattended {
            policy.unattended_mode
        } else {
            policy.interactive_mode
        }) == ShellPolicyMode::Deny,
        holds_to_policy(first, tool, args, policy, unattended, has_hooks),
    ensures
        ends_with_error(first.step, blocked_message(command)),
{
}

/// Where the policy asks, a call that needs approval goes to the user first, and runs after
/// that if and only if the reply grants it.
pub proof fn law_asked_code_runs_only_if_granted(
    tool: Seq<char>,
    args: JsonView,
    policy: ResolvedShellPolicy,
    command: Seq<char>,
    unattended: bool,
    has_hooks: bool,
    first: GateOutcome,
    reply: Result<String, String>,
    second: GateOutcome,
)
    requires
        approval::runs_code(tool),
        args.non_blank_at(approval::code_argument(tool)) == Some(command),
        approval::code_needs_approval(tool, command, policy.approval_patterns.deep_view()),
        (if unattended {
            policy.unattended_mode
        } else {
            policy.interactive_mode
        }) == ShellPolicyMode::Ask,
        holds_to_policy(first, tool, args, policy, unattended, has_hooks),
        heeds_reply(second, reply, approval::preview(command), has_hooks),
    ensures
        first.step is AskUser,
        goes_on(second.step) <==> (reply matches Ok(answer) && approval::grants(answer@)),
{
}

/// A call goes on at once, without a word in the report, where its tool runs no code, where it
/// gives none, where the policy allows, and where it is a command of the shell that matches no
/// pattern. It goes to the hooks first where there are any.
pub proof fn law_other_calls_pass(
    tool: Seq<char>,
    args: JsonView,
    policy: ResolvedShellPolicy,
    unattended: bool,
    has_hooks: bool,
    first: GateOutcome,
)
    requires
        holds_to_policy(first, tool, args, policy, unattended, has_hooks),
        ({
            ||| tool != "exec"@ && tool != "python_run"@ && tool != "execution_run"@ && tool
                != "execution_run_background"@
            ||| tool == "exec"@ && args.text_at("command"@) is None
            ||| tool != "exec"@ && args.text_at("code"@) is None
            ||| unattended && policy.unattended_mode == ShellPolicyMode::Allow
            ||| !unattended && policy.interactive_mode == ShellPolicyMode::Allow
            ||| tool == "exec"@ && policy.approval_patterns@.len() == 0
            ||| tool == "exec"@ && (args.text_at("command"@) matches Some(t)
                && !approval::needs_approval(text::trim(t), policy.approval_patterns.deep_view()))
        }),
    ensures
        first.report is None,
        has_hooks ==> first.step is RunPreHooks,
        !has_hooks ==> first.step is Execute,
{
    reveal_strlit("exec");
    reveal_strlit("python_run");
    reveal_strlit("execution_run");
    reveal_strlit("execution_run_background");
    assert("exec"@.len() == 4 && "python_run"@.len() == 10 && "execution_run"@.len() == 13
        && "execution_run_background"@.len() == 24);
}

/// Code of any kind is stopped where the policy denies and shown to the user where it asks:
/// the report and what the user or the model reads hold what the call would have run.
pub proof fn law_code_is_held_back(
    tool: Seq<char>,
    args: JsonView,
    policy: ResolvedShellPolicy,
    code: Seq<char>,
    unattended: bool,
    has_hooks: bool,
    first: GateOutcome,
)
    requires
        holds_to_policy(first, tool, args, policy, unattended, has_hooks),
        text::trim(code).len() > 0,
        ({
            ||| tool == "python_run"@ && args.text_at("code"@) == Some(code)
            ||| tool == "execution_run"@ && args.text_at("code"@) == Some(code)
            ||| tool == "execution_run_background"@ && args.text_at("code"@) == Some(code)
            ||| tool == "exec"@ && args.text_at("command"@) == Some(code)
                && approval::needs_approval(
                text::trim(code),
                policy.approval_patterns.deep_view(),
            )
        }),
    ensures
        ({
            let mode = if unattended {
                policy.unattended_mode
            } else {
                policy.interactive_mode
            };
            &&& mode == ShellPolicyMode::Deny ==> {
                &&& first.step matches ToolStep::Finish(
                    ToolExecutionFinished::Completed(Err(said)),
                )
                &&& text::ends_with(said@, text::trim(code))
                &&& first.report matches Some(d)
                &&& d.decision@ == "blocked"@
                &&& d.mode@ == "deny"@
                &&& d.command_preview@ == approval::preview(text::trim(code))
            }
            &&& mode == ShellPolicyMode::Ask ==> {
                &&& first.step matches ToolStep::AskUser { prompt, preview }
                &&& text::contains(prompt@, text::trim(code))
                &&& text::contains(prompt@, tool)
                &&& preview@ == approval::preview(text::trim(code))
                &&& first.report matches Some(d)
                &&& d.decision@ == "approval_requested"@
                &&& d.mode@ == "ask"@
                &&& d.command_preview@ == preview@
            }
        }),
{
    reveal_strlit("exec");
    reveal_strlit("python_run");
    reveal_strlit("execution_run");
    reveal_strlit("execution_run_background");
    assert("exec"@.len() == 4 && "python_run"@.len() == 10 && "execution_run"@.len() == 13
        && "execution_run_background"@.len() == 24);
    let command = text::trim(code);
    assert(args.non_blank_at(approval::code_argument(tool)) == Some(command));
    let blocked = blocked_message(command);
    assert(blocked.subrange(blocked.len() - command.len(), blocked.len() as int) =~= command);
    text::lemma_contains_middle(
        "Approve running `"@,
        tool,
        "`?\n\n```\n"@ + command + "\n```\n\nReply with approve or deny."@,
    );
    text::lemma_contains_middle(
        "Approve running `"@ + tool + "`?\n\n```\n"@,
        command,
        "\n```\n\nReply with approve or deny."@,
    );
    assert(approval_prompt(tool, command) =~= "Approve running `"@ + tool + ("`?\n\n```\n"@
        + command + "\n```\n\nReply with approve or deny."@));
    assert(approval_prompt(tool, command) =~= "Approve running `"@ + tool + "`?\n\n```\n"@
        + command + "\n```\n\nReply with approve or deny."@);
}

/// A call that the user did not grant ends with an error that the model sees, and so does one
/// whose question failed; one that was granted goes to the hooks, or runs where there are none.
/// The report says which of the two it was.
pub proof fn law_reply_decides(
    reply: Result<String, String>,
    preview: Seq<char>,
    has_hooks: bool,
    second: GateOutcome,
)
    requires
        heeds_reply(second, reply, preview, has_hooks),
    ensures
        reply matches Err(e) ==> second.report is None && (second.step matches ToolStep::Finish(
            ToolExecutionFinished::Completed(Err(said)),
        ) && text::ends_with(said@, e@)),
        reply matches Ok(answer) ==> (second.report matches Some(d) && d.mode@ == "ask"@
            && d.command_preview@ == preview && d.decision@ == if approval::grants(answer@) {
            "approval_granted"@
        } else {
            "approval_denied"@
        }),
        reply matches Ok(answer) && !approval::grants(answer@) ==> second.step
            matches ToolStep::Finish(ToolExecutionFinished::Completed(Err(_))),
        reply matches Ok(answer) && approval::grants(answer@) ==> (if has_hooks {
            second.step is RunPreHooks
        } else {
            second.step is Execute
        }),
{
    if let Err(e) = reply {
        let said = "Shell policy approval failed: "@ + e@;
        assert(said.subrange(said.len() - e@.len(), said.len() as int) =~= e@);
    }
}

/// A call that was cancelled ends as such; one whose error is the signal to wait ends waiting
/// for the ticket that the signal names; every other ends with the tool's own result, as a
/// success or a failure as it was, and what the hooks said stands behind it.
pub proof fn law_call_ends_as_the_tool_did(
    completed: Option<Result<String, String>>,
    said: Option<Seq<char>>,
    ticket: Seq<char>,
)
    ensures
        completed is None ==> conclusion(completed, said) == FinishView::Cancelled,
        completed matches Some(Ok(s)) ==> (conclusion(completed, said) matches FinishView::Completed(
            Ok(out),
        ) && text::starts_with(out, s@) && (said is None ==> out == s@) && (said matches Some(h)
            ==> text::ends_with(out, h) && out.len() > s@.len() + h.len())),
        completed matches Some(Err(e)) && e@ == "ISANAGENT_WAIT_FOR_USER:"@ + ticket ==> conclusion(
            completed,
            said,
        ) == FinishView::Waiting(ticket),
        completed matches Some(Err(e)) ==> (!text::starts_with(e@, "ISANAGENT_WAIT_FOR_USER:"@)
            ==> (conclusion(completed, said) matches FinishView::Completed(Err(out)) && text::starts_with(
            out,
            e@,
        ) && (said is None ==> out == e@) && (said matches Some(h) ==> text::ends_with(out, h)
            && out.len() > e@.len() + h.len()))),
{
    reveal_strlit("\n\n[post-tool hook]\n");
    let h = said->0;
    match completed {
        Some(Ok(s)) => {
            let out = s@ + hook_note(h);
            assert(s@.subrange(0, s@.len() as int) =~= s@);
            assert(out.subrange(0, s@.len() as int) =~= s@);
            assert(out.subrange(out.len() - h.len(), out.len() as int) =~= h);
        },
        Some(Err(e)) => {
            let out = e@ + hook_note(h);
            assert(e@.subrange(0, e@.len() as int) =~= e@);
            assert(out.subrange(0, e@.len() as int) =~= e@);
            assert(out.subrange(out.len() - h.len(), out.len() as int) =~= h);
            text::lemma_starts_with_concat("ISANAGENT_WAIT_FOR_USER:"@, ticket);
            assert(("ISANAGENT_WAIT_FOR_USER:"@ + ticket).skip(
                "ISANAGENT_WAIT_FOR_USER:"@.len() as int,
            ) =~= ticket);
        },
        None => {},
    }
}

/// The hooks are shown a success as a success and a failure as a failure, each with what the
/// tool gave; a call that was cancelled is shown as a failure.
pub proof fn law_hooks_see_the_result(completed: Option<Result<String, String>>)
    ensures
        completed matches Some(Ok(s)) ==> result_for_hooks(completed) == Ok::<
            Seq<char>,
            Seq<char>,
        >(s@),
        completed matches Some(Err(e)) ==> result_for_hooks(completed) == Err::<
            Seq<char>,
            Seq<char>,
        >(e@),
        completed is None ==> result_for_hooks(completed) is Err,
{
}

/// Only a command of the shell can be one that searches, and it is told of as it was given.
pub proof fn law_only_shell_searches(tool: Seq<char>, args: JsonView, command: Seq<char>)
    ensures
        tool != "exec"@ ==> searching_command(tool, args) is None,
        tool == "exec"@ && args.text_at("command"@) == Some(command) && text::trim(command).len()
            > 0 ==> (searching_command(tool, args) == if approval::uses_grep_like(
            text::trim(command),
        ) {
            Some(text::trim(command))
        } else {
            None
        }),
{
}

} // verus!
