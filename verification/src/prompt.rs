//! The texts that go to a model with every turn: where and when it works, what it can do,
//! and how far it has come.
use vstd::prelude::*;
use vstd::string::*;
use crate::bus::{
    metadata_text, metadata_truthy, InboundMessage, METADATA_AUTONOMOUS_FORBID_FINAL_WITHOUT_TOOLS,
    METADATA_AUTONOMOUS_SESSION, METADATA_AUTONOMOUS_UNTIL,
};
use crate::bus;
use crate::json;
use crate::message::RUNTIME_CONTEXT_END_SUFFIX;
use crate::text;

verus! {

broadcast use vstd::string::group_string_axioms;

// ---------------------------------------------------------------------------
// The runtime context
// ---------------------------------------------------------------------------

/// What is known of the machine and the moment of a turn.
#[derive(Debug)]
pub struct HostFacts {
    pub now: String,
    pub os_family: String,
    pub shell_family: String,
    pub path_separator: char,
    pub windows: bool,
    pub terminal: Option<String>,
}

/// `true` or `false`.
pub open spec fn bool_text(b: bool) -> Seq<char> {
    if b {
        "true"@
    } else {
        "false"@
    }
}

/// `true` or `false`.
pub fn text_of_bool(b: bool) -> (r: &'static str)
    ensures
        r@ == bool_text(b),
{
    if b {
        "true"
    } else {
        "false"
    }
}

/// Whether a session must not end on plain text: never a sub-agent's, and another where it
/// is configured so or its message says so.
pub open spec fn must_use_tools(
    is_subagent: bool,
    configured: bool,
    metadata: Seq<(Seq<char>, json::JsonView)>,
) -> bool {
    !is_subagent && (configured || bus::says_yes(
        metadata,
        METADATA_AUTONOMOUS_FORBID_FINAL_WITHOUT_TOOLS@,
    ))
}

/// Whether a session must not end on plain text.
pub fn forbids_final_without_tools(
    is_subagent: bool,
    forbid_final_without_tools: bool,
    inbound: &InboundMessage,
) -> (r: bool)
    ensures
        r == must_use_tools(
            is_subagent,
            forbid_final_without_tools,
            json::members_view(inbound.metadata@),
        ),
{
    !is_subagent && (forbid_final_without_tools || metadata_truthy(
        &inbound.metadata,
        METADATA_AUTONOMOUS_FORBID_FINAL_WITHOUT_TOOLS,
    ))
}

/// Whether nobody attends to a session.
pub fn is_unattended_session(inbound: &InboundMessage) -> (r: bool)
    ensures
        r == (bus::says_yes(
            json::members_view(inbound.metadata@),
            METADATA_AUTONOMOUS_SESSION@,
        ) || json::member(
            json::members_view(inbound.metadata@),
            METADATA_AUTONOMOUS_UNTIL@,
        ) is Some),
{
    metadata_truthy(&inbound.metadata, METADATA_AUTONOMOUS_SESSION) || json::find_member(
        &inbound.metadata,
        METADATA_AUTONOMOUS_UNTIL,
    ).is_some()
}

/// The thread of a turn, where it has one.
pub open spec fn thread_note(thread: Option<Seq<char>>) -> Seq<char> {
    match thread {
        Some(t) => ", thread: '"@ + t + "'"@,
        None => Seq::empty(),
    }
}

/// The terminal of a turn, where it is known.
pub open spec fn terminal_note(terminal: Option<Seq<char>>) -> Seq<char> {
    match terminal {
        Some(t) => match text::non_blank(t) {
            Some(clean) => " terminal='"@ + clean + "'."@,
            None => Seq::empty(),
        },
        None => Seq::empty(),
    }
}

/// The deadline of a session that nobody attends to, where it has one.
pub open spec fn deadline_note(until: Option<Seq<char>>) -> Seq<char> {
    match until {
        Some(t) => " Autonomous session deadline (RFC3339): '"@ + t + "'."@,
        None => Seq::empty(),
    }
}

/// What a session that must use tools is told.
pub open spec fn tools_note(forbid_final: bool) -> Seq<char> {
    if forbid_final {
        " This session expects tool use until work is complete — avoid ending on plain text alone."@
    } else {
        Seq::empty()
    }
}

/// What a turn is told of where and when it takes place, without the mark at its end.
pub open spec fn runtime_context(
    facts: HostFacts,
    channel: Seq<char>,
    chat_id: Seq<char>,
    thread: Option<Seq<char>>,
    until: Option<Seq<char>>,
    forbid_final: bool,
) -> Seq<char> {
    "[RUNTIME CONTEXT] Current time is "@ + facts.now@
        + ". You are navigating and responding in channel: '"@ + channel + "', with chat ID: '"@
        + chat_id + "'"@ + thread_note(thread) + "."@ + " Host hints: os_family='"@
        + facts.os_family@ + "', shell_family='"@ + facts.shell_family@ + "', path_separator='"@
        + seq![facts.path_separator] + "', windows="@ + bool_text(facts.windows) + "."@
        + terminal_note(facts.terminal.deep_view()) + deadline_note(until) + tools_note(
        forbid_final,
    )
}

/// What a message is with the runtime context in front of it.
pub open spec fn contextualized(
    facts: HostFacts,
    channel: Seq<char>,
    chat_id: Seq<char>,
    thread: Option<Seq<char>>,
    until: Option<Seq<char>>,
    forbid_final: bool,
    content: Seq<char>,
) -> Seq<char> {
    runtime_context(facts, channel, chat_id, thread, until, forbid_final)
        + RUNTIME_CONTEXT_END_SUFFIX@ + content
}

/// Puts the runtime context in front of a message's content.
pub fn contextualize(inbound: &InboundMessage, facts: &HostFacts, forbid_final: bool) -> (r: String)
    ensures
        r@ == contextualized(
            *facts,
            inbound.channel@,
            inbound.chat_id@,
            inbound.thread_id.deep_view(),
            bus::text_under(json::members_view(inbound.metadata@), METADATA_AUTONOMOUS_UNTIL@),
            forbid_final,
            inbound.content@,
        ),
{
    let ghost thread = inbound.thread_id.deep_view();
    let mut out: String = "[RUNTIME CONTEXT] Current time is ".to_owned();
    out.append(facts.now.as_str());
    out.append(". You are navigating and responding in channel: '");
    out.append(inbound.channel.as_str());
    out.append("', with chat ID: '");
    out.append(inbound.chat_id.as_str());
    out.append("'");
    let ghost start = out@;
    if let Some(t) = &inbound.thread_id {
        out.append(", thread: '");
        out.append(t.as_str());
        out.append("'");
    }
    assert(out@ =~= start + thread_note(thread));
    out.append(".");
    out.append(" Host hints: os_family='");
    out.append(facts.os_family.as_str());
    out.append("', shell_family='");
    out.append(facts.shell_family.as_str());
    out.append("', path_separator='");
    let ghost before_separator = out@;
    out.push(facts.path_separator);
    assert(out@ =~= before_separator + seq![facts.path_separator]);
    out.append("', windows=");
    out.append(text_of_bool(facts.windows));
    out.append(".");
    let ghost start = out@;
    if let Some(term) = &facts.terminal {
        if let Some(clean) = text::non_blank_text(term.as_str()) {
            out.append(" terminal='");
            out.append(clean.as_str());
            out.append("'.");
        }
    }
    assert(out@ =~= start + terminal_note(facts.terminal.deep_view()));
    let until: Option<String> = metadata_text(&inbound.metadata, METADATA_AUTONOMOUS_UNTIL);
    let ghost start = out@;
    if let Some(t) = &until {
        out.append(" Autonomous session deadline (RFC3339): '");
        out.append(t.as_str());
        out.append("'.");
    }
    assert(out@ =~= start + deadline_note(until.deep_view()));
    let ghost start = out@;
    if forbid_final {
        out.append(
            " This session expects tool use until work is complete — avoid ending on plain text alone.",
        );
    }
    assert(out@ =~= start + tools_note(forbid_final));
    out.append(RUNTIME_CONTEXT_END_SUFFIX);
    out.append(inbound.content.as_str());
    out
}

/// What the hooks on a user's prompt came to.
#[derive(Debug)]
pub enum UserPromptHookOutcome {
    Block(String),
    InjectPrefix(String),
    Proceed,
}

/// Holds a prompt to the hooks: it is stopped, gets a line in front of it, or stays as it is.
pub fn after_prompt_hooks(outcome: UserPromptHookOutcome, content: String) -> (r: Result<
    String,
    String,
>)
    ensures
        match outcome {
            UserPromptHookOutcome::Block(message) => r matches Err(e) && e@ == message@,
            UserPromptHookOutcome::InjectPrefix(prefix) => r matches Ok(s) && s@ == prefix@ + "\n"@
                + content@,
            UserPromptHookOutcome::Proceed => r matches Ok(s) && s@ == content@,
        },
{
    match outcome {
        UserPromptHookOutcome::Block(message) => Err(message),
        UserPromptHookOutcome::InjectPrefix(prefix) => {
            let mut out: String = prefix;
            out.append("\n");
            out.append(content.as_str());
            Ok(out)
        },
        UserPromptHookOutcome::Proceed => Ok(content),
    }
}

// ---------------------------------------------------------------------------
// The system prompt of a step
// ---------------------------------------------------------------------------

/// A task on the agent's list.
#[derive(Clone, Debug)]
pub struct TodoRow {
    pub status: String,
    pub content: String,
}

/// The box in front of a task.
pub open spec fn todo_icon(status: Seq<char>) -> Seq<char> {
    if status == "completed"@ {
        "[x]"@
    } else if status == "in_progress"@ {
        "[~]"@
    } else {
        "[ ]"@
    }
}

/// The tasks, one per line, with their numbers.
pub open spec fn todo_lines(rows: Seq<TodoRow>) -> Seq<char>
    decreases rows.len(),
{
    if rows.len() == 0 {
        Seq::empty()
    } else {
        todo_lines(rows.drop_last()) + text::decimal(rows.len()) + ". "@ + todo_icon(
            rows.last().status@,
        ) + " "@ + rows.last().content@ + "\n"@
    }
}

/// The list of tasks as a model sees it.
pub open spec fn todo_block(rows: Seq<TodoRow>) -> Seq<char> {
    "\n\n--- Harness todos (this step) ---\n"@ + todo_lines(rows)
}

/// Writes the list of tasks as a model sees it.
pub fn format_harness_todos_step_block(rows: &[TodoRow]) -> (r: String)
    ensures
        r@ == todo_block(rows@),
{
    let mut s: String = "\n\n--- Harness todos (this step) ---\n".to_owned();
    let ghost head = s@;
    let mut i: usize = 0;
    assert(rows@.take(0) =~= Seq::<TodoRow>::empty());
    assert(s@ =~= head + todo_lines(rows@.take(0)));
    while i < rows.len()
        invariant
            i <= rows@.len(),
            s@ == head + todo_lines(rows@.take(i as int)),
        decreases rows@.len() - i,
    {
        assert(rows@.take(i + 1).drop_last() =~= rows@.take(i as int));
        let number: String = text::decimal_text(i as u64 + 1);
        let row = &rows[i];
        let icon: &str = if text::same(row.status.as_str(), "completed") {
            "[x]"
        } else if text::same(row.status.as_str(), "in_progress") {
            "[~]"
        } else {
            "[ ]"
        };
        s.append(number.as_str());
        s.append(". ");
        s.append(icon);
        s.append(" ");
        s.append(row.content.as_str());
        s.append("\n");
        assert(s@ =~= head + todo_lines(rows@.take(i + 1)));
        i = i + 1;
    }
    assert(rows@.take(i as int) =~= rows@);
    s
}

/// The summaries of the conversation so far, where there are any.
pub open spec fn summaries_block(summaries: Seq<Seq<char>>) -> Seq<char> {
    if summaries.len() == 0 {
        Seq::empty()
    } else {
        "--- RECENT CONVERSATION SUMMARIES (SHORT-TERM MEMORY) ---\n"@ + text::join(
            summaries,
            "\n\n"@,
        )
    }
}

/// The state of the harness, where there is anything to say.
pub open spec fn harness_block(summary: Seq<char>) -> Seq<char> {
    match text::non_blank(summary) {
        Some(clean) => "\n\n--- Harness snapshot (this step) ---\n"@ + clean + "\n"@,
        None => Seq::empty(),
    }
}

/// The tasks, where there are any.
pub open spec fn optional_todo_block(rows: Option<Seq<TodoRow>>) -> Seq<char> {
    match rows {
        Some(rows) => if rows.len() > 0 {
            todo_block(rows)
        } else {
            Seq::empty()
        },
        None => Seq::empty(),
    }
}

/// How far the turn has come.
pub open spec fn budget_line(iteration: nat, max_iterations: nat) -> Seq<char> {
    "\n--- Reasoning budget ---\nYou are on tool/LLM step "@ + text::decimal(iteration) + " of "@
        + text::decimal(max_iterations) + " for this user turn.\n"@
}

/// What a session that must use tools is told with every step.
pub open spec fn autonomy_line(forbid_final: bool) -> Seq<char> {
    if forbid_final {
        "\n--- Autonomy ---\nDo not finish this step with assistant text only — call tools (or `ask_user` if blocked). If you believe you are done, still run a verification tool (e.g. read_file or execution_env_info) when appropriate.\n"@
    } else {
        Seq::empty()
    }
}

/// The system prompt of a step.
pub open spec fn system_body(
    system_prompt: Seq<char>,
    summaries: Seq<Seq<char>>,
    capabilities: Seq<char>,
    harness_summary: Seq<char>,
    todos: Option<Seq<TodoRow>>,
    iteration: nat,
    max_iterations: nat,
    forbid_final: bool,
) -> Seq<char> {
    text::trim_end(
        system_prompt + "\n\n"@ + summaries_block(summaries) + "\n"@ + capabilities + harness_block(
            harness_summary,
        ) + optional_todo_block(todos) + budget_line(iteration, max_iterations),
    ) + autonomy_line(forbid_final)
}

/// What goes into the system prompt of a step.
#[derive(Debug)]
pub struct SystemPromptParts {
    pub system_prompt: String,
    pub summaries: Vec<String>,
    pub capabilities: String,
    pub harness_summary: String,
    /// The tasks; none are shown to a sub-agent.
    pub todos: Option<Vec<TodoRow>>,
}

/// Writes the system prompt of a step.
pub fn build_system_body(
    parts: &SystemPromptParts,
    iteration: usize,
    max_iterations: usize,
    forbid_final: bool,
) -> (r: String)
    ensures
        r@ == system_body(
            parts.system_prompt@,
            parts.summaries.deep_view(),
            parts.capabilities@,
            parts.harness_summary@,
            match parts.todos {
                Some(rows) => Some(rows@),
                None => None,
            },
            iteration as nat,
            max_iterations as nat,
            forbid_final,
        ),
{
    let mut body: String = parts.system_prompt.clone();
    body.append("\n\n");
    let ghost start = body@;
    assert(parts.summaries.deep_view().len() == parts.summaries@.len());
    if parts.summaries.len() > 0 {
        body.append("--- RECENT CONVERSATION SUMMARIES (SHORT-TERM MEMORY) ---\n");
        let all: String = text::joined(&parts.summaries, "\n\n");
        body.append(all.as_str());
    }
    assert(body@ =~= start + summaries_block(parts.summaries.deep_view()));
    body.append("\n");
    body.append(parts.capabilities.as_str());
    let ghost start = body@;
    if let Some(clean) = text::non_blank_text(parts.harness_summary.as_str()) {
        body.append("\n\n--- Harness snapshot (this step) ---\n");
        body.append(clean.as_str());
        body.append("\n");
    }
    assert(body@ =~= start + harness_block(parts.harness_summary@));
    let ghost start = body@;
    if let Some(rows) = &parts.todos {
        if rows.len() > 0 {
            let block: String = format_harness_todos_step_block(rows);
            body.append(block.as_str());
        }
    }
    assert(body@ =~= start + optional_todo_block(
        match parts.todos {
            Some(rows) => Some(rows@),
            None => None,
        },
    ));
    let ghost start = body@;
    let step: String = text::decimal_usize(iteration);
    let steps: String = text::decimal_usize(max_iterations);
    body.append("\n--- Reasoning budget ---\nYou are on tool/LLM step ");
    body.append(step.as_str());
    body.append(" of ");
    body.append(steps.as_str());
    body.append(" for this user turn.\n");
    assert(body@ =~= start + budget_line(iteration as nat, max_iterations as nat));
    let mut out: String = text::trimmed_end(body.as_str());
    let ghost trimmed = out@;
    if forbid_final {
        out.append(
            "\n--- Autonomy ---\nDo not finish this step with assistant text only — call tools (or `ask_user` if blocked). If you believe you are done, still run a verification tool (e.g. read_file or execution_env_info) when appropriate.\n",
        );
    }
    assert(out@ =~= trimmed + autonomy_line(forbid_final));
    out
}

// ---------------------------------------------------------------------------
// Laws
// ---------------------------------------------------------------------------

/// The runtime context begins with the time and with where the agent is: channel, chat and
/// thread.
pub proof fn law_context_tells_time_and_place(
    facts: HostFacts,
    channel: Seq<char>,
    chat_id: Seq<char>,
    thread: Option<Seq<char>>,
    until: Option<Seq<char>>,
    forbid_final: bool,
)
    ensures
        ({
            let place = "[RUNTIME CONTEXT] Current time is "@ + facts.now@
                + ". You are navigating and responding in channel: '"@ + channel
                + "', with chat ID: '"@ + chat_id + "'"@;
            let context = runtime_context(facts, channel, chat_id, thread, until, forbid_final);
            &&& text::starts_with(context, place)
            &&& thread matches Some(t) ==> text::starts_with(
                context,
                place + (", thread: '"@ + t + "'"@),
            )
        }),
{
    let place = "[RUNTIME CONTEXT] Current time is "@ + facts.now@
        + ". You are navigating and responding in channel: '"@ + channel + "', with chat ID: '"@
        + chat_id + "'"@;
    let a = place + thread_note(thread);
    assert(place.subrange(0, place.len() as int) =~= place);
    assert(a.subrange(0, a.len() as int) =~= a);
    text::lemma_starts_longer(place, thread_note(thread), place);
    lemma_context_grows(a, facts, until, forbid_final, place);
    lemma_context_grows(a, facts, until, forbid_final, a);
}

proof fn lemma_context_grows(
    a: Seq<char>,
    facts: HostFacts,
    until: Option<Seq<char>>,
    forbid_final: bool,
    prefix: Seq<char>,
)
    requires
        text::starts_with(a, prefix),
    ensures
        text::starts_with(
            a + "."@ + " Host hints: os_family='"@ + facts.os_family@ + "', shell_family='"@
                + facts.shell_family@ + "', path_separator='"@ + seq![facts.path_separator]
                + "', windows="@ + bool_text(facts.windows) + "."@ + terminal_note(
                facts.terminal.deep_view(),
            ) + deadline_note(until) + tools_note(forbid_final),
            prefix,
        ),
{
    let b = a + "."@;
    text::lemma_starts_longer(a, "."@, prefix);
    let c = b + " Host hints: os_family='"@;
    text::lemma_starts_longer(b, " Host hints: os_family='"@, prefix);
    let d = c + facts.os_family@;
    text::lemma_starts_longer(c, facts.os_family@, prefix);
    let e = d + "', shell_family='"@;
    text::lemma_starts_longer(d, "', shell_family='"@, prefix);
    let f = e + facts.shell_family@;
    text::lemma_starts_longer(e, facts.shell_family@, prefix);
    let g = f + "', path_separator='"@;
    text::lemma_starts_longer(f, "', path_separator='"@, prefix);
    let h = g + seq![facts.path_separator];
    text::lemma_starts_longer(g, seq![facts.path_separator], prefix);
    let i = h + "', windows="@;
    text::lemma_starts_longer(h, "', windows="@, prefix);
    let j = i + bool_text(facts.windows);
    text::lemma_starts_longer(i, bool_text(facts.windows), prefix);
    let k = j + "."@;
    text::lemma_starts_longer(j, "."@, prefix);
    let l = k + terminal_note(facts.terminal.deep_view());
    text::lemma_starts_longer(k, terminal_note(facts.terminal.deep_view()), prefix);
    let m = l + deadline_note(until);
    text::lemma_starts_longer(l, deadline_note(until), prefix);
    text::lemma_starts_longer(m, tools_note(forbid_final), prefix);
}

/// The runtime context ends with the deadline, where there is one, and with the word that tools
/// are to be used, where that is expected; it is longer for each of the two.
pub proof fn law_context_tells_what_is_expected(
    facts: HostFacts,
    channel: Seq<char>,
    chat_id: Seq<char>,
    thread: Option<Seq<char>>,
    t: Seq<char>,
)
    ensures
        text::ends_with(
            runtime_context(facts, channel, chat_id, thread, Some(t), false),
            "(RFC3339): '"@ + t + "'."@,
        ),
        text::ends_with(
            runtime_context(facts, channel, chat_id, thread, None, true),
            "expects tool use until work is complete — avoid ending on plain text alone."@,
        ),
        text::starts_with(
            runtime_context(facts, channel, chat_id, thread, Some(t), true),
            runtime_context(facts, channel, chat_id, thread, Some(t), false),
        ),
        text::starts_with(
            runtime_context(facts, channel, chat_id, thread, Some(t), false),
            runtime_context(facts, channel, chat_id, thread, None, false),
        ),
{
    reveal_strlit(" Autonomous session deadline (RFC3339): '");
    reveal_strlit("(RFC3339): '");
    reveal_strlit(
        " This session expects tool use until work is complete — avoid ending on plain text alone.",
    );
    reveal_strlit("expects tool use until work is complete — avoid ending on plain text alone.");
    let none = runtime_context(facts, channel, chat_id, thread, None, false);
    let until = runtime_context(facts, channel, chat_id, thread, Some(t), false);
    let both = runtime_context(facts, channel, chat_id, thread, Some(t), true);
    let tools = runtime_context(facts, channel, chat_id, thread, None, true);
    let note = deadline_note(Some(t));
    let word = tools_note(true);
    assert(deadline_note(None) =~= Seq::<char>::empty());
    assert(tools_note(false) =~= Seq::<char>::empty());
    assert(until =~= none + note);
    assert(both =~= until + word);
    assert(tools =~= none + word);
    let end = "(RFC3339): '"@ + t + "'."@;
    assert(" Autonomous session deadline (RFC3339): '"@.skip(29) =~= "(RFC3339): '"@);
    assert(note.skip(29) =~= end);
    assert(until.subrange(until.len() - end.len(), until.len() as int) =~= end);
    let last = "expects tool use until work is complete — avoid ending on plain text alone."@;
    assert(word.skip(14) =~= last);
    assert(tools.subrange(tools.len() - last.len(), tools.len() as int) =~= last);
    assert(both.subrange(0, until.len() as int) =~= until);
    assert(until.subrange(0, none.len() as int) =~= none);
}

/// A message goes to the model with the runtime context before it and is whole behind that.
pub proof fn law_message_follows_the_context(
    facts: HostFacts,
    channel: Seq<char>,
    chat_id: Seq<char>,
    thread: Option<Seq<char>>,
    until: Option<Seq<char>>,
    forbid_final: bool,
    content: Seq<char>,
)
    ensures
        text::ends_with(
            contextualized(facts, channel, chat_id, thread, until, forbid_final, content),
            content,
        ),
        text::starts_with(
            contextualized(facts, channel, chat_id, thread, until, forbid_final, content),
            runtime_context(facts, channel, chat_id, thread, until, forbid_final),
        ),
{
    let all = contextualized(facts, channel, chat_id, thread, until, forbid_final, content);
    let context = runtime_context(facts, channel, chat_id, thread, until, forbid_final);
    assert(all.subrange(all.len() - content.len(), all.len() as int) =~= content);
    assert(all.subrange(0, context.len() as int) =~= context);
}

/// Tools are to be used where the settings or the message say so, and never by a sub-agent.
pub proof fn law_sub_agents_may_end_without_tools(
    configured: bool,
    metadata: Seq<(Seq<char>, json::JsonView)>,
)
    ensures
        !must_use_tools(true, configured, metadata),
        must_use_tools(false, true, metadata),
        must_use_tools(false, false, metadata) <==> bus::says_yes(
            metadata,
            "isanagent_autonomous_forbid_final_without_tools"@,
        ),
{
}

/// Each task is listed under its number with a box that tells its state, in the order of the
/// list.
pub proof fn law_todos_are_numbered(rows: Seq<TodoRow>, row: TodoRow)
    ensures
        todo_lines(Seq::empty()).len() == 0,
        row.status@ == "completed"@ ==> todo_lines(rows.push(row)) == todo_lines(rows)
            + text::decimal(rows.len() + 1) + ". [x] "@ + row.content@ + "\n"@,
        row.status@ == "in_progress"@ ==> todo_lines(rows.push(row)) == todo_lines(rows)
            + text::decimal(rows.len() + 1) + ". [~] "@ + row.content@ + "\n"@,
        row.status@ != "completed"@ && row.status@ != "in_progress"@ ==> todo_lines(rows.push(row))
            == todo_lines(rows) + text::decimal(rows.len() + 1) + ". [ ] "@ + row.content@
            + "\n"@,
{
    let all = rows.push(row);
    assert(all.drop_last() =~= rows);
    reveal_strlit("completed");
    reveal_strlit("in_progress");
    reveal_strlit(". ");
    reveal_strlit(" ");
    reveal_strlit("[x]");
    reveal_strlit("[~]");
    reveal_strlit("[ ]");
    reveal_strlit(". [x] ");
    reveal_strlit(". [~] ");
    reveal_strlit(". [ ] ");
    assert("completed"@.len() == 9 && "in_progress"@.len() == 11);
    assert(". [x] "@ =~= ". "@ + "[x]"@ + " "@);
    assert(". [~] "@ =~= ". "@ + "[~]"@ + " "@);
    assert(". [ ] "@ =~= ". "@ + "[ ]"@ + " "@);
    let icon = todo_icon(row.status@);
    let head = todo_lines(rows) + text::decimal(rows.len() + 1);
    assert(todo_lines(all) == head + ". "@ + icon + " "@ + row.content@ + "\n"@);
    assert(head + ". "@ + icon + " "@ =~= head + (". "@ + icon + " "@));
}

/// What the system message holds before the white space at its end is taken off.
spec fn untrimmed_body(
    system_prompt: Seq<char>,
    summaries: Seq<Seq<char>>,
    capabilities: Seq<char>,
    harness_summary: Seq<char>,
    todos: Option<Seq<TodoRow>>,
    iteration: nat,
    max_iterations: nat,
) -> Seq<char> {
    system_prompt + "\n\n"@ + summaries_block(summaries) + "\n"@ + capabilities + harness_block(
        harness_summary,
    ) + optional_todo_block(todos) + budget_line(iteration, max_iterations)
}

proof fn lemma_body_holds(
    system_prompt: Seq<char>,
    summaries: Seq<Seq<char>>,
    capabilities: Seq<char>,
    harness_summary: Seq<char>,
    todos: Option<Seq<TodoRow>>,
    iteration: nat,
    max_iterations: nat,
    needle: Seq<char>,
)
    requires
        ({
            ||| text::contains(system_prompt, needle)
            ||| text::contains(summaries_block(summaries), needle)
            ||| text::contains(capabilities, needle)
            ||| text::contains(harness_block(harness_summary), needle)
            ||| text::contains(optional_todo_block(todos), needle)
            ||| text::contains(budget_line(iteration, max_iterations), needle)
        }),
    ensures
        text::contains(
            untrimmed_body(
                system_prompt,
                summaries,
                capabilities,
                harness_summary,
                todos,
                iteration,
                max_iterations,
            ),
            needle,
        ),
{
    let s = summaries_block(summaries);
    let h = harness_block(harness_summary);
    let t = optional_todo_block(todos);
    let l = budget_line(iteration, max_iterations);
    let a = system_prompt + "\n\n"@;
    if text::contains(system_prompt, needle) {
        text::lemma_contains_longer(system_prompt, "\n\n"@, needle);
        text::lemma_contains_longer(a, s, needle);
    } else if text::contains(s, needle) {
        text::lemma_contains_behind(a, s, needle);
    }
    let b = a + s;
    if text::contains(b, needle) {
        text::lemma_contains_longer(b, "\n"@, needle);
        text::lemma_contains_longer(b + "\n"@, capabilities, needle);
    } else if text::contains(capabilities, needle) {
        text::lemma_contains_behind(b + "\n"@, capabilities, needle);
    }
    let c = b + "\n"@ + capabilities;
    if text::contains(c, needle) {
        text::lemma_contains_longer(c, h, needle);
    } else if text::contains(h, needle) {
        text::lemma_contains_behind(c, h, needle);
    }
    let d = c + h;
    if text::contains(d, needle) {
        text::lemma_contains_longer(d, t, needle);
    } else if text::contains(t, needle) {
        text::lemma_contains_behind(d, t, needle);
    }
    let e = d + t;
    if text::contains(e, needle) {
        text::lemma_contains_longer(e, l, needle);
    } else if text::contains(l, needle) {
        text::lemma_contains_behind(e, l, needle);
    }
}

/// The system message holds the prompt of the system, the capabilities, each summary, what the
/// harness says and the tasks, and tells which step it is of how many, for every text that does
/// not end in white space.
pub proof fn law_system_message_holds_all(
    system_prompt: Seq<char>,
    before: Seq<Seq<char>>,
    summary: Seq<char>,
    after: Seq<Seq<char>>,
    capabilities: Seq<char>,
    harness_summary: Seq<char>,
    todos: Option<Seq<TodoRow>>,
    iteration: nat,
    max_iterations: nat,
    forbid_final: bool,
    needle: Seq<char>,
)
    requires
        needle.len() > 0,
        !text::is_white_space(needle.last()),
        ({
            ||| needle == system_prompt
            ||| needle == summary
            ||| needle == capabilities
            ||| needle == text::trim(harness_summary)
            ||| (todos matches Some(rows) && rows.len() > 0 && text::contains(
                todo_lines(rows),
                needle,
            ))
            ||| needle == text::decimal(iteration) + " of "@ + text::decimal(max_iterations)
        }),
    ensures
        text::contains(
            system_body(
                system_prompt,
                before + seq![summary] + after,
                capabilities,
                harness_summary,
                todos,
                iteration,
                max_iterations,
                forbid_final,
            ),
            needle,
        ),
{
    let summaries = before + seq![summary] + after;
    let none = Seq::<char>::empty();
    if needle == system_prompt || needle == capabilities {
        text::lemma_contains_end(none, needle);
        assert(none + needle =~= needle);
    } else if needle == summary {
        let top = "--- RECENT CONVERSATION SUMMARIES (SHORT-TERM MEMORY) ---\n"@;
        text::lemma_join_contains(before, summary, after, "\n\n"@);
        text::lemma_contains_behind(top, text::join(summaries, "\n\n"@), summary);
    } else if needle == text::trim(harness_summary) {
        text::lemma_contains_middle("\n\n--- Harness snapshot (this step) ---\n"@, needle, "\n"@);
    } else if needle == text::decimal(iteration) + " of "@ + text::decimal(max_iterations) {
        let top = "\n--- Reasoning budget ---\nYou are on tool/LLM step "@;
        let end = " for this user turn.\n"@;
        text::lemma_contains_middle(top, needle, end);
        assert(budget_line(iteration, max_iterations) =~= top + needle + end);
    } else {
        text::lemma_contains_behind(
            "\n\n--- Harness todos (this step) ---\n"@,
            todo_lines(todos->0),
            needle,
        );
    }
    lemma_body_holds(
        system_prompt,
        summaries,
        capabilities,
        harness_summary,
        todos,
        iteration,
        max_iterations,
        needle,
    );
    let all = untrimmed_body(
        system_prompt,
        summaries,
        capabilities,
        harness_summary,
        todos,
        iteration,
        max_iterations,
    );
    text::lemma_trim_end_contains(all, needle);
    text::lemma_contains_longer(text::trim_end(all), autonomy_line(forbid_final), needle);
}

/// The agent is told to go on with tools where that is expected of it, and only there.
pub proof fn law_system_message_tells_of_tools(
    system_prompt: Seq<char>,
    summaries: Seq<Seq<char>>,
    capabilities: Seq<char>,
    harness_summary: Seq<char>,
    todos: Option<Seq<TodoRow>>,
    iteration: nat,
    max_iterations: nat,
)
    ensures
        ({
            let free = system_body(
                system_prompt,
                summaries,
                capabilities,
                harness_summary,
                todos,
                iteration,
                max_iterations,
                false,
            );
            let held = system_body(
                system_prompt,
                summaries,
                capabilities,
                harness_summary,
                todos,
                iteration,
                max_iterations,
                true,
            );
            held.len() > free.len() && text::starts_with(held, free)
        }),
{
    reveal_strlit(
        "\n--- Autonomy ---\nDo not finish this step with assistant text only — call tools (or `ask_user` if blocked). If you believe you are done, still run a verification tool (e.g. read_file or execution_env_info) when appropriate.\n",
    );
    let body = text::trim_end(
        untrimmed_body(
            system_prompt,
            summaries,
            capabilities,
            harness_summary,
            todos,
            iteration,
            max_iterations,
        ),
    );
    let line = autonomy_line(true);
    assert(body + Seq::<char>::empty() =~= body);
    assert((body + line).subrange(0, body.len() as int) =~= body);
}

/// The runtime context tells of the host: its system, its shell and, where it is known, its
/// terminal.
pub proof fn law_context_tells_of_the_host(
    facts: HostFacts,
    channel: Seq<char>,
    chat_id: Seq<char>,
    thread: Option<Seq<char>>,
    until: Option<Seq<char>>,
    forbid_final: bool,
)
    ensures
        ({
            let context = runtime_context(facts, channel, chat_id, thread, until, forbid_final);
            &&& text::contains(
                context,
                "os_family='"@ + facts.os_family@ + "', shell_family='"@ + facts.shell_family@
                    + "'"@,
            )
            &&& facts.terminal matches Some(t) ==> (text::trim(t@).len() > 0 ==> text::contains(
                context,
                "terminal='"@ + text::trim(t@) + "'"@,
            ))
        }),
{
    let a = "[RUNTIME CONTEXT] Current time is "@ + facts.now@
        + ". You are navigating and responding in channel: '"@ + channel + "', with chat ID: '"@
        + chat_id + "'"@ + thread_note(thread) + "."@;
    let tail_a = "', path_separator='"@ + seq![facts.path_separator] + "', windows="@ + bool_text(
        facts.windows,
    ) + "."@;
    let terminal = terminal_note(facts.terminal.deep_view());
    let tail_b = deadline_note(until) + tools_note(forbid_final);
    let host = " Host hints: os_family='"@ + facts.os_family@ + "', shell_family='"@
        + facts.shell_family@;
    let context = runtime_context(facts, channel, chat_id, thread, until, forbid_final);
    lemma_host_in_context(a, facts, until, forbid_final);
    assert(context == a + " Host hints: os_family='"@ + facts.os_family@ + "', shell_family='"@
        + facts.shell_family@ + "', path_separator='"@ + seq![facts.path_separator] + "', windows="@
        + bool_text(facts.windows) + "."@ + terminal + deadline_note(until) + tools_note(
        forbid_final,
    ));
    assert(context == a + host + tail_a + terminal + tail_b);
    reveal_strlit(" Host hints: os_family='");
    reveal_strlit("os_family='");
    reveal_strlit("', path_separator='");
    reveal_strlit("'");
    let known = "os_family='"@ + facts.os_family@ + "', shell_family='"@ + facts.shell_family@
        + "'"@;
    assert(" Host hints: os_family='"@.skip(13) =~= "os_family='"@);
    assert(tail_a[0] == '\'');
    let both = host + tail_a;
    assert(both.subrange(13, 13 + known.len() as int) =~= known);
    assert(text::occurs_at(both, known, 13));
    text::lemma_contains_behind(a, both, known);
    assert(a + both =~= a + host + tail_a);
    text::lemma_contains_longer(a + host + tail_a, terminal, known);
    text::lemma_contains_longer(a + host + tail_a + terminal, tail_b, known);
    if let Some(t) = facts.terminal {
        if text::trim(t@).len() > 0 {
            let clean = text::trim(t@);
            reveal_strlit(" terminal='");
            reveal_strlit("terminal='");
            reveal_strlit("'.");
            let said = "terminal='"@ + clean + "'"@;
            assert(" terminal='"@.skip(1) =~= "terminal='"@);
            assert(terminal.subrange(1, 1 + said.len() as int) =~= said);
            assert(text::occurs_at(terminal, said, 1));
            text::lemma_contains_behind(a + host + tail_a, terminal, said);
            text::lemma_contains_longer(a + host + tail_a + terminal, tail_b, said);
        }
    }
}

proof fn lemma_host_in_context(
    a: Seq<char>,
    facts: HostFacts,
    until: Option<Seq<char>>,
    forbid_final: bool,
)
    ensures
        a + " Host hints: os_family='"@ + facts.os_family@ + "', shell_family='"@
            + facts.shell_family@ + "', path_separator='"@ + seq![facts.path_separator]
            + "', windows="@ + bool_text(facts.windows) + "."@ + terminal_note(
            facts.terminal.deep_view(),
        ) + deadline_note(until) + tools_note(forbid_final) == a + (" Host hints: os_family='"@
            + facts.os_family@ + "', shell_family='"@ + facts.shell_family@) + (
        "', path_separator='"@ + seq![facts.path_separator] + "', windows="@ + bool_text(
            facts.windows,
        ) + "."@) + terminal_note(facts.terminal.deep_view()) + (deadline_note(until) + tools_note(
            forbid_final,
        )),
{
    let b = facts.os_family@;
    let c = facts.shell_family@;
    let host = " Host hints: os_family='"@ + b + "', shell_family='"@ + c;
    let x = a + " Host hints: os_family='"@ + b + "', shell_family='"@ + c;
    assert(x =~= a + host);
    let tail = "', path_separator='"@ + seq![facts.path_separator] + "', windows="@ + bool_text(
        facts.windows,
    ) + "."@;
    let y = x + "', path_separator='"@ + seq![facts.path_separator] + "', windows="@ + bool_text(
        facts.windows,
    ) + "."@;
    assert(y =~= x + tail);
    let z = y + terminal_note(facts.terminal.deep_view());
    assert(z + deadline_note(until) + tools_note(forbid_final) =~= z + (deadline_note(until)
        + tools_note(forbid_final)));
}

} // verus!
