//! The tools with which a chat starts sub-agents and looks at them: how their arguments are
//! read, and how what they find is shown.
use vstd::prelude::*;
use vstd::string::*;
use crate::json::{Json, JsonView};
use crate::subagent::AgentManifest;
use crate::text;

verus! {

broadcast use vstd::string::group_string_axioms;

/// What the tool that starts a sub-agent is called with.
#[derive(Debug)]
pub struct SpawnArguments {
    pub prompt: String,
    pub wait: bool,
    pub name: Option<String>,
    pub agent: Option<String>,
}

fn owned_text(s: Option<&str>) -> (r: Option<String>)
    ensures
        r.deep_view() == s.deep_view(),
{
    match s {
        Some(t) => Some(t.to_owned()),
        None => None,
    }
}

/// Whether these are the arguments of the tool that starts a sub-agent. An empty name of an agent
/// counts as none.
pub open spec fn are_arguments(args: JsonView, r: Result<SpawnArguments, String>) -> bool {
    match args.text_at("prompt"@) {
        Some(prompt) => r matches Ok(a) && a.prompt@ == prompt && a.wait == args.flag_at(
            "wait"@,
        ) && a.name.deep_view() == args.text_at("name"@) && a.agent.deep_view()
            == match args.text_at("agent"@) {
            Some(agent) if agent.len() > 0 => Some(agent),
            _ => None,
        },
        None => r matches Err(e) && e@ == "Missing prompt"@,
    }
}

/// Reads the arguments of the tool that starts a sub-agent. An empty name of an agent counts
/// as none.
pub fn spawn_arguments(args: &Json) -> (r: Result<SpawnArguments, String>)
    ensures
        are_arguments(args@, r),
{
    match args.text_at("prompt") {
        None => Err("Missing prompt".to_owned()),
        Some(prompt) => {
            let agent: Option<String> = match args.text_at("agent") {
                Some(a) => if a.is_empty() {
                    None
                } else {
                    Some(a.to_owned())
                },
                None => None,
            };
            Ok(
                SpawnArguments {
                    prompt: prompt.to_owned(),
                    wait: args.flag_at("wait"),
                    name: owned_text(args.text_at("name")),
                    agent,
                },
            )
        },
    }
}

/// Reads the task that a tool is asked about.
pub fn task_id_argument(args: &Json) -> (r: Result<String, String>)
    ensures
        match args@.text_at("task_id"@) {
            Some(id) => r matches Ok(s) && s@ == id,
            None => r matches Err(e) && e@ == "Missing task_id"@,
        },
{
    match args.text_at("task_id") {
        Some(id) => Ok(id.to_owned()),
        None => Err("Missing task_id".to_owned()),
    }
}

/// The number of rows asked for: the default where none is given, at least one, and no more
/// than the maximum.
pub open spec fn row_limit(args: JsonView, default_rows: u64, max_rows: u64) -> u64 {
    let asked = match args.get("limit"@) {
        Some(v) => match v.unsigned() {
            Some(n) => n,
            None => default_rows,
        },
        None => default_rows,
    };
    if asked < 1 {
        1
    } else if asked > max_rows {
        max_rows
    } else {
        asked
    }
}

fn read_row_limit(args: &Json, default_rows: u64, max_rows: u64) -> (r: u64)
    ensures
        r == row_limit(args@, default_rows, max_rows),
{
    let asked: u64 = match args.get("limit") {
        Some(v) => match v.as_u64() {
            Some(n) => n,
            None => default_rows,
        },
        None => default_rows,
    };
    if asked < 1 {
        1
    } else if asked > max_rows {
        max_rows
    } else {
        asked
    }
}

/// How many rows of history are listed: 40 where nothing is said, and 200 at the most.
pub fn history_rows(args: &Json) -> (r: usize)
    ensures
        r == row_limit(args@, 40, 200),
        1 <= r <= 200,
{
    read_row_limit(args, 40, 200) as usize
}

/// How many rows of history a dashboard shows: 10 where nothing is said, and 50 at the most.
pub fn dashboard_rows(args: &Json) -> (r: usize)
    ensures
        r == row_limit(args@, 10, 50),
        1 <= r <= 50,
{
    read_row_limit(args, 10, 50) as usize
}

/// Writes the history of a chat: the rows as they were rendered, where there are any.
pub fn history_text(rendered: Option<String>) -> (r: String)
    ensures
        r@ == match rendered {
            Some(rows) => rows@,
            None => "No persisted sub-agent tasks for this chat yet."@,
        },
{
    match rendered {
        Some(rows) => rows,
        None => "No persisted sub-agent tasks for this chat yet.".to_owned(),
    }
}

/// What a dashboard shows of a chat's tasks: those that run, and the history as it was
/// rendered, where there is any.
pub open spec fn dashboard(active: Seq<Seq<char>>, history: Option<Seq<char>>) -> Seq<char> {
    "# Task Dashboard\n\n## Active\n\n"@ + (if active.len() == 0 {
        "(none)\n"@
    } else {
        text::join(active, "\n"@)
    }) + "\n\n## Recent History\n\n"@ + match history {
        Some(rows) => rows,
        None => "(no history)\n"@,
    }
}

/// Writes the dashboard of a chat's tasks.
pub fn dashboard_text(active: &[String], history: Option<String>) -> (r: String)
    ensures
        r@ == dashboard(active.deep_view(), history.deep_view()),
{
    let mut out: String = "# Task Dashboard\n\n## Active\n\n".to_owned();
    if active.len() == 0 {
        out.append("(none)\n");
    } else {
        let rows: String = text::joined(active, "\n");
        out.append(rows.as_str());
    }
    out.append("\n\n## Recent History\n\n");
    match history {
        Some(rows) => out.append(rows.as_str()),
        None => out.append("(no history)\n"),
    }
    out
}

// ---------------------------------------------------------------------------
// Named agents
// ---------------------------------------------------------------------------

/// What the list of agents says of one.
pub open spec fn agent_entry(m: AgentManifest) -> Seq<char> {
    "- **"@ + m.name@ + "**: "@ + m.description@ + "\n  tools: ["@ + (match m.allowed_tools {
        None => "inherits harness allowlist"@,
        Some(tools) => if tools@.len() == 0 {
            "none (read-only)"@
        } else {
            text::join(tools.deep_view(), ", "@)
        },
    }) + "]\n  model: "@ + (match m.model {
        Some(model) => model@,
        None => "(parent model)"@,
    }) + "  temperature: "@ + (match m.temperature {
        Some(t) => t@,
        None => "default"@,
    }) + "  max_iterations: "@ + match m.max_iterations {
        Some(n) => text::decimal(n as nat),
        None => "default"@,
    }
}

fn agent_entry_text(m: &AgentManifest) -> (r: String)
    ensures
        r@ == agent_entry(*m),
{
    let mut out: String = "- **".to_owned();
    out.append(m.name.as_str());
    out.append("**: ");
    out.append(m.description.as_str());
    out.append("\n  tools: [");
    match &m.allowed_tools {
        None => out.append("inherits harness allowlist"),
        Some(tools) => {
            if tools.len() == 0 {
                out.append("none (read-only)");
            } else {
                let names: String = text::joined(tools.as_slice(), ", ");
                out.append(names.as_str());
            }
        },
    }
    out.append("]\n  model: ");
    match &m.model {
        Some(model) => out.append(model.as_str()),
        None => out.append("(parent model)"),
    }
    out.append("  temperature: ");
    match &m.temperature {
        Some(t) => out.append(t.as_str()),
        None => out.append("default"),
    }
    out.append("  max_iterations: ");
    match m.max_iterations {
        Some(n) => {
            let iterations: String = text::decimal_usize(n);
            out.append(iterations.as_str());
        },
        None => out.append("default"),
    }
    out
}

/// The list of agents.
pub open spec fn agent_list(agents: Option<Seq<AgentManifest>>) -> Seq<char> {
    match agents {
        None =>
            "No named agents configured. Use default `subagent_spawn` without an `agent` parameter for a generic sub-agent, or configure `[agents.<name>]` in config.toml."@,
        Some(list) => if list.len() == 0 {
            "No visible named agents configured. Use `subagent_spawn` without `agent` for a generic sub-agent."@
        } else {
            text::join(
                seq!["Available named agents:"@, ""@] + list.map_values(
                    |m: AgentManifest| agent_entry(m),
                ),
                "\n"@,
            )
        },
    }
}

/// Writes the list of the agents that can be seen; there may be no registry of them. The
/// temperature of each is shown as it is written.
pub fn agent_list_text(agents: Option<&Vec<AgentManifest>>) -> (r: String)
    ensures
        r@ == agent_list(
            match agents {
                Some(list) => Some(list@),
                None => None,
            },
        ),
{
    match agents {
        None =>
            "No named agents configured. Use default `subagent_spawn` without an `agent` parameter for a generic sub-agent, or configure `[agents.<name>]` in config.toml.".to_owned(),
        Some(list) => {
            if list.len() == 0 {
                return "No visible named agents configured. Use `subagent_spawn` without `agent` for a generic sub-agent.".to_owned();
            }
            let ghost entries = list@.map_values(|m: AgentManifest| agent_entry(m));
            let ghost head = seq!["Available named agents:"@, ""@];
            let mut lines: Vec<String> = Vec::new();
            lines.push("Available named agents:".to_owned());
            lines.push("".to_owned());
            assert(lines.deep_view() =~= head + entries.take(0));
            let mut i: usize = 0;
            while i < list.len()
                invariant
                    i <= list@.len(),
                    entries == list@.map_values(|m: AgentManifest| agent_entry(m)),
                    lines.deep_view() == head + entries.take(i as int),
                decreases list@.len() - i,
            {
                let ghost so_far = lines.deep_view();
                let line: String = agent_entry_text(&list[i]);
                lines.push(line);
                assert(lines.deep_view() =~= so_far.push(line@));
                assert(head + entries.take(i + 1) =~= (head + entries.take(i as int)).push(
                    entries[i as int],
                ));
                i = i + 1;
            }
            assert(entries.take(i as int) =~= entries);
            text::joined(lines.as_slice(), "\n")
        },
    }
}

// ---------------------------------------------------------------------------
// Laws
// ---------------------------------------------------------------------------

/// The number of rows that was asked for is given where it lies within the bounds; one that
/// lies outside is moved to the nearer bound, and where none was asked for the default counts.
pub proof fn law_rows_asked_for_are_given(
    args: JsonView,
    asked: u64,
    default_rows: u64,
    max_rows: u64,
)
    requires
        1 <= default_rows <= max_rows,
    ensures
        1 <= row_limit(args, default_rows, max_rows) <= max_rows,
        args.get("limit"@) is None ==> row_limit(args, default_rows, max_rows) == default_rows,
        args.get("limit"@) == Some(JsonView::Number(text::decimal(asked as nat))) ==> row_limit(
            args,
            default_rows,
            max_rows,
        ) == if asked == 0 {
            1u64
        } else if asked > max_rows {
            max_rows
        } else {
            asked
        },
{
    text::law_decimal_is_read_back(asked as nat);
}

/// A dashboard shows every task that runs, in its order, and the history; it says so where there
/// is none of the one or of the other.
pub proof fn law_dashboard_shows_all_tasks(
    before: Seq<Seq<char>>,
    task: Seq<char>,
    after: Seq<Seq<char>>,
    rows: Seq<char>,
    history: Option<Seq<char>>,
)
    ensures
        text::contains(dashboard(before + seq![task] + after, history), task),
        text::ends_with(dashboard(before, Some(rows)), rows),
        text::ends_with(dashboard(before, None), "(no history)\n"@),
        text::contains(dashboard(Seq::empty(), history), "(none)\n"@),
{
    let active = before + seq![task] + after;
    let head = "# Task Dashboard\n\n## Active\n\n"@;
    let mid = "\n\n## Recent History\n\n"@;
    let end = match history {
        Some(h) => h,
        None => "(no history)\n"@,
    };
    text::lemma_join_contains(before, task, after, "\n"@);
    let list = text::join(active, "\n"@);
    let at = choose|at: int| #[trigger] text::occurs_at(list, task, at);
    let all = dashboard(active, history);
    assert(all =~= head + list + mid + end);
    assert(all.subrange(head.len() + at, head.len() + at + task.len()) =~= list.subrange(
        at,
        at + task.len(),
    ));
    assert(text::occurs_at(all, task, head.len() + at));
    let some = dashboard(before, Some(rows));
    assert(some.subrange(some.len() - rows.len(), some.len() as int) =~= rows);
    let none = dashboard(before, None);
    assert(none.subrange(none.len() - "(no history)\n"@.len(), none.len() as int)
        =~= "(no history)\n"@);
    text::lemma_contains_middle(head, "(none)\n"@, mid + end);
    assert(dashboard(Seq::empty(), history) =~= head + "(none)\n"@ + (mid + end));
}

/// The list of agents holds the entry of every agent.
pub proof fn law_every_agent_is_listed(
    before: Seq<AgentManifest>,
    m: AgentManifest,
    after: Seq<AgentManifest>,
)
    ensures
        text::contains(agent_list(Some(before + seq![m] + after)), agent_entry(m)),
{
    let list = before + seq![m] + after;
    let entry = |x: AgentManifest| agent_entry(x);
    let first = seq!["Available named agents:"@, ""@];
    let rows = first + list.map_values(entry);
    assert(rows =~= (first + before.map_values(entry)) + seq![agent_entry(m)] + after.map_values(
        entry,
    ));
    text::lemma_join_contains(
        first + before.map_values(entry),
        agent_entry(m),
        after.map_values(entry),
        "\n"@,
    );
}

/// The entry of an agent gives its name, its description and its model, and tells its tools
/// apart: those that are allowed, none, or those that it takes over.
pub proof fn law_agent_is_described(m: AgentManifest)
    ensures
        text::contains(agent_entry(m), m.name@),
        text::contains(agent_entry(m), m.description@),
        m.model matches Some(model) ==> text::contains(agent_entry(m), model@),
        m.allowed_tools matches Some(tools) ==> (tools@.len() > 0 ==> text::contains(
            agent_entry(m),
            text::join(tools.deep_view(), ", "@),
        )),
        m.allowed_tools matches Some(tools) ==> (tools@.len() == 0 ==> text::contains(
            agent_entry(m),
            "none (read-only)"@,
        )),
        m.allowed_tools is None ==> text::contains(agent_entry(m), "inherits harness allowlist"@),
{
    let tools = match m.allowed_tools {
        None => "inherits harness allowlist"@,
        Some(tools) => if tools@.len() == 0 {
            "none (read-only)"@
        } else {
            text::join(tools.deep_view(), ", "@)
        },
    };
    let model = match m.model {
        Some(model) => model@,
        None => "(parent model)"@,
    };
    let temperature = match m.temperature {
        Some(t) => t@,
        None => "default"@,
    };
    let steps = match m.max_iterations {
        Some(n) => text::decimal(n as nat),
        None => "default"@,
    };
    let a = "- **"@ + m.name@;
    let b = a + "**: "@ + m.description@;
    let c = b + "\n  tools: ["@ + tools;
    let d = c + "]\n  model: "@ + model;
    let e = d + "  temperature: "@ + temperature + "  max_iterations: "@ + steps;
    assert(agent_entry(m) == e);
    text::lemma_contains_end("- **"@, m.name@);
    text::lemma_contains_end(a + "**: "@, m.description@);
    text::lemma_contains_end(b + "\n  tools: ["@, tools);
    text::lemma_contains_end(c + "]\n  model: "@, model);
    text::lemma_contains_longer(a, "**: "@, m.name@);
    text::lemma_contains_longer(a + "**: "@, m.description@, m.name@);
    lemma_entry_grows(b, tools, model, temperature, steps, m.name@);
    lemma_entry_grows(b, tools, model, temperature, steps, m.description@);
    lemma_model_grows(c, model, temperature, steps, tools);
    lemma_end_grows(d, temperature, steps, model);
}

proof fn lemma_end_grows(d: Seq<char>, temperature: Seq<char>, steps: Seq<char>, needle: Seq<char>)
    requires
        text::contains(d, needle),
    ensures
        text::contains(
            d + "  temperature: "@ + temperature + "  max_iterations: "@ + steps,
            needle,
        ),
{
    text::lemma_contains_longer(d, "  temperature: "@, needle);
    text::lemma_contains_longer(d + "  temperature: "@, temperature, needle);
    text::lemma_contains_longer(d + "  temperature: "@ + temperature, "  max_iterations: "@, needle);
    text::lemma_contains_longer(
        d + "  temperature: "@ + temperature + "  max_iterations: "@,
        steps,
        needle,
    );
}

proof fn lemma_model_grows(
    c: Seq<char>,
    model: Seq<char>,
    temperature: Seq<char>,
    steps: Seq<char>,
    needle: Seq<char>,
)
    requires
        text::contains(c, needle),
    ensures
        text::contains(
            c + "]\n  model: "@ + model + "  temperature: "@ + temperature + "  max_iterations: "@
                + steps,
            needle,
        ),
{
    text::lemma_contains_longer(c, "]\n  model: "@, needle);
    text::lemma_contains_longer(c + "]\n  model: "@, model, needle);
    lemma_end_grows(c + "]\n  model: "@ + model, temperature, steps, needle);
}

proof fn lemma_entry_grows(
    b: Seq<char>,
    tools: Seq<char>,
    model: Seq<char>,
    temperature: Seq<char>,
    steps: Seq<char>,
    needle: Seq<char>,
)
    requires
        text::contains(b, needle),
    ensures
        text::contains(
            b + "\n  tools: ["@ + tools + "]\n  model: "@ + model + "  temperature: "@ + temperature
                + "  max_iterations: "@ + steps,
            needle,
        ),
{
    text::lemma_contains_longer(b, "\n  tools: ["@, needle);
    text::lemma_contains_longer(b + "\n  tools: ["@, tools, needle);
    lemma_model_grows(b + "\n  tools: ["@ + tools, model, temperature, steps, needle);
}

/// A sub-agent is started with the prompt that was given and as the agent that was named; without
/// a prompt none is started. It is waited for only where that is asked for.
pub proof fn law_arguments_are_read_as_given(args: JsonView, r: Result<SpawnArguments, String>)
    requires
        are_arguments(args, r),
    ensures
        r is Ok <==> args.text_at("prompt"@) is Some,
        r matches Ok(a) ==> Some(a.prompt@) == args.text_at("prompt"@),
        r matches Ok(a) ==> (a.wait <==> args.get("wait"@) == Some(JsonView::Bool(true))),
        r matches Ok(a) ==> a.name.deep_view() == args.text_at("name"@),
        r matches Ok(a) ==> (args.text_at("agent"@) is None ==> a.agent is None),
        r matches Ok(a) ==> (args.text_at("agent"@) matches Some(n) ==> (n.len() > 0
            ==> a.agent.deep_view() == Some(n))),
        r matches Ok(a) ==> (args.text_at("agent"@) matches Some(n) ==> (n.len() == 0
            ==> a.agent is None)),
{
}

} // verus!
