//! Sub-agents: tasks that run a turn of their own in the background for a chat.
use vstd::prelude::*;
use vstd::string::*;
use crate::bus::{
    set_metadata, InboundMessage, OutboundMessage, ISANAGENT_SUBAGENT_TASK_FINISHED,
    ISANAGENT_SUBAGENT_TASK_STARTED, METADATA_SUBAGENT_AGENT_NAME, METADATA_SUBAGENT_CHILD_CHAT_ID,
    METADATA_SUBAGENT_DISPLAY_NAME, METADATA_SUBAGENT_STATUS, METADATA_SUBAGENT_TASK_ID,
    METADATA_SYNTHETIC_SUBAGENT_COMPLETION,
};
use crate::json::{Json, JsonView};
use crate::json;
use crate::outside;
use crate::task_index::{TaskIndex, TaskRecord, TaskStatus};
use crate::task_index;
use crate::text;

verus! {

broadcast use vstd::string::group_string_axioms;

/// What follows a text that was cut for the database.
pub const SQLITE_CUT_MARK: &'static str = "\n… [truncated for sqlite]";

/// How many bytes of a prompt are stored.
pub const STORED_PROMPT_BYTES: usize = 150_000;

/// How many bytes of a result are stored.
pub const STORED_RESULT_BYTES: usize = 400_000;

/// How many bytes of an error are stored.
pub const STORED_ERROR_BYTES: usize = 50_000;

/// How many characters of a result a notice shows.
pub const NOTICE_CHARS: usize = 120;

/// What is asked of a sub-agent, and by whom.
#[derive(Debug)]
pub struct SubagentSpawnSpec {
    pub parent_channel: String,
    pub parent_chat_id: String,
    pub parent_thread_id: Option<String>,
    pub prompt: String,
    /// Whether the caller waits for the result.
    pub wait: bool,
    pub display_name: Option<String>,
    /// The named agent that is to run.
    pub agent_name: Option<String>,
    pub background_job_id: Option<String>,
}

/// What is known of a named agent.
#[derive(Debug)]
pub struct AgentManifest {
    pub name: String,
    pub description: String,
    pub system_prompt: String,
    /// The tools that the agent may call; those of the harness where there is no list.
    pub allowed_tools: Option<Vec<String>>,
    pub model: Option<String>,
    /// The temperature as it is written.
    pub temperature: Option<String>,
    pub max_iterations: Option<usize>,
}

/// What the registry of named agents says of a name.
#[derive(Debug)]
pub enum AgentLookup {
    /// There is no registry.
    NoRegistry,
    /// The registry does not know the name.
    Unknown,
    /// The agent with the name.
    Found(AgentManifest),
}

/// What holds for all sub-agents of a harness.
#[derive(Debug, Clone, Copy)]
pub struct SubagentSettings {
    pub max_tasks: usize,
    pub max_wait_secs: u64,
    pub cancel_children_on_parent_cancel: bool,
    pub wake_on_completion: bool,
}

// ---------------------------------------------------------------------------
// Texts
// ---------------------------------------------------------------------------

/// Cuts a text for the database.
pub fn truncate_sqlite_field(s: String, max: usize) -> (r: String)
    ensures
        r@ == text::truncate_utf8(s@, max as nat, SQLITE_CUT_MARK@),
{
    let mut t: String = s;
    text::truncate_utf8_safe(&mut t, max, SQLITE_CUT_MARK);
    t
}

/// `s` trimmed and cut to `max` characters, the last of which is then an ellipsis.
pub open spec fn shortened(s: Seq<char>, max: nat) -> Seq<char> {
    let t = text::trim(s);
    if t.len() <= max {
        t
    } else if max == 0 {
        "…"@
    } else {
        t.take(max - 1) + "…"@
    }
}

/// Cuts a text for the terminal.
pub fn truncate_for_tui(s: &str, max: usize) -> (r: String)
    ensures
        r@ == shortened(s@, max as nat),
{
    let t: String = text::trimmed(s);
    let chars: Vec<char> = text::chars_of(t.as_str());
    if chars.len() <= max {
        return t;
    }
    let kept: usize = if max == 0 {
        0
    } else {
        max - 1
    };
    let mut out: String = text::cut_to_chars(t.as_str(), kept);
    out.append("…");
    proof {
        if max == 0 {
            assert(t@.take(0) + "…"@ =~= "…"@);
        }
    }
    out
}

/// A text that is cut for the terminal holds no more than the characters asked for, where
/// there is room for the ellipsis.
pub proof fn law_shortened_fits(s: Seq<char>, max: nat)
    requires
        max >= 1,
    ensures
        shortened(s, max).len() <= max,
{
    reveal_strlit("…");
}

/// The first characters of a task's id.
pub open spec fn short_id(task_id: Seq<char>) -> Seq<char> {
    text::first_chars(task_id, 8)
}

/// Under what name a task is shown.
pub open spec fn label_of(
    agent_name: Option<Seq<char>>,
    display_name: Option<Seq<char>>,
    task_id: Seq<char>,
) -> Seq<char> {
    match (agent_name, display_name) {
        (Some(a), Some(d)) => a + ": "@ + d,
        (Some(a), None) => a,
        (None, Some(d)) => d,
        (None, None) => "task-"@ + short_id(task_id),
    }
}

/// Writes under what name a task is shown.
pub fn task_label(agent_name: &Option<String>, display_name: &Option<String>, task_id: &str) -> (r:
    String)
    requires
        text::is_ascii(task_id@),
    ensures
        r@ == label_of(agent_name.deep_view(), display_name.deep_view(), task_id@),
{
    match agent_name {
        Some(a) => {
            let mut out: String = a.clone();
            if let Some(d) = display_name {
                out.append(": ");
                out.append(d.as_str());
            }
            out
        },
        None => match display_name {
            Some(d) => d.clone(),
            None => {
                let mut out: String = "task-".to_owned();
                let short: String = text::cut_to_chars(task_id, 8);
                out.append(short.as_str());
                out
            },
        },
    }
}

/// The name of a status.
pub open spec fn status_name(status: TaskStatus) -> Seq<char> {
    match status {
        TaskStatus::Pending => "pending"@,
        TaskStatus::Running => "running"@,
        TaskStatus::Completed => "completed"@,
        TaskStatus::Failed => "failed"@,
        TaskStatus::Cancelled => "cancelled"@,
    }
}

/// Writes the name of a status.
pub fn status_text(status: TaskStatus) -> (r: &'static str)
    ensures
        r@ == status_name(status),
{
    match status {
        TaskStatus::Pending => "pending",
        TaskStatus::Running => "running",
        TaskStatus::Completed => "completed",
        TaskStatus::Failed => "failed",
        TaskStatus::Cancelled => "cancelled",
    }
}

spec fn or_empty(s: Option<String>) -> Seq<char> {
    match s {
        Some(t) => t@,
        None => Seq::empty(),
    }
}

fn text_or_empty(s: &Option<String>) -> (r: String)
    ensures
        r@ == or_empty(*s),
{
    match s {
        Some(t) => t.clone(),
        None => {
            let none: String = String::new();
            assert(none@ =~= Seq::<char>::empty());
            none
        },
    }
}

/// A snapshot of a task.
pub open spec fn snapshot(t: TaskRecord) -> JsonView {
    JsonView::Object(
        seq![
            ("child_chat_id"@, JsonView::Str(t.child_chat_id@)),
            ("parent_chat_id"@, JsonView::Str(t.parent_chat_id@)),
            (
                "agent_name"@,
                match t.agent_name {
                    Some(a) => JsonView::Str(a@),
                    None => JsonView::Null,
                },
            ),
            ("status"@, JsonView::Str(status_name(t.status))),
            ("prompt"@, JsonView::Str(t.prompt@)),
            (
                "result"@,
                JsonView::Str(
                    match t.result {
                        Some(s) => s@,
                        None => Seq::empty(),
                    },
                ),
            ),
            (
                "error"@,
                JsonView::Str(
                    match t.error {
                        Some(s) => s@,
                        None => Seq::empty(),
                    },
                ),
            ),
        ],
    )
}

impl TaskRecord {
    /// Whether the task has ended.
    pub fn is_terminal(&self) -> (r: bool)
        ensures
            r == !(self.status is Pending || self.status is Running),
    {
        match self.status {
            TaskStatus::Pending | TaskStatus::Running => false,
            _ => true,
        }
    }

    /// A snapshot of the task.
    pub fn snapshot_json(&self) -> (r: Json)
        ensures
            r@ == snapshot(*self),
    {
        let agent: Json = match &self.agent_name {
            Some(a) => Json::Str(a.clone()),
            None => Json::Null,
        };
        let result: String = text_or_empty(&self.result);
        let error: String = text_or_empty(&self.error);
        let mut members: Vec<(String, Json)> = json::no_members();
        json::put(&mut members, "child_chat_id", json::string(self.child_chat_id.as_str()));
        json::put(&mut members, "parent_chat_id", json::string(self.parent_chat_id.as_str()));
        json::put(&mut members, "agent_name", agent);
        json::put(&mut members, "status", json::string(status_text(self.status)));
        json::put(&mut members, "prompt", json::string(self.prompt.as_str()));
        json::put(&mut members, "result", json::string(result.as_str()));
        json::put(&mut members, "error", json::string(error.as_str()));
        let out = json::object(members);
        assert(out@->Object_0 =~= snapshot(*self)->Object_0);
        out
    }
}

// ---------------------------------------------------------------------------
// The harness
// ---------------------------------------------------------------------------

/// The sub-agents of an agent.
pub struct SubagentHarness {
    pub index: TaskIndex,
    pub settings: SubagentSettings,
    /// Whether the harness knows the tools.
    pub tools_bound: bool,
}

/// A task that is about to start.
#[derive(Debug)]
pub struct NewTask {
    pub task_id: String,
    pub child_chat_id: String,
    /// The prompt as it is stored.
    pub stored_prompt: String,
}

impl NewTask {
    /// Whether the task's id can be cut at any character.
    pub open spec fn valid(self) -> bool {
        text::is_ascii(self.task_id@)
    }
}

/// Why a sub-agent is not started.
pub open spec fn spawn_refusal(
    tasks: nat,
    max_tasks: nat,
    agent_name: Option<Seq<char>>,
    lookup: AgentLookup,
    tools_bound: bool,
) -> Option<Seq<char>> {
    if tasks >= max_tasks {
        Some("Maximum number of sub-agent tasks ("@ + text::decimal(max_tasks) + ") reached"@)
    } else if agent_name is Some && lookup is NoRegistry {
        Some("Named agents are not configured. Use `agent_list` to inspect availability."@)
    } else if agent_name is Some && lookup is Unknown {
        Some(
            "Named agent '"@ + agent_name->0
                + "' not found in registry. Use `agent_list` to see available agents."@,
        )
    } else if !tools_bound {
        Some("Subagent harness is not wired to tools yet"@)
    } else {
        None
    }
}

/// The chat of the sub-agent that runs the task.
pub open spec fn child_chat(task_id: Seq<char>) -> Seq<char> {
    "subagent-"@ + text::first_chars(task_id, 12)
}

/// A task with the id, about to start with the prompt.
pub fn new_task(task_id: String, prompt: &str) -> (r: NewTask)
    requires
        text::is_ascii(task_id@),
    ensures
        r.valid(),
        r.task_id == task_id,
        r.child_chat_id@ == child_chat(task_id@),
        r.stored_prompt@ == text::truncate_utf8(
            prompt@,
            STORED_PROMPT_BYTES as nat,
            SQLITE_CUT_MARK@,
        ),
{
    let mut child_chat_id: String = "subagent-".to_owned();
    let short: String = text::cut_to_chars(task_id.as_str(), 12);
    child_chat_id.append(short.as_str());
    NewTask {
        task_id,
        child_chat_id,
        stored_prompt: truncate_sqlite_field(prompt.to_owned(), STORED_PROMPT_BYTES),
    }
}

/// Whether `task` is about to start with the prompt, under a new id of its own.
pub open spec fn is_new_task(task: NewTask, spec: SubagentSpawnSpec) -> bool {
    &&& task.valid()
    &&& outside::is_simple_uuid(task.task_id@)
    &&& task.child_chat_id@ == child_chat(task.task_id@)
    &&& task.stored_prompt@ == text::truncate_utf8(
        spec.prompt@,
        STORED_PROMPT_BYTES as nat,
        SQLITE_CUT_MARK@,
    )
}

/// The record of a task that has not started yet.
pub open spec fn is_pending_record(t: TaskRecord, spec: SubagentSpawnSpec, task: NewTask) -> bool {
    &&& t.parent_chat_id@ == spec.parent_chat_id@
    &&& t.child_chat_id@ == task.child_chat_id@
    &&& t.prompt@ == spec.prompt@
    &&& t.agent_name.deep_view() == spec.agent_name.deep_view()
    &&& t.status is Pending
    &&& t.result is None
    &&& t.error is None
}

/// How a task has ended.
#[derive(Debug)]
pub struct TaskEnd {
    pub status: TaskStatus,
    pub result: Option<String>,
    pub error: Option<String>,
}

/// How a task has ended whose turn came to the outcome.
pub open spec fn end_status(outcome: Result<String, String>, cancelled: bool) -> TaskStatus {
    match outcome {
        Ok(_) => if cancelled {
            TaskStatus::Cancelled
        } else {
            TaskStatus::Completed
        },
        Err(_) => TaskStatus::Failed,
    }
}

/// Whether `end` tells of a task whose turn came to the outcome.
pub open spec fn is_end(end: TaskEnd, outcome: Result<String, String>, cancelled: bool) -> bool {
    &&& end.status == end_status(outcome, cancelled)
    &&& end.result == match outcome {
        Ok(text) if !cancelled => Some(text),
        _ => None,
    }
    &&& match outcome {
        Ok(_) => if cancelled {
            end.error matches Some(e) && e@ == "cancelled"@
        } else {
            end.error is None
        },
        Err(e) => end.error == Some(e),
    }
}

/// The record of a task that has ended.
pub open spec fn ended_record(
    t: TaskRecord,
    outcome: Result<String, String>,
    cancelled: bool,
) -> TaskRecord {
    TaskRecord {
        status: end_status(outcome, cancelled),
        result: match outcome {
            Ok(text) if !cancelled => Some(text),
            _ => t.result,
        },
        error: match outcome {
            Err(e) => Some(e),
            _ => t.error,
        },
        ..t
    }
}

fn copy_option(s: &Option<String>) -> (r: Option<String>)
    ensures
        r == *s,
{
    match s {
        Some(t) => Some(t.clone()),
        None => None,
    }
}

impl SubagentHarness {
    /// A harness without tasks that does not know the tools yet.
    pub fn new(settings: SubagentSettings) -> (r: Self)
        ensures
            r.index@ == task_index::no_tasks(),
            r.settings == settings,
            !r.tools_bound,
    {
        SubagentHarness { index: TaskIndex::new(), settings, tools_bound: false }
    }

    /// Makes the tools known to the harness, once.
    pub fn bind_tools(&mut self) -> (r: Result<(), String>)
        ensures
            match r {
                Ok(_) => !old(self).tools_bound,
                Err(e) => old(self).tools_bound && e@
                    == "subagent bind_tools: tools already bound"@,
            },
            final(self).tools_bound,
            final(self).index@ == old(self).index@,
            final(self).settings == old(self).settings,
    {
        if self.tools_bound {
            return Err("subagent bind_tools: tools already bound".to_owned());
        }
        self.tools_bound = true;
        Ok(())
    }

    /// Whether the sub-agents are cancelled with the turn that started them.
    pub fn cancel_children_on_parent_cancel(&self) -> (r: bool)
        ensures
            r == self.settings.cancel_children_on_parent_cancel,
    {
        self.settings.cancel_children_on_parent_cancel
    }

    /// The tasks of the chat that are to be cancelled, each once.
    pub fn cancel_children_for_parent(&self, parent_chat_id: &str) -> (r: Vec<String>)
        ensures
            forall|i: int|
                0 <= i < r@.len() ==> task_index::tasks_of(
                    self.index@,
                    parent_chat_id@,
                ).contains_key((#[trigger] r@[i])@),
            forall|i: int, j: int| 0 <= i < j < r@.len() ==> #[trigger] r@[i]@ != #[trigger] r@[j]@,
            forall|id: Seq<char>| #[trigger]
                task_index::tasks_of(self.index@, parent_chat_id@).contains_key(id)
                    ==> exists|i: int| 0 <= i < r@.len() && (#[trigger] r@[i])@ == id,
    {
        let children: Vec<(String, TaskRecord)> = self.index.of_parent(parent_chat_id);
        let ghost given = children@;
        let ghost mine = task_index::tasks_of(self.index@, parent_chat_id@);
        let mut ids: Vec<String> = Vec::new();
        for child in it: children
            invariant
                it.seq() == given,
                task_index::lists_entries(given, mine),
                ids@.len() == it.index(),
                forall|k: int| 0 <= k < ids@.len() ==> #[trigger] ids@[k] == given[k].0,
        {
            ids.push(child.0);
        }
        proof {
            assert forall|id: Seq<char>| #[trigger] mine.contains_key(id) implies exists|i: int|
                0 <= i < ids@.len() && (#[trigger] ids@[i])@ == id by {
                let k = choose|k: int| 0 <= k < given.len() && (#[trigger] given[k]).0@ == id;
                assert(ids@[k]@ == id);
            }
        }
        ids
    }

    /// Decides whether a sub-agent is started, and why not.
    pub fn check_spawn(&self, agent_name: Option<&str>, lookup: &AgentLookup) -> (r: Result<
        (),
        String,
    >)
        ensures
            task_index::is_count(self.index@.len(), self.index@),
            match spawn_refusal(
                self.index@.len(),
                self.settings.max_tasks as nat,
                agent_name.deep_view(),
                *lookup,
                self.tools_bound,
            ) {
                None => r is Ok,
                Some(why) => r matches Err(e) && e@ == why,
            },
    {
        if self.index.len() >= self.settings.max_tasks {
            let max: String = text::decimal_usize(self.settings.max_tasks);
            let mut why: String = "Maximum number of sub-agent tasks (".to_owned();
            why.append(max.as_str());
            why.append(") reached");
            return Err(why);
        }
        if let Some(agent) = agent_name {
            match lookup {
                AgentLookup::NoRegistry => {
                    return Err(
                        "Named agents are not configured. Use `agent_list` to inspect availability.".to_owned(),
                    );
                },
                AgentLookup::Unknown => {
                    let mut why: String = "Named agent '".to_owned();
                    why.append(agent);
                    why.append(
                        "' not found in registry. Use `agent_list` to see available agents.",
                    );
                    return Err(why);
                },
                AgentLookup::Found(_) => {},
            }
        }
        if !self.tools_bound {
            return Err("Subagent harness is not wired to tools yet".to_owned());
        }
        Ok(())
    }

    /// Begins to start a sub-agent: its task has a new id of its own.
    pub fn begin_spawn(&self, spec: &SubagentSpawnSpec, lookup: &AgentLookup) -> (r: Result<
        NewTask,
        String,
    >)
        ensures
            match spawn_refusal(
                self.index@.len(),
                self.settings.max_tasks as nat,
                spec.agent_name.deep_view(),
                *lookup,
                self.tools_bound,
            ) {
                None => r matches Ok(task) && is_new_task(task, *spec),
                Some(why) => r matches Err(e) && e@ == why,
            },
    {
        let agent_name: Option<&str> = match &spec.agent_name {
            Some(a) => Some(a.as_str()),
            None => None,
        };
        match self.check_spawn(agent_name, lookup) {
            Ok(_) => {
                let task_id: String = outside::new_simple_uuid();
                Ok(new_task(task_id, spec.prompt.as_str()))
            },
            Err(e) => Err(e),
        }
    }

    /// Puts a new task into the index.
    pub fn register(&mut self, spec: &SubagentSpawnSpec, task: &NewTask)
        ensures
            final(self).settings == old(self).settings,
            final(self).tools_bound == old(self).tools_bound,
            final(self).index@ == old(self).index@.insert(
                task.task_id@,
                final(self).index@[task.task_id@],
            ),
            is_pending_record(final(self).index@[task.task_id@], *spec, *task),
    {
        let record = TaskRecord {
            parent_chat_id: spec.parent_chat_id.clone(),
            child_chat_id: task.child_chat_id.clone(),
            prompt: spec.prompt.clone(),
            agent_name: copy_option(&spec.agent_name),
            status: TaskStatus::Pending,
            result: None,
            error: None,
        };
        let ghost before = self.index@;
        self.index.put(task.task_id.as_str(), record);
        assert(self.index@ =~= before.insert(task.task_id@, self.index@[task.task_id@]));
    }

    /// Notes that a task runs.
    pub fn mark_running(&mut self, task_id: &str)
        ensures
            final(self).settings == old(self).settings,
            final(self).tools_bound == old(self).tools_bound,
            final(self).index@ == if old(self).index@.contains_key(task_id@) {
                old(self).index@.insert(
                    task_id@,
                    TaskRecord { status: TaskStatus::Running, ..old(self).index@[task_id@] },
                )
            } else {
                old(self).index@
            },
    {
        if let Some(found) = self.index.get(task_id) {
            let mut record = found;
            record.status = TaskStatus::Running;
            self.index.put(task_id, record);
        }
    }

    /// Notes how a task has ended.
    pub fn finish(&mut self, task_id: &str, outcome: Result<String, String>, cancelled: bool) -> (r:
        TaskEnd)
        ensures
            final(self).settings == old(self).settings,
            final(self).tools_bound == old(self).tools_bound,
            final(self).index@ == if old(self).index@.contains_key(task_id@) {
                old(self).index@.insert(
                    task_id@,
                    ended_record(old(self).index@[task_id@], outcome, cancelled),
                )
            } else {
                old(self).index@
            },
            is_end(r, outcome, cancelled),
    {
        let known: Option<TaskRecord> = self.index.get(task_id);
        match outcome {
            Ok(text) => {
                if cancelled {
                    if let Some(found) = known {
                        let mut record = found;
                        record.status = TaskStatus::Cancelled;
                        self.index.put(task_id, record);
                    }
                    TaskEnd {
                        status: TaskStatus::Cancelled,
                        result: None,
                        error: Some("cancelled".to_owned()),
                    }
                } else {
                    if let Some(found) = known {
                        let mut record = found;
                        record.status = TaskStatus::Completed;
                        record.result = Some(text.clone());
                        self.index.put(task_id, record);
                    }
                    TaskEnd { status: TaskStatus::Completed, result: Some(text), error: None }
                }
            },
            Err(e) => {
                if let Some(found) = known {
                    let mut record = found;
                    record.status = TaskStatus::Failed;
                    record.error = Some(e.clone());
                    self.index.put(task_id, record);
                }
                TaskEnd { status: TaskStatus::Failed, result: None, error: Some(e) }
            },
        }
    }

    /// Takes a task that has ended out of the index.
    pub fn forget(&mut self, task_id: &str)
        ensures
            final(self).settings == old(self).settings,
            final(self).tools_bound == old(self).tools_bound,
            final(self).index@ == old(self).index@.remove(task_id@),
    {
        let _gone: Option<TaskRecord> = self.index.remove(task_id);
    }
}

// ---------------------------------------------------------------------------
// Messages about a task
// ---------------------------------------------------------------------------

/// What the notice of a task's start has under the key.
pub open spec fn started_under(spec: SubagentSpawnSpec, task: NewTask, key: Seq<char>) -> Option<
    JsonView,
> {
    if key == METADATA_SUBAGENT_DISPLAY_NAME@ && spec.display_name is Some {
        Some(JsonView::Str(spec.display_name->0@))
    } else if key == METADATA_SUBAGENT_AGENT_NAME@ && spec.agent_name is Some {
        Some(JsonView::Str(spec.agent_name->0@))
    } else if key == METADATA_SUBAGENT_CHILD_CHAT_ID@ {
        Some(JsonView::Str(task.child_chat_id@))
    } else if key == METADATA_SUBAGENT_TASK_ID@ {
        Some(JsonView::Str(task.task_id@))
    } else if key == ISANAGENT_SUBAGENT_TASK_STARTED@ {
        Some(JsonView::Bool(true))
    } else {
        None
    }
}

/// Whether `m` is the notice that a task has started.
pub open spec fn is_started_notice(m: OutboundMessage, spec: SubagentSpawnSpec, task: NewTask) -> bool {
    &&& m.channel@ == spec.parent_channel@
    &&& m.chat_id@ == spec.parent_chat_id@
    &&& m.thread_id == spec.parent_thread_id
    &&& m.content@ == "Sub-agent started: "@ + label_of(
        spec.agent_name.deep_view(),
        spec.display_name.deep_view(),
        task.task_id@,
    )
    &&& forall|k: Seq<char>| #[trigger]
        json::member(json::members_view(m.metadata@), k) == started_under(spec, task, k)
}

/// Writes the notice that a task has started.
pub fn started_notice(spec: &SubagentSpawnSpec, task: &NewTask) -> (r: OutboundMessage)
    requires
        task.valid(),
    ensures
        is_started_notice(r, *spec, *task),
{
    let mut metadata: Vec<(String, Json)> = json::no_members();
    set_metadata(&mut metadata, ISANAGENT_SUBAGENT_TASK_STARTED, Json::Bool(true));
    set_metadata(&mut metadata, METADATA_SUBAGENT_TASK_ID, json::string(task.task_id.as_str()));
    set_metadata(
        &mut metadata,
        METADATA_SUBAGENT_CHILD_CHAT_ID,
        json::string(task.child_chat_id.as_str()),
    );
    if let Some(a) = &spec.agent_name {
        set_metadata(&mut metadata, METADATA_SUBAGENT_AGENT_NAME, json::string(a.as_str()));
    }
    if let Some(d) = &spec.display_name {
        set_metadata(&mut metadata, METADATA_SUBAGENT_DISPLAY_NAME, json::string(d.as_str()));
    }
    let label: String = task_label(&spec.agent_name, &spec.display_name, task.task_id.as_str());
    let mut content: String = "Sub-agent started: ".to_owned();
    content.append(label.as_str());
    OutboundMessage {
        channel: spec.parent_channel.clone(),
        chat_id: spec.parent_chat_id.clone(),
        thread_id: copy_option(&spec.parent_thread_id),
        content,
        metadata,
    }
}

/// Whether `m` is the message with which a sub-agent begins its turn.
pub open spec fn is_first_message(m: InboundMessage, spec: SubagentSpawnSpec, task: NewTask) -> bool {
    &&& m.channel@ == spec.parent_channel@
    &&& m.sender_id@ == spec.parent_chat_id@
    &&& m.chat_id@ == task.child_chat_id@
    &&& m.thread_id == spec.parent_thread_id
    &&& m.content@ == "[Sub-agent: "@ + label_of(
        spec.agent_name.deep_view(),
        spec.display_name.deep_view(),
        task.task_id@,
    ) + "]\n\n"@ + spec.prompt@
    &&& m.attachments@.len() == 0
    &&& m.metadata@.len() == 0
}

/// Writes the message with which a sub-agent begins its turn.
pub fn first_message(spec: &SubagentSpawnSpec, task: &NewTask) -> (r: InboundMessage)
    requires
        task.valid(),
    ensures
        is_first_message(r, *spec, *task),
{
    let label: String = task_label(&spec.agent_name, &spec.display_name, task.task_id.as_str());
    let mut content: String = "[Sub-agent: ".to_owned();
    content.append(label.as_str());
    content.append("]\n\n");
    content.append(spec.prompt.as_str());
    InboundMessage {
        channel: spec.parent_channel.clone(),
        sender_id: spec.parent_chat_id.clone(),
        chat_id: task.child_chat_id.clone(),
        thread_id: copy_option(&spec.parent_thread_id),
        content,
        attachments: Vec::new(),
        metadata: Vec::new(),
    }
}

/// What the notice of a task's end has under the key.
pub open spec fn finished_under(
    spec: SubagentSpawnSpec,
    task: NewTask,
    status: TaskStatus,
    key: Seq<char>,
) -> Option<JsonView> {
    if key == METADATA_SUBAGENT_AGENT_NAME@ && spec.agent_name is Some {
        Some(JsonView::Str(spec.agent_name->0@))
    } else if key == METADATA_SUBAGENT_STATUS@ {
        Some(JsonView::Str(status_name(status)))
    } else if key == METADATA_SUBAGENT_CHILD_CHAT_ID@ {
        Some(JsonView::Str(task.child_chat_id@))
    } else if key == METADATA_SUBAGENT_TASK_ID@ {
        Some(JsonView::Str(task.task_id@))
    } else if key == ISANAGENT_SUBAGENT_TASK_FINISHED@ {
        Some(JsonView::Bool(true))
    } else {
        None
    }
}

/// What a notice shows of a task's end: the result, or else the error, trimmed.
pub open spec fn end_summary(end: TaskEnd) -> Seq<char> {
    text::trim(
        match end.result {
            Some(s) => s@,
            None => match end.error {
                Some(e) => e@,
                None => Seq::empty(),
            },
        },
    )
}

/// Whether `m` is the notice that a task has ended.
pub open spec fn is_finished_notice(
    m: OutboundMessage,
    spec: SubagentSpawnSpec,
    task: NewTask,
    end: TaskEnd,
) -> bool {
    let head = "Sub-agent finished ("@ + status_name(end.status) + "): "@ + label_of(
        spec.agent_name.deep_view(),
        spec.display_name.deep_view(),
        task.task_id@,
    );
    &&& m.channel@ == spec.parent_channel@
    &&& m.chat_id@ == spec.parent_chat_id@
    &&& m.thread_id == spec.parent_thread_id
    &&& m.content@ == if end_summary(end).len() == 0 {
        head
    } else {
        head + " — "@ + shortened(end_summary(end), NOTICE_CHARS as nat)
    }
    &&& forall|k: Seq<char>| #[trigger]
        json::member(json::members_view(m.metadata@), k) == finished_under(
            spec,
            task,
            end.status,
            k,
        )
}

/// Writes the notice that a task has ended.
pub fn finished_notice(spec: &SubagentSpawnSpec, task: &NewTask, end: &TaskEnd) -> (r:
    OutboundMessage)
    requires
        task.valid(),
    ensures
        is_finished_notice(r, *spec, *task, *end),
{
    let mut metadata: Vec<(String, Json)> = json::no_members();
    set_metadata(&mut metadata, ISANAGENT_SUBAGENT_TASK_FINISHED, Json::Bool(true));
    set_metadata(&mut metadata, METADATA_SUBAGENT_TASK_ID, json::string(task.task_id.as_str()));
    set_metadata(
        &mut metadata,
        METADATA_SUBAGENT_CHILD_CHAT_ID,
        json::string(task.child_chat_id.as_str()),
    );
    set_metadata(&mut metadata, METADATA_SUBAGENT_STATUS, json::string(status_text(end.status)));
    if let Some(a) = &spec.agent_name {
        set_metadata(&mut metadata, METADATA_SUBAGENT_AGENT_NAME, json::string(a.as_str()));
    }
    let label: String = task_label(&spec.agent_name, &spec.display_name, task.task_id.as_str());
    let mut content: String = "Sub-agent finished (".to_owned();
    content.append(status_text(end.status));
    content.append("): ");
    content.append(label.as_str());
    let summary: String = match &end.result {
        Some(s) => text::trimmed(s.as_str()),
        None => {
            let error: String = text_or_empty(&end.error);
            text::trimmed(error.as_str())
        },
    };
    if !summary.as_str().is_empty() {
        let short: String = truncate_for_tui(summary.as_str(), NOTICE_CHARS);
        content.append(" — ");
        content.append(short.as_str());
    }
    OutboundMessage {
        channel: spec.parent_channel.clone(),
        chat_id: spec.parent_chat_id.clone(),
        thread_id: copy_option(&spec.parent_thread_id),
        content,
        metadata,
    }
}

/// What the chat is told of a task's end.
pub open spec fn wake_text(
    agent_name: Option<Seq<char>>,
    task_id: Seq<char>,
    end: TaskEnd,
) -> Seq<char> {
    (match agent_name {
        Some(name) => "[Sub-agent "@ + name + " task "@,
        None => "[Sub-agent task "@,
    }) + short_id(task_id) + " completed — "@ + status_name(end.status) + "]\n\n"@ + match end.result {
        Some(s) => s@,
        None => "(no output)"@,
    }
}

/// Whether `m` is the message that brings the end of a task back to the chat.
pub open spec fn is_wake_message(
    m: InboundMessage,
    spec: SubagentSpawnSpec,
    task: NewTask,
    end: TaskEnd,
) -> bool {
    &&& m.channel@ == spec.parent_channel@
    &&& m.sender_id@ == "subagent-harness"@
    &&& m.chat_id@ == spec.parent_chat_id@
    &&& m.thread_id == spec.parent_thread_id
    &&& m.content@ == wake_text(spec.agent_name.deep_view(), task.task_id@, end)
    &&& m.attachments@.len() == 0
    &&& forall|k: Seq<char>| #[trigger]
        json::member(json::members_view(m.metadata@), k) == if k
            == METADATA_SYNTHETIC_SUBAGENT_COMPLETION@ {
            Some(JsonView::Bool(true))
        } else {
            None
        }
}

/// Writes the message that brings the end of a task back to the chat.
pub fn wake_message(spec: &SubagentSpawnSpec, task: &NewTask, end: &TaskEnd) -> (r: InboundMessage)
    requires
        task.valid(),
    ensures
        is_wake_message(r, *spec, *task, *end),
{
    let mut content: String = match &spec.agent_name {
        Some(name) => {
            let mut head: String = "[Sub-agent ".to_owned();
            head.append(name.as_str());
            head.append(" task ");
            head
        },
        None => "[Sub-agent task ".to_owned(),
    };
    let short: String = text::cut_to_chars(task.task_id.as_str(), 8);
    content.append(short.as_str());
    content.append(" completed — ");
    content.append(status_text(end.status));
    content.append("]\n\n");
    match &end.result {
        Some(s) => content.append(s.as_str()),
        None => content.append("(no output)"),
    }
    let mut metadata: Vec<(String, Json)> = json::no_members();
    set_metadata(&mut metadata, METADATA_SYNTHETIC_SUBAGENT_COMPLETION, Json::Bool(true));
    InboundMessage {
        channel: spec.parent_channel.clone(),
        sender_id: "subagent-harness".to_owned(),
        chat_id: spec.parent_chat_id.clone(),
        thread_id: copy_option(&spec.parent_thread_id),
        content,
        attachments: Vec::new(),
        metadata,
    }
}

/// A text cut to what is stored of it.
pub open spec fn stored_part(s: Option<String>, max: nat) -> Option<Seq<char>> {
    match s {
        Some(t) => Some(text::truncate_utf8(t@, max, SQLITE_CUT_MARK@)),
        None => None,
    }
}

/// How the end of a task is stored: the result and the error, each cut.
pub fn stored_end(end: &TaskEnd) -> (r: (Option<String>, Option<String>))
    ensures
        r.0.deep_view() == stored_part(end.result, STORED_RESULT_BYTES as nat),
        r.1.deep_view() == stored_part(end.error, STORED_ERROR_BYTES as nat),
{
    let result: Option<String> = match &end.result {
        Some(s) => Some(truncate_sqlite_field(s.clone(), STORED_RESULT_BYTES)),
        None => None,
    };
    let error: Option<String> = match &end.error {
        Some(s) => Some(truncate_sqlite_field(s.clone(), STORED_ERROR_BYTES)),
        None => None,
    };
    (result, error)
}

/// What the caller gets that started a sub-agent; with the result where it waited.
pub open spec fn spawn_reply(
    task_id: Seq<char>,
    child_chat_id: Seq<char>,
    result: Option<Seq<char>>,
) -> JsonView {
    let head = seq![
        ("task_id"@, JsonView::Str(task_id)),
        ("child_chat_id"@, JsonView::Str(child_chat_id)),
        ("wait"@, JsonView::Bool(result is Some)),
    ];
    JsonView::Object(
        match result {
            Some(s) => head.push(("result"@, JsonView::Str(s))),
            None => head,
        },
    )
}

/// Writes what the caller gets that started a sub-agent. A caller that waited gets the
/// result, which is empty where the task has none.
pub fn reply_to_spawn(task: &NewTask, wait: bool, result: &Option<String>) -> (r: Json)
    ensures
        r@ == spawn_reply(
            task.task_id@,
            task.child_chat_id@,
            if wait {
                Some(
                    match *result {
                        Some(s) => s@,
                        None => Seq::empty(),
                    },
                )
            } else {
                None
            },
        ),
{
    let mut members: Vec<(String, Json)> = json::no_members();
    json::put(&mut members, "task_id", json::string(task.task_id.as_str()));
    json::put(&mut members, "child_chat_id", json::string(task.child_chat_id.as_str()));
    json::put(&mut members, "wait", Json::Bool(wait));
    if wait {
        let result_text: String = text_or_empty(result);
        json::put(&mut members, "result", json::string(result_text.as_str()));
    }
    let out = json::object(members);
    assert(out@->Object_0 =~= spawn_reply(
        task.task_id@,
        task.child_chat_id@,
        if wait {
            Some(or_empty(*result))
        } else {
            None
        },
    )->Object_0);
    out
}

/// Writes the error of a caller that waited too long.
pub fn wait_timeout_error(max_wait_secs: u64) -> (r: String)
    ensures
        r@ == "subagent_spawn timed out after "@ + text::decimal(max_wait_secs as nat)
            + "s (wait=true)"@,
{
    let secs: String = text::decimal_text(max_wait_secs);
    let mut out: String = "subagent_spawn timed out after ".to_owned();
    out.append(secs.as_str());
    out.append("s (wait=true)");
    out
}

// ---------------------------------------------------------------------------
// What a sub-agent runs with
// ---------------------------------------------------------------------------

/// Which model a sub-agent talks to.
#[derive(Debug)]
pub enum ProviderChoice {
    /// The one of the agent that started it.
    Parent,
    /// One of its own, made with the credentials of the agent that started it.
    Own { model: Option<String>, temperature: Option<String> },
}

/// What a sub-agent runs with.
#[derive(Debug)]
pub struct AgentRun {
    pub system_prompt: String,
    /// The tools that the sub-agent may call; all of them where there is no list.
    pub allowlist: Option<Vec<String>>,
    pub max_iterations: usize,
    pub provider: ProviderChoice,
}

fn copy_list(list: &Option<Vec<String>>) -> (r: Option<Vec<String>>)
    ensures
        r.deep_view() == list.deep_view(),
{
    match list {
        None => None,
        Some(items) => {
            let mut copies: Vec<String> = Vec::new();
            let mut i: usize = 0;
            while i < items.len()
                invariant
                    i <= items@.len(),
                    copies@.len() == i,
                    forall|k: int| 0 <= k < i ==> #[trigger] copies@[k] == items@[k],
                decreases items@.len() - i,
            {
                copies.push(items[i].clone());
                i = i + 1;
            }
            assert(copies.deep_view() =~= items.deep_view());
            Some(copies)
        },
    }
}

impl AgentManifest {
    /// The tools of the agent itself. One that says nothing of tools, or only a star, has the
    /// tools of the harness.
    pub open spec fn own_tools(self) -> Option<Seq<Seq<char>>> {
        match self.allowed_tools {
            Some(list) => if list.deep_view() == seq!["*"@] {
                None
            } else {
                Some(list.deep_view())
            },
            None => None,
        }
    }

    /// The tools of the agent itself.
    pub fn allowed_tools_set(&self) -> (r: Option<Vec<String>>)
        ensures
            r.deep_view() == self.own_tools(),
    {
        match &self.allowed_tools {
            None => None,
            Some(list) => {
                if list.len() == 1 && text::same(list[0].as_str(), "*") {
                    assert(list.deep_view() =~= seq!["*"@]);
                    return None;
                }
                proof {
                    if list.deep_view() == seq!["*"@] {
                        assert(list.deep_view()[0] == list@[0]@);
                    }
                }
                copy_list(&self.allowed_tools)
            },
        }
    }
}

/// Whether a sub-agent runs with `r`: with what a named agent says, and else with what the
/// harness says. A named agent takes no more steps than the harness allows, and has a model
/// of its own only where the credentials are usable.
pub open spec fn runs_with(
    r: AgentRun,
    manifest: Option<AgentManifest>,
    default_prompt: Seq<char>,
    default_allowlist: Option<Vec<String>>,
    default_max_iterations: usize,
    credentials_usable: bool,
) -> bool {
    &&& r.system_prompt@ == match manifest {
        Some(m) => m.system_prompt@,
        None => default_prompt,
    }
    &&& r.allowlist.deep_view() == match manifest {
        Some(m) if m.own_tools() is Some => m.own_tools(),
        _ => default_allowlist.deep_view(),
    }
    &&& r.max_iterations == match manifest {
        Some(m) if m.max_iterations is Some && m.max_iterations->0 < default_max_iterations =>
            m.max_iterations->0,
        _ => default_max_iterations,
    }
    &&& r.provider == match manifest {
        Some(m) if credentials_usable && (m.model is Some || m.temperature is Some) =>
            ProviderChoice::Own { model: m.model, temperature: m.temperature },
        _ => ProviderChoice::Parent,
    }
}

/// Decides what a sub-agent runs with: what a named agent says, and else what the harness
/// says. A named agent takes no more iterations than the harness allows, and has a model of
/// its own only where the credentials are usable.
pub fn agent_run(
    manifest: Option<&AgentManifest>,
    default_prompt: &str,
    default_allowlist: &Option<Vec<String>>,
    default_max_iterations: usize,
    credentials_usable: bool,
) -> (r: AgentRun)
    ensures
        runs_with(
            r,
            match manifest {
                Some(m) => Some(*m),
                None => None,
            },
            default_prompt@,
            *default_allowlist,
            default_max_iterations,
            credentials_usable,
        ),
{
    match manifest {
        None => AgentRun {
            system_prompt: default_prompt.to_owned(),
            allowlist: copy_list(default_allowlist),
            max_iterations: default_max_iterations,
            provider: ProviderChoice::Parent,
        },
        Some(m) => AgentRun {
            system_prompt: m.system_prompt.clone(),
            allowlist: match m.allowed_tools_set() {
                Some(own) => Some(own),
                None => copy_list(default_allowlist),
            },
            max_iterations: match m.max_iterations {
                Some(n) => {
                    if n < default_max_iterations {
                        n
                    } else {
                        default_max_iterations
                    }
                },
                None => default_max_iterations,
            },
            provider: if credentials_usable && (m.model.is_some() || m.temperature.is_some()) {
                ProviderChoice::Own {
                    model: copy_option(&m.model),
                    temperature: copy_option(&m.temperature),
                }
            } else {
                ProviderChoice::Parent
            },
        },
    }
}

// ---------------------------------------------------------------------------
// A task from its start to its end
// ---------------------------------------------------------------------------

/// What a sub-agent runs with that is not named, or does not say otherwise.
#[derive(Debug)]
pub struct RunDefaults {
    pub system_prompt: String,
    pub allowlist: Option<Vec<String>>,
    pub max_iterations: usize,
    pub credentials_usable: bool,
}

/// A task that has started: what it runs with, the message that it begins with, and the notice
/// of its start.
#[derive(Debug)]
pub struct SpawnStart {
    pub task: NewTask,
    pub run: AgentRun,
    pub first: InboundMessage,
    pub notice: OutboundMessage,
}

/// How the end of a task is told: the notice of it, and the message that brings it back to
/// the chat.
#[derive(Debug)]
pub struct SpawnEnd {
    pub notice: OutboundMessage,
    pub wake: Option<InboundMessage>,
}

/// The agent that is named, where one is.
pub open spec fn named_agent(spec: SubagentSpawnSpec, lookup: AgentLookup) -> Option<AgentManifest> {
    match lookup {
        AgentLookup::Found(m) if spec.agent_name is Some => Some(m),
        _ => None,
    }
}

/// Whether the record is that of the task while it runs.
pub open spec fn is_running_record(t: TaskRecord, spec: SubagentSpawnSpec, task: NewTask) -> bool {
    t.status is Running && is_pending_record(
        TaskRecord { status: TaskStatus::Pending, ..t },
        spec,
        task,
    )
}

impl SubagentHarness {
    /// Starts a sub-agent, or says why it cannot be started. Its task runs from now on.
    pub fn spawn(
        &mut self,
        spec: &SubagentSpawnSpec,
        lookup: &AgentLookup,
        defaults: &RunDefaults,
    ) -> (r: Result<SpawnStart, String>)
        ensures
            final(self).settings == old(self).settings,
            final(self).tools_bound == old(self).tools_bound,
            match spawn_refusal(
                old(self).index@.len(),
                old(self).settings.max_tasks as nat,
                spec.agent_name.deep_view(),
                *lookup,
                old(self).tools_bound,
            ) {
                Some(why) => {
                    &&& final(self).index@ == old(self).index@
                    &&& r matches Err(e) && e@ == why
                },
                None => {
                    &&& r matches Ok(start)
                    &&& is_new_task(start.task, *spec)
                    &&& is_first_message(start.first, *spec, start.task)
                    &&& is_started_notice(start.notice, *spec, start.task)
                    &&& runs_with(
                        start.run,
                        named_agent(*spec, *lookup),
                        defaults.system_prompt@,
                        defaults.allowlist,
                        defaults.max_iterations,
                        defaults.credentials_usable,
                    )
                    &&& final(self).index@.contains_key(start.task.task_id@)
                    &&& final(self).index@ == old(self).index@.insert(
                        start.task.task_id@,
                        final(self).index@[start.task.task_id@],
                    )
                    &&& is_running_record(
                        final(self).index@[start.task.task_id@],
                        *spec,
                        start.task,
                    )
                },
            },
    {
        let ghost before = self.index@;
        let task: NewTask = match self.begin_spawn(spec, lookup) {
            Ok(t) => t,
            Err(e) => {
                return Err(e);
            },
        };
        self.register(spec, &task);
        self.mark_running(task.task_id.as_str());
        assert(self.index@ =~= before.insert(task.task_id@, self.index@[task.task_id@]));
        let manifest: Option<&AgentManifest> = match lookup {
            AgentLookup::Found(m) => {
                if spec.agent_name.is_some() {
                    Some(m)
                } else {
                    None
                }
            },
            _ => None,
        };
        let run = agent_run(
            manifest,
            defaults.system_prompt.as_str(),
            &defaults.allowlist,
            defaults.max_iterations,
            defaults.credentials_usable,
        );
        let first = first_message(spec, &task);
        let notice = started_notice(spec, &task);
        Ok(SpawnStart { task, run, first, notice })
    }

    /// Lets go of a task whose end was noted and stored: the end is told, and the task is in
    /// the index no more, so that it is not listed once its end is known.
    pub fn conclude(&mut self, spec: &SubagentSpawnSpec, task: &NewTask, end: &TaskEnd) -> (r:
        SpawnEnd)
        requires
            task.valid(),
        ensures
            final(self).settings == old(self).settings,
            final(self).tools_bound == old(self).tools_bound,
            final(self).index@ == old(self).index@.remove(task.task_id@),
            is_finished_notice(r.notice, *spec, *task, *end),
            if old(self).settings.wake_on_completion {
                r.wake matches Some(m) && is_wake_message(m, *spec, *task, *end)
            } else {
                r.wake is None
            },
    {
        let notice = finished_notice(spec, task, end);
        let wake: Option<InboundMessage> = if self.settings.wake_on_completion {
            Some(wake_message(spec, task, end))
        } else {
            None
        };
        self.forget(task.task_id.as_str());
        SpawnEnd { notice, wake }
    }
}

// ---------------------------------------------------------------------------
// Looking tasks up
// ---------------------------------------------------------------------------

/// Why a chat cannot look at a task.
pub open spec fn lookup_refusal(
    tasks: Map<Seq<char>, TaskRecord>,
    task_id: Seq<char>,
    parent_chat_id: Seq<char>,
) -> Option<Seq<char>> {
    if !tasks.contains_key(task_id) {
        Some("Task '"@ + task_id + "' not found"@)
    } else if tasks[task_id].parent_chat_id@ != parent_chat_id {
        Some("Task is not owned by the current chat"@)
    } else {
        None
    }
}

impl SubagentHarness {
    /// Finds a task of the chat.
    pub fn find_task(&self, task_id: &str, parent_chat_id: &str) -> (r: Result<TaskRecord, String>)
        ensures
            match lookup_refusal(self.index@, task_id@, parent_chat_id@) {
                None => r == Ok::<TaskRecord, String>(self.index@[task_id@]),
                Some(why) => r matches Err(e) && e@ == why,
            },
    {
        match self.index.get(task_id) {
            None => {
                let mut why: String = "Task '".to_owned();
                why.append(task_id);
                why.append("' not found");
                Err(why)
            },
            Some(t) => {
                if !text::same(t.parent_chat_id.as_str(), parent_chat_id) {
                    Err("Task is not owned by the current chat".to_owned())
                } else {
                    Ok(t)
                }
            },
        }
    }

    /// A snapshot of a task of the chat.
    pub fn get_task(&self, task_id: &str, parent_chat_id: &str) -> (r: Result<Json, String>)
        ensures
            match lookup_refusal(self.index@, task_id@, parent_chat_id@) {
                None => r matches Ok(j) && j@ == snapshot(self.index@[task_id@]),
                Some(why) => r matches Err(e) && e@ == why,
            },
    {
        match self.find_task(task_id, parent_chat_id) {
            Ok(t) => Ok(t.snapshot_json()),
            Err(e) => Err(e),
        }
    }

    /// Decides whether the chat can cancel a task, and says so; the caller then cancels it.
    pub fn cancel_task(&self, task_id: &str, parent_chat_id: &str) -> (r: Result<String, String>)
        ensures
            match lookup_refusal(self.index@, task_id@, parent_chat_id@) {
                None => r matches Ok(s) && s@ == "Cancellation requested for task "@ + task_id@,
                Some(why) => r matches Err(e) && e@ == why,
            },
    {
        match self.find_task(task_id, parent_chat_id) {
            Ok(_) => {
                let mut out: String = "Cancellation requested for task ".to_owned();
                out.append(task_id);
                Ok(out)
            },
            Err(e) => Err(e),
        }
    }

    /// Snapshots of the tasks of the chat, each once, in no order.
    pub fn list_for_parent(&self, parent_chat_id: &str) -> (r: Vec<Json>)
        ensures
            exists|listed: Seq<(String, TaskRecord)>| #[trigger]
                task_index::lists_entries(
                    listed,
                    task_index::tasks_of(self.index@, parent_chat_id@),
                ) && r@.len() == listed.len() && forall|i: int|
                    0 <= i < r@.len() ==> (#[trigger] r@[i])@ == snapshot(listed[i].1),
    {
        let children: Vec<(String, TaskRecord)> = self.index.of_parent(parent_chat_id);
        let ghost given = children@;
        let mut rows: Vec<Json> = Vec::new();
        for child in it: children
            invariant
                it.seq() == given,
                rows@.len() == it.index(),
                forall|k: int| 0 <= k < rows@.len() ==> (#[trigger] rows@[k])@ == snapshot(given[k].1),
        {
            rows.push(child.1.snapshot_json());
        }
        assert(task_index::lists_entries(
            given,
            task_index::tasks_of(self.index@, parent_chat_id@),
        ));
        rows
    }
}

/// Writes the list of the tasks of a chat.
pub fn task_list_text(rows: &[String]) -> (r: String)
    ensures
        r@ == if rows@.len() == 0 {
            "No active sub-agent tasks for this chat."@
        } else {
            text::join(rows.deep_view(), "\n"@)
        },
{
    if rows.len() == 0 {
        "No active sub-agent tasks for this chat.".to_owned()
    } else {
        text::joined(rows, "\n")
    }
}

// ---------------------------------------------------------------------------
// Laws
// ---------------------------------------------------------------------------

/// A task that was put into the index is found by the chat that started it, and by no other.
pub proof fn law_task_belongs_to_its_chat(
    tasks: Map<Seq<char>, TaskRecord>,
    task_id: Seq<char>,
    record: TaskRecord,
    chat_id: Seq<char>,
)
    ensures
        lookup_refusal(tasks.insert(task_id, record), task_id, chat_id) is None
            <==> record.parent_chat_id@ == chat_id,
        task_index::tasks_of(tasks.insert(task_id, record), chat_id).contains_key(task_id)
            <==> record.parent_chat_id@ == chat_id,
{
}

/// A task that was taken out of the index is not listed for any chat, and is not found; all
/// others are as before.
pub proof fn law_forgotten_task_is_gone(
    tasks: Map<Seq<char>, TaskRecord>,
    task_id: Seq<char>,
    other: Seq<char>,
    chat_id: Seq<char>,
)
    ensures
        lookup_refusal(tasks.remove(task_id), task_id, chat_id) is Some,
        !task_index::tasks_of(tasks.remove(task_id), chat_id).contains_key(task_id),
        other != task_id ==> lookup_refusal(tasks.remove(task_id), other, chat_id)
            == lookup_refusal(tasks, other, chat_id),
{
}

/// Where each start was allowed before its task was put into the index, there are never more
/// tasks than allowed.
pub proof fn law_tasks_stay_bounded(
    tasks: Map<Seq<char>, TaskRecord>,
    max_tasks: nat,
    agent_name: Option<Seq<char>>,
    lookup: AgentLookup,
    tools_bound: bool,
    task_id: Seq<char>,
    record: TaskRecord,
)
    requires
        tasks.dom().finite(),
        spawn_refusal(tasks.len(), max_tasks, agent_name, lookup, tools_bound) is None,
    ensures
        tasks.insert(task_id, record).len() <= max_tasks,
{
}

/// A task that was noted as ended and then taken out of the index leaves nothing behind: the
/// others are as before, and where the task was there, there is room for one more.
pub proof fn law_ended_task_frees_its_place(
    tasks: Map<Seq<char>, TaskRecord>,
    task_id: Seq<char>,
    outcome: Result<String, String>,
    cancelled: bool,
)
    requires
        tasks.dom().finite(),
        tasks.contains_key(task_id),
    ensures
        tasks.insert(task_id, ended_record(tasks[task_id], outcome, cancelled)).remove(task_id)
            == tasks.remove(task_id),
        tasks.remove(task_id).len() == tasks.len() - 1,
{
    assert(tasks.insert(task_id, ended_record(tasks[task_id], outcome, cancelled)).remove(task_id)
        =~= tasks.remove(task_id));
}

/// A task keeps its chat, its prompt and its agent from its start to its end.
pub proof fn law_end_keeps_identity(
    t: TaskRecord,
    outcome: Result<String, String>,
    cancelled: bool,
)
    ensures
        ended_record(t, outcome, cancelled).parent_chat_id == t.parent_chat_id,
        ended_record(t, outcome, cancelled).child_chat_id == t.child_chat_id,
        ended_record(t, outcome, cancelled).prompt == t.prompt,
        ended_record(t, outcome, cancelled).agent_name == t.agent_name,
        !(ended_record(t, outcome, cancelled).status is Pending) && !(ended_record(
            t,
            outcome,
            cancelled,
        ).status is Running),
{
}

// ---------------------------------------------------------------------------
// Laws of a task's life
// ---------------------------------------------------------------------------

/// A task ends as its turn did: what failed has failed, with its error and no result; what came
/// to an answer has completed, with the answer and no error; and what was cancelled before that
/// is cancelled, and its answer is dropped.
pub proof fn law_task_ends_as_its_turn_did(
    end: TaskEnd,
    outcome: Result<String, String>,
    cancelled: bool,
)
    requires
        is_end(end, outcome, cancelled),
    ensures
        outcome matches Err(e) ==> end.status is Failed && end.error == Some(e)
            && end.result is None,
        !cancelled ==> (outcome matches Ok(answer) ==> end.status is Completed && end.result
            == Some(answer) && end.error is None),
        cancelled && outcome is Ok ==> end.status is Cancelled && end.result is None
            && end.error is Some,
{
}

/// The record of a task that ends tells how it did: the answer where it completed, the error
/// where it failed, and neither changes otherwise.
pub proof fn law_record_tells_how_it_ended(
    t: TaskRecord,
    outcome: Result<String, String>,
    cancelled: bool,
)
    ensures
        outcome matches Err(e) ==> ended_record(t, outcome, cancelled).status is Failed
            && ended_record(t, outcome, cancelled).error == Some(e) && ended_record(
            t,
            outcome,
            cancelled,
        ).result == t.result,
        !cancelled ==> (outcome matches Ok(answer) ==> ended_record(
            t,
            outcome,
            cancelled,
        ).status is Completed && ended_record(t, outcome, cancelled).result == Some(answer)
            && ended_record(t, outcome, cancelled).error == t.error),
        cancelled && outcome is Ok ==> ended_record(t, outcome, cancelled).status is Cancelled
            && ended_record(t, outcome, cancelled).result == t.result && ended_record(
            t,
            outcome,
            cancelled,
        ).error == t.error,
{
}

/// A task is started if and only if there is room for one more, the agent that it names is
/// known, and the tools are there. A refusal says which it was: the limit is named, and so is the
/// agent.
pub proof fn law_tasks_start_unless_refused(
    tasks: nat,
    max_tasks: nat,
    agent_name: Option<Seq<char>>,
    lookup: AgentLookup,
    tools_bound: bool,
)
    ensures
        spawn_refusal(tasks, max_tasks, agent_name, lookup, tools_bound) is None <==> tasks
            < max_tasks && (agent_name is None || lookup is Found) && tools_bound,
        tasks >= max_tasks ==> text::contains(
            spawn_refusal(tasks, max_tasks, agent_name, lookup, tools_bound)->0,
            text::decimal(max_tasks),
        ),
        tasks < max_tasks && lookup is Unknown ==> (agent_name matches Some(name)
            ==> text::contains(
            spawn_refusal(tasks, max_tasks, agent_name, lookup, tools_bound)->0,
            name,
        )),
{
    text::lemma_contains_middle(
        "Maximum number of sub-agent tasks ("@,
        text::decimal(max_tasks),
        ") reached"@,
    );
    if let Some(name) = agent_name {
        text::lemma_contains_middle(
            "Named agent '"@,
            name,
            "' not found in registry. Use `agent_list` to see available agents."@,
        );
    }
}

proof fn lemma_subagent_keys_differ()
    ensures
        METADATA_SUBAGENT_DISPLAY_NAME@ != METADATA_SUBAGENT_AGENT_NAME@,
        METADATA_SUBAGENT_DISPLAY_NAME@ != METADATA_SUBAGENT_CHILD_CHAT_ID@,
        METADATA_SUBAGENT_DISPLAY_NAME@ != METADATA_SUBAGENT_TASK_ID@,
        METADATA_SUBAGENT_DISPLAY_NAME@ != ISANAGENT_SUBAGENT_TASK_STARTED@,
        METADATA_SUBAGENT_DISPLAY_NAME@ != ISANAGENT_SUBAGENT_TASK_FINISHED@,
        METADATA_SUBAGENT_AGENT_NAME@ != METADATA_SUBAGENT_CHILD_CHAT_ID@,
        METADATA_SUBAGENT_AGENT_NAME@ != METADATA_SUBAGENT_TASK_ID@,
        METADATA_SUBAGENT_AGENT_NAME@ != METADATA_SUBAGENT_STATUS@,
        METADATA_SUBAGENT_AGENT_NAME@ != ISANAGENT_SUBAGENT_TASK_STARTED@,
        METADATA_SUBAGENT_AGENT_NAME@ != ISANAGENT_SUBAGENT_TASK_FINISHED@,
        METADATA_SUBAGENT_CHILD_CHAT_ID@ != METADATA_SUBAGENT_TASK_ID@,
        METADATA_SUBAGENT_CHILD_CHAT_ID@ != METADATA_SUBAGENT_STATUS@,
        METADATA_SUBAGENT_CHILD_CHAT_ID@ != ISANAGENT_SUBAGENT_TASK_STARTED@,
        METADATA_SUBAGENT_CHILD_CHAT_ID@ != ISANAGENT_SUBAGENT_TASK_FINISHED@,
        METADATA_SUBAGENT_TASK_ID@ != METADATA_SUBAGENT_STATUS@,
        METADATA_SUBAGENT_TASK_ID@ != ISANAGENT_SUBAGENT_TASK_STARTED@,
        METADATA_SUBAGENT_TASK_ID@ != ISANAGENT_SUBAGENT_TASK_FINISHED@,
        METADATA_SUBAGENT_STATUS@ != ISANAGENT_SUBAGENT_TASK_FINISHED@,
        ISANAGENT_SUBAGENT_TASK_STARTED@ != ISANAGENT_SUBAGENT_TASK_FINISHED@,
        METADATA_SUBAGENT_STATUS@ != ISANAGENT_SUBAGENT_TASK_STARTED@,
{
    reveal_strlit("isanagent_subagent_task_started");
    reveal_strlit("isanagent_subagent_task_finished");
    reveal_strlit("isanagent_subagent_task_id");
    reveal_strlit("isanagent_subagent_child_chat_id");
    reveal_strlit("isanagent_subagent_agent_name");
    reveal_strlit("isanagent_subagent_display_name");
    reveal_strlit("isanagent_subagent_status");
    assert(ISANAGENT_SUBAGENT_TASK_STARTED@.len() == 31);
    assert(ISANAGENT_SUBAGENT_TASK_FINISHED@.len() == 32);
    assert(METADATA_SUBAGENT_TASK_ID@.len() == 26);
    assert(METADATA_SUBAGENT_CHILD_CHAT_ID@.len() == 32);
    assert(METADATA_SUBAGENT_AGENT_NAME@.len() == 29);
    assert(METADATA_SUBAGENT_DISPLAY_NAME@.len() == 31);
    assert(METADATA_SUBAGENT_STATUS@.len() == 25);
    assert(ISANAGENT_SUBAGENT_TASK_STARTED@[19] == 't');
    assert(METADATA_SUBAGENT_DISPLAY_NAME@[19] == 'd');
    assert(ISANAGENT_SUBAGENT_TASK_FINISHED@[19] == 't');
    assert(METADATA_SUBAGENT_CHILD_CHAT_ID@[19] == 'c');
}

/// The chat that asked is told that the task has started: which task it is, where it runs, and
/// under which name.
pub proof fn law_start_of_a_task_is_told(m: OutboundMessage, spec: SubagentSpawnSpec, task: NewTask)
    requires
        is_started_notice(m, spec, task),
    ensures
        m.channel@ == spec.parent_channel@,
        m.chat_id@ == spec.parent_chat_id@,
        m.thread_id == spec.parent_thread_id,
        text::ends_with(
            m.content@,
            label_of(spec.agent_name.deep_view(), spec.display_name.deep_view(), task.task_id@),
        ),
        json::member(json::members_view(m.metadata@), "isanagent_subagent_task_id"@) == Some(
            JsonView::Str(task.task_id@),
        ),
        json::member(json::members_view(m.metadata@), "isanagent_subagent_child_chat_id"@) == Some(
            JsonView::Str(task.child_chat_id@),
        ),
        json::member(json::members_view(m.metadata@), "isanagent_subagent_task_started"@) == Some(
            JsonView::Bool(true),
        ),
        json::member(json::members_view(m.metadata@), "isanagent_subagent_task_finished"@) is None,
        spec.agent_name matches Some(a) ==> json::member(
            json::members_view(m.metadata@),
            "isanagent_subagent_agent_name"@,
        ) == Some(JsonView::Str(a@)),
        spec.display_name matches Some(d) ==> json::member(
            json::members_view(m.metadata@),
            "isanagent_subagent_display_name"@,
        ) == Some(JsonView::Str(d@)),
{
    lemma_subagent_keys_differ();
    let label = label_of(
        spec.agent_name.deep_view(),
        spec.display_name.deep_view(),
        task.task_id@,
    );
    let all = "Sub-agent started: "@ + label;
    assert(all.subrange(all.len() - label.len(), all.len() as int) =~= label);
}

/// The chat that asked is told how the task ended: in words, with the beginning of what it gave
/// or of its error, and under its id with its state.
pub proof fn law_end_of_a_task_is_told(
    m: OutboundMessage,
    spec: SubagentSpawnSpec,
    task: NewTask,
    end: TaskEnd,
)
    requires
        is_finished_notice(m, spec, task, end),
    ensures
        m.channel@ == spec.parent_channel@,
        m.chat_id@ == spec.parent_chat_id@,
        m.thread_id == spec.parent_thread_id,
        text::contains(m.content@, status_name(end.status)),
        text::contains(
            m.content@,
            label_of(spec.agent_name.deep_view(), spec.display_name.deep_view(), task.task_id@),
        ),
        end.result matches Some(s) ==> (0 < text::trim(s@).len() <= 120 ==> text::ends_with(
            m.content@,
            text::trim(s@),
        )),
        end.result is None ==> (end.error matches Some(s) ==> (0 < text::trim(s@).len() <= 120
            ==> text::ends_with(m.content@, text::trim(s@)))),
        json::member(json::members_view(m.metadata@), "isanagent_subagent_task_id"@) == Some(
            JsonView::Str(task.task_id@),
        ),
        json::member(json::members_view(m.metadata@), "isanagent_subagent_child_chat_id"@) == Some(
            JsonView::Str(task.child_chat_id@),
        ),
        json::member(json::members_view(m.metadata@), "isanagent_subagent_status"@) == Some(
            JsonView::Str(status_name(end.status)),
        ),
        json::member(json::members_view(m.metadata@), "isanagent_subagent_task_finished"@) == Some(
            JsonView::Bool(true),
        ),
        json::member(json::members_view(m.metadata@), "isanagent_subagent_task_started"@) is None,
        spec.agent_name matches Some(a) ==> json::member(
            json::members_view(m.metadata@),
            "isanagent_subagent_agent_name"@,
        ) == Some(JsonView::Str(a@)),
{
    lemma_subagent_keys_differ();
    let label = label_of(
        spec.agent_name.deep_view(),
        spec.display_name.deep_view(),
        task.task_id@,
    );
    let status = status_name(end.status);
    let start = "Sub-agent finished ("@ + status;
    let head = start + "): "@ + label;
    text::lemma_contains_end("Sub-agent finished ("@, status);
    text::lemma_contains_longer(start, "): "@, status);
    text::lemma_contains_longer(start + "): "@, label, status);
    text::lemma_contains_end(start + "): "@, label);
    let summary = end_summary(end);
    if summary.len() > 0 {
        let shown = shortened(summary, 120);
        text::lemma_contains_longer(head, " — "@, status);
        text::lemma_contains_longer(head + " — "@, shown, status);
        text::lemma_contains_longer(head, " — "@, label);
        text::lemma_contains_longer(head + " — "@, shown, label);
        let all = head + " — "@ + shown;
        assert(all.subrange(all.len() - shown.len(), all.len() as int) =~= shown);
        if let Some(s) = end.result {
            text::lemma_trim_idempotent(s@);
        }
        if let Some(s) = end.error {
            text::lemma_trim_idempotent(s@);
        }
    }
}

/// The chat that asked is woken with the whole answer of the task, or with the word that there
/// is none, and with how it ended.
pub proof fn law_chat_is_woken_with_the_answer(
    m: InboundMessage,
    spec: SubagentSpawnSpec,
    task: NewTask,
    end: TaskEnd,
)
    requires
        is_wake_message(m, spec, task, end),
    ensures
        m.channel@ == spec.parent_channel@,
        m.chat_id@ == spec.parent_chat_id@,
        m.thread_id == spec.parent_thread_id,
        end.result matches Some(s) ==> text::ends_with(m.content@, s@),
        end.result is None ==> text::ends_with(m.content@, "(no output)"@),
        text::contains(m.content@, status_name(end.status)),
        spec.agent_name matches Some(a) ==> text::contains(m.content@, a@),
        m.attachments@.len() == 0,
{
    let name = spec.agent_name.deep_view();
    let start = match name {
        Some(n) => "[Sub-agent "@ + n + " task "@,
        None => "[Sub-agent task "@,
    };
    let id = short_id(task.task_id@);
    let status = status_name(end.status);
    let said = match end.result {
        Some(s) => s@,
        None => "(no output)"@,
    };
    let all = start + id + " completed — "@ + status + "]\n\n"@ + said;
    assert(m.content@ == all);
    assert(all.subrange(all.len() - said.len(), all.len() as int) =~= said);
    text::lemma_contains_end(start + id + " completed — "@, status);
    text::lemma_contains_longer(start + id + " completed — "@ + status, "]\n\n"@, status);
    text::lemma_contains_longer(
        start + id + " completed — "@ + status + "]\n\n"@,
        said,
        status,
    );
    if let Some(n) = name {
        text::lemma_contains_middle("[Sub-agent "@, n, " task "@);
        text::lemma_contains_longer(start, id, n);
        text::lemma_contains_longer(start + id, " completed — "@, n);
        text::lemma_contains_longer(start + id + " completed — "@, status, n);
        text::lemma_contains_longer(start + id + " completed — "@ + status, "]\n\n"@, n);
        text::lemma_contains_longer(
            start + id + " completed — "@ + status + "]\n\n"@,
            said,
            n,
        );
    }
}

/// A sub-agent is told the whole prompt, in the chat that is its own and not in that of the one
/// who asked.
pub proof fn law_sub_agent_is_told_its_prompt(m: InboundMessage, spec: SubagentSpawnSpec, task: NewTask)
    requires
        is_first_message(m, spec, task),
    ensures
        text::ends_with(m.content@, spec.prompt@),
        m.chat_id@ == task.child_chat_id@,
        m.channel@ == spec.parent_channel@,
        m.sender_id@ == spec.parent_chat_id@,
        m.attachments@.len() == 0,
        m.metadata@.len() == 0,
{
    let prompt = spec.prompt@;
    assert(m.content@.subrange(m.content@.len() - prompt.len(), m.content@.len() as int)
        =~= prompt);
}

/// A task is called by the agent it runs and the name it was given, as far as there are any, and
/// by the beginning of its id where there is neither.
pub proof fn law_tasks_have_names(agent: Seq<char>, name: Seq<char>, task_id: Seq<char>)
    ensures
        label_of(Some(agent), Some(name), task_id) == agent + ": "@ + name,
        label_of(Some(agent), None, task_id) == agent,
        label_of(None, Some(name), task_id) == name,
        task_id.len() >= 8 ==> label_of(None, None, task_id) == "task-"@ + task_id.take(8),
        task_id.len() < 8 ==> label_of(None, None, task_id) == "task-"@ + task_id,
        task_id.len() >= 12 ==> child_chat(task_id) == "subagent-"@ + task_id.take(12),
{
    if task_id.len() == 8 {
        assert(task_id.take(8) =~= task_id);
    }
    if task_id.len() == 12 {
        assert(task_id.take(12) =~= task_id);
    }
}

/// A text that fits is shown whole, trimmed; one that does not is shown by its beginning, and a
/// mark takes the last place.
pub proof fn law_long_texts_are_shown_by_their_beginning(s: Seq<char>, max: nat)
    requires
        max >= 1,
    ensures
        text::trim(s).len() <= max ==> shortened(s, max) == text::trim(s),
        text::trim(s).len() > max ==> shortened(s, max) == text::trim(s).take(max - 1) + "…"@,
{
}

/// Two states never bear the same name.
pub proof fn law_states_have_their_own_names(a: TaskStatus, b: TaskStatus)
    ensures
        status_name(TaskStatus::Pending) == "pending"@,
        status_name(TaskStatus::Running) == "running"@,
        status_name(TaskStatus::Completed) == "completed"@,
        status_name(TaskStatus::Failed) == "failed"@,
        status_name(TaskStatus::Cancelled) == "cancelled"@,
        status_name(a) == status_name(b) ==> a == b,
{
    reveal_strlit("pending");
    reveal_strlit("running");
    reveal_strlit("completed");
    reveal_strlit("failed");
    reveal_strlit("cancelled");
    assert("pending"@.len() == 7 && "running"@.len() == 7 && "completed"@.len() == 9
        && "failed"@.len() == 6 && "cancelled"@.len() == 9);
    assert("pending"@[0] == 'p' && "running"@[0] == 'r' && "completed"@[1] == 'o' && "cancelled"@[1]
        == 'a');
}

/// What is shown of a task is what its record holds.
pub proof fn law_snapshot_shows_the_record(t: TaskRecord)
    ensures
        snapshot(t).text_at("child_chat_id"@) == Some(t.child_chat_id@),
        snapshot(t).text_at("parent_chat_id"@) == Some(t.parent_chat_id@),
        snapshot(t).text_at("status"@) == Some(status_name(t.status)),
        snapshot(t).text_at("prompt"@) == Some(t.prompt@),
        t.agent_name matches Some(a) ==> snapshot(t).text_at("agent_name"@) == Some(a@),
        t.agent_name is None ==> snapshot(t).get("agent_name"@) == Some(JsonView::Null),
        t.result matches Some(s) ==> snapshot(t).text_at("result"@) == Some(s@),
        t.result is None ==> snapshot(t).text_at("result"@) == Some(Seq::<char>::empty()),
        t.error matches Some(s) ==> snapshot(t).text_at("error"@) == Some(s@),
        t.error is None ==> snapshot(t).text_at("error"@) == Some(Seq::<char>::empty()),
{
    reveal_strlit("child_chat_id");
    reveal_strlit("parent_chat_id");
    reveal_strlit("agent_name");
    reveal_strlit("status");
    reveal_strlit("prompt");
    reveal_strlit("result");
    reveal_strlit("error");
    assert("child_chat_id"@.len() == 13 && "parent_chat_id"@.len() == 14 && "agent_name"@.len()
        == 10 && "status"@.len() == 6 && "prompt"@.len() == 6 && "result"@.len() == 6
        && "error"@.len() == 5);
    assert("status"@[0] == 's' && "prompt"@[0] == 'p' && "result"@[0] == 'r');
    let members = snapshot(t)->Object_0;
    json::lemma_member_at(members, "child_chat_id"@, 0);
    json::lemma_member_at(members, "parent_chat_id"@, 1);
    json::lemma_member_at(members, "agent_name"@, 2);
    json::lemma_member_at(members, "status"@, 3);
    json::lemma_member_at(members, "prompt"@, 4);
    json::lemma_member_at(members, "result"@, 5);
    json::lemma_member_at(members, "error"@, 6);
}

/// The one who asked gets the task's id and chat, and the result where it was waited for.
pub proof fn law_spawn_is_answered(
    task_id: Seq<char>,
    child_chat_id: Seq<char>,
    result: Option<Seq<char>>,
)
    ensures
        spawn_reply(task_id, child_chat_id, result).text_at("task_id"@) == Some(task_id),
        spawn_reply(task_id, child_chat_id, result).text_at("child_chat_id"@) == Some(
            child_chat_id,
        ),
        spawn_reply(task_id, child_chat_id, result).get("wait"@) == Some(
            JsonView::Bool(result is Some),
        ),
        spawn_reply(task_id, child_chat_id, result).text_at("result"@) == result,
{
    reveal_strlit("task_id");
    reveal_strlit("child_chat_id");
    reveal_strlit("wait");
    reveal_strlit("result");
    assert("task_id"@.len() == 7 && "child_chat_id"@.len() == 13 && "wait"@.len() == 4
        && "result"@.len() == 6);
    let members = spawn_reply(task_id, child_chat_id, result)->Object_0;
    json::lemma_member_at(members, "task_id"@, 0);
    json::lemma_member_at(members, "child_chat_id"@, 1);
    json::lemma_member_at(members, "wait"@, 2);
    match result {
        Some(_) => json::lemma_member_at(members, "result"@, 3),
        None => json::lemma_member_absent(members, "result"@),
    }
}

/// A named agent runs with its own prompt, with its own tools unless it takes over those of the
/// harness, and for no more steps than the harness allows; with its own model only where the
/// credentials serve it. Without one everything is the harness's.
pub proof fn law_agents_run_as_they_are_described(
    r: AgentRun,
    manifest: Option<AgentManifest>,
    default_prompt: Seq<char>,
    default_allowlist: Option<Vec<String>>,
    default_max_iterations: usize,
    credentials_usable: bool,
)
    requires
        runs_with(
            r,
            manifest,
            default_prompt,
            default_allowlist,
            default_max_iterations,
            credentials_usable,
        ),
    ensures
        r.max_iterations <= default_max_iterations,
        manifest is None ==> r.system_prompt@ == default_prompt && r.allowlist.deep_view()
            == default_allowlist.deep_view() && r.max_iterations == default_max_iterations
            && r.provider is Parent,
        manifest matches Some(m) ==> r.system_prompt@ == m.system_prompt@,
        manifest matches Some(m) ==> (m.allowed_tools is None ==> r.allowlist.deep_view()
            == default_allowlist.deep_view()),
        manifest matches Some(m) ==> (m.allowed_tools matches Some(list) ==> (list.deep_view()
            == seq!["*"@] ==> r.allowlist.deep_view() == default_allowlist.deep_view())),
        manifest matches Some(m) ==> (m.allowed_tools matches Some(list) ==> (list.deep_view()
            != seq!["*"@] ==> r.allowlist.deep_view() == Some(list.deep_view()))),
        manifest matches Some(m) ==> (m.max_iterations matches Some(n) ==> r.max_iterations <= n
            && (r.max_iterations == n || r.max_iterations == default_max_iterations)),
        manifest matches Some(m) ==> (m.max_iterations is None ==> r.max_iterations
            == default_max_iterations),
        !credentials_usable ==> r.provider is Parent,
        manifest matches Some(m) ==> (credentials_usable && m.model is Some ==> r.provider == (
        ProviderChoice::Own { model: m.model, temperature: m.temperature })),
        manifest matches Some(m) ==> (m.model is None && m.temperature is None
            ==> r.provider is Parent),
{
}

/// Only a task that names an agent runs one.
pub proof fn law_agents_run_by_name_only(spec: SubagentSpawnSpec, lookup: AgentLookup)
    ensures
        spec.agent_name is None ==> named_agent(spec, lookup) is None,
        spec.agent_name is Some ==> (lookup matches AgentLookup::Found(m) ==> named_agent(
            spec,
            lookup,
        ) == Some(m)),
        !(lookup is Found) ==> named_agent(spec, lookup) is None,
{
}

/// What is stored of a result or an error is all of it where it fits, and else its beginning with
/// the mark of the cut.
pub proof fn law_stored_parts_keep_the_beginning(s: String, max: nat)
    ensures
        stored_part(None, max) is None,
        vstd::utf8::encode_utf8(s@).len() <= max ==> stored_part(Some(s), max) == Some(s@),
        vstd::utf8::encode_utf8(s@).len() > max ==> (stored_part(Some(s), max) matches Some(t)
            && text::ends_with(t, SQLITE_CUT_MARK@)),
{
    text::lemma_byte_len_is_encoded_len(s@);
    let t = text::truncate_utf8(s@, max, SQLITE_CUT_MARK@);
    if text::byte_len(s@) > max {
        assert(t.subrange(t.len() - SQLITE_CUT_MARK@.len(), t.len() as int) =~= SQLITE_CUT_MARK@);
    }
}

/// A new task has a chat of its own that is named after it, and its whole prompt is stored where
/// that fits.
pub proof fn law_new_task_keeps_its_prompt(task: NewTask, spec: SubagentSpawnSpec)
    requires
        is_new_task(task, spec),
    ensures
        text::starts_with(task.child_chat_id@, "subagent-"@),
        outside::is_simple_uuid(task.task_id@),
        vstd::utf8::encode_utf8(spec.prompt@).len() <= 150_000 ==> task.stored_prompt@
            == spec.prompt@,
        vstd::utf8::encode_utf8(spec.prompt@).len() > 150_000 ==> text::ends_with(
            task.stored_prompt@,
            SQLITE_CUT_MARK@,
        ),
{
    text::lemma_byte_len_is_encoded_len(spec.prompt@);
    let name = text::first_chars(task.task_id@, 12);
    assert(("subagent-"@ + name).subrange(0, "subagent-"@.len() as int) =~= "subagent-"@);
    let t = task.stored_prompt@;
    if text::byte_len(spec.prompt@) > 150_000 {
        assert(t.subrange(t.len() - SQLITE_CUT_MARK@.len(), t.len() as int) =~= SQLITE_CUT_MARK@);
    }
}

/// A task that starts is recorded as the chat asked for it, without a result and without an
/// error; once it runs nothing but its state has changed.
pub proof fn law_record_begins_as_asked(
    t: TaskRecord,
    spec: SubagentSpawnSpec,
    task: NewTask,
    running: TaskRecord,
)
    requires
        is_pending_record(t, spec, task),
        is_running_record(running, spec, task),
    ensures
        t.parent_chat_id@ == spec.parent_chat_id@ && running.parent_chat_id@ == spec.parent_chat_id@,
        t.child_chat_id@ == task.child_chat_id@ && running.child_chat_id@ == task.child_chat_id@,
        t.prompt@ == spec.prompt@ && running.prompt@ == spec.prompt@,
        t.agent_name.deep_view() == spec.agent_name.deep_view(),
        t.status is Pending && running.status is Running,
        t.result is None && t.error is None && running.result is None && running.error is None,
{
}

} // verus!
