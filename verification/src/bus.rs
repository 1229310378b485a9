//! The messages that go between the channels and the agent, and what is written on them.
use vstd::prelude::*;
use vstd::string::*;
use crate::json::{Json, JsonView};
use crate::json;
use crate::message::ContentPart;
use crate::text;

verus! {

broadcast use vstd::string::group_string_axioms;

/// Names the background job that a message belongs to.
pub const METADATA_BACKGROUND_JOB_ID: &'static str = "isanagent_background_job_id";

/// Marks a message that a schedule sent.
pub const METADATA_SYNTHETIC_CRON_TRIGGER: &'static str = "isanagent_synthetic_cron_trigger";

/// Marks a message that a finished execution job sent.
pub const METADATA_SYNTHETIC_JOB_FOLLOWUP: &'static str = "isanagent_synthetic_job_followup";

/// Marks a message that a finished sub-agent sent.
pub const METADATA_SYNTHETIC_SUBAGENT_COMPLETION: &'static str =
    "isanagent_synthetic_subagent_completion";

/// Marks a message that takes a background job up again.
pub const METADATA_SYNTHETIC_BACKGROUND_RESUME: &'static str =
    "isanagent_synthetic_background_resume";

/// Names the clarification ticket that a message answers.
pub const METADATA_CLARIFICATION_TICKET_ID: &'static str = "isanagent_clarification_ticket_id";

/// Marks a session that must not end on plain text.
pub const METADATA_AUTONOMOUS_FORBID_FINAL_WITHOUT_TOOLS: &'static str =
    "isanagent_autonomous_forbid_final_without_tools";

/// Marks a session that nobody attends to.
pub const METADATA_AUTONOMOUS_SESSION: &'static str = "isanagent_autonomous_session";

/// Says until when a session runs without anybody attending to it.
pub const METADATA_AUTONOMOUS_UNTIL: &'static str = "isanagent_autonomous_until";

/// Marks the notice that a background job has started.
pub const BACKGROUND_JOB_STARTED: &'static str = "isanagent_background_job_started";

/// Marks the notice that a background job has finished.
pub const BACKGROUND_JOB_FINISHED: &'static str = "isanagent_background_job_finished";

/// Names the tool that a background job runs.
pub const METADATA_BACKGROUND_JOB_TOOL_NAME: &'static str = "isanagent_background_job_tool_name";

/// Says how a background job has ended.
pub const METADATA_BACKGROUND_JOB_STATUS: &'static str = "isanagent_background_job_status";

/// Marks a message that the terminal shows as an error.
pub const TERMINAL_ERROR: &'static str = "isanagent_terminal_error";

/// Marks a message after which the user can ask for another attempt.
pub const LLM_RETRY_AVAILABLE: &'static str = "isanagent_llm_retry_available";

/// Marks the notice that a sub-agent has started.
pub const ISANAGENT_SUBAGENT_TASK_STARTED: &'static str = "isanagent_subagent_task_started";

/// Marks the notice that a sub-agent has finished.
pub const ISANAGENT_SUBAGENT_TASK_FINISHED: &'static str = "isanagent_subagent_task_finished";

/// Names the task of a sub-agent.
pub const METADATA_SUBAGENT_TASK_ID: &'static str = "isanagent_subagent_task_id";

/// Names the chat of a sub-agent.
pub const METADATA_SUBAGENT_CHILD_CHAT_ID: &'static str = "isanagent_subagent_child_chat_id";

/// Names the agent that a sub-agent runs.
pub const METADATA_SUBAGENT_AGENT_NAME: &'static str = "isanagent_subagent_agent_name";

/// Says under which name a sub-agent is shown.
pub const METADATA_SUBAGENT_DISPLAY_NAME: &'static str = "isanagent_subagent_display_name";

/// Says how a sub-agent has ended.
pub const METADATA_SUBAGENT_STATUS: &'static str = "isanagent_subagent_status";

/// A message from a channel to the agent.
#[derive(Debug)]
pub struct InboundMessage {
    pub channel: String,
    pub sender_id: String,
    pub chat_id: String,
    pub thread_id: Option<String>,
    pub content: String,
    pub attachments: Vec<ContentPart>,
    pub metadata: Vec<(String, Json)>,
}

/// A message from the agent to a channel.
#[derive(Debug)]
pub struct OutboundMessage {
    pub channel: String,
    pub chat_id: String,
    pub thread_id: Option<String>,
    pub content: String,
    pub metadata: Vec<(String, Json)>,
}

/// Whether the metadata says yes under `key`: a true boolean, or the text `true` in any
/// case, or the text `1`.
pub open spec fn says_yes(metadata: Seq<(Seq<char>, JsonView)>, key: Seq<char>) -> bool {
    match json::member(metadata, key) {
        Some(JsonView::Bool(b)) => b,
        Some(JsonView::Str(s)) => text::same_ignoring_ascii_case(s, "true"@) || s == "1"@,
        _ => false,
    }
}

/// Whether the metadata says yes under `key`.
pub fn metadata_truthy(meta: &Vec<(String, Json)>, key: &str) -> (r: bool)
    ensures
        r == says_yes(json::members_view(meta@), key@),
{
    match json::find_member(meta, key) {
        Some(Json::Bool(b)) => *b,
        Some(Json::Str(s)) => text::equals_ignoring_ascii_case(s.as_str(), "true") || text::same(
            s.as_str(),
            "1",
        ),
        _ => false,
    }
}

/// The text under `key`.
pub open spec fn text_under(metadata: Seq<(Seq<char>, JsonView)>, key: Seq<char>) -> Option<
    Seq<char>,
> {
    match json::member(metadata, key) {
        Some(v) => v.text(),
        None => None,
    }
}

/// The text under `key`.
pub fn metadata_text(meta: &Vec<(String, Json)>, key: &str) -> (r: Option<String>)
    ensures
        r.deep_view() == text_under(json::members_view(meta@), key@),
{
    match json::find_member(meta, key) {
        Some(Json::Str(s)) => Some(s.clone()),
        _ => None,
    }
}

/// The background job that the metadata names.
pub fn get_background_job_id(meta: &Vec<(String, Json)>) -> (r: Option<String>)
    ensures
        r.deep_view() == text_under(json::members_view(meta@), METADATA_BACKGROUND_JOB_ID@),
{
    metadata_text(meta, METADATA_BACKGROUND_JOB_ID)
}

proof fn lemma_member_update(
    members: Seq<(Seq<char>, JsonView)>,
    i: int,
    put: (Seq<char>, JsonView),
    key: Seq<char>,
)
    requires
        0 <= i < members.len(),
        members[i].0 == put.0,
        forall|k: int| 0 <= k < i ==> (#[trigger] members[k]).0 != put.0,
    ensures
        json::member(members.update(i, put), key) == if key == put.0 {
            Some(put.1)
        } else {
            json::member(members, key)
        },
    decreases i,
{
    let changed = members.update(i, put);
    if i == 0 {
        assert(changed.drop_first() =~= members.drop_first());
    } else {
        assert(members[0].0 != put.0);
        assert(changed[0] == members[0]);
        assert(changed.drop_first() =~= members.drop_first().update(i - 1, put));
        assert forall|k: int| 0 <= k < i - 1 implies (#[trigger] members.drop_first()[k]).0
            != put.0 by {
            assert(members[k + 1].0 != put.0);
        }
        lemma_member_update(members.drop_first(), i - 1, put, key);
    }
}

/// Writes `value` under `key`, in place of what was there.
pub fn set_metadata(meta: &mut Vec<(String, Json)>, key: &str, value: Json)
    ensures
        forall|k: Seq<char>|
            #[trigger] json::member(json::members_view(final(meta)@), k) == if k == key@ {
                Some(value@)
            } else {
                json::member(json::members_view(old(meta)@), k)
            },
{
    let ghost before = json::members_view(meta@);
    let ghost given = meta@;
    let mut i: usize = 0;
    while i < meta.len() && !text::same(meta[i].0.as_str(), key)
        invariant
            i <= meta@.len(),
            meta@ == given,
            before == json::members_view(given),
            forall|k: int| 0 <= k < i ==> (#[trigger] before[k]).0 != key@,
        decreases meta@.len() - i,
    {
        assert(before[i as int].0 == given[i as int].0@);
        i = i + 1;
    }
    let ghost put = (key@, value@);
    if i < meta.len() {
        meta[i] = (key.to_owned(), value);
        proof {
            assert(before[i as int].0 == given[i as int].0@);
            assert(json::members_view(meta@) =~= before.update(i as int, put));
            assert forall|k: Seq<char>|
                #[trigger] json::member(json::members_view(meta@), k) == if k == key@ {
                    Some(value@)
                } else {
                    json::member(before, k)
                } by {
                lemma_member_update(before, i as int, put, k);
            }
        }
    } else {
        meta.push((key.to_owned(), value));
        proof {
            assert(json::members_view(meta@) =~= before.push(put));
            json::lemma_member_absent(before, key@);
            assert forall|k: Seq<char>|
                #[trigger] json::member(json::members_view(meta@), k) == if k == key@ {
                    Some(value@)
                } else {
                    json::member(before, k)
                } by {
                json::lemma_member_push(before, put, k);
            }
        }
    }
}

/// The key of a session: channel, chat and thread with colons between them; the thread is
/// empty where there is none.
pub open spec fn session_key(channel: Seq<char>, chat_id: Seq<char>, thread: Option<Seq<char>>) -> Seq<
    char,
> {
    channel + ":"@ + chat_id + ":"@ + match thread {
        Some(t) => t,
        None => Seq::empty(),
    }
}

/// The key of the session of a channel, a chat and a thread.
pub fn clarification_session_key(channel: &str, chat_id: &str, thread_id: Option<&str>) -> (r: String)
    ensures
        r@ == session_key(channel@, chat_id@, thread_id.deep_view()),
{
    let mut out: String = channel.to_owned();
    out.append(":");
    out.append(chat_id);
    out.append(":");
    match thread_id {
        Some(t) => out.append(t),
        None => {
            assert(out@ + Seq::<char>::empty() =~= out@);
        },
    }
    out
}

// ---------------------------------------------------------------------------
// Laws
// ---------------------------------------------------------------------------

/// The metadata says yes by a boolean that is true, by the text `true` in any case and by the
/// text `1`. It says no by anything else, and where the key is missing.
pub proof fn law_yes_is_said_plainly(
    metadata: Seq<(Seq<char>, JsonView)>,
    key: Seq<char>,
    s: Seq<char>,
)
    ensures
        json::member(metadata, key) == Some(JsonView::Bool(true)) ==> says_yes(metadata, key),
        json::member(metadata, key) == Some(JsonView::Bool(false)) ==> !says_yes(metadata, key),
        json::member(metadata, key) == Some(JsonView::Str(s)) ==> (says_yes(metadata, key) <==> (
        text::ascii_lower(s) == "true"@ || s == "1"@)),
        json::member(metadata, key) is None ==> !says_yes(metadata, key),
        (forall|k: int| 0 <= k < metadata.len() ==> (#[trigger] metadata[k]).0 != key)
            ==> !says_yes(metadata, key) && text_under(metadata, key) is None,
        says_yes(metadata, key) ==> json::member(metadata, key) is Some && (json::member(
            metadata,
            key,
        )->0 is Bool || json::member(metadata, key)->0 is Str),
{
    reveal_strlit("true");
    assert(text::ascii_lower("true"@) =~= "true"@);
    if forall|k: int| 0 <= k < metadata.len() ==> (#[trigger] metadata[k]).0 != key {
        json::lemma_member_absent(metadata, key);
    }
}

/// The text under a key is the one that stands there; what is no text counts as none.
pub proof fn law_text_is_read_as_it_stands(
    metadata: Seq<(Seq<char>, JsonView)>,
    key: Seq<char>,
    s: Seq<char>,
)
    ensures
        json::member(metadata, key) == Some(JsonView::Str(s)) ==> text_under(metadata, key)
            == Some(s),
        text_under(metadata, key) == Some(s) ==> json::member(metadata, key) == Some(
            JsonView::Str(s),
        ),
{
}

/// Two sessions have the same key only where channel, chat and thread are the same, for channels
/// and chats without a colon in their names. No thread is as good as one without a name.
pub proof fn law_sessions_have_their_own_keys(
    a: (Seq<char>, Seq<char>, Option<Seq<char>>),
    b: (Seq<char>, Seq<char>, Option<Seq<char>>),
)
    requires
        !a.0.contains(':'),
        !a.1.contains(':'),
        !b.0.contains(':'),
        !b.1.contains(':'),
        session_key(a.0, a.1, a.2) == session_key(b.0, b.1, b.2),
    ensures
        a.0 == b.0,
        a.1 == b.1,
        a.2 == b.2 || a.2 is None && b.2 == Some(Seq::<char>::empty()) || b.2 is None && a.2
            == Some(Seq::<char>::empty()),
{
    lemma_parts_of_key(a.0, a.1, a.2);
    lemma_parts_of_key(b.0, b.1, b.2);
    let ta = thread_text(a.2);
    let tb = thread_text(b.2);
    let pa = seq![a.0, a.1] + text::split_at_char(ta, ':');
    let pb = seq![b.0, b.1] + text::split_at_char(tb, ':');
    assert(pa == pb);
    assert(pa[0] == pb[0] && pa[1] == pb[1]);
    assert(pa.skip(2) =~= text::split_at_char(ta, ':'));
    assert(pb.skip(2) =~= text::split_at_char(tb, ':'));
    text::law_split_is_undone_by_join(ta, ':');
    text::law_split_is_undone_by_join(tb, ':');
    assert(ta == tb);
}

spec fn thread_text(thread: Option<Seq<char>>) -> Seq<char> {
    match thread {
        Some(t) => t,
        None => Seq::empty(),
    }
}

proof fn lemma_parts_of_key(channel: Seq<char>, chat_id: Seq<char>, thread: Option<Seq<char>>)
    requires
        !channel.contains(':'),
        !chat_id.contains(':'),
    ensures
        text::split_at_char(session_key(channel, chat_id, thread), ':') == seq![channel, chat_id]
            + text::split_at_char(thread_text(thread), ':'),
{
    let is_sep = text::is_char(':');
    let t = thread_text(thread);
    reveal_strlit(":");
    assert(":"@ =~= seq![':']);
    assert(session_key(channel, chat_id, thread) =~= channel + seq![':'] + (chat_id + seq![':']
        + t));
    assert forall|i: int| 0 <= i < channel.len() implies !is_sep(#[trigger] channel[i]) by {
        assert(channel.contains(channel[i]));
    }
    assert forall|i: int| 0 <= i < chat_id.len() implies !is_sep(#[trigger] chat_id[i]) by {
        assert(chat_id.contains(chat_id[i]));
    }
    text::lemma_split_by_first(channel, ':', chat_id + seq![':'] + t, is_sep);
    text::lemma_split_by_first(chat_id, ':', t, is_sep);
    assert(seq![channel] + (seq![chat_id] + text::split_by(t, is_sep)) =~= seq![channel, chat_id]
        + text::split_by(t, is_sep));
}

} // verus!
