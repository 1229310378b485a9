//! One turn of an agent, step by step: when it calls the model again, when it is nudged, and
//! when and how it ends. The caller talks to the model, the tools and the memory, and hands
//! back what came of it.
use vstd::prelude::*;
use vstd::string::*;
use crate::bus::{
    set_metadata, InboundMessage, OutboundMessage, LLM_RETRY_AVAILABLE, METADATA_BACKGROUND_JOB_ID,
    TERMINAL_ERROR,
};
use crate::compaction::{
    build_compact_placeholder, identify_stale_tool_swaps, KEEP_RECENT_USER_TURNS_DEFAULT,
};
use crate::compaction;
use crate::compaction_run::{to_u32, ArchiveEntry, CompactionOutcome};
use crate::compaction_run;
use crate::context::{
    effective_context_tokens, estimate_context_tokens, repair_tool_call_context,
    trim_context_to_budget, MAX_CONTEXT_TOKENS_DEFAULT,
};
use crate::context;
use crate::doom_loop::{check_for_doom_loop_prompt, doom_loop_active_at_tail, LOOKBACK_MESSAGES};
use crate::doom_loop;
use crate::failover::build_llm_failed_banner;
use crate::failover;
use crate::json::{Json, JsonView};
use crate::json;
use crate::message::{
    strip_thinking, ChatMessage, ContentPart, ContentView, MessageContent, MessageView,
    ToolCallRequest,
};
use crate::message;
use crate::research::should_nudge_research_depth;
use crate::research;
use crate::text;
use crate::tool_call::{ToolExecutionFinished, WAITING_FOR_USER_RESULT_PREFIX};
use crate::tool_call;

verus! {

broadcast use vstd::string::group_string_axioms;

/// After how many detections in a row of a loop that goes on a turn is stopped.
pub const DOOM_LOOP_HARD_STOP_AFTER: usize = 3;

/// How many times in a row a turn is asked to call a tool.
pub const MAX_FORBID_FINAL_NUDGES: u32 = 3;

/// What a turn is told that was cancelled.
pub const CANCEL_NOTICE: &'static str =
    "Request cancelled while the agent was processing this turn.";

/// What a turn is told that has used up its steps.
pub const MAX_ITERATIONS_MESSAGE: &'static str = "Agent reached max reasoning iterations.";

/// Why a conversation that is too long once more is not compacted again.
pub const RECOVERY_EXHAUSTED: &'static str =
    "second context overflow in the same turn; recovery cap (1) exhausted";

/// What a turn is told that is stuck in a loop.
pub const STUCK_MESSAGE: &'static str =
    "Stopped: the agent kept repeating the same action with no progress and did not recover after corrective nudges. Try rephrasing the request or breaking it into smaller steps.";

/// What a model is told that gave no text after its tool calls.
pub const EMPTY_REPLY_NUDGE: &'static str =
    "[SYSTEM: You used tools but did not produce a text reply for the user. Please summarize your findings or answer the user's question now.]";

/// What a model is told that ended on plain text where it must not.
pub const USE_TOOLS_NUDGE: &'static str =
    "[SYSTEM: Continue with at least one tool call (or `ask_user` if you are blocked). Plain assistant text alone is not sufficient for this session until the objective is met.]";

/// What a model is told that searched for sources and read none.
pub const RESEARCH_NUDGE: &'static str =
    "[SYSTEM: Research depth check — you used discovery search but did not fetch primary sources. Before finalizing, use `web_fetch`/`arxiv_fetch` (and/or `hf_hub_file_fetch`) on concrete sources, cross-verify at least two sources, then synthesize findings with explicit uncertainties.]";

/// What holds for a turn from its start to its end.
#[derive(Debug, Clone, Copy)]
pub struct TurnLimits {
    pub max_iterations: usize,
    pub doom_loop_enabled: bool,
    /// Whether the turn must not end on plain text.
    pub forbid_final: bool,
}

/// What a turn does next.
#[derive(Debug, Clone, Copy, PartialEq, Eq, Structural)]
pub enum TurnPhase {
    /// The next step begins.
    StepStart,
    /// The context of the step is checked for a loop.
    CheckingLoop,
    /// The model is asked.
    AskingModel,
    /// The conversation is compacted, for it was too long for the model.
    Recovering,
    /// The tools run that the model called.
    RunningTools,
    /// The model called no tool, and its text is judged.
    JudgingText,
    /// The turn has ended.
    Ended,
}

/// How far a turn has come.
#[derive(Debug, Clone, Copy, PartialEq, Eq, Structural)]
pub struct TurnState {
    pub phase: TurnPhase,
    /// How many times the model was, or is about to be, called.
    pub iterations: usize,
    /// Whether the turn was already saved from a context that is too long.
    pub overflow_recovery_used: bool,
    /// How many times in a row a loop was found that goes on.
    pub consecutive_doom_detections: usize,
    /// The length of the last context as the provider counted it.
    pub last_prompt_tokens: Option<u32>,
    /// How many times in a row the turn was asked to call a tool.
    pub forbid_final_nudges: u32,
}

impl TurnState {
    /// Whether a turn within these limits can be in this state.
    pub open spec fn valid(self, limits: TurnLimits) -> bool {
        &&& self.iterations <= limits.max_iterations
        &&& self.phase is Ended || self.consecutive_doom_detections < DOOM_LOOP_HARD_STOP_AFTER
        &&& self.forbid_final_nudges <= MAX_FORBID_FINAL_NUDGES
    }

    /// The state in which every turn begins.
    pub open spec fn initial() -> TurnState {
        TurnState {
            phase: TurnPhase::StepStart,
            iterations: 0,
            overflow_recovery_used: false,
            consecutive_doom_detections: 0,
            last_prompt_tokens: None,
            forbid_final_nudges: 0,
        }
    }

    /// The state in which every turn begins.
    pub fn new() -> (r: Self)
        ensures
            r == TurnState::initial(),
    {
        TurnState {
            phase: TurnPhase::StepStart,
            iterations: 0,
            overflow_recovery_used: false,
            consecutive_doom_detections: 0,
            last_prompt_tokens: None,
            forbid_final_nudges: 0,
        }
    }
}

// ---------------------------------------------------------------------------
// The start of a step
// ---------------------------------------------------------------------------

/// How a step begins.
#[derive(Debug, Clone, Copy, PartialEq, Eq, Structural)]
pub enum StepStart {
    /// The model is called once more.
    Proceed,
    /// The turn was cancelled.
    Cancelled,
    /// The turn has used up its steps.
    OutOfIterations,
}

/// How a step begins, and the state in which it does.
pub open spec fn step_start(s: TurnState, limits: TurnLimits, cancelled: bool) -> (
    TurnState,
    StepStart,
) {
    if s.iterations >= limits.max_iterations {
        (TurnState { phase: TurnPhase::Ended, ..s }, StepStart::OutOfIterations)
    } else if cancelled {
        (TurnState { phase: TurnPhase::Ended, ..s }, StepStart::Cancelled)
    } else {
        (
            TurnState {
                phase: TurnPhase::CheckingLoop,
                iterations: (s.iterations + 1) as usize,
                ..s
            },
            StepStart::Proceed,
        )
    }
}

/// Begins the next step of a turn.
pub fn begin_step(state: &mut TurnState, limits: &TurnLimits, cancelled: bool) -> (r: StepStart)
    requires
        old(state).valid(*limits),
        old(state).phase is StepStart,
    ensures
        (*final(state), r) == step_start(*old(state), *limits, cancelled),
        final(state).valid(*limits),
{
    if state.iterations >= limits.max_iterations {
        state.phase = TurnPhase::Ended;
        return StepStart::OutOfIterations;
    }
    if cancelled {
        state.phase = TurnPhase::Ended;
        return StepStart::Cancelled;
    }
    state.phase = TurnPhase::CheckingLoop;
    state.iterations = state.iterations + 1;
    StepStart::Proceed
}

/// A step is taken as long as there are steps left and nobody cancels: then the model is one
/// call further, and nothing else has changed. A turn without steps left ends as such, be it
/// cancelled or not.
pub proof fn law_steps_are_taken_while_there_are_any(
    s: TurnState,
    limits: TurnLimits,
    cancelled: bool,
)
    requires
        s.valid(limits),
    ensures
        ({
            let (after, step) = step_start(s, limits, cancelled);
            &&& step is OutOfIterations <==> s.iterations == limits.max_iterations
            &&& step is Cancelled <==> cancelled && s.iterations < limits.max_iterations
            &&& step is Proceed <==> after.phase is CheckingLoop
            &&& !(step is Proceed) <==> after.phase is Ended
            &&& after.iterations == s.iterations + if step is Proceed {
                1int
            } else {
                0
            }
            &&& after.overflow_recovery_used == s.overflow_recovery_used
            &&& after.consecutive_doom_detections == s.consecutive_doom_detections
            &&& after.last_prompt_tokens == s.last_prompt_tokens
            &&& after.forbid_final_nudges == s.forbid_final_nudges
        }),
{
}

/// The messages with the content of the first message with the id replaced.
pub open spec fn content_replaced(ms: Seq<(i64, MessageView)>, id: i64, content: Seq<char>) -> Seq<
    (i64, MessageView),
>
    decreases ms.len(),
{
    if ms.len() == 0 {
        ms
    } else if ms[0].0 == id {
        ms.update(
            0,
            (id, MessageView { content: Some(ContentView::Text(content)), ..ms[0].1 }),
        )
    } else {
        seq![ms[0]] + content_replaced(ms.drop_first(), id, content)
    }
}

proof fn lemma_content_replaced_at(
    ms: Seq<(i64, MessageView)>,
    id: i64,
    content: Seq<char>,
    i: int,
)
    requires
        0 <= i < ms.len(),
        ms[i].0 == id,
        forall|k: int| 0 <= k < i ==> (#[trigger] ms[k]).0 != id,
    ensures
        content_replaced(ms, id, content) == ms.update(
            i,
            (id, MessageView { content: Some(ContentView::Text(content)), ..ms[i].1 }),
        ),
    decreases i,
{
    if i > 0 {
        assert(ms[0].0 != id);
        assert forall|k: int| 0 <= k < i - 1 implies (#[trigger] ms.drop_first()[k]).0 != id by {
            assert(ms[k + 1].0 != id);
        }
        lemma_content_replaced_at(ms.drop_first(), id, content, i - 1);
        assert(content_replaced(ms, id, content) =~= ms.update(
            i,
            (id, MessageView { content: Some(ContentView::Text(content)), ..ms[i].1 }),
        ));
    }
}

proof fn lemma_content_replaced_nowhere(ms: Seq<(i64, MessageView)>, id: i64, content: Seq<char>)
    requires
        forall|k: int| 0 <= k < ms.len() ==> (#[trigger] ms[k]).0 != id,
    ensures
        content_replaced(ms, id, content) == ms,
    decreases ms.len(),
{
    if ms.len() > 0 {
        assert(ms[0].0 != id);
        assert forall|k: int| 0 <= k < ms.len() - 1 implies (#[trigger] ms.drop_first()[k]).0
            != id by {
            assert(ms[k + 1].0 != id);
        }
        lemma_content_replaced_nowhere(ms.drop_first(), id, content);
        assert(content_replaced(ms, id, content) =~= ms);
    }
}

/// Only the first message with the id changes, and only in its content.
pub proof fn law_one_content_is_replaced(
    ms: Seq<(i64, MessageView)>,
    id: i64,
    content: Seq<char>,
    i: int,
)
    requires
        0 <= i < ms.len(),
    ensures
        content_replaced(ms, id, content).len() == ms.len(),
        content_replaced(ms, id, content)[i].0 == ms[i].0,
        ({
            let is_first = ms[i].0 == id && forall|k: int|
                0 <= k < i ==> (#[trigger] ms[k]).0 != id;
            content_replaced(ms, id, content)[i].1 == if is_first {
                MessageView { content: Some(ContentView::Text(content)), ..ms[i].1 }
            } else {
                ms[i].1
            }
        }),
{
    if exists|k: int| 0 <= k < ms.len() && (#[trigger] ms[k]).0 == id {
        let first = lemma_first_with_id(ms, id);
        lemma_content_replaced_at(ms, id, content, first);
    } else {
        lemma_content_replaced_nowhere(ms, id, content);
    }
}

proof fn lemma_first_with_id(ms: Seq<(i64, MessageView)>, id: i64) -> (first: int)
    requires
        exists|k: int| 0 <= k < ms.len() && (#[trigger] ms[k]).0 == id,
    ensures
        0 <= first < ms.len(),
        ms[first].0 == id,
        forall|k: int| 0 <= k < first ==> (#[trigger] ms[k]).0 != id,
    decreases ms.len(),
{
    let init = ms.drop_last();
    if exists|k: int| 0 <= k < init.len() && (#[trigger] init[k]).0 == id {
        let first = lemma_first_with_id(init, id);
        assert(ms[first] == init[first]);
        assert forall|k: int| 0 <= k < first implies (#[trigger] ms[k]).0 != id by {
            assert(init[k] == ms[k]);
        }
        first
    } else {
        assert forall|k: int| 0 <= k < ms.len() - 1 implies (#[trigger] ms[k]).0 != id by {
            assert(init[k] == ms[k]);
        }
        ms.len() - 1
    }
}

proof fn lemma_all_replaced_len(ms: Seq<(i64, MessageView)>, swaps: Seq<compaction::StaleSwap>)
    ensures
        all_replaced(ms, swaps).len() == ms.len(),
        forall|i: int| 0 <= i < ms.len() ==> (#[trigger] all_replaced(ms, swaps)[i]).0 == ms[i].0,
    decreases swaps.len(),
{
    if swaps.len() > 0 {
        lemma_all_replaced_len(ms, swaps.drop_last());
        let before = all_replaced(ms, swaps.drop_last());
        if ms.len() > 0 {
            law_one_content_is_replaced(before, swaps.last().0, swaps.last().4, 0);
        } else {
            lemma_content_replaced_nowhere(before, swaps.last().0, swaps.last().4);
        }
        assert forall|i: int| 0 <= i < ms.len() implies (#[trigger] all_replaced(ms, swaps)[i]).0
            == ms[i].0 by {
            law_one_content_is_replaced(before, swaps.last().0, swaps.last().4, i);
        }
    }
}

/// Where the numbers of the messages differ, the messages whose tool results are archived get
/// their placeholders, and all the others stay as they are.
pub proof fn law_archived_results_are_replaced(
    ms: Seq<(i64, MessageView)>,
    swaps: Seq<compaction::StaleSwap>,
    i: int,
)
    requires
        0 <= i < ms.len(),
        forall|a: int, b: int| 0 <= a < b < ms.len() ==> (#[trigger] ms[a]).0 != (#[trigger] ms[b]).0,
        forall|a: int, b: int|
            0 <= a < b < swaps.len() ==> (#[trigger] swaps[a]).0 != (#[trigger] swaps[b]).0,
    ensures
        (forall|j: int| 0 <= j < swaps.len() ==> (#[trigger] swaps[j]).0 != ms[i].0)
            ==> all_replaced(ms, swaps)[i] == ms[i],
        forall|j: int|
            0 <= j < swaps.len() && (#[trigger] swaps[j]).0 == ms[i].0 ==> all_replaced(ms, swaps)[i]
                == (
                ms[i].0,
                MessageView { content: Some(ContentView::Text(swaps[j].4)), ..ms[i].1 },
            ),
    decreases swaps.len(),
{
    if swaps.len() > 0 {
        let init = swaps.drop_last();
        let last = swaps.last();
        assert forall|a: int, b: int| 0 <= a < b < init.len() implies (#[trigger] init[a]).0 != (
        #[trigger] init[b]).0 by {
            assert(swaps[a].0 != swaps[b].0);
        }
        law_archived_results_are_replaced(ms, init, i);
        lemma_all_replaced_len(ms, init);
        let before = all_replaced(ms, init);
        law_one_content_is_replaced(before, last.0, last.4, i);
        assert forall|k: int| 0 <= k < i && before[i].0 == last.0 implies (
        #[trigger] before[k]).0 != last.0 by {
            assert(before[k].0 == ms[k].0);
            assert(ms[k].0 != ms[i].0);
        }
        assert forall|j: int| 0 <= j < init.len() implies (#[trigger] init[j]) == swaps[j] by {}
        assert(swaps[swaps.len() - 1] == last);
        if last.0 == ms[i].0 {
            assert forall|j: int| 0 <= j < swaps.len() && (#[trigger] swaps[j]).0
                == ms[i].0 implies j == swaps.len() - 1 by {
                if j < swaps.len() - 1 {
                    assert(swaps[j].0 != swaps[swaps.len() - 1].0);
                }
            }
            assert forall|j: int| 0 <= j < init.len() implies (#[trigger] init[j]).0 != ms[i].0 by {
                assert(swaps[j].0 != swaps[swaps.len() - 1].0);
            }
        } else {
            assert(all_replaced(ms, swaps)[i] == before[i]);
            if forall|j: int| 0 <= j < swaps.len() ==> (#[trigger] swaps[j]).0 != ms[i].0 {
                assert forall|j: int| 0 <= j < init.len() implies (#[trigger] init[j]).0
                    != ms[i].0 by {
                    assert(swaps[j].0 != ms[i].0);
                }
            }
            assert forall|j: int|
                0 <= j < swaps.len() && (#[trigger] swaps[j]).0 == ms[i].0 implies all_replaced(
                ms,
                swaps,
            )[i] == (
                ms[i].0,
                MessageView { content: Some(ContentView::Text(swaps[j].4)), ..ms[i].1 },
            ) by {
                assert(j < init.len());
                assert(init[j].0 == ms[i].0);
            }
        }
    }
}

/// Puts the placeholder of an archived tool result into the copy of the conversation that is
/// at hand.
pub fn mirror_swap(messages: &mut Vec<(i64, ChatMessage)>, id: i64, placeholder: &str)
    ensures
        final(messages).deep_view() == content_replaced(
            old(messages).deep_view(),
            id,
            placeholder@,
        ),
{
    let ghost ms = messages.deep_view();
    let mut i: usize = 0;
    while i < messages.len()
        invariant
            i <= messages@.len(),
            ms == old(messages).deep_view(),
            ms == messages.deep_view(),
            forall|k: int| 0 <= k < i ==> (#[trigger] ms[k]).0 != id,
        decreases messages@.len() - i,
    {
        assert(ms[i as int] == messages@[i as int].deep_view());
        if messages[i].0 == id {
            messages[i].1.content = Some(MessageContent::Text(placeholder.to_owned()));
            proof {
                lemma_content_replaced_at(ms, id, placeholder@, i as int);
                assert(messages.deep_view() =~= content_replaced(ms, id, placeholder@));
            }
            return;
        }
        i = i + 1;
    }
    proof {
        lemma_content_replaced_nowhere(ms, id, placeholder@);
    }
}

/// The messages with the placeholder of each archived tool result in its place.
pub open spec fn all_replaced(ms: Seq<(i64, MessageView)>, swaps: Seq<compaction::StaleSwap>) -> Seq<
    (i64, MessageView),
>
    decreases swaps.len(),
{
    if swaps.len() == 0 {
        ms
    } else {
        content_replaced(all_replaced(ms, swaps.drop_last()), swaps.last().0, swaps.last().4)
    }
}

/// What goes into the archive of the tool results that are too old, each with its placeholder.
pub open spec fn stale_archive(swaps: Seq<compaction::StaleSwap>) -> Seq<
    (Seq<char>, Seq<char>, Seq<char>, Seq<char>),
> {
    swaps.map_values(
        |s: compaction::StaleSwap| (s.1, s.3, s.2, compaction::placeholder(s.1, s.2, s.3)),
    )
}

/// The new content of the stored messages whose tool results are too old, by their ids.
pub open spec fn stale_updates(swaps: Seq<compaction::StaleSwap>) -> Seq<(i64, Seq<char>)> {
    swaps.map_values(|s: compaction::StaleSwap| (s.0, s.4))
}

/// What is archived at the start of a step.
#[derive(Debug)]
pub struct StalePlan {
    /// The conversation with its older tool results archived.
    pub conversation: Vec<ChatMessage>,
    /// What goes into the archive.
    pub archive: Vec<ArchiveEntry>,
    /// The new content of stored messages, by their ids.
    pub updates: Vec<(i64, String)>,
}

/// Plans the archiving of the tool results that are older than the latest user turns.
pub fn plan_stale_swaps(stored: Vec<(i64, ChatMessage)>) -> (r: StalePlan)
    ensures
        ({
            let swaps = compaction::stale_swaps(
                stored.deep_view(),
                KEEP_RECENT_USER_TURNS_DEFAULT as nat,
                0,
            );
            &&& r.conversation.deep_view() == compaction_run::without_ids(
                all_replaced(stored.deep_view(), swaps),
            )
            &&& r.archive@.map_values(|e: ArchiveEntry| compaction_run::entry_view(e))
                == stale_archive(swaps)
            &&& r.updates.deep_view() == stale_updates(swaps)
        }),
{
    let ghost given = stored.deep_view();
    let mut rows: Vec<(i64, ChatMessage)> = stored;
    let stale = identify_stale_tool_swaps(rows.as_slice(), KEEP_RECENT_USER_TURNS_DEFAULT);
    let ghost swaps = stale.deep_view();
    assert(swaps == compaction::stale_swaps(given, KEEP_RECENT_USER_TURNS_DEFAULT as nat, 0));
    let mut archive: Vec<ArchiveEntry> = Vec::new();
    let mut updates: Vec<(i64, String)> = Vec::new();
    let mut i: usize = 0;
    proof {
        assert(swaps.take(0) =~= Seq::empty());
        assert(archive@.map_values(|e: ArchiveEntry| compaction_run::entry_view(e))
            =~= stale_archive(swaps.take(0)));
        assert(updates.deep_view() =~= stale_updates(swaps.take(0)));
    }
    while i < stale.len()
        invariant
            i <= stale@.len(),
            swaps == stale.deep_view(),
            rows.deep_view() == all_replaced(given, swaps.take(i as int)),
            archive@.map_values(|e: ArchiveEntry| compaction_run::entry_view(e)) == stale_archive(
                swaps.take(i as int),
            ),
            updates.deep_view() == stale_updates(swaps.take(i as int)),
        decreases stale@.len() - i,
    {
        let ghost archived = archive@.map_values(|e: ArchiveEntry| compaction_run::entry_view(e));
        let ghost updated = updates.deep_view();
        let swap = &stale[i];
        mirror_swap(&mut rows, swap.0, swap.4.as_str());
        let entry = ArchiveEntry {
            tool_call_id: swap.1.clone(),
            full_content: swap.3.clone(),
            tool_name: swap.2.clone(),
            compact_summary: build_compact_placeholder(
                swap.1.as_str(),
                swap.2.as_str(),
                swap.3.as_str(),
            ),
        };
        archive.push(entry);
        updates.push((swap.0, swap.4.clone()));
        proof {
            assert(swaps[i as int] == stale@[i as int].deep_view());
            assert(swaps.take(i + 1).drop_last() =~= swaps.take(i as int));
            assert(archive@.map_values(|e: ArchiveEntry| compaction_run::entry_view(e))
                =~= archived.push(compaction_run::entry_view(entry)));
            assert(stale_archive(swaps.take(i + 1)) =~= archived.push(
                compaction_run::entry_view(entry),
            ));
            assert(updates.deep_view() =~= updated.push((swap.0, swap.4@)));
            assert(stale_updates(swaps.take(i + 1)) =~= updated.push((swap.0, swap.4@)));
        }
        i = i + 1;
    }
    assert(swaps.take(i as int) =~= swaps);
    StalePlan { conversation: compaction_run::drop_ids(rows), archive, updates }
}

/// The messages that are not the system's.
pub open spec fn without_system(ms: Seq<MessageView>) -> Seq<MessageView> {
    ms.filter(|m: MessageView| m.role != "system"@)
}

/// The context of a step: the system prompt, and the conversation without older system
/// prompts and with every interrupted tool call answered.
pub open spec fn step_context(system_body: Seq<char>, conversation: Seq<MessageView>) -> Seq<
    MessageView,
> {
    seq![message::plain_message("system"@, system_body)] + context::repaired(
        without_system(conversation),
    )
}

/// Puts the context of a step together.
pub fn assemble_context(system_body: &str, conversation: Vec<ChatMessage>) -> (r: Vec<ChatMessage>)
    ensures
        r.deep_view() == step_context(system_body@, conversation.deep_view()),
{
    let ghost given = conversation@;
    let ghost ms = conversation.deep_view();
    let ghost keep = |m: MessageView| m.role != "system"@;
    let mut kept: Vec<ChatMessage> = Vec::new();
    proof {
        reveal(Seq::filter);
        assert(kept.deep_view() =~= ms.take(0).filter(keep));
    }
    for m in it: conversation
        invariant
            it.seq() == given,
            ms.len() == given.len(),
            forall|k: int| 0 <= k < ms.len() ==> #[trigger] ms[k] == given[k].deep_view(),
            keep == (|m: MessageView| m.role != "system"@),
            kept.deep_view() == ms.take(it.index()).filter(keep),
    {
        let ghost so_far = kept.deep_view();
        proof {
            reveal(Seq::filter);
            assert(ms.take(it.index() + 1).drop_last() =~= ms.take(it.index()));
            assert(ms[it.index()] == m.deep_view());
        }
        if !text::same(m.role.as_str(), "system") {
            kept.push(m);
            assert(kept.deep_view() =~= so_far.push(m.deep_view()));
        }
    }
    assert(ms.take(ms.len() as int) =~= ms);
    repair_tool_call_context(&mut kept);
    let ghost repaired = kept.deep_view();
    let system = ChatMessage::system(system_body);
    kept.insert(0, system);
    assert(kept.deep_view() =~= seq![system.deep_view()] + repaired);
    kept
}

/// The context of a step begins with the system prompt, the only message of the system in
/// it, and holds every other message of the conversation. It is nothing but that where every
/// tool call is answered.
pub proof fn law_step_sees_the_whole_conversation(
    system_body: Seq<char>,
    conversation: Seq<MessageView>,
    i: int,
    j: int,
)
    ensures
        ({
            let context = step_context(system_body, conversation);
            let spoken = conversation.filter(|m: MessageView| m.role != "system"@);
            &&& context.len() >= 1
            &&& context[0].role == "system"@
            &&& context[0].content == Some(ContentView::Text(system_body))
            &&& 0 < j < context.len() ==> context[j].role != "system"@
            &&& 0 <= i < conversation.len() && conversation[i].role != "system"@
                ==> context.contains(conversation[i])
            &&& context::all_calls_answered(spoken) ==> context.skip(1) == spoken
            &&& context::all_calls_answered(context.skip(1))
        }),
{
    broadcast use vstd::seq_lib::group_filter_ensures;

    let keep = |m: MessageView| m.role != "system"@;
    let spoken = conversation.filter(keep);
    let context = step_context(system_body, conversation);
    let rest = context::repaired(spoken);
    assert(context.skip(1) =~= rest);
    context::law_repair_answers_every_call(spoken);
    if context::all_calls_answered(spoken) {
        context::law_repair_leaves_answered_context(spoken);
    }
    if 0 < j < context.len() {
        context::law_repair_adds_results_only(spoken, j - 1);
        reveal_strlit("system");
        reveal_strlit("tool");
        assert("system"@[0] != "tool"@[0]);
        assert(context[j] == rest[j - 1]);
        if spoken.contains(rest[j - 1]) {
            let k = choose|k: int| 0 <= k < spoken.len() && spoken[k] == rest[j - 1];
            assert(keep(spoken[k]));
        }
    }
    if 0 <= i < conversation.len() && conversation[i].role != "system"@ {
        conversation.lemma_filter_contains(keep, i);
        let k = choose|k: int| 0 <= k < spoken.len() && spoken[k] == conversation[i];
        context::law_repair_keeps_every_message(spoken, k);
        let at = choose|at: int| 0 <= at < rest.len() && rest[at] == conversation[i];
        assert(context[at + 1] == conversation[i]);
    }
}

/// The message with which a turn opens.
pub open spec fn opening(content: Seq<char>, attachments: Seq<message::PartView>) -> MessageView {
    if attachments.len() == 0 {
        message::plain_message("user"@, content)
    } else {
        MessageView {
            content: Some(
                ContentView::Parts(seq![message::PartView::Text(content)] + attachments),
            ),
            ..message::plain_message("user"@, content)
        }
    }
}

/// A turn opens with what the user wrote, as a message of a user, and with all that goes with
/// it in its order.
pub proof fn law_turn_opens_with_what_came(content: Seq<char>, attachments: Seq<message::PartView>)
    ensures
        opening(content, attachments).role == "user"@,
        opening(content, attachments).tool_calls is None,
        opening(content, attachments).tool_call_id is None,
        attachments.len() == 0 ==> opening(content, attachments).content == Some(
            ContentView::Text(content),
        ),
        attachments.len() > 0 ==> (opening(content, attachments).content matches Some(
            ContentView::Parts(parts),
        ) && parts.len() == attachments.len() + 1 && parts[0] == message::PartView::Text(content)
            && parts.skip(1) == attachments),
{
    if attachments.len() > 0 {
        assert((seq![message::PartView::Text(content)] + attachments).skip(1) =~= attachments);
    }
}

/// Writes the message with which a turn opens: plain text, unless something goes with it.
pub fn opening_message(content: &str, attachments: Vec<ContentPart>) -> (r: ChatMessage)
    ensures
        r.deep_view() == opening(content@, attachments.deep_view()),
{
    if attachments.len() == 0 {
        ChatMessage::user(content)
    } else {
        ChatMessage::user_multimodal(content, attachments)
    }
}

// ---------------------------------------------------------------------------
// Loops
// ---------------------------------------------------------------------------

/// What the check for a loop comes to.
#[derive(Debug)]
pub enum LoopCheck {
    /// There is no loop.
    Clear,
    /// There is a loop, or was one: the model is told so.
    Nudge(String),
    /// The loop goes on after all that the model was told: the turn is stopped.
    Stop,
}

/// What the check for a loop comes to in the abstract.
pub enum LoopVerdict {
    Clear,
    Nudge(Seq<char>),
    Stop,
}

/// How the count of detections goes on, and what the check comes to.
pub open spec fn loop_verdict(
    detections: nat,
    enabled: bool,
    sigs: Seq<doom_loop::SignatureView>,
) -> (nat, LoopVerdict) {
    if !enabled {
        (detections, LoopVerdict::Clear)
    } else {
        match doom_loop::loop_prompt(sigs) {
            None => (0, LoopVerdict::Clear),
            Some(prompt) => if !doom_loop::active_at_tail(sigs) {
                (0, LoopVerdict::Nudge(prompt))
            } else if detections + 1 >= DOOM_LOOP_HARD_STOP_AFTER {
                (detections + 1, LoopVerdict::Stop)
            } else {
                (detections + 1, LoopVerdict::Nudge(prompt))
            },
        }
    }
}

/// The state in which a turn goes on after the check for a loop.
pub open spec fn after_loop_check(
    s: TurnState,
    limits: TurnLimits,
    sigs: Seq<doom_loop::SignatureView>,
) -> TurnState {
    let (detections, verdict) = loop_verdict(
        s.consecutive_doom_detections as nat,
        limits.doom_loop_enabled,
        sigs,
    );
    TurnState {
        phase: if verdict is Stop {
            TurnPhase::Ended
        } else {
            TurnPhase::AskingModel
        },
        consecutive_doom_detections: detections as usize,
        ..s
    }
}

/// Checks the context of a step for a loop.
pub fn check_for_loop(state: &mut TurnState, limits: &TurnLimits, context: &[ChatMessage]) -> (r:
    LoopCheck)
    requires
        old(state).valid(*limits),
        old(state).phase is CheckingLoop,
    ensures
        ({
            let sigs = doom_loop::recent_signatures(context.deep_view(), LOOKBACK_MESSAGES as nat);
            &&& *final(state) == after_loop_check(*old(state), *limits, sigs)
            &&& match loop_verdict(
                old(state).consecutive_doom_detections as nat,
                limits.doom_loop_enabled,
                sigs,
            ).1 {
                LoopVerdict::Clear => r is Clear,
                LoopVerdict::Nudge(prompt) => r matches LoopCheck::Nudge(p) && p@ == prompt,
                LoopVerdict::Stop => r is Stop,
            }
        }),
        final(state).valid(*limits),
{
    state.phase = TurnPhase::AskingModel;
    if !limits.doom_loop_enabled {
        return LoopCheck::Clear;
    }
    match check_for_doom_loop_prompt(context) {
        None => {
            state.consecutive_doom_detections = 0;
            LoopCheck::Clear
        },
        Some(prompt) => {
            if doom_loop_active_at_tail(context) {
                state.consecutive_doom_detections = state.consecutive_doom_detections + 1;
                if state.consecutive_doom_detections >= DOOM_LOOP_HARD_STOP_AFTER {
                    state.phase = TurnPhase::Ended;
                    return LoopCheck::Stop;
                }
            } else {
                state.consecutive_doom_detections = 0;
            }
            LoopCheck::Nudge(prompt)
        },
    }
}

/// How many detections are counted after these observations: how many of the last in a row
/// found a loop that goes on.
pub open spec fn detections_after(active: Seq<bool>) -> nat
    decreases active.len(),
{
    if active.len() == 0 {
        0
    } else if active.last() {
        detections_after(active.drop_last()) + 1
    } else {
        0
    }
}

/// A turn is stopped only after three detections in a row of a loop that goes on: one check
/// that finds the loop left behind starts the count anew.
pub proof fn law_stop_needs_three_in_a_row(active: Seq<bool>)
    ensures
        detections_after(active) >= DOOM_LOOP_HARD_STOP_AFTER <==> (active.len() >= 3
            && active[active.len() - 1] && active[active.len() - 2] && active[active.len() - 3]),
{
    reveal_with_fuel(detections_after, 4);
    if active.len() >= 1 {
        let a = active.drop_last();
        assert(active.len() >= 2 ==> a.last() == active[active.len() - 2]);
        if active.len() >= 2 {
            let b = a.drop_last();
            assert(active.len() >= 3 ==> b.last() == active[active.len() - 3]);
        }
    }
}

/// Where the check is on, it comes to nothing if and only if there is nothing to tell of: a
/// loop that is found is told of in exactly the words for it, unless the turn is stopped. It
/// is stopped if and only if the loop goes on and was found twice before in a row. Where the
/// check is off, nothing is told and nothing counted.
pub proof fn law_every_loop_is_told_of(
    detections: nat,
    sigs: Seq<doom_loop::SignatureView>,
)
    ensures
        loop_verdict(detections, true, sigs).1 is Clear <==> doom_loop::loop_prompt(sigs) is None,
        loop_verdict(detections, true, sigs).1 is Stop <==> (doom_loop::loop_prompt(sigs) is Some
            && doom_loop::active_at_tail(sigs) && detections + 1 >= 3),
        loop_verdict(detections, true, sigs).1 matches LoopVerdict::Nudge(p) ==> Some(p)
            == doom_loop::loop_prompt(sigs),
        loop_verdict(detections, false, sigs) == (detections, LoopVerdict::Clear),
{
}

/// The check ends the turn if and only if it stops it, and else lets the model be asked;
/// nothing but the count of detections changes besides.
pub proof fn law_check_ends_stopped_turns_only(
    s: TurnState,
    limits: TurnLimits,
    sigs: Seq<doom_loop::SignatureView>,
)
    ensures
        ({
            let after = after_loop_check(s, limits, sigs);
            let stopped = limits.doom_loop_enabled && doom_loop::loop_prompt(sigs) is Some
                && doom_loop::active_at_tail(sigs) && s.consecutive_doom_detections + 1 >= 3;
            &&& after.phase is Ended <==> stopped
            &&& after.phase is AskingModel <==> !stopped
            &&& after.iterations == s.iterations
            &&& after.overflow_recovery_used == s.overflow_recovery_used
            &&& after.last_prompt_tokens == s.last_prompt_tokens
            &&& after.forbid_final_nudges == s.forbid_final_nudges
        }),
{
}

/// The count that the check keeps is that of the last detections in a row.
pub proof fn law_check_counts_detections(
    active: Seq<bool>,
    sigs: Seq<doom_loop::SignatureView>,
)
    ensures
        loop_verdict(detections_after(active), true, sigs).0 == detections_after(
            active.push(
                doom_loop::loop_prompt(sigs) is Some && doom_loop::active_at_tail(sigs),
            ),
        ),
{
    let now = doom_loop::loop_prompt(sigs) is Some && doom_loop::active_at_tail(sigs);
    assert(active.push(now).drop_last() =~= active);
}

/// The context that goes to the model: with what it is told about a loop, and cut down to
/// the budget.
pub open spec fn finished_context(ms: Seq<MessageView>, correction: Option<Seq<char>>) -> Seq<
    MessageView,
> {
    context::trimmed_context(
        match correction {
            Some(c) => ms.push(message::plain_message("user"@, c)),
            None => ms,
        },
        MAX_CONTEXT_TOKENS_DEFAULT as nat,
    )
}

/// Finishes the context that goes to the model: puts in what it is told about a loop, and cuts
/// it down to the budget.
pub fn finish_context(context: &mut Vec<ChatMessage>, correction: Option<&str>)
    requires
        context::context_bytes(old(context).deep_view()) + match correction {
            Some(c) => text::byte_len(c@),
            None => 0,
        } <= usize::MAX,
    ensures
        final(context).deep_view() == finished_context(
            old(context).deep_view(),
            correction.deep_view(),
        ),
{
    let ghost ms = context.deep_view();
    if let Some(c) = correction {
        let told = ChatMessage::user(c);
        context.push(told);
        proof {
            assert(context.deep_view() =~= ms.push(told.deep_view()));
            lemma_context_bytes_push(ms, told.deep_view());
        }
    }
    trim_context_to_budget(context, MAX_CONTEXT_TOKENS_DEFAULT);
}

proof fn lemma_context_bytes_push(ms: Seq<MessageView>, m: MessageView)
    ensures
        context::context_bytes(ms.push(m)) == context::context_bytes(ms) + context::message_bytes(
            m,
        ),
    decreases ms.len(),
{
    if ms.len() == 0 {
        reveal_with_fuel(context::context_bytes, 2);
        assert(ms.push(m).drop_first() =~= Seq::<MessageView>::empty());
    } else {
        assert(ms.push(m).drop_first() =~= ms.drop_first().push(m));
        lemma_context_bytes_push(ms.drop_first(), m);
    }
}

// ---------------------------------------------------------------------------
// What the model's answer comes to
// ---------------------------------------------------------------------------

/// What a context that is too long leads to.
#[derive(Debug, Clone, Copy, PartialEq, Eq, Structural)]
pub enum OverflowStep {
    /// The conversation is compacted, and the model called again.
    Compact,
    /// The turn fails.
    GiveUp,
}

/// The state in which a turn goes on after the context was too long for the model.
pub open spec fn overflowed(s: TurnState) -> TurnState {
    TurnState {
        phase: if s.overflow_recovery_used {
            TurnPhase::Ended
        } else {
            TurnPhase::Recovering
        },
        overflow_recovery_used: true,
        ..s
    }
}

/// What a context that was too long for the model leads to: a turn is saved once.
pub open spec fn overflow_step(s: TurnState) -> OverflowStep {
    if s.overflow_recovery_used {
        OverflowStep::GiveUp
    } else {
        OverflowStep::Compact
    }
}

/// Goes on after the context was too long for the model: a turn is saved once.
pub fn after_overflow(state: &mut TurnState) -> (r: OverflowStep)
    requires
        old(state).phase is AskingModel,
    ensures
        r == overflow_step(*old(state)),
        *final(state) == overflowed(*old(state)),
{
    if state.overflow_recovery_used {
        state.phase = TurnPhase::Ended;
        OverflowStep::GiveUp
    } else {
        state.phase = TurnPhase::Recovering;
        state.overflow_recovery_used = true;
        OverflowStep::Compact
    }
}

/// What the compaction of a context that was too long leads to.
#[derive(Debug, Clone, Copy, PartialEq, Eq, Structural)]
pub enum RecoveryStep {
    Retry,
    Cancelled,
    GiveUp,
}

/// The state in which a turn goes on after the compaction of a context that was too long.
pub open spec fn recovered(s: TurnState, outcome: CompactionOutcome) -> TurnState {
    match outcome {
        CompactionOutcome::Succeeded => TurnState {
            phase: TurnPhase::StepStart,
            last_prompt_tokens: None,
            ..s
        },
        _ => TurnState { phase: TurnPhase::Ended, ..s },
    }
}

/// What the outcome of that compaction leads to.
pub open spec fn recovery_step(outcome: CompactionOutcome) -> RecoveryStep {
    match outcome {
        CompactionOutcome::Succeeded => RecoveryStep::Retry,
        CompactionOutcome::Cancelled => RecoveryStep::Cancelled,
        CompactionOutcome::Failed => RecoveryStep::GiveUp,
    }
}

/// Goes on after the compaction of a context that was too long. What the provider counted
/// for the longer context is forgotten where the compaction succeeded.
pub fn after_recovery(state: &mut TurnState, outcome: CompactionOutcome) -> (r: RecoveryStep)
    requires
        old(state).phase is Recovering,
    ensures
        r == recovery_step(outcome),
        *final(state) == recovered(*old(state), outcome),
{
    match outcome {
        CompactionOutcome::Succeeded => {
            state.phase = TurnPhase::StepStart;
            state.last_prompt_tokens = None;
            RecoveryStep::Retry
        },
        CompactionOutcome::Cancelled => {
            state.phase = TurnPhase::Ended;
            RecoveryStep::Cancelled
        },
        CompactionOutcome::Failed => {
            state.phase = TurnPhase::Ended;
            RecoveryStep::GiveUp
        },
    }
}

/// The text for a number that may not be known.
pub open spec fn number_or_question_mark(n: Option<u32>) -> Seq<char> {
    match n {
        Some(n) => text::decimal(n as nat),
        None => "?"@,
    }
}

/// The error of a turn whose context is too long.
pub open spec fn overflow_error(tokens_attempted: u32, max: Option<u32>) -> Seq<char> {
    "Context overflow: input exceeds the model's window (attempted="@ + text::decimal(
        tokens_attempted as nat,
    ) + " max="@ + number_or_question_mark(max)
        + "). Reduce the conversation length and retry."@
}

/// Writes the error of a turn whose context is too long.
pub fn overflow_error_text(tokens_attempted: u32, max: Option<u32>) -> (r: String)
    ensures
        r@ == overflow_error(tokens_attempted, max),
{
    let attempted: String = text::decimal_text(tokens_attempted as u64);
    let mut out: String = "Context overflow: input exceeds the model's window (attempted=".to_owned();
    out.append(attempted.as_str());
    out.append(" max=");
    match max {
        Some(n) => {
            let limit: String = text::decimal_text(n as u64);
            out.append(limit.as_str());
        },
        None => out.append("?"),
    }
    out.append("). Reduce the conversation length and retry.");
    out
}

/// What is stored of a turn that failed: an error after the attempts are used up, or one
/// that is not tried again.
pub open spec fn stored_failure(error: Seq<char>, after_attempts: bool) -> Seq<char> {
    if after_attempts {
        failover::banner_text(error)
    } else {
        "LLM call failed: "@ + error + "\nPress /retry to try again or /cancel to abandon."@
    }
}

/// Writes what is stored of a turn that failed.
pub fn stored_failure_text(error: &str, after_attempts: bool) -> (r: String)
    ensures
        r@ == stored_failure(error@, after_attempts),
{
    let mut out: String = if after_attempts {
        "LLM call failed after 3 attempts: ".to_owned()
    } else {
        "LLM call failed: ".to_owned()
    };
    out.append(error);
    out.append("\nPress /retry to try again or /cancel to abandon.");
    out
}

/// The metadata with the background job of a message written on it, where it has one.
pub open spec fn with_job(
    metadata: Seq<(Seq<char>, JsonView)>,
    inbound: Seq<(Seq<char>, JsonView)>,
    k: Seq<char>,
) -> Option<JsonView> {
    match json::member(inbound, METADATA_BACKGROUND_JOB_ID@) {
        Some(job) => if k == METADATA_BACKGROUND_JOB_ID@ {
            Some(job)
        } else {
            json::member(metadata, k)
        },
        None => json::member(metadata, k),
    }
}

fn copy_job(metadata: &mut Vec<(String, Json)>, inbound: &Vec<(String, Json)>)
    ensures
        forall|k: Seq<char>|
            #[trigger] json::member(json::members_view(final(metadata)@), k) == with_job(
                json::members_view(old(metadata)@),
                json::members_view(inbound@),
                k,
            ),
{
    if let Some(job) = json::find_member(inbound, METADATA_BACKGROUND_JOB_ID) {
        set_metadata(metadata, METADATA_BACKGROUND_JOB_ID, job.duplicate());
    }
}

/// Writes the banner for a turn that failed. It names the background job that the turn
/// belongs to.
pub fn failure_banner(inbound: &InboundMessage, error: &str) -> (r: OutboundMessage)
    ensures
        r.channel@ == inbound.channel@,
        r.chat_id@ == inbound.chat_id@,
        r.thread_id.deep_view() == inbound.thread_id.deep_view(),
        r.content@ == failover::banner_text(error@),
        forall|k: Seq<char>|
            #[trigger] json::member(json::members_view(r.metadata@), k) == if k
                == METADATA_BACKGROUND_JOB_ID@ {
                json::member(json::members_view(inbound.metadata@), k)
            } else if inbound.channel@ == "terminal"@ && (k == TERMINAL_ERROR@ || k
                == LLM_RETRY_AVAILABLE@) {
                Some(JsonView::Bool(true))
            } else {
                None
            },
{
    let thread: Option<&str> = match &inbound.thread_id {
        Some(t) => Some(t.as_str()),
        None => None,
    };
    let mut banner = build_llm_failed_banner(
        inbound.channel.as_str(),
        inbound.chat_id.as_str(),
        thread,
        error,
    );
    copy_job(&mut banner.metadata, &inbound.metadata);
    proof {
        reveal_strlit("isanagent_background_job_id");
        reveal_strlit("isanagent_terminal_error");
        reveal_strlit("isanagent_llm_retry_available");
        assert(METADATA_BACKGROUND_JOB_ID@.len() != TERMINAL_ERROR@.len());
        assert(METADATA_BACKGROUND_JOB_ID@.len() != LLM_RETRY_AVAILABLE@.len());
    }
    banner
}

/// The state in which a turn goes on after the model answered: with the length of the
/// context by the provider's count, where it gave one, and the number of tools called.
pub open spec fn answered(s: TurnState, prompt_tokens: Option<u32>, tool_calls: nat) -> TurnState {
    TurnState {
        phase: if tool_calls > 0 {
            TurnPhase::RunningTools
        } else {
            TurnPhase::JudgingText
        },
        last_prompt_tokens: match prompt_tokens {
            Some(n) if n > 0 => Some(n),
            _ => s.last_prompt_tokens,
        },
        ..s
    }
}

/// Goes on after the model answered.
pub fn after_answer(state: &mut TurnState, prompt_tokens: Option<u32>, tool_calls: usize)
    requires
        old(state).phase is AskingModel,
    ensures
        *final(state) == answered(*old(state), prompt_tokens, tool_calls as nat),
{
    if let Some(n) = prompt_tokens {
        if n > 0 {
            state.last_prompt_tokens = Some(n);
        }
    }
    state.phase = if tool_calls > 0 {
        TurnPhase::RunningTools
    } else {
        TurnPhase::JudgingText
    };
}

/// Ends a turn whose model could not be asked, or that was cancelled meanwhile.
pub fn end_turn(state: &mut TurnState)
    ensures
        *final(state) == (TurnState { phase: TurnPhase::Ended, ..*old(state) }),
{
    state.phase = TurnPhase::Ended;
}

/// The message of a model that calls tools, or that calls none.
pub open spec fn spoken_message(
    said: Seq<char>,
    tool_calls: Option<Seq<message::ToolCallView>>,
    reasoning: Option<Seq<char>>,
) -> MessageView {
    MessageView {
        role: "assistant"@,
        content: if tool_calls is Some && said.len() == 0 {
            None
        } else {
            Some(ContentView::Text(said))
        },
        name: None,
        tool_calls,
        tool_call_id: None,
        reasoning_content: reasoning,
        is_error: None,
    }
}

/// The message of a model that calls tools.
pub fn tool_calling_message(
    response_text: &str,
    tool_calls: Vec<ToolCallRequest>,
    reasoning_content: Option<String>,
) -> (r: ChatMessage)
    ensures
        r.deep_view() == spoken_message(
            response_text@,
            Some(tool_calls.deep_view()),
            reasoning_content.deep_view(),
        ),
{
    ChatMessage {
        role: "assistant".to_owned(),
        content: if response_text.is_empty() {
            None
        } else {
            Some(MessageContent::Text(response_text.to_owned()))
        },
        name: None,
        tool_calls: Some(tool_calls),
        tool_call_id: None,
        reasoning_content,
        is_error: None,
    }
}

/// The message of a model that calls no tools.
pub fn text_message(response_text: &str, reasoning_content: Option<String>) -> (r: ChatMessage)
    ensures
        r.deep_view() == spoken_message(response_text@, None, reasoning_content.deep_view()),
{
    let mut m = ChatMessage::assistant(response_text);
    m.reasoning_content = reasoning_content;
    m
}

/// Whether the calls of one answer can run side by side: there are several, each of a tool
/// that allows it, and the agent is no sub-agent.
pub open spec fn run_side_by_side(is_subagent: bool, parallel_safe: Seq<bool>) -> bool {
    !is_subagent && parallel_safe.len() > 1 && forall|i: int|
        0 <= i < parallel_safe.len() ==> #[trigger] parallel_safe[i]
}

/// Decides whether the calls of one answer run side by side.
pub fn may_run_in_parallel(is_subagent: bool, parallel_safe: &[bool]) -> (r: bool)
    ensures
        r == run_side_by_side(is_subagent, parallel_safe@),
{
    if is_subagent || parallel_safe.len() <= 1 {
        return false;
    }
    let mut i: usize = 0;
    while i < parallel_safe.len()
        invariant
            i <= parallel_safe@.len(),
            forall|k: int| 0 <= k < i ==> #[trigger] parallel_safe@[k],
        decreases parallel_safe@.len() - i,
    {
        if !parallel_safe[i] {
            return false;
        }
        i = i + 1;
    }
    true
}

/// The arguments of a tool call: an empty object where their text is no JSON.
pub fn tool_arguments(parsed: Option<Json>) -> (r: Json)
    ensures
        match parsed {
            Some(v) => r == v,
            None => r@ == JsonView::Object(Seq::empty()),
        },
{
    match parsed {
        Some(v) => v,
        None => {
            let empty = Json::Object(Vec::new());
            assert(empty@->Object_0 =~= Seq::<(Seq<char>, JsonView)>::empty());
            empty
        },
    }
}

/// What the model sees of a tool's result.
pub open spec fn tool_output(res: Result<Seq<char>, Seq<char>>, max: nat) -> Seq<char> {
    match res {
        Ok(s) => text::truncate_utf8(s, max, "\n... [TRUNCATED FOR LENGTH]"@),
        Err(e) => "Error: "@ + e,
    }
}

/// Writes what the model sees of a tool's result: no more than `max_tool_output_chars` bytes
/// of an output, and an error with its mark.
pub fn finalize_tool_output(res: Result<String, String>, max_tool_output_chars: usize) -> (r: String)
    ensures
        r@ == tool_output(tool_call::result_view(res), max_tool_output_chars as nat),
{
    match res {
        Ok(output) => {
            let mut output: String = output;
            text::truncate_utf8_safe(
                &mut output,
                max_tool_output_chars,
                "\n... [TRUNCATED FOR LENGTH]",
            );
            output
        },
        Err(e) => {
            let mut out: String = "Error: ".to_owned();
            out.append(e.as_str());
            out
        },
    }
}

/// What a tool call that ended leads to.
#[derive(Debug)]
pub enum ToolFollowUp {
    /// The result goes into the conversation.
    Record(Result<String, String>),
    /// The turn ends with this result, and waits for the user.
    Wait(String),
    /// The turn was cancelled.
    Cancelled,
}

/// The state in which a turn goes on after a tool call, where `more` tells whether another
/// call of the same answer follows.
pub open spec fn tool_called(s: TurnState, completed: bool, more: bool) -> TurnState {
    if completed {
        TurnState {
            phase: if more {
                TurnPhase::RunningTools
            } else {
                TurnPhase::StepStart
            },
            forbid_final_nudges: 0,
            ..s
        }
    } else {
        TurnState { phase: TurnPhase::Ended, ..s }
    }
}

/// Whether this is what a tool call that ended leads to.
pub open spec fn follows_call(r: ToolFollowUp, finished: ToolExecutionFinished) -> bool {
    match finished {
        ToolExecutionFinished::Completed(res) => r == ToolFollowUp::Record(res),
        ToolExecutionFinished::Waiting(ticket) => r matches ToolFollowUp::Wait(result) && result@
            == WAITING_FOR_USER_RESULT_PREFIX@ + ticket@,
        ToolExecutionFinished::Cancelled => r is Cancelled,
    }
}

/// Goes on after a tool call. The turn may be asked again to call a tool.
pub fn after_tool_call(state: &mut TurnState, finished: ToolExecutionFinished, more: bool) -> (r:
    ToolFollowUp)
    requires
        old(state).phase is RunningTools,
    ensures
        follows_call(r, finished),
        *final(state) == tool_called(*old(state), finished is Completed, more),
{
    match finished {
        ToolExecutionFinished::Completed(res) => {
            state.phase = if more {
                TurnPhase::RunningTools
            } else {
                TurnPhase::StepStart
            };
            state.forbid_final_nudges = 0;
            ToolFollowUp::Record(res)
        },
        ToolExecutionFinished::Waiting(ticket) => {
            state.phase = TurnPhase::Ended;
            let mut result: String = WAITING_FOR_USER_RESULT_PREFIX.to_owned();
            result.append(ticket.as_str());
            ToolFollowUp::Wait(result)
        },
        ToolExecutionFinished::Cancelled => {
            state.phase = TurnPhase::Ended;
            ToolFollowUp::Cancelled
        },
    }
}

/// What an answer without tool calls leads to.
#[derive(Debug, Clone, Copy, PartialEq, Eq, Structural)]
pub enum TextStep {
    /// The model is asked for a text.
    AskForText,
    /// The model is asked to call a tool.
    AskForTools,
    /// The model is asked to read its sources.
    AskForSources,
    /// The answer is the turn's result.
    Finish,
}

/// What an answer without tool calls leads to, and the state in which the turn goes on.
pub open spec fn text_step(
    s: TurnState,
    limits: TurnLimits,
    blank: bool,
    sources_unread: bool,
) -> (TurnState, TextStep) {
    let more = s.iterations < limits.max_iterations;
    let again = TurnState { phase: TurnPhase::StepStart, ..s };
    if blank && s.iterations > 1 && more {
        (again, TextStep::AskForText)
    } else if limits.forbid_final && more && s.forbid_final_nudges < MAX_FORBID_FINAL_NUDGES {
        (
            TurnState { forbid_final_nudges: (s.forbid_final_nudges + 1) as u32, ..again },
            TextStep::AskForTools,
        )
    } else if sources_unread && more {
        (again, TextStep::AskForSources)
    } else {
        (TurnState { phase: TurnPhase::Ended, ..s }, TextStep::Finish)
    }
}

/// Goes on after an answer without tool calls.
pub fn after_text(
    state: &mut TurnState,
    limits: &TurnLimits,
    response_text: &str,
    inbound: &InboundMessage,
    context: &[ChatMessage],
) -> (r: TextStep)
    requires
        old(state).valid(*limits),
        old(state).phase is JudgingText,
    ensures
        (*final(state), r) == text_step(
            *old(state),
            *limits,
            text::trim(response_text@).len() == 0,
            research::asks_for_research(inbound.content@) && research::has_searched(
                context.deep_view(),
            ) && !research::has_read_sources(context.deep_view()),
        ),
        final(state).valid(*limits),
{
    let more: bool = state.iterations < limits.max_iterations;
    state.phase = TurnPhase::StepStart;
    let trimmed: String = text::trimmed(response_text);
    if trimmed.as_str().is_empty() && state.iterations > 1 && more {
        return TextStep::AskForText;
    }
    let sources_unread: bool = more && should_nudge_research_depth(inbound, context);
    if limits.forbid_final && more && state.forbid_final_nudges < MAX_FORBID_FINAL_NUDGES {
        state.forbid_final_nudges = state.forbid_final_nudges + 1;
        return TextStep::AskForTools;
    }
    if sources_unread {
        return TextStep::AskForSources;
    }
    state.phase = TurnPhase::Ended;
    TextStep::Finish
}

/// An answer without tool calls is the result of the turn, unless there are steps left and
/// one of three things holds, of which the first decides: it is blank though it is not the
/// first, plain text must not end the turn and fewer than three requests in a row said so, or
/// sources were searched for and not read. Only a request to call a tool is counted.
pub proof fn law_answer_ends_the_turn_unless_asked_again(
    s: TurnState,
    limits: TurnLimits,
    blank: bool,
    sources_unread: bool,
)
    requires
        s.valid(limits),
    ensures
        ({
            let (after, step) = text_step(s, limits, blank, sources_unread);
            let more = s.iterations < limits.max_iterations;
            let empty = more && blank && s.iterations > 1;
            let forbidden = more && limits.forbid_final && s.forbid_final_nudges < 3;
            let unread = more && sources_unread;
            &&& step is AskForText <==> empty
            &&& step is AskForTools <==> forbidden && !empty
            &&& step is AskForSources <==> unread && !empty && !forbidden
            &&& step is Finish <==> !empty && !forbidden && !unread
            &&& step is Finish <==> after.phase is Ended
            &&& !(step is Finish) <==> after.phase is StepStart
            &&& after.forbid_final_nudges == s.forbid_final_nudges + if step is AskForTools {
                1int
            } else {
                0
            }
            &&& after.iterations == s.iterations
            &&& after.last_prompt_tokens == s.last_prompt_tokens
            &&& after.consecutive_doom_detections == s.consecutive_doom_detections
            &&& after.overflow_recovery_used == s.overflow_recovery_used
        }),
{
}

/// What happens to a turn that asks the model leads on as it must: tools that are called run,
/// a text is judged, a first context that is too long is compacted, a second ends the turn. A
/// compaction that succeeds begins the next step, and forgets what the provider counted; any
/// other ends the turn. A tool call that completes goes on, and lets the turn be asked again
/// to call tools; one that does not ends the turn.
pub proof fn law_turn_goes_on_as_it_must(
    s: TurnState,
    outcome: CompactionOutcome,
    prompt_tokens: Option<u32>,
    tool_calls: nat,
    completed: bool,
    more: bool,
)
    ensures
        answered(s, prompt_tokens, tool_calls).phase is RunningTools <==> tool_calls > 0,
        answered(s, prompt_tokens, tool_calls).phase is JudgingText <==> tool_calls == 0,
        prompt_tokens matches Some(n) && n > 0 ==> answered(
            s,
            prompt_tokens,
            tool_calls,
        ).last_prompt_tokens == prompt_tokens,
        prompt_tokens is None ==> answered(s, prompt_tokens, tool_calls).last_prompt_tokens
            == s.last_prompt_tokens,
        answered(s, prompt_tokens, tool_calls).iterations == s.iterations,
        answered(s, prompt_tokens, tool_calls).forbid_final_nudges == s.forbid_final_nudges,
        overflowed(s).phase is Recovering <==> !s.overflow_recovery_used,
        overflowed(s).phase is Ended <==> s.overflow_recovery_used,
        overflowed(s).overflow_recovery_used,
        overflowed(s).iterations == s.iterations,
        recovered(s, outcome).phase is StepStart <==> outcome is Succeeded,
        recovered(s, outcome).phase is Ended <==> !(outcome is Succeeded),
        outcome is Succeeded ==> recovered(s, outcome).last_prompt_tokens is None,
        recovered(s, outcome).iterations == s.iterations,
        recovered(s, outcome).overflow_recovery_used == s.overflow_recovery_used,
        tool_called(s, completed, more).phase is Ended <==> !completed,
        tool_called(s, completed, more).phase is RunningTools <==> completed && more,
        tool_called(s, completed, more).phase is StepStart <==> completed && !more,
        completed ==> tool_called(s, completed, more).forbid_final_nudges == 0,
        tool_called(s, completed, more).iterations == s.iterations,
        tool_called(s, completed, more).last_prompt_tokens == s.last_prompt_tokens,
{
}

/// What a model is told instead of ending the turn fits what is missing; a turn that ends is
/// told nothing.
pub proof fn law_nudge_fits_what_is_missing(step: TextStep)
    ensures
        nudge(step) is None <==> step is Finish,
        step is AskForText ==> nudge(step) == Some(EMPTY_REPLY_NUDGE@),
        step is AskForTools ==> nudge(step) == Some(USE_TOOLS_NUDGE@),
        step is AskForSources ==> nudge(step) == Some(RESEARCH_NUDGE@),
{
}

/// A tool's output that fits is seen as it is; a longer one with as much of its beginning as
/// fits, and with the mark of the cut; an error with its mark, in full.
pub proof fn law_tool_output_is_seen(output: Seq<char>, max: nat)
    ensures
        vstd::utf8::encode_utf8(output).len() <= max ==> tool_output(Ok(output), max) == output,
        vstd::utf8::encode_utf8(output).len() > max ==> exists|n: int|
            0 <= n < output.len() && vstd::utf8::encode_utf8(#[trigger] output.take(n)).len() <= max
                && vstd::utf8::encode_utf8(output.take(n + 1)).len() > max && tool_output(
                Ok(output),
                max,
            ) == output.take(n) + "\n... [TRUNCATED FOR LENGTH]"@,
        tool_output(Err(output), max) == "Error: "@ + output,
{
    text::lemma_byte_len_is_encoded_len(output);
    if text::byte_len(output) > max {
        let n = text::fitting_chars(output, max) as int;
        text::lemma_fitting_prefix(output, max);
        assert(output.take(output.len() as int) =~= output);
        text::lemma_byte_len_is_encoded_len(output.take(n));
        text::lemma_byte_len_is_encoded_len(output.take(n + 1));
    }
}

/// On its last step a turn takes any answer for its result, and after three requests in a
/// row to call a tool it does not ask again.
pub proof fn law_nudges_end(s: TurnState, limits: TurnLimits, blank: bool, sources_unread: bool)
    requires
        s.valid(limits),
    ensures
        s.iterations == limits.max_iterations ==> text_step(s, limits, blank, sources_unread).1
            == TextStep::Finish,
        s.forbid_final_nudges == MAX_FORBID_FINAL_NUDGES ==> text_step(
            s,
            limits,
            blank,
            sources_unread,
        ).1 != TextStep::AskForTools,
{
}

// ---------------------------------------------------------------------------
// A turn as a whole
// ---------------------------------------------------------------------------

/// What happens to a turn.
pub enum TurnEvent {
    StepBegins { cancelled: bool },
    ContextChecked { sigs: Seq<doom_loop::SignatureView> },
    ContextTooLong,
    Compacted { outcome: CompactionOutcome },
    ModelAnswered { prompt_tokens: Option<u32>, tool_calls: nat },
    ModelFailed,
    ToolFinished { completed: bool, more: bool },
    TextJudged { blank: bool, sources_unread: bool },
}

/// Whether the event can happen in the phase.
pub open spec fn can_happen(phase: TurnPhase, e: TurnEvent) -> bool {
    match e {
        TurnEvent::StepBegins { .. } => phase is StepStart,
        TurnEvent::ContextChecked { .. } => phase is CheckingLoop,
        TurnEvent::ContextTooLong => phase is AskingModel,
        TurnEvent::ModelAnswered { .. } => phase is AskingModel,
        TurnEvent::ModelFailed => phase is AskingModel,
        TurnEvent::Compacted { .. } => phase is Recovering,
        TurnEvent::ToolFinished { .. } => phase is RunningTools,
        TurnEvent::TextJudged { .. } => phase is JudgingText,
    }
}

/// The state in which a turn goes on after the event.
pub open spec fn after_event(s: TurnState, limits: TurnLimits, e: TurnEvent) -> TurnState {
    match e {
        TurnEvent::StepBegins { cancelled } => step_start(s, limits, cancelled).0,
        TurnEvent::ContextChecked { sigs } => after_loop_check(s, limits, sigs),
        TurnEvent::ContextTooLong => overflowed(s),
        TurnEvent::Compacted { outcome } => recovered(s, outcome),
        TurnEvent::ModelAnswered { prompt_tokens, tool_calls } => answered(
            s,
            prompt_tokens,
            tool_calls,
        ),
        TurnEvent::ModelFailed => TurnState { phase: TurnPhase::Ended, ..s },
        TurnEvent::ToolFinished { completed, more } => tool_called(s, completed, more),
        TurnEvent::TextJudged { blank, sources_unread } => text_step(
            s,
            limits,
            blank,
            sources_unread,
        ).0,
    }
}

/// The state of a turn after all the events.
pub open spec fn after_events(limits: TurnLimits, events: Seq<TurnEvent>) -> TurnState
    decreases events.len(),
{
    if events.len() == 0 {
        TurnState::initial()
    } else {
        after_event(after_events(limits, events.drop_last()), limits, events.last())
    }
}

/// Whether the events can be those of a turn.
pub open spec fn is_history(limits: TurnLimits, events: Seq<TurnEvent>) -> bool
    decreases events.len(),
{
    events.len() == 0 || (is_history(limits, events.drop_last()) && can_happen(
        after_events(limits, events.drop_last()).phase,
        events.last(),
    ))
}

/// How many times the model answered, failed, or was given too long a context.
pub open spec fn model_calls(events: Seq<TurnEvent>) -> nat
    decreases events.len(),
{
    if events.len() == 0 {
        0
    } else {
        model_calls(events.drop_last()) + match events.last() {
            TurnEvent::ModelAnswered { .. } | TurnEvent::ModelFailed
            | TurnEvent::ContextTooLong => 1nat,
            _ => 0,
        }
    }
}

/// How many times the conversation was compacted, for it was too long for the model.
pub open spec fn recoveries(events: Seq<TurnEvent>) -> nat
    decreases events.len(),
{
    if events.len() == 0 {
        0
    } else {
        recoveries(events.drop_last()) + match events.last() {
            TurnEvent::Compacted { .. } => 1nat,
            _ => 0,
        }
    }
}

/// Whatever happens, a turn keeps within its limits, calls the model no more often than it
/// has steps, and compacts a conversation that is too long once at the most.
pub proof fn law_turn_is_bounded(limits: TurnLimits, events: Seq<TurnEvent>)
    requires
        is_history(limits, events),
    ensures
        after_events(limits, events).valid(limits),
        model_calls(events) <= limits.max_iterations,
        recoveries(events) <= 1,
{
    lemma_history(limits, events);
}

proof fn lemma_history(limits: TurnLimits, events: Seq<TurnEvent>)
    requires
        is_history(limits, events),
    ensures
        ({
            let s = after_events(limits, events);
            &&& s.valid(limits)
            &&& model_calls(events) + (if s.phase is CheckingLoop || s.phase is AskingModel {
                1nat
            } else {
                0
            }) <= s.iterations
            &&& recoveries(events) + (if s.phase is Recovering {
                1nat
            } else {
                0
            }) <= (if s.overflow_recovery_used {
                1nat
            } else {
                0
            })
        }),
    decreases events.len(),
{
    if events.len() > 0 {
        lemma_history(limits, events.drop_last());
    }
}

/// A turn that has ended goes on no more.
pub proof fn law_ended_turn_stays_ended(limits: TurnLimits, events: Seq<TurnEvent>, e: TurnEvent)
    requires
        after_events(limits, events).phase is Ended,
    ensures
        !is_history(limits, events.push(e)),
{
    assert(events.push(e).drop_last() =~= events);
}

/// What the model is told instead of ending the turn.
pub open spec fn nudge(step: TextStep) -> Option<Seq<char>> {
    match step {
        TextStep::AskForText => Some(EMPTY_REPLY_NUDGE@),
        TextStep::AskForTools => Some(USE_TOOLS_NUDGE@),
        TextStep::AskForSources => Some(RESEARCH_NUDGE@),
        TextStep::Finish => None,
    }
}

/// Writes what the model is told instead of ending the turn.
pub fn nudge_message(step: &TextStep) -> (r: Option<ChatMessage>)
    ensures
        match nudge(*step) {
            Some(told) => r matches Some(m) && m.deep_view() == message::plain_message(
                "user"@,
                told,
            ),
            None => r is None,
        },
{
    match step {
        TextStep::AskForText => Some(ChatMessage::user(EMPTY_REPLY_NUDGE)),
        TextStep::AskForTools => Some(ChatMessage::user(USE_TOOLS_NUDGE)),
        TextStep::AskForSources => Some(ChatMessage::user(RESEARCH_NUDGE)),
        TextStep::Finish => None,
    }
}

/// Writes what the user is shown of an answer: the text without the model's thinking.
pub fn final_response(response_text: &str) -> (r: String)
    ensures
        r@ == message::without_thinking(response_text@),
{
    strip_thinking(response_text)
}

/// The message that brings the result of a turn to the user. It names the background job
/// that the turn belongs to, and holds no other metadata.
pub fn final_outbound(inbound: &InboundMessage, content: &str) -> (r: OutboundMessage)
    ensures
        r.channel@ == inbound.channel@,
        r.chat_id@ == inbound.chat_id@,
        r.thread_id.deep_view() == inbound.thread_id.deep_view(),
        r.content@ == content@,
        forall|k: Seq<char>|
            #[trigger] json::member(json::members_view(r.metadata@), k) == if k
                == METADATA_BACKGROUND_JOB_ID@ {
                json::member(json::members_view(inbound.metadata@), k)
            } else {
                None
            },
{
    let mut metadata: Vec<(String, Json)> = Vec::new();
    assert(json::members_view(metadata@) =~= Seq::<(Seq<char>, JsonView)>::empty());
    copy_job(&mut metadata, &inbound.metadata);
    OutboundMessage {
        channel: inbound.channel.clone(),
        chat_id: inbound.chat_id.clone(),
        thread_id: match &inbound.thread_id {
            Some(t) => Some(t.clone()),
            None => None,
        },
        content: content.to_owned(),
        metadata,
    }
}

/// What a turn ends with that brought no answer: it is stuck, or has used up its steps.
pub fn terminal_outbound(inbound: &InboundMessage, stuck: bool) -> (r: OutboundMessage)
    ensures
        r.channel@ == inbound.channel@,
        r.chat_id@ == inbound.chat_id@,
        r.thread_id.deep_view() == inbound.thread_id.deep_view(),
        r.content@ == if stuck {
            STUCK_MESSAGE@
        } else {
            MAX_ITERATIONS_MESSAGE@
        },
        r.metadata@.len() == 0,
{
    OutboundMessage {
        channel: inbound.channel.clone(),
        chat_id: inbound.chat_id.clone(),
        thread_id: match &inbound.thread_id {
            Some(t) => Some(t.clone()),
            None => None,
        },
        content: if stuck {
            STUCK_MESSAGE.to_owned()
        } else {
            MAX_ITERATIONS_MESSAGE.to_owned()
        },
        metadata: Vec::new(),
    }
}

// ---------------------------------------------------------------------------
// Compaction at the end of a turn
// ---------------------------------------------------------------------------

/// Why a conversation is compacted.
#[derive(Debug, Clone, Copy, PartialEq, Eq, Structural)]
pub enum CompactionTrigger {
    TurnLimit,
    TokenLimit,
    BothLimits,
    Overflow400,
    Manual,
    AgentSelf,
}

/// Which limits a conversation has reached.
pub open spec fn limits_reached(
    user_turns: nat,
    tokens: nat,
    threshold_turns: nat,
    threshold_tokens: nat,
) -> Option<CompactionTrigger> {
    match (user_turns >= threshold_turns, tokens >= threshold_tokens) {
        (true, true) => Some(CompactionTrigger::BothLimits),
        (true, false) => Some(CompactionTrigger::TurnLimit),
        (false, true) => Some(CompactionTrigger::TokenLimit),
        (false, false) => None,
    }
}

/// Decides whether a conversation is compacted at the end of a turn, and why.
pub fn compaction_trigger(
    user_turns: usize,
    approx_tokens: usize,
    threshold_turns: usize,
    threshold_tokens: usize,
) -> (r: Option<CompactionTrigger>)
    ensures
        r == limits_reached(
            user_turns as nat,
            approx_tokens as nat,
            threshold_turns as nat,
            threshold_tokens as nat,
        ),
{
    if user_turns >= threshold_turns {
        if approx_tokens >= threshold_tokens {
            Some(CompactionTrigger::BothLimits)
        } else {
            Some(CompactionTrigger::TurnLimit)
        }
    } else if approx_tokens >= threshold_tokens {
        Some(CompactionTrigger::TokenLimit)
    } else {
        None
    }
}

/// How many of the messages are a user's.
pub open spec fn user_messages(ms: Seq<MessageView>) -> nat
    decreases ms.len(),
{
    if ms.len() == 0 {
        0
    } else {
        user_messages(ms.drop_last()) + if ms.last().role == "user"@ {
            1nat
        } else {
            0
        }
    }
}

/// Counts the messages that are a user's.
pub fn count_user_turns(context: &[ChatMessage]) -> (r: usize)
    ensures
        r == user_messages(context.deep_view()),
{
    let ghost ms = context.deep_view();
    let mut count: usize = 0;
    let mut i: usize = 0;
    assert(ms.take(0) =~= Seq::<MessageView>::empty());
    while i < context.len()
        invariant
            i <= context@.len(),
            ms == context.deep_view(),
            count <= i,
            count == user_messages(ms.take(i as int)),
        decreases context@.len() - i,
    {
        assert(ms.take(i + 1).drop_last() =~= ms.take(i as int));
        assert(ms[i as int] == context@[i as int].deep_view());
        if text::same(context[i].role.as_str(), "user") {
            count = count + 1;
        }
        i = i + 1;
    }
    assert(ms.take(i as int) =~= ms);
    count
}

/// A compaction that is due: why, and the size of the conversation before it.
#[derive(Debug, Clone, Copy, PartialEq, Eq, Structural)]
pub struct CompactionNeed {
    pub reason: CompactionTrigger,
    pub tokens_before: u32,
    pub turns_before: u32,
}

/// The compaction of a conversation of this size.
pub open spec fn compaction_of(
    reason: CompactionTrigger,
    tokens: nat,
    ms: Seq<MessageView>,
) -> CompactionNeed {
    CompactionNeed {
        reason,
        tokens_before: compaction_run::cut_to_u32(tokens) as u32,
        turns_before: compaction_run::cut_to_u32(user_messages(ms)) as u32,
    }
}

/// About how many tokens a conversation takes: by estimate, or by the provider's count where
/// that is larger.
pub open spec fn known_tokens(ms: Seq<MessageView>, last_prompt_tokens: Option<u32>) -> nat {
    match last_prompt_tokens {
        Some(exact) if exact > context::context_tokens(ms) => exact as nat,
        _ => context::context_tokens(ms),
    }
}

/// Messages of users are counted one by one, and those of nobody else; a conversation is taken
/// to be as long as the larger of the estimate and the provider's count.
pub proof fn law_size_of_a_conversation(
    ms: Seq<MessageView>,
    m: MessageView,
    exact: Option<u32>,
)
    ensures
        user_messages(Seq::empty()) == 0,
        m.role == "user"@ ==> user_messages(ms.push(m)) == user_messages(ms) + 1,
        m.role != "user"@ ==> user_messages(ms.push(m)) == user_messages(ms),
        known_tokens(ms, exact) >= context::context_tokens(ms),
        exact matches Some(n) ==> known_tokens(ms, exact) >= n,
        known_tokens(ms, exact) == context::context_tokens(ms) || Some(
            known_tokens(ms, exact),
        ) == match exact {
            Some(n) => Some(n as nat),
            None => None,
        },
{
    assert(ms.push(m).drop_last() =~= ms);
}

/// The compaction that is asked for expressly, or that a context which is too long asks for.
pub fn requested_compaction(reason: CompactionTrigger, context: &[ChatMessage]) -> (r: CompactionNeed)
    requires
        context::countable(context.deep_view()),
    ensures
        r == compaction_of(
            reason,
            context::context_tokens(context.deep_view()),
            context.deep_view(),
        ),
{
    CompactionNeed {
        reason,
        tokens_before: to_u32(estimate_context_tokens(context)),
        turns_before: to_u32(count_user_turns(context)),
    }
}

/// Decides whether the conversation is compacted at the end of a turn.
pub fn compaction_need(
    context: &[ChatMessage],
    last_prompt_tokens: Option<u32>,
    threshold_turns: usize,
    threshold_tokens: usize,
) -> (r: Option<CompactionNeed>)
    requires
        context::countable(context.deep_view()),
    ensures
        ({
            let ms = context.deep_view();
            let tokens = known_tokens(ms, last_prompt_tokens);
            match limits_reached(
                user_messages(ms),
                tokens,
                threshold_turns as nat,
                threshold_tokens as nat,
            ) {
                Some(reason) => r == Some(compaction_of(reason, tokens, ms)),
                None => r is None,
            }
        }),
{
    let turns: usize = count_user_turns(context);
    let tokens: usize = effective_context_tokens(
        estimate_context_tokens(context),
        last_prompt_tokens,
    );
    match compaction_trigger(turns, tokens, threshold_turns, threshold_tokens) {
        Some(reason) => Some(
            CompactionNeed {
                reason,
                tokens_before: to_u32(tokens),
                turns_before: to_u32(turns),
            },
        ),
        None => None,
    }
}

// ---------------------------------------------------------------------------
// Laws of the steps of a turn
// ---------------------------------------------------------------------------

/// A conversation is compacted once it has reached either limit, and never before; the reason
/// tells which of the two it was.
pub proof fn law_compaction_comes_at_either_limit(
    turns: nat,
    tokens: nat,
    threshold_turns: nat,
    threshold_tokens: nat,
)
    ensures
        ({
            let reached = limits_reached(turns, tokens, threshold_turns, threshold_tokens);
            &&& reached is Some <==> turns >= threshold_turns || tokens >= threshold_tokens
            &&& reached == Some(CompactionTrigger::TurnLimit) <==> turns >= threshold_turns
                && tokens < threshold_tokens
            &&& reached == Some(CompactionTrigger::TokenLimit) <==> turns < threshold_turns
                && tokens >= threshold_tokens
            &&& reached == Some(CompactionTrigger::BothLimits) <==> turns >= threshold_turns
                && tokens >= threshold_tokens
        }),
{
}

/// A compaction is recorded with its reason and with the size of the conversation as it was.
pub proof fn law_compaction_is_measured(
    reason: CompactionTrigger,
    tokens: nat,
    ms: Seq<MessageView>,
)
    ensures
        compaction_of(reason, tokens, ms).reason == reason,
        tokens <= u32::MAX ==> compaction_of(reason, tokens, ms).tokens_before == tokens,
        user_messages(ms) <= u32::MAX ==> compaction_of(reason, tokens, ms).turns_before
            == user_messages(ms),
{
}

/// A context that is too long is compacted the first time in a turn and ends the turn the
/// second time; a compaction that succeeds leads to another attempt, and no other does.
pub proof fn law_turn_is_saved_once(s: TurnState, outcome: CompactionOutcome)
    ensures
        overflow_step(s) is Compact <==> !s.overflow_recovery_used,
        overflow_step(s) is Compact <==> overflowed(s).phase is Recovering,
        overflow_step(s) is GiveUp <==> overflowed(s).phase is Ended,
        overflow_step(overflowed(s)) is GiveUp,
        recovery_step(outcome) is Retry <==> outcome is Succeeded,
        recovery_step(outcome) is Retry <==> recovered(s, outcome).phase is StepStart,
        recovery_step(outcome) is Cancelled <==> outcome is Cancelled,
        recovery_step(outcome) is GiveUp <==> outcome is Failed,
        overflow_step(recovered(overflowed(s), outcome)) is GiveUp,
{
}

/// What a tool gave goes into the conversation as it is, a success as a success and a failure as
/// a failure; a tool that waits for the user ends the turn and names what it waits for.
pub proof fn law_tool_results_are_recorded(
    r: ToolFollowUp,
    finished: ToolExecutionFinished,
    s: TurnState,
    more: bool,
)
    requires
        follows_call(r, finished),
    ensures
        finished matches ToolExecutionFinished::Completed(Ok(out)) ==> (r
            matches ToolFollowUp::Record(Ok(kept)) && kept@ == out@),
        finished matches ToolExecutionFinished::Completed(Err(why)) ==> (r
            matches ToolFollowUp::Record(Err(kept)) && kept@ == why@),
        finished matches ToolExecutionFinished::Waiting(ticket) ==> (r
            matches ToolFollowUp::Wait(said) && text::ends_with(said@, ticket@)),
        finished is Cancelled <==> r is Cancelled,
        r is Record <==> !(tool_called(s, finished is Completed, more).phase is Ended),
{
    if let ToolExecutionFinished::Waiting(ticket) = finished {
        let said = WAITING_FOR_USER_RESULT_PREFIX@ + ticket@;
        assert(said.subrange(said.len() - ticket@.len(), said.len() as int) =~= ticket@);
    }
}

/// What the agent is told about a loop is the last thing it reads, and the rest of the context
/// is as it was, where all of it fits; without a word about a loop nothing is put in.
pub proof fn law_correction_is_read_last(ms: Seq<MessageView>, correction: Seq<char>)
    ensures
        ({
            let told = finished_context(ms, Some(correction));
            &&& told.len() > 0
            &&& told.last().role == "user"@
            &&& told.last().content == Some(ContentView::Text(correction))
            &&& context::context_tokens(ms.push(message::plain_message("user"@, correction)))
                <= 120_000 ==> told.drop_last() == ms
            &&& context::context_tokens(ms) <= 120_000 ==> finished_context(ms, None) == ms
        }),
{
    let m = message::plain_message("user"@, correction);
    let all = ms.push(m);
    assert(all.drop_last() =~= ms);
    reveal_strlit("user");
    reveal_strlit("tool");
    assert("user"@[0] == 'u' && "tool"@[0] == 't');
    context::law_trim_keeps_the_latest_word(all, 120_000);
}

/// A message of the model says what the model said and calls what it called. A text may be
/// missing only where tools are called.
pub proof fn law_answers_are_kept(
    said: Seq<char>,
    calls: Seq<message::ToolCallView>,
    reasoning: Option<Seq<char>>,
)
    ensures
        spoken_message(said, Some(calls), reasoning).role == "assistant"@,
        spoken_message(said, Some(calls), reasoning).tool_calls == Some(calls),
        said.len() > 0 ==> spoken_message(said, Some(calls), reasoning).content == Some(
            ContentView::Text(said),
        ),
        said.len() == 0 ==> spoken_message(said, Some(calls), reasoning).content is None,
        spoken_message(said, Some(calls), reasoning).reasoning_content == reasoning,
        spoken_message(said, None, reasoning) == (MessageView {
            reasoning_content: reasoning,
            ..message::plain_message("assistant"@, said)
        }),
{
}

/// Calls run side by side only where every one of them may, and a single call is not more than
/// one; a sub-agent's calls never do.
pub proof fn law_calls_run_side_by_side(parallel_safe: Seq<bool>, i: int)
    ensures
        !run_side_by_side(true, parallel_safe),
        parallel_safe.len() <= 1 ==> !run_side_by_side(false, parallel_safe),
        0 <= i < parallel_safe.len() && !parallel_safe[i] ==> !run_side_by_side(
            false,
            parallel_safe,
        ),
        parallel_safe.len() > 1 && !parallel_safe.contains(false) ==> run_side_by_side(
            false,
            parallel_safe,
        ),
{
    if parallel_safe.len() > 1 && !parallel_safe.contains(false) {
        assert forall|k: int| 0 <= k < parallel_safe.len() implies #[trigger] parallel_safe[k] by {
            if !parallel_safe[k] {
                assert(parallel_safe.contains(false));
            }
        }
    }
}

/// A failure is told with its error, and with how to try again.
pub proof fn law_failures_are_told(
    tokens_attempted: u32,
    max: Option<u32>,
    error: Seq<char>,
    after_attempts: bool,
)
    ensures
        text::contains(
            overflow_error(tokens_attempted, max),
            text::decimal(tokens_attempted as nat),
        ),
        max matches Some(n) ==> text::contains(
            overflow_error(tokens_attempted, max),
            text::decimal(n as nat),
        ),
        text::contains(stored_failure(error, after_attempts), error),
{
    let a = "Context overflow: input exceeds the model's window (attempted="@;
    let n = text::decimal(tokens_attempted as nat);
    let m = number_or_question_mark(max);
    let end = "). Reduce the conversation length and retry."@;
    text::lemma_contains_middle(a, n, " max="@ + m + end);
    assert(overflow_error(tokens_attempted, max) =~= a + n + (" max="@ + m + end));
    text::lemma_contains_middle(a + n + " max="@, m, end);
    text::lemma_contains_middle(
        "LLM call failed: "@,
        error,
        "\nPress /retry to try again or /cancel to abandon."@,
    );
    failover::law_banner_tells_of_the_error(error);
}

/// What a turn says names the background job that the turn belongs to, and keeps all else that
/// was written beside it.
pub proof fn law_job_is_named_beside_the_rest(
    metadata: Seq<(Seq<char>, JsonView)>,
    inbound: Seq<(Seq<char>, JsonView)>,
    k: Seq<char>,
)
    ensures
        json::member(inbound, "isanagent_background_job_id"@) matches Some(job) ==> with_job(
            metadata,
            inbound,
            "isanagent_background_job_id"@,
        ) == Some(job),
        k != "isanagent_background_job_id"@ ==> with_job(metadata, inbound, k) == json::member(
            metadata,
            k,
        ),
        json::member(inbound, "isanagent_background_job_id"@) is None ==> with_job(
            metadata,
            inbound,
            k,
        ) == json::member(metadata, k),
{
}

/// The archive of old results keeps each whole beside its call and its tool, and each row that is
/// updated gets the placeholder of its own result.
pub proof fn law_old_results_are_kept_whole(swaps: Seq<compaction::StaleSwap>, i: int)
    requires
        0 <= i < swaps.len(),
    ensures
        stale_archive(swaps).len() == swaps.len(),
        stale_updates(swaps).len() == swaps.len(),
        stale_archive(swaps)[i].0 == swaps[i].1,
        stale_archive(swaps)[i].1 == swaps[i].3,
        stale_archive(swaps)[i].2 == swaps[i].2,
        stale_updates(swaps)[i].0 == swaps[i].0,
        stale_updates(swaps)[i].1 == swaps[i].4,
{
}

} // verus!
