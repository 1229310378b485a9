//! One run of compaction, step by step: what is archived, what the summarizer is asked,
//! and what its reply comes to.
use vstd::prelude::*;
use vstd::string::*;
use crate::compaction::{
    build_compact_placeholder, swap_all_tool_results_in_place, try_build_tool_swap,
    preprocess_transcript_for_compaction, PREPROCESS_STRIP_IMAGES_DEFAULT,
    PREPROCESS_TOOL_RESULT_MAX_TOKENS_DEFAULT,
};
use crate::compaction;
use crate::json::Json;
use crate::message::{ChatMessage, MessageView};
use crate::message;
use crate::summary::{build_sectional_prompt, SummarySections};
use crate::summary;
use crate::text;

verus! {

broadcast use vstd::string::group_string_axioms;

/// How a compaction ended.
#[derive(Debug, Clone, Copy, PartialEq, Eq, Structural)]
pub enum CompactionOutcome {
    Succeeded,
    Failed,
    Cancelled,
}

/// A tool result on its way into the archive.
#[derive(Debug)]
pub struct ArchiveEntry {
    pub tool_call_id: String,
    pub full_content: String,
    pub tool_name: String,
    pub compact_summary: String,
}

/// What a run of compaction does before it asks the summarizer.
#[derive(Debug)]
pub struct SwapPlan {
    /// The conversation with its tool results archived.
    pub context: Vec<ChatMessage>,
    /// What goes into the archive.
    pub archive: Vec<ArchiveEntry>,
    /// The new content of stored messages, by their ids.
    pub updates: Vec<(i64, String)>,
    /// The last stored message that the run takes in.
    pub last_message_id: Option<i64>,
}

/// The messages without their ids.
pub open spec fn without_ids(ms: Seq<(i64, MessageView)>) -> Seq<MessageView> {
    ms.map_values(|p: (i64, MessageView)| p.1)
}

/// Drops the ids of the messages.
pub fn drop_ids(rows: Vec<(i64, ChatMessage)>) -> (r: Vec<ChatMessage>)
    ensures
        r.deep_view() == without_ids(rows.deep_view()),
{
    let ghost given = rows@;
    let ghost wanted = without_ids(rows.deep_view());
    let mut out: Vec<ChatMessage> = Vec::new();
    assert(out.deep_view() =~= wanted.take(0));
    for row in it: rows
        invariant
            it.seq() == given,
            wanted.len() == given.len(),
            forall|k: int| 0 <= k < given.len() ==> #[trigger] wanted[k] == given[k].1.deep_view(),
            out.deep_view() == wanted.take(it.index()),
    {
        let ghost so_far = out.deep_view();
        out.push(row.1);
        proof {
            assert(wanted[it.index()] == row.1.deep_view());
            assert(out.deep_view() =~= so_far.push(row.1.deep_view()));
            assert(wanted.take(it.index() + 1) =~= so_far.push(wanted[it.index()]));
        }
    }
    assert(wanted.take(wanted.len() as int) =~= wanted);
    out
}

/// An archive entry with its placeholder.
pub open spec fn entry_view(e: ArchiveEntry) -> (Seq<char>, Seq<char>, Seq<char>, Seq<char>) {
    (e.tool_call_id@, e.full_content@, e.tool_name@, e.compact_summary@)
}

/// What goes into the archive, each result with its placeholder.
pub open spec fn with_placeholders(entries: Seq<(Seq<char>, Seq<char>, Seq<char>)>) -> Seq<
    (Seq<char>, Seq<char>, Seq<char>, Seq<char>),
> {
    entries.map_values(
        |e: (Seq<char>, Seq<char>, Seq<char>)|
            (e.0, e.1, e.2, compaction::placeholder(e.0, e.2, e.1)),
    )
}

/// The new content of the stored messages that are archived, by their ids.
pub open spec fn content_updates(ms: Seq<(i64, MessageView)>) -> Seq<(i64, Seq<char>)>
    decreases ms.len(),
{
    if ms.len() == 0 {
        Seq::empty()
    } else {
        let before = content_updates(ms.drop_last());
        match compaction::swap_of(ms.last().1) {
            Some(swap) => before.push((ms.last().0, swap.placeholder)),
            None => before,
        }
    }
}

/// The messages that a run works on: the stored ones, or the current context where there
/// are none.
pub open spec fn run_messages(stored: Seq<(i64, MessageView)>, current: Seq<MessageView>) -> Seq<
    MessageView,
> {
    if stored.len() == 0 {
        current
    } else {
        without_ids(stored)
    }
}

fn archive_of(entries: Vec<(String, String, String)>) -> (r: Vec<ArchiveEntry>)
    ensures
        r@.map_values(|e: ArchiveEntry| entry_view(e)) == with_placeholders(entries.deep_view()),
{
    let ghost wanted = with_placeholders(entries.deep_view());
    let mut out: Vec<ArchiveEntry> = Vec::new();
    assert(out@.map_values(|e: ArchiveEntry| entry_view(e)) =~= wanted.take(0));
    let mut i: usize = 0;
    while i < entries.len()
        invariant
            i <= entries@.len(),
            wanted == with_placeholders(entries.deep_view()),
            out@.map_values(|e: ArchiveEntry| entry_view(e)) == wanted.take(i as int),
        decreases entries@.len() - i,
    {
        let ghost before = out@.map_values(|e: ArchiveEntry| entry_view(e));
        let compact: String = build_compact_placeholder(
            entries[i].0.as_str(),
            entries[i].2.as_str(),
            entries[i].1.as_str(),
        );
        let entry = ArchiveEntry {
            tool_call_id: entries[i].0.clone(),
            full_content: entries[i].1.clone(),
            tool_name: entries[i].2.clone(),
            compact_summary: compact,
        };
        out.push(entry);
        proof {
            assert(entries.deep_view()[i as int] == entries@[i as int].deep_view());
            assert(out@.map_values(|e: ArchiveEntry| entry_view(e)) =~= before.push(
                entry_view(entry),
            ));
            assert(wanted.take(i + 1) =~= wanted.take(i as int).push(wanted[i as int]));
        }
        i = i + 1;
    }
    assert(wanted.take(i as int) =~= wanted);
    out
}

/// Plans the archiving of tool results: on the stored messages where there are any, which
/// then get new contents, else on the current context alone.
pub fn plan_swaps(stored: Vec<(i64, ChatMessage)>, current_context: Vec<ChatMessage>) -> (r: SwapPlan)
    ensures
        r.context.deep_view() == compaction::all_archived(
            run_messages(stored.deep_view(), current_context.deep_view()),
        ),
        r.archive@.map_values(|e: ArchiveEntry| entry_view(e)) == with_placeholders(
            compaction::archive_entries(
                run_messages(stored.deep_view(), current_context.deep_view()),
            ),
        ),
        r.updates.deep_view() == content_updates(stored.deep_view()),
        r.last_message_id == if stored@.len() == 0 {
            None
        } else {
            Some(stored@.last().0)
        },
{
    let ghost rows = stored.deep_view();
    let mut updates: Vec<(i64, String)> = Vec::new();
    let mut last_message_id: Option<i64> = None;
    assert(updates.deep_view() =~= Seq::<(i64, Seq<char>)>::empty());
    assert(rows.len() == stored@.len());
    let mut context: Vec<ChatMessage> = Vec::new();
    if stored.len() == 0 {
        context = current_context;
    } else {
        let ghost given = stored@;
        let ghost messages = without_ids(rows);
        assert(context.deep_view() =~= messages.take(0));
        assert(rows.take(0) =~= Seq::<(i64, MessageView)>::empty());
        for row in it: stored
            invariant
                it.seq() == given,
                rows.len() == given.len(),
                forall|k: int| 0 <= k < given.len() ==> #[trigger] rows[k] == given[k].deep_view(),
                messages == without_ids(rows),
                context.deep_view() == messages.take(it.index()),
                updates.deep_view() == content_updates(rows.take(it.index())),
                it.index() > 0 ==> last_message_id == Some(given[it.index() - 1].0),
        {
            let ghost i = it.index();
            let ghost so_far = context.deep_view();
            let ghost updated = updates.deep_view();
            proof {
                assert(rows.take(i + 1).drop_last() =~= rows.take(i));
                assert(rows[i] == row.deep_view());
                assert(messages.take(i + 1) =~= messages.take(i).push(messages[i]));
            }
            let (id, m) = row;
            last_message_id = Some(id);
            if let Some(payload) = try_build_tool_swap(&m) {
                updates.push((id, payload.placeholder));
                assert(updates.deep_view() =~= updated.push((id, payload.placeholder@)));
            }
            context.push(m);
            assert(context.deep_view() =~= so_far.push(m.deep_view()));
        }
        assert(messages.take(messages.len() as int) =~= messages);
        assert(rows.take(rows.len() as int) =~= rows);
    }
    let (_count, entries) = swap_all_tool_results_in_place(&mut context);
    let archive: Vec<ArchiveEntry> = archive_of(entries);
    SwapPlan { context, archive, updates, last_message_id }
}

/// What the summarizer is asked.
#[derive(Debug)]
pub struct SummaryRequest {
    pub messages: Vec<ChatMessage>,
    pub tokens_after_preprocess: u32,
}

/// A number, cut to what fits into 32 bits.
pub open spec fn cut_to_u32(n: nat) -> nat {
    if n <= u32::MAX {
        n
    } else {
        u32::MAX as nat
    }
}

/// Cuts a number to what fits into 32 bits.
pub fn to_u32(n: usize) -> (r: u32)
    ensures
        r == cut_to_u32(n as nat),
{
    if n <= u32::MAX as usize {
        n as u32
    } else {
        u32::MAX
    }
}

/// What the summarizer is shown of an archived conversation.
pub open spec fn run_transcript(context: Seq<MessageView>) -> Seq<char> {
    compaction::transcript(
        context,
        PREPROCESS_STRIP_IMAGES_DEFAULT,
        PREPROCESS_TOOL_RESULT_MAX_TOKENS_DEFAULT as nat,
    )
}

/// Writes the request to the summarizer.
pub fn build_summary_request(
    context: &[ChatMessage],
    existing_summary: Option<&str>,
    focus_instructions: Option<&str>,
) -> (r: SummaryRequest)
    ensures
        r.messages.deep_view() == seq![
            message::plain_message(
                "system"@,
                "You are a helpful assistant that summarizes conversations into structured JSON."@,
            ),
            message::plain_message(
                "user"@,
                summary::sectional_prompt(
                    existing_summary.deep_view(),
                    run_transcript(context.deep_view()),
                    focus_instructions.deep_view(),
                ),
            ),
        ],
        r.tokens_after_preprocess == cut_to_u32(
            text::byte_len(run_transcript(context.deep_view())) / 4,
        ),
{
    let (transcript, tokens) = preprocess_transcript_for_compaction(
        context,
        PREPROCESS_STRIP_IMAGES_DEFAULT,
        PREPROCESS_TOOL_RESULT_MAX_TOKENS_DEFAULT,
    );
    let prompt: String = build_sectional_prompt(
        existing_summary,
        transcript.as_str(),
        focus_instructions,
    );
    let mut messages: Vec<ChatMessage> = Vec::new();
    messages.push(
        ChatMessage::system(
            "You are a helpful assistant that summarizes conversations into structured JSON.",
        ),
    );
    messages.push(ChatMessage::user(prompt.as_str()));
    assert(messages.deep_view() =~= seq![
        messages@[0].deep_view(),
        messages@[1].deep_view(),
    ]);
    SummaryRequest { messages, tokens_after_preprocess: to_u32(tokens) }
}

/// What came back from the summarizer.
#[derive(Debug)]
pub enum SummarizerReply {
    /// The run was cancelled while the summarizer was at work.
    Cancelled,
    /// The provider gave an error.
    ProviderError(String),
    /// There is no JSON in the reply.
    NotJson,
    /// The JSON in the reply.
    Parsed(Json),
}

/// A summary that is ready to be stored.
#[derive(Debug)]
pub struct FinishedSummary {
    pub sections: SummarySections,
    pub markdown: String,
    pub summary_bytes: u32,
    pub tokens_after: u32,
    pub filled_slots: u32,
}

/// What a reply comes to.
#[derive(Debug)]
pub enum CompactionVerdict {
    /// The run ends here, for this reason.
    Stop { outcome: CompactionOutcome, reason: String },
    /// The summary is stored, and the run succeeds.
    Store(FinishedSummary),
}

/// Why a run stops, where it does.
pub open spec fn stop_reason(reply: SummarizerReply) -> Option<(CompactionOutcome, Seq<char>)> {
    match reply {
        SummarizerReply::Cancelled => Some((CompactionOutcome::Cancelled, "cancelled"@)),
        SummarizerReply::ProviderError(e) => Some(
            (CompactionOutcome::Failed, "provider error: "@ + e@),
        ),
        SummarizerReply::NotJson => Some(
            (CompactionOutcome::Failed, "summary response was not parseable JSON"@),
        ),
        SummarizerReply::Parsed(_) => None,
    }
}

/// Whether a compaction ends so on the summarizer's reply.
pub open spec fn follows_summary(reply: SummarizerReply, r: CompactionVerdict) -> bool {
    match r {
        CompactionVerdict::Stop { outcome, reason } => stop_reason(reply) == Some(
            (outcome, reason@),
        ),
        CompactionVerdict::Store(done) => {
            &&& reply matches SummarizerReply::Parsed(value)
            &&& done.sections.deep_view() == summary::sections_of(value@)
            &&& done.markdown@ == summary::markdown(summary::sections_of(value@))
            &&& done.summary_bytes == cut_to_u32(text::byte_len(done.markdown@))
            &&& done.tokens_after == done.summary_bytes / 4
            &&& done.filled_slots == summary::filled_count(summary::sections_of(value@))
        },
    }
}

/// Decides what a reply of the summarizer comes to.
pub fn conclude_compaction(reply: SummarizerReply) -> (r: CompactionVerdict)
    ensures
        follows_summary(reply, r),
{
    match reply {
        SummarizerReply::Cancelled => CompactionVerdict::Stop {
            outcome: CompactionOutcome::Cancelled,
            reason: "cancelled".to_owned(),
        },
        SummarizerReply::ProviderError(e) => {
            let mut reason: String = "provider error: ".to_owned();
            reason.append(e.as_str());
            CompactionVerdict::Stop { outcome: CompactionOutcome::Failed, reason }
        },
        SummarizerReply::NotJson => CompactionVerdict::Stop {
            outcome: CompactionOutcome::Failed,
            reason: "summary response was not parseable JSON".to_owned(),
        },
        SummarizerReply::Parsed(value) => {
            let sections = SummarySections::from_json(&value);
            let markdown: String = sections.to_markdown();
            let summary_bytes: u32 = to_u32(text::byte_length(markdown.as_str()));
            let filled_slots: u32 = sections.filled_slots();
            CompactionVerdict::Store(
                FinishedSummary {
                    sections,
                    markdown,
                    summary_bytes,
                    tokens_after: summary_bytes / 4,
                    filled_slots,
                },
            )
        },
    }
}

// ---------------------------------------------------------------------------
// Laws
// ---------------------------------------------------------------------------

/// The rows of two lists are updated one after the other. A row is updated if and only if its
/// message is one that is archived, under its own number and with that message's placeholder.
pub proof fn law_rows_are_updated_each(a: Seq<(i64, MessageView)>, b: Seq<(i64, MessageView)>)
    ensures
        content_updates(a + b) == content_updates(a) + content_updates(b),
        a.len() == 1 ==> (content_updates(a) == match compaction::swap_of(a[0].1) {
            Some(swap) => seq![(a[0].0, swap.placeholder)],
            None => Seq::empty(),
        }),
    decreases b.len(),
{
    reveal_with_fuel(content_updates, 2);
    if b.len() == 0 {
        assert(a + b =~= a);
        assert(content_updates(a) + content_updates(b) =~= content_updates(a));
    } else {
        law_rows_are_updated_each(a, b.drop_last());
        assert((a + b).drop_last() =~= a + b.drop_last());
        assert((a + b).last() == b.last());
        assert(content_updates(a + b) =~= content_updates(a) + content_updates(b));
    }
    if a.len() == 1 {
        assert(a.drop_last() =~= Seq::empty());
        assert(content_updates(a) =~= match compaction::swap_of(a[0].1) {
            Some(swap) => seq![(a[0].0, swap.placeholder)],
            None => Seq::empty(),
        });
    }
}

/// What is compacted is the stored conversation, message for message, and the current one only
/// where nothing is stored.
pub proof fn law_stored_conversation_is_compacted(
    stored: Seq<(i64, MessageView)>,
    current: Seq<MessageView>,
    i: int,
)
    ensures
        stored.len() == 0 ==> run_messages(stored, current) == current,
        stored.len() > 0 ==> run_messages(stored, current).len() == stored.len(),
        0 <= i < stored.len() ==> run_messages(stored, current)[i] == stored[i].1,
{
}

/// The archive keeps each result whole, beside its call, its tool and the placeholder that was
/// put in its place.
pub proof fn law_archive_keeps_results_whole(
    entries: Seq<(Seq<char>, Seq<char>, Seq<char>)>,
    i: int,
)
    requires
        0 <= i < entries.len(),
    ensures
        with_placeholders(entries).len() == entries.len(),
        with_placeholders(entries)[i].0 == entries[i].0,
        with_placeholders(entries)[i].1 == entries[i].1,
        with_placeholders(entries)[i].2 == entries[i].2,
        with_placeholders(entries)[i].3 == compaction::placeholder(
            entries[i].0,
            entries[i].2,
            entries[i].1,
        ),
{
}

/// A compaction goes on if and only if the summarizer gave a summary that could be read. It ends
/// as cancelled only where it was cancelled, and else as failed, with the provider's error where
/// there is one.
pub proof fn law_compaction_needs_a_summary(reply: SummarizerReply)
    ensures
        stop_reason(reply) is None <==> reply is Parsed,
        reply is Cancelled ==> (stop_reason(reply)->0).0 == CompactionOutcome::Cancelled,
        reply is ProviderError || reply is NotJson ==> (stop_reason(reply)->0).0
            == CompactionOutcome::Failed,
        reply matches SummarizerReply::ProviderError(e) ==> text::ends_with(
            (stop_reason(reply)->0).1,
            e@,
        ),
        stop_reason(reply) is Some ==> (stop_reason(reply)->0).1.len() > 0,
{
    reveal_strlit("cancelled");
    reveal_strlit("provider error: ");
    reveal_strlit("summary response was not parseable JSON");
    if let SummarizerReply::ProviderError(e) = reply {
        let said = "provider error: "@ + e@;
        assert(said.subrange(said.len() - e@.len(), said.len() as int) =~= e@);
    }
}

/// A number that fits is kept, and one that does not becomes the largest that does.
pub proof fn law_numbers_are_cut_at_the_top(n: nat, m: nat)
    ensures
        n < 0x1_0000_0000 ==> cut_to_u32(n) == n,
        n >= 0x1_0000_0000 ==> cut_to_u32(n) == 0xffff_ffff,
        n <= m ==> cut_to_u32(n) <= cut_to_u32(m),
{
}

/// A summary that could be read is stored: its sections, the text that shows them, and the size
/// of that text. Without one nothing is.
pub proof fn law_read_summary_is_stored(reply: SummarizerReply, r: CompactionVerdict)
    requires
        follows_summary(reply, r),
    ensures
        r is Store <==> reply is Parsed,
        reply matches SummarizerReply::Parsed(value) ==> (r matches CompactionVerdict::Store(done)
            && done.sections.deep_view() == summary::sections_of(value@) && done.markdown@
            == summary::markdown(done.sections.deep_view()) && done.filled_slots
            == summary::filled_count(done.sections.deep_view())),
        r matches CompactionVerdict::Store(done) ==> (vstd::utf8::encode_utf8(done.markdown@).len()
            <= u32::MAX ==> done.summary_bytes == vstd::utf8::encode_utf8(done.markdown@).len()
            && done.tokens_after == vstd::utf8::encode_utf8(done.markdown@).len() / 4),
        reply is Cancelled ==> (r matches CompactionVerdict::Stop { outcome, reason } && outcome
            == CompactionOutcome::Cancelled),
        reply is NotJson || reply is ProviderError ==> (r matches CompactionVerdict::Stop {
            outcome,
            reason,
        } && outcome == CompactionOutcome::Failed),
{
    if let CompactionVerdict::Store(done) = r {
        text::lemma_byte_len_is_encoded_len(done.markdown@);
    }
}

} // verus!
