//! Compaction of a long conversation: what the summarizer is shown, how its answer is
//! read, and how tool results are archived.
use vstd::prelude::*;
use vstd::string::*;
use crate::message::{ChatMessage, ContentPart, ContentView, MessageContent, MessageView, PartView};
use crate::message;
use crate::text;

verus! {

broadcast use vstd::string::group_string_axioms;

/// How many tokens of a tool result the summarizer is shown.
pub const PREPROCESS_TOOL_RESULT_MAX_TOKENS_DEFAULT: usize = 10_000;

/// Whether images are left out of what the summarizer is shown.
pub const PREPROCESS_STRIP_IMAGES_DEFAULT: bool = true;

/// How many tokens of the context window are kept free for the answer.
pub const RESERVE_TOKENS_DEFAULT: usize = 16_384;

/// How many bytes are counted as one token.
pub const BYTES_PER_TOKEN_HEURISTIC: usize = 4;

/// How many bytes of a tool result its placeholder shows.
pub const COMPACT_SUMMARY_HEAD_BYTES: usize = 80;

/// How many of the latest user turns keep their tool results in full.
pub const KEEP_RECENT_USER_TURNS_DEFAULT: usize = 3;

// ---------------------------------------------------------------------------
// The threshold
// ---------------------------------------------------------------------------

/// The number of tokens at which compaction starts: the smallest of the configured
/// number, the configured share of the window and the window without the reserve;
/// the configured number alone where the window is unknown, the share is not valid or
/// the reserve takes up the whole window; one at the least.
pub open spec fn threshold(
    absolute: nat,
    window: Option<nat>,
    share_of_window: Option<nat>,
    reserve: nat,
) -> nat {
    let bound = match (window, share_of_window) {
        (Some(w), Some(share)) if reserve < w => {
            let least = if share < absolute {
                share
            } else {
                absolute
            };
            if w - reserve < least {
                (w - reserve) as nat
            } else {
                least
            }
        },
        _ => absolute,
    };
    if bound < 1 {
        1
    } else {
        bound
    }
}

/// The number of tokens at which compaction starts. `share_of_window` is the configured
/// percentage of the window, where the percentage is above zero and at most one.
pub fn effective_compaction_threshold(
    absolute: usize,
    window: Option<usize>,
    share_of_window: Option<usize>,
    reserve: usize,
) -> (r: usize)
    ensures
        r == threshold(
            absolute as nat,
            match window {
                Some(w) => Some(w as nat),
                None => None,
            },
            match share_of_window {
                Some(s) => Some(s as nat),
                None => None,
            },
            reserve as nat,
        ),
        r >= 1,
{
    let mut bound: usize = absolute;
    if let Some(w) = window {
        if let Some(share) = share_of_window {
            if reserve < w {
                if share < bound {
                    bound = share;
                }
                if w - reserve < bound {
                    bound = w - reserve;
                }
            }
        }
    }
    if bound < 1 {
        1
    } else {
        bound
    }
}

/// Compaction starts no later than at any of the three bounds, and at one of them; where the
/// window is not known, has no valid share, or is taken up by the reserve, at the configured
/// number alone. It never starts at nothing.
pub proof fn law_threshold_is_the_least_bound(
    absolute: nat,
    window: nat,
    share: nat,
    reserve: nat,
    known: Option<nat>,
    valid: Option<nat>,
)
    ensures
        threshold(absolute, known, valid, reserve) >= 1,
        absolute >= 1 ==> threshold(absolute, known, valid, reserve) <= absolute,
        (known is None || valid is None || reserve >= known->0) && absolute >= 1 ==> threshold(
            absolute,
            known,
            valid,
            reserve,
        ) == absolute,
        reserve < window && absolute >= 1 && share >= 1 ==> ({
            let t = threshold(absolute, Some(window), Some(share), reserve);
            &&& t <= share
            &&& t + reserve <= window
            &&& t == absolute || t == share || t + reserve == window
        }),
{
}

// ---------------------------------------------------------------------------
// The transcript
// ---------------------------------------------------------------------------

/// How a part of a message is shown, where it is shown at all.
pub open spec fn rendered_part(part: PartView, strip_images: bool) -> Option<Seq<char>> {
    match part {
        PartView::Text(t) => Some(t),
        PartView::ImageUrl { .. } => if strip_images {
            None
        } else {
            Some("[image]"@)
        },
        PartView::Document { name, .. } => Some(
            "[document: "@ + match name {
                Some(n) => n,
                None => "document"@,
            } + "]"@,
        ),
    }
}

/// The parts as they are shown, in their order.
pub open spec fn rendered_parts(parts: Seq<PartView>, strip_images: bool) -> Seq<Seq<char>>
    decreases parts.len(),
{
    if parts.len() == 0 {
        Seq::empty()
    } else {
        let before = rendered_parts(parts.drop_last(), strip_images);
        match rendered_part(parts.last(), strip_images) {
            Some(t) => before.push(t),
            None => before,
        }
    }
}

/// The content of a message as it is shown.
pub open spec fn rendered(content: ContentView, strip_images: bool) -> Seq<char> {
    match content {
        ContentView::Text(t) => t,
        ContentView::Parts(parts) => text::join(rendered_parts(parts, strip_images), "\n"@),
    }
}

/// The content of a message as the summarizer is shown it.
pub fn render_content(content: &MessageContent, strip_images: bool) -> (r: String)
    ensures
        r@ == rendered(content.deep_view(), strip_images),
{
    match content {
        MessageContent::Text(t) => t.clone(),
        MessageContent::Parts(parts) => {
            let ghost all = parts.deep_view();
            let mut shown: Vec<String> = Vec::new();
            let mut i: usize = 0;
            assert(all.take(0) =~= Seq::<PartView>::empty());
            while i < parts.len()
                invariant
                    i <= parts@.len(),
                    all == parts.deep_view(),
                    shown.deep_view() == rendered_parts(all.take(i as int), strip_images),
                decreases parts@.len() - i,
            {
                let ghost before = shown.deep_view();
                assert(all.take(i + 1).drop_last() =~= all.take(i as int));
                assert(all[i as int] == parts@[i as int].deep_view());
                let one: Option<String> = match &parts[i] {
                    ContentPart::Text { text } => Some(text.clone()),
                    ContentPart::ImageUrl { .. } => if strip_images {
                        None
                    } else {
                        Some("[image]".to_owned())
                    },
                    ContentPart::Document { document } => {
                        let mut label: String = "[document: ".to_owned();
                        match &document.name {
                            Some(name) => label.append(name.as_str()),
                            None => label.append("document"),
                        }
                        label.append("]");
                        Some(label)
                    },
                };
                assert(one.deep_view() == rendered_part(all[i as int], strip_images));
                if let Some(t) = one {
                    shown.push(t);
                    assert(shown.deep_view() =~= before.push(t@));
                }
                i = i + 1;
            }
            assert(all.take(i as int) =~= all);
            text::joined(&shown, "\n")
        },
    }
}

/// What the summarizer is shown of a message's content: a tool result no longer than
/// `max_tokens` tokens.
pub open spec fn shown_body(m: MessageView, content: ContentView, strip_images: bool, max_tokens: nat) -> Seq<
    char,
> {
    let body = rendered(content, strip_images);
    if m.role == "tool"@ {
        text::truncate_utf8(body, max_tokens * 4, "…[truncated]"@)
    } else {
        body
    }
}

/// What the summarizer is shown of a message.
pub open spec fn transcript_line(m: MessageView, strip_images: bool, max_tokens: nat) -> Seq<char> {
    if m.role == "system"@ {
        Seq::empty()
    } else {
        match m.content {
            Some(content) => m.role + ": "@ + shown_body(m, content, strip_images, max_tokens)
                + "\n\n"@,
            None => if m.tool_calls is Some {
                m.role + ": [Invoked Tools]\n\n"@
            } else {
                Seq::empty()
            },
        }
    }
}

/// What the summarizer is shown of the conversation.
pub open spec fn transcript(ms: Seq<MessageView>, strip_images: bool, max_tokens: nat) -> Seq<char>
    decreases ms.len(),
{
    if ms.len() == 0 {
        Seq::empty()
    } else {
        transcript(ms.drop_last(), strip_images, max_tokens) + transcript_line(
            ms.last(),
            strip_images,
            max_tokens,
        )
    }
}

/// Writes down what the summarizer is shown, and about how many tokens that is. System
/// messages are left out, images are left out or named, and long tool results are cut.
pub fn preprocess_transcript_for_compaction(
    context: &[ChatMessage],
    strip_images: bool,
    tool_result_max_tokens: usize,
) -> (r: (String, usize))
    ensures
        r.0@ == transcript(context.deep_view(), strip_images, tool_result_max_tokens as nat),
        r.1 == text::byte_len(r.0@) / 4,
{
    let ghost ms = context.deep_view();
    let mut out = String::new();
    let mut i: usize = 0;
    assert(ms.take(0) =~= Seq::<MessageView>::empty());
    while i < context.len()
        invariant
            i <= context@.len(),
            ms == context.deep_view(),
            out@ == transcript(ms.take(i as int), strip_images, tool_result_max_tokens as nat),
        decreases context@.len() - i,
    {
        let msg = &context[i];
        let ghost so_far = out@;
        let ghost line = transcript_line(ms[i as int], strip_images, tool_result_max_tokens as nat);
        assert(ms.take(i + 1).drop_last() =~= ms.take(i as int));
        assert(ms[i as int] == msg.deep_view());
        if !text::same(msg.role.as_str(), "system") {
            if let Some(content) = &msg.content {
                let mut body: String = render_content(content, strip_images);
                if text::same(msg.role.as_str(), "tool") {
                    let length: usize = text::byte_length(body.as_str());
                    if tool_result_max_tokens <= usize::MAX / 4 && length > tool_result_max_tokens
                        * 4 {
                        text::truncate_utf8_safe(
                            &mut body,
                            tool_result_max_tokens * 4,
                            "…[truncated]",
                        );
                    }
                }
                out.append(msg.role.as_str());
                out.append(": ");
                out.append(body.as_str());
                out.append("\n\n");
                assert(out@ =~= so_far + line);
            } else if msg.tool_calls.is_some() {
                out.append(msg.role.as_str());
                out.append(": [Invoked Tools]\n\n");
                assert(out@ =~= so_far + line);
            } else {
                assert(so_far + line =~= so_far);
            }
        } else {
            assert(so_far + line =~= so_far);
        }
        i = i + 1;
    }
    assert(ms.take(i as int) =~= ms);
    let tokens: usize = text::byte_length(out.as_str()) / BYTES_PER_TOKEN_HEURISTIC;
    (out, tokens)
}

proof fn lemma_transcript_concat(
    a: Seq<MessageView>,
    b: Seq<MessageView>,
    strip_images: bool,
    max_tokens: nat,
)
    ensures
        transcript(a + b, strip_images, max_tokens) == transcript(a, strip_images, max_tokens)
            + transcript(b, strip_images, max_tokens),
    decreases b.len(),
{
    if b.len() == 0 {
        assert(a + b =~= a);
        assert(transcript(a, strip_images, max_tokens) + Seq::<char>::empty() =~= transcript(
            a,
            strip_images,
            max_tokens,
        ));
    } else {
        assert((a + b).drop_last() =~= a + b.drop_last());
        lemma_transcript_concat(a, b.drop_last(), strip_images, max_tokens);
        let line = transcript_line(b.last(), strip_images, max_tokens);
        assert(transcript(a, strip_images, max_tokens) + transcript(
            b.drop_last(),
            strip_images,
            max_tokens,
        ) + line =~= transcript(a, strip_images, max_tokens) + (transcript(
            b.drop_last(),
            strip_images,
            max_tokens,
        ) + line));
    }
}

/// Whoever says something, other than the system, is in the transcript with it: between what
/// was shown before and what is shown behind stand the role and the text, in full unless it
/// is a tool result over its budget.
pub proof fn law_every_speaker_is_shown(
    before: Seq<MessageView>,
    m: MessageView,
    behind: Seq<MessageView>,
    strip_images: bool,
    max_tokens: nat,
)
    requires
        m.role != "system"@,
        m.content is Some,
    ensures
        ({
            let said = rendered(m.content->0, strip_images);
            (m.role != "tool"@ || vstd::utf8::encode_utf8(said).len() <= max_tokens * 4)
                ==> transcript(before.push(m) + behind, strip_images, max_tokens) == transcript(
                before,
                strip_images,
                max_tokens,
            ) + (m.role + ": "@ + said + "\n\n"@) + transcript(behind, strip_images, max_tokens)
        }),
{
    let said = rendered(m.content->0, strip_images);
    text::lemma_byte_len_is_encoded_len(said);
    lemma_transcript_concat(before.push(m), behind, strip_images, max_tokens);
    assert(before.push(m).drop_last() =~= before);
}

/// A tool result over its budget is in the transcript with as much of its beginning as fits
/// the budget, and with the mark that it is cut.
pub proof fn law_long_tool_result_is_shown_cut(
    before: Seq<MessageView>,
    m: MessageView,
    behind: Seq<MessageView>,
    strip_images: bool,
    max_tokens: nat,
)
    requires
        m.role == "tool"@,
        m.content is Some,
        vstd::utf8::encode_utf8(rendered(m.content->0, strip_images)).len() > max_tokens * 4,
    ensures
        exists|n: int|
            #![trigger rendered(m.content->0, strip_images).take(n)]
            ({
                let said = rendered(m.content->0, strip_images);
                &&& 0 <= n < said.len()
                &&& vstd::utf8::encode_utf8(said.take(n)).len() <= max_tokens * 4
                &&& vstd::utf8::encode_utf8(said.take(n + 1)).len() > max_tokens * 4
                &&& transcript(before.push(m) + behind, strip_images, max_tokens) == transcript(
                    before,
                    strip_images,
                    max_tokens,
                ) + (m.role + ": "@ + (said.take(n) + "…[truncated]"@) + "\n\n"@) + transcript(
                    behind,
                    strip_images,
                    max_tokens,
                )
            }),
{
    let said = rendered(m.content->0, strip_images);
    let n = text::fitting_chars(said, max_tokens * 4) as int;
    reveal_strlit("tool");
    reveal_strlit("system");
    assert("tool"@[0] != "system"@[0]);
    text::lemma_byte_len_is_encoded_len(said);
    text::lemma_fitting_prefix(said, max_tokens * 4);
    assert(said.take(said.len() as int) =~= said);
    assert(n < said.len());
    text::lemma_byte_len_is_encoded_len(said.take(n));
    text::lemma_byte_len_is_encoded_len(said.take(n + 1));
    lemma_transcript_concat(before.push(m), behind, strip_images, max_tokens);
    assert(before.push(m).drop_last() =~= before);
}

/// A message that says nothing and calls tools is in the transcript as one that does; a
/// message that neither says nor calls anything is not in it, nor is one of the system.
pub proof fn law_silent_messages_are_shown_by_their_calls(
    before: Seq<MessageView>,
    m: MessageView,
    behind: Seq<MessageView>,
    strip_images: bool,
    max_tokens: nat,
)
    requires
        m.role == "system"@ || m.content is None,
    ensures
        transcript(before.push(m) + behind, strip_images, max_tokens) == transcript(
            before,
            strip_images,
            max_tokens,
        ) + (if m.role != "system"@ && m.tool_calls is Some {
            m.role + ": [Invoked Tools]\n\n"@
        } else {
            Seq::empty()
        }) + transcript(behind, strip_images, max_tokens),
{
    lemma_transcript_concat(before.push(m), behind, strip_images, max_tokens);
    assert(before.push(m).drop_last() =~= before);
}

/// What is shown of a content with several parts: the texts of its parts one behind the
/// other, each on lines of its own. An image is left out, or named where images are not left
/// out; a document is named.
pub proof fn law_parts_are_shown_in_order(parts: Seq<PartView>, part: PartView, strip_images: bool)
    ensures
        forall|t: Seq<char>| #[trigger] rendered(ContentView::Text(t), strip_images) == t,
        rendered(ContentView::Parts(Seq::empty()), strip_images).len() == 0,
        part matches PartView::ImageUrl { .. } && strip_images ==> rendered(
            ContentView::Parts(parts.push(part)),
            strip_images,
        ) == rendered(ContentView::Parts(parts), strip_images),
        !(part is ImageUrl && strip_images) ==> ({
            let shown = match part {
                PartView::Text(t) => t,
                PartView::ImageUrl { .. } => "[image]"@,
                PartView::Document { name: Some(n), .. } => "[document: "@ + n + "]"@,
                PartView::Document { name: None, .. } => "[document: document]"@,
            };
            let all = rendered(ContentView::Parts(parts.push(part)), strip_images);
            &&& rendered_parts(parts, strip_images).len() == 0 ==> all == shown
            &&& rendered_parts(parts, strip_images).len() > 0 ==> all == rendered(
                ContentView::Parts(parts),
                strip_images,
            ) + "\n"@ + shown
            &&& rendered_parts(parts.push(part), strip_images).len() == rendered_parts(
                parts,
                strip_images,
            ).len() + 1
        }),
{
    let all = parts.push(part);
    assert(all.drop_last() =~= parts);
    let head = rendered_parts(parts, strip_images);
    if let Some(t) = rendered_part(part, strip_images) {
        assert(head.push(t).drop_last() =~= head);
        if part is Document && part->Document_name is None {
            reveal_strlit("[document: ");
            reveal_strlit("document");
            reveal_strlit("]");
            reveal_strlit("[document: document]");
            assert("[document: "@ + "document"@ + "]"@ =~= "[document: document]"@);
        }
    }
}

/// System messages are not shown to the summarizer.
pub proof fn law_system_messages_are_not_shown(
    ms: Seq<MessageView>,
    strip_images: bool,
    max_tokens: nat,
)
    ensures
        transcript(ms, strip_images, max_tokens) == transcript(
            ms.filter(|m: MessageView| m.role != "system"@),
            strip_images,
            max_tokens,
        ),
    decreases ms.len(),
{
    let kept = |m: MessageView| m.role != "system"@;
    reveal(Seq::filter);
    if ms.len() > 0 {
        law_system_messages_are_not_shown(ms.drop_last(), strip_images, max_tokens);
        let before = ms.drop_last().filter(kept);
        if kept(ms.last()) {
            assert(before.push(ms.last()).drop_last() =~= before);
        } else {
            assert(transcript(ms, strip_images, max_tokens) =~= transcript(
                ms.drop_last(),
                strip_images,
                max_tokens,
            ));
        }
    }
}

/// No tool result takes more than its budget and the mark for the cut.
pub proof fn law_shown_tool_result_is_bounded(
    m: MessageView,
    content: ContentView,
    strip_images: bool,
    max_tokens: nat,
)
    requires
        m.role == "tool"@,
    ensures
        text::byte_len(shown_body(m, content, strip_images, max_tokens)) <= max_tokens * 4
            + text::byte_len("…[truncated]"@),
{
    let body = rendered(content, strip_images);
    text::lemma_fitting_prefix(body, max_tokens * 4);
    text::lemma_byte_len_concat(text::fitting_prefix(body, max_tokens * 4), "…[truncated]"@);
}

// ---------------------------------------------------------------------------
// Archived tool results
// ---------------------------------------------------------------------------

/// What every placeholder begins with.
pub const ARCHIVED_PREFIX: &'static str = "[Tool result archived.";

/// `c`, or a space where it ends a line.
pub open spec fn on_one_line(c: char) -> char {
    if c == '\n' || c == '\r' {
        ' '
    } else {
        c
    }
}

/// The start of a tool result on one line, with an ellipsis where it is cut.
pub open spec fn head_excerpt(full: Seq<char>) -> Seq<char> {
    let kept = text::fitting_prefix(full, COMPACT_SUMMARY_HEAD_BYTES as nat);
    let flat = kept.map_values(|c: char| on_one_line(c));
    if kept.len() < full.len() {
        flat.push('…')
    } else {
        flat
    }
}

/// What stands in for a tool result that was archived.
pub open spec fn placeholder(id: Seq<char>, tool: Seq<char>, full: Seq<char>) -> Seq<char> {
    "[Tool result archived. Recall: recall_tool_result(tool_call_id=\""@ + id
        + "\"). Original: tool="@ + tool + " bytes="@ + text::decimal(text::byte_len(full))
        + " head=\""@ + head_excerpt(full) + "\"]"@
}

/// Writes the placeholder that stands in for a tool result: it holds the id by which the
/// result can be recalled, the tool, the length and the start of the result.
pub fn build_compact_placeholder(tool_call_id: &str, tool_name: &str, full_content: &str) -> (r:
    String)
    ensures
        r@ == placeholder(tool_call_id@, tool_name@, full_content@),
{
    let bytes: usize = text::byte_length(full_content);
    let chars: Vec<char> = text::chars_of(full_content);
    let keep: usize = text::count_fitting(&chars, COMPACT_SUMMARY_HEAD_BYTES);
    let ghost kept = text::fitting_prefix(full_content@, COMPACT_SUMMARY_HEAD_BYTES as nat);
    let ghost flat = kept.map_values(|c: char| on_one_line(c));
    let mut head = String::new();
    let mut i: usize = 0;
    assert(flat.take(0) =~= Seq::<char>::empty());
    while i < keep
        invariant
            i <= keep <= chars@.len(),
            chars@ == full_content@,
            kept == full_content@.take(keep as int),
            flat == kept.map_values(|c: char| on_one_line(c)),
            head@ == flat.take(i as int),
        decreases keep - i,
    {
        let c: char = chars[i];
        if c == '\n' || c == '\r' {
            head.push(' ');
        } else {
            head.push(c);
        }
        assert(flat.take(i + 1) =~= flat.take(i as int).push(flat[i as int]));
        i = i + 1;
    }
    assert(flat.take(i as int) =~= flat);
    if keep < chars.len() {
        head.push('…');
    }
    let mut out: String = "[Tool result archived. Recall: recall_tool_result(tool_call_id=\"".to_owned();
    out.append(tool_call_id);
    out.append("\"). Original: tool=");
    out.append(tool_name);
    out.append(" bytes=");
    let count: String = text::decimal_usize(bytes);
    out.append(count.as_str());
    out.append(" head=\"");
    out.append(head.as_str());
    out.append("\"]");
    out
}

/// Every placeholder begins with the mark by which it is known.
pub proof fn law_placeholder_is_known(id: Seq<char>, tool: Seq<char>, full: Seq<char>)
    ensures
        text::starts_with(placeholder(id, tool, full), ARCHIVED_PREFIX@),
{
    reveal_strlit("[Tool result archived. Recall: recall_tool_result(tool_call_id=\"");
    reveal_strlit("[Tool result archived.");
    let start = "[Tool result archived. Recall: recall_tool_result(tool_call_id=\""@;
    let mark = ARCHIVED_PREFIX@;
    assert(start.subrange(0, mark.len() as int) =~= mark);
    let p = placeholder(id, tool, full);
    assert(p.subrange(0, mark.len() as int) =~= start.subrange(0, mark.len() as int));
}

/// A placeholder holds the id by which the result can be recalled.
pub proof fn law_placeholder_holds_id(id: Seq<char>, tool: Seq<char>, full: Seq<char>)
    ensures
        text::contains(placeholder(id, tool, full), id),
{
    let start = "[Tool result archived. Recall: recall_tool_result(tool_call_id=\""@;
    let rest = "\"). Original: tool="@ + tool + " bytes="@ + text::decimal(text::byte_len(full))
        + " head=\""@ + head_excerpt(full) + "\"]"@;
    assert(placeholder(id, tool, full) =~= start + id + rest);
    text::lemma_contains_middle(start, id, rest);
}

/// The excerpt in a placeholder stays on one line.
pub proof fn law_excerpt_is_one_line(full: Seq<char>)
    ensures
        forall|i: int|
            0 <= i < head_excerpt(full).len() ==> (#[trigger] head_excerpt(full)[i]) != '\n'
                && head_excerpt(full)[i] != '\r',
{
}

/// What is needed to archive a tool result: its id, its tool, its content and what stands
/// in for it.
#[derive(Debug)]
pub struct ToolSwapPayload {
    pub tool_call_id: String,
    pub tool_name: String,
    pub full_content: String,
    pub placeholder: String,
}

/// A payload in the abstract.
#[verifier::ext_equal]
pub struct SwapView {
    pub tool_call_id: Seq<char>,
    pub tool_name: Seq<char>,
    pub full_content: Seq<char>,
    pub placeholder: Seq<char>,
}

impl DeepView for ToolSwapPayload {
    type V = SwapView;

    open spec fn deep_view(&self) -> SwapView {
        SwapView {
            tool_call_id: self.tool_call_id@,
            tool_name: self.tool_name@,
            full_content: self.full_content@,
            placeholder: self.placeholder@,
        }
    }
}

/// How a message is archived: a tool result with an id, a content, and no placeholder in
/// place of it yet.
pub open spec fn swap_of(m: MessageView) -> Option<SwapView> {
    match (m.tool_call_id, m.content) {
        (Some(id), Some(content)) => {
            let full = message::content_text(content);
            if m.role == "tool"@ && !text::starts_with(full, ARCHIVED_PREFIX@) {
                let tool = match m.name {
                    Some(n) => n,
                    None => "unknown"@,
                };
                Some(
                    SwapView {
                        tool_call_id: id,
                        tool_name: tool,
                        full_content: full,
                        placeholder: placeholder(id, tool, full),
                    },
                )
            } else {
                None
            }
        },
        _ => None,
    }
}

/// Decides whether a message can be archived, and how.
pub fn try_build_tool_swap(msg: &ChatMessage) -> (r: Option<ToolSwapPayload>)
    ensures
        r.deep_view() == swap_of(msg.deep_view()),
{
    if !text::same(msg.role.as_str(), "tool") {
        return None;
    }
    let tool_call_id: String = match &msg.tool_call_id {
        Some(id) => id.clone(),
        None => {
            return None;
        },
    };
    let tool_name: String = match &msg.name {
        Some(name) => name.clone(),
        None => "unknown".to_owned(),
    };
    let full_content: String = match &msg.content {
        Some(content) => content.text_content(),
        None => {
            return None;
        },
    };
    if text::begins_with(full_content.as_str(), ARCHIVED_PREFIX) {
        return None;
    }
    let stand_in: String = build_compact_placeholder(
        tool_call_id.as_str(),
        tool_name.as_str(),
        full_content.as_str(),
    );
    Some(ToolSwapPayload { tool_call_id, tool_name, full_content, placeholder: stand_in })
}

/// The message with its content archived, where it can be.
pub open spec fn archived(m: MessageView) -> MessageView {
    match swap_of(m) {
        Some(swap) => MessageView { content: Some(ContentView::Text(swap.placeholder)), ..m },
        None => m,
    }
}

/// The messages with the content of each archived, where it can be.
pub open spec fn all_archived(ms: Seq<MessageView>) -> Seq<MessageView> {
    ms.map_values(|m: MessageView| archived(m))
}

/// What goes into the archive: id, content and tool of each result, in their order.
pub open spec fn archive_entries(ms: Seq<MessageView>) -> Seq<(Seq<char>, Seq<char>, Seq<char>)>
    decreases ms.len(),
{
    if ms.len() == 0 {
        Seq::empty()
    } else {
        let before = archive_entries(ms.drop_last());
        match swap_of(ms.last()) {
            Some(swap) => before.push((swap.tool_call_id, swap.full_content, swap.tool_name)),
            None => before,
        }
    }
}

/// Archives every tool result that can be archived, in place. Gives the number of results
/// and what goes into the archive.
pub fn swap_all_tool_results_in_place(context: &mut Vec<ChatMessage>) -> (r: (
    usize,
    Vec<(String, String, String)>,
))
    ensures
        final(context).deep_view() == all_archived(old(context).deep_view()),
        r.1.deep_view() == archive_entries(old(context).deep_view()),
        r.0 == r.1@.len(),
{
    let ghost ms = context.deep_view();
    let mut to_cache: Vec<(String, String, String)> = Vec::new();
    let mut i: usize = 0;
    proof {
        assert(ms.take(0) =~= Seq::<MessageView>::empty());
        assert(to_cache.deep_view() =~= archive_entries(ms.take(0)));
        assert(context.deep_view() =~= all_archived(ms.take(0)) + ms.skip(0));
    }
    while i < context.len()
        invariant
            i <= context@.len(),
            context@.len() == ms.len(),
            context.deep_view() == all_archived(ms.take(i as int)) + ms.skip(i as int),
            to_cache.deep_view() == archive_entries(ms.take(i as int)),
        decreases context@.len() - i,
    {
        let ghost now = context.deep_view();
        let ghost before = to_cache.deep_view();
        proof {
            assert(now[i as int] == ms[i as int]);
            assert(now[i as int] == context@[i as int].deep_view());
            assert(ms.take(i + 1).drop_last() =~= ms.take(i as int));
        }
        if let Some(payload) = try_build_tool_swap(&context[i]) {
            to_cache.push((payload.tool_call_id, payload.full_content, payload.tool_name));
            assert(to_cache.deep_view() =~= archive_entries(ms.take(i + 1)));
            context[i].content = Some(MessageContent::Text(payload.placeholder));
            assert(context.deep_view() =~= now.update(i as int, archived(ms[i as int])));
        } else {
            assert(archived(ms[i as int]) == ms[i as int]);
        }
        assert(context.deep_view() =~= all_archived(ms.take(i + 1)) + ms.skip(i + 1));
        i = i + 1;
    }
    proof {
        assert(ms.take(i as int) =~= ms);
        assert(context.deep_view() =~= all_archived(ms));
        assert(to_cache.deep_view().len() == to_cache@.len());
    }
    let count: usize = to_cache.len();
    (count, to_cache)
}

/// A message can be archived if and only if it is a tool result that names its call, has a
/// content, and is no placeholder yet; what goes into the archive is its whole content, under
/// the id of its call and the name of its tool.
pub proof fn law_tool_results_can_be_archived(m: MessageView)
    ensures
        swap_of(m) is Some <==> (m.role == "tool"@ && m.tool_call_id is Some && m.content is Some
            && !text::starts_with(message::content_text(m.content->0), ARCHIVED_PREFIX@)),
        swap_of(m) matches Some(swap) ==> {
            &&& Some(swap.tool_call_id) == m.tool_call_id
            &&& swap.full_content == message::content_text(m.content->0)
            &&& m.name matches Some(n) ==> swap.tool_name == n
            &&& m.name is None ==> swap.tool_name == "unknown"@
            &&& text::contains(swap.placeholder, swap.tool_call_id)
            &&& text::starts_with(swap.placeholder, ARCHIVED_PREFIX@)
        },
{
    if let Some(swap) = swap_of(m) {
        law_placeholder_holds_id(swap.tool_call_id, swap.tool_name, swap.full_content);
        law_placeholder_is_known(swap.tool_call_id, swap.tool_name, swap.full_content);
    }
}

/// Archiving changes nothing of a message but its content, and the content only of those that
/// can be archived: nothing that users, the model or the system said is touched.
pub proof fn law_archiving_changes_tool_results_only(ms: Seq<MessageView>, i: int)
    requires
        0 <= i < ms.len(),
    ensures
        all_archived(ms).len() == ms.len(),
        ms[i].role != "tool"@ ==> all_archived(ms)[i] == ms[i],
        all_archived(ms)[i].role == ms[i].role,
        all_archived(ms)[i].name == ms[i].name,
        all_archived(ms)[i].tool_calls == ms[i].tool_calls,
        all_archived(ms)[i].tool_call_id == ms[i].tool_call_id,
        all_archived(ms)[i].reasoning_content == ms[i].reasoning_content,
        all_archived(ms)[i].is_error == ms[i].is_error,
        swap_of(ms[i]) is None ==> all_archived(ms)[i].content == ms[i].content,
        swap_of(ms[i]) matches Some(swap) ==> all_archived(ms)[i].content == Some(
            ContentView::Text(swap.placeholder),
        ),
{
}

/// Nothing is lost by archiving: the whole content of every message that is archived goes
/// into the archive, in the order of the messages, and nothing else does.
pub proof fn law_archive_holds_what_was_archived(ms: Seq<MessageView>, m: MessageView)
    ensures
        archive_entries(Seq::empty()).len() == 0,
        swap_of(m) is None ==> archive_entries(ms.push(m)) == archive_entries(ms),
        swap_of(m) is Some ==> {
            &&& archive_entries(ms.push(m)).len() == archive_entries(ms).len() + 1
            &&& archive_entries(ms.push(m)).drop_last() == archive_entries(ms)
            &&& archive_entries(ms.push(m)).last().0 == m.tool_call_id->0
            &&& archive_entries(ms.push(m)).last().1 == message::content_text(m.content->0)
            &&& m.name is Some ==> archive_entries(ms.push(m)).last().2 == m.name->0
        },
{
    assert(ms.push(m).drop_last() =~= ms);
    if let Some(swap) = swap_of(m) {
        let entry = (swap.tool_call_id, swap.full_content, swap.tool_name);
        assert(archive_entries(ms).push(entry).drop_last() =~= archive_entries(ms));
    }
}

/// A placeholder tells what the result was: the tool, how many bytes it had, and how it
/// began, character by character but for the ends of lines, with an ellipsis where it went
/// on.
pub proof fn law_placeholder_tells_of_the_result(id: Seq<char>, tool: Seq<char>, full: Seq<char>)
    ensures
        text::contains(
            placeholder(id, tool, full),
            "tool="@ + tool + " bytes="@ + text::decimal(vstd::utf8::encode_utf8(full).len()),
        ),
        text::contains(placeholder(id, tool, full), head_excerpt(full)),
        vstd::utf8::encode_utf8(full).len() <= 80 ==> head_excerpt(full).len() == full.len(),
        vstd::utf8::encode_utf8(full).len() > 80 ==> {
            &&& 0 < head_excerpt(full).len() <= full.len()
            &&& head_excerpt(full).last() == '…'
            &&& vstd::utf8::encode_utf8(full.take(head_excerpt(full).len() - 1)).len() <= 80
            &&& vstd::utf8::encode_utf8(full.take(head_excerpt(full).len() as int)).len() > 80
        },
        forall|i: int|
            0 <= i < head_excerpt(full).len() && (i + 1 < head_excerpt(full).len()
                || vstd::utf8::encode_utf8(full).len() <= 80) && full[i] != '\n' && full[i] != '\r'
                ==> #[trigger] head_excerpt(full)[i] == full[i],
{
    text::lemma_byte_len_is_encoded_len(full);
    text::lemma_fitting_prefix(full, 80);
    let n = text::fitting_chars(full, 80) as int;
    assert(full.take(full.len() as int) =~= full);
    text::lemma_byte_len_is_encoded_len(full.take(n));
    if n < full.len() {
        text::lemma_byte_len_prefix(full, n + 1);
        text::lemma_byte_len_is_encoded_len(full.take(n + 1));
    }
    let count = text::decimal(text::byte_len(full));
    reveal_strlit("\"). Original: tool=");
    reveal_strlit("\"). Original: ");
    reveal_strlit("tool=");
    assert("\"). Original: tool="@ =~= "\"). Original: "@ + "tool="@);
    let start = "[Tool result archived. Recall: recall_tool_result(tool_call_id=\""@ + id
        + "\"). Original: "@;
    let told = "tool="@ + tool + " bytes="@ + count;
    let end = " head=\""@ + head_excerpt(full) + "\"]"@;
    assert(placeholder(id, tool, full) =~= start + told + end);
    text::lemma_contains_middle(start, told, end);
    let until = "[Tool result archived. Recall: recall_tool_result(tool_call_id=\""@ + id
        + "\"). Original: tool="@ + tool + " bytes="@ + count + " head=\""@;
    assert(placeholder(id, tool, full) =~= until + head_excerpt(full) + "\"]"@);
    text::lemma_contains_middle(until, head_excerpt(full), "\"]"@);
}

/// A message that was archived cannot be archived again.
pub proof fn law_archiving_is_final(m: MessageView)
    ensures
        swap_of(archived(m)) is None,
        archived(archived(m)) == archived(m),
{
    if let Some(swap) = swap_of(m) {
        law_placeholder_is_known(swap.tool_call_id, swap.tool_name, swap.full_content);
    }
}

/// Archiving twice is archiving once: nothing changes, and nothing more goes into the
/// archive.
pub proof fn law_archiving_idempotent(ms: Seq<MessageView>)
    ensures
        all_archived(all_archived(ms)) == all_archived(ms),
        archive_entries(all_archived(ms)).len() == 0,
    decreases ms.len(),
{
    assert forall|i: int| 0 <= i < ms.len() implies archived(#[trigger] all_archived(ms)[i])
        == all_archived(ms)[i] by {
        law_archiving_is_final(ms[i]);
    }
    assert(all_archived(all_archived(ms)) =~= all_archived(ms));
    if ms.len() > 0 {
        law_archiving_idempotent(ms.drop_last());
        law_archiving_is_final(ms.last());
        assert(all_archived(ms).drop_last() =~= all_archived(ms.drop_last()));
    }
}

/// A tool result that is too old: the id of its message, the id and the tool of its call, its
/// content, and the placeholder that takes its place.
pub type StaleSwap = (i64, Seq<char>, Seq<char>, Seq<char>, Seq<char>);

/// The archive entries of the messages that are older than the latest
/// `keep_recent_user_turns` user turns, the latest first; `seen` user turns lie behind the
/// messages.
pub open spec fn stale_swaps(
    ms: Seq<(i64, MessageView)>,
    keep_recent_user_turns: nat,
    seen: nat,
) -> Seq<StaleSwap>
    decreases ms.len(),
{
    if ms.len() == 0 {
        Seq::empty()
    } else {
        let (id, m) = ms.last();
        if m.role == "user"@ {
            stale_swaps(ms.drop_last(), keep_recent_user_turns, seen + 1)
        } else {
            let older = stale_swaps(ms.drop_last(), keep_recent_user_turns, seen);
            match swap_of(m) {
                Some(swap) if seen >= keep_recent_user_turns => seq![
                    (
                        id,
                        swap.tool_call_id,
                        swap.tool_name,
                        swap.full_content,
                        swap.placeholder,
                    ),
                ] + older,
                _ => older,
            }
        }
    }
}

/// Finds the tool results that are older than the latest `keep_recent_user_turns` user
/// turns and can be archived, the latest first.
pub fn identify_stale_tool_swaps(
    messages_with_ids: &[(i64, ChatMessage)],
    keep_recent_user_turns: usize,
) -> (r: Vec<(i64, String, String, String, String)>)
    ensures
        r.deep_view() == stale_swaps(
            messages_with_ids.deep_view(),
            keep_recent_user_turns as nat,
            0,
        ),
{
    let ghost ms = messages_with_ids.deep_view();
    let ghost keep = keep_recent_user_turns as nat;
    let mut results: Vec<(i64, String, String, String, String)> = Vec::new();
    let mut seen: usize = 0;
    let mut i: usize = messages_with_ids.len();
    proof {
        assert(ms.take(i as int) =~= ms);
        assert(results.deep_view() + stale_swaps(ms, keep, 0) =~= stale_swaps(ms, keep, 0));
    }
    while i > 0
        invariant
            i <= messages_with_ids@.len(),
            ms == messages_with_ids.deep_view(),
            seen <= messages_with_ids@.len() - i,
            keep == keep_recent_user_turns,
            results.deep_view() + stale_swaps(ms.take(i as int), keep, seen as nat) == stale_swaps(
                ms,
                keep,
                0,
            ),
        decreases i,
    {
        i = i - 1;
        let ghost before = results.deep_view();
        let ghost older = ms.take(i as int);
        proof {
            assert(ms.take(i + 1).drop_last() =~= older);
            assert(ms[i as int] == messages_with_ids@[i as int].deep_view());
            assert(ms.take(i + 1).last() == ms[i as int]);
        }
        let entry = &messages_with_ids[i];
        if text::same(entry.1.role.as_str(), "user") {
            seen = seen + 1;
        } else if seen >= keep_recent_user_turns {
            if let Some(payload) = try_build_tool_swap(&entry.1) {
                let ghost found = (
                    entry.0,
                    payload.tool_call_id@,
                    payload.tool_name@,
                    payload.full_content@,
                    payload.placeholder@,
                );
                results.push(
                    (
                        entry.0,
                        payload.tool_call_id,
                        payload.tool_name,
                        payload.full_content,
                        payload.placeholder,
                    ),
                );
                proof {
                    assert(results.deep_view() =~= before.push(found));
                    assert(before.push(found) + stale_swaps(older, keep, seen as nat) =~= before + (
                    seq![found] + stale_swaps(older, keep, seen as nat)));
                }
            }
        }
    }
    assert(results.deep_view() + stale_swaps(ms.take(0), keep, seen as nat)
        =~= results.deep_view());
    results
}

/// How many user turns there are.
pub open spec fn user_turns(ms: Seq<(i64, MessageView)>) -> nat
    decreases ms.len(),
{
    if ms.len() == 0 {
        0
    } else {
        user_turns(ms.drop_last()) + if ms.last().1.role == "user"@ {
            1nat
        } else {
            0
        }
    }
}

proof fn lemma_stale_swaps_are_old(ms: Seq<(i64, MessageView)>, keep: nat, seen: nat, j: int)
    requires
        0 <= j < stale_swaps(ms, keep, seen).len(),
    ensures
        exists|i: int|
            0 <= i < ms.len() && seen + user_turns(ms) - user_turns(#[trigger] ms.take(i + 1))
                >= keep && swap_of(ms[i].1) is Some && stale_swaps(ms, keep, seen)[j].0 == ms[i].0
                && stale_swaps(ms, keep, seen)[j].4 == swap_of(ms[i].1)->0.placeholder,
    decreases ms.len(),
{
    if ms.len() > 0 {
        let init = ms.drop_last();
        let (id, m) = ms.last();
        let all = stale_swaps(ms, keep, seen);
        let last = ms.len() - 1;
        if m.role == "user"@ {
            lemma_stale_swaps_are_old(init, keep, seen + 1, j);
            let i = choose|i: int|
                0 <= i < init.len() && seen + 1 + user_turns(init) - user_turns(
                    #[trigger] init.take(i + 1),
                ) >= keep && swap_of(init[i].1) is Some && all[j].0 == init[i].0 && all[j].4
                    == swap_of(init[i].1)->0.placeholder;
            assert(ms.take(i + 1) =~= init.take(i + 1));
        } else if swap_of(m) is Some && seen >= keep && j == 0 {
            assert(ms.take(last + 1) =~= ms);
        } else {
            let k = if swap_of(m) is Some && seen >= keep {
                j - 1
            } else {
                j
            };
            lemma_stale_swaps_are_old(init, keep, seen, k);
            let i = choose|i: int|
                0 <= i < init.len() && seen + user_turns(init) - user_turns(
                    #[trigger] init.take(i + 1),
                ) >= keep && swap_of(init[i].1) is Some && stale_swaps(init, keep, seen)[k].0
                    == init[i].0 && stale_swaps(init, keep, seen)[k].4 == swap_of(
                    init[i].1,
                )->0.placeholder;
            assert(ms.take(i + 1) =~= init.take(i + 1));
        }
    }
}

proof fn lemma_old_swaps_are_found(ms: Seq<(i64, MessageView)>, keep: nat, seen: nat, i: int)
    requires
        0 <= i < ms.len(),
        seen + user_turns(ms) - user_turns(ms.take(i + 1)) >= keep,
        swap_of(ms[i].1) is Some,
    ensures
        exists|j: int|
            0 <= j < stale_swaps(ms, keep, seen).len() && #[trigger] stale_swaps(ms, keep, seen)[j]
                == stale_swap_at(ms[i]),
    decreases ms.len(),
{
    let init = ms.drop_last();
    let all = stale_swaps(ms, keep, seen);
    reveal_strlit("user");
    reveal_strlit("tool");
    assert("user"@[0] == 'u' && "tool"@[0] == 't');
    if i == ms.len() - 1 {
        assert(ms.take(i + 1) =~= ms);
        assert(ms[i].1.role == "tool"@);
        assert(all[0] == stale_swap_at(ms[i]));
    } else {
        assert(ms.take(i + 1) =~= init.take(i + 1));
        assert(ms[i] == init[i]);
        if ms.last().1.role == "user"@ {
            lemma_old_swaps_are_found(init, keep, seen + 1, i);
        } else {
            lemma_old_swaps_are_found(init, keep, seen, i);
            let older = stale_swaps(init, keep, seen);
            let j = choose|j: int| 0 <= j < older.len() && #[trigger] older[j] == stale_swap_at(ms[i]);
            if swap_of(ms.last().1) is Some && seen >= keep {
                assert(all[j + 1] == older[j]);
            } else {
                assert(all[j] == older[j]);
            }
        }
    }
}

/// How a stored tool result is archived: under its number, with the id and the tool of its
/// call, its whole content, and its placeholder.
pub open spec fn stale_swap_at(row: (i64, MessageView)) -> StaleSwap {
    let full = message::content_text(row.1.content->0);
    let tool = match row.1.name {
        Some(n) => n,
        None => "unknown"@,
    };
    (
        row.0,
        row.1.tool_call_id->0,
        tool,
        full,
        placeholder(row.1.tool_call_id->0, tool, full),
    )
}

/// Every tool result that can be archived and has as many user turns behind it as are to be
/// kept is found, with its whole content.
pub proof fn law_old_results_are_archived(ms: Seq<(i64, MessageView)>, keep: nat, i: int)
    requires
        0 <= i < ms.len(),
        user_turns(ms) - user_turns(ms.take(i + 1)) >= keep,
        ms[i].1.role == "tool"@,
        ms[i].1.tool_call_id is Some,
        ms[i].1.content is Some,
        !text::starts_with(message::content_text(ms[i].1.content->0), ARCHIVED_PREFIX@),
    ensures
        exists|j: int|
            0 <= j < stale_swaps(ms, keep, 0).len() && #[trigger] stale_swaps(ms, keep, 0)[j]
                == stale_swap_at(ms[i]),
{
    lemma_old_swaps_are_found(ms, keep, 0, i);
}

/// User turns are counted one by one.
pub proof fn law_user_turns_are_counted(ms: Seq<(i64, MessageView)>, row: (i64, MessageView))
    ensures
        user_turns(Seq::empty()) == 0,
        row.1.role == "user"@ ==> user_turns(ms.push(row)) == user_turns(ms) + 1,
        row.1.role != "user"@ ==> user_turns(ms.push(row)) == user_turns(ms),
{
    assert(ms.push(row).drop_last() =~= ms);
}

/// Only tool results with at least as many user turns behind them as are to be kept are
/// found: those of the recent turns stay in full.
pub proof fn law_recent_turns_stay_in_full(ms: Seq<(i64, MessageView)>, keep: nat, j: int)
    requires
        0 <= j < stale_swaps(ms, keep, 0).len(),
    ensures
        exists|i: int|
            0 <= i < ms.len() && user_turns(ms) - user_turns(#[trigger] ms.take(i + 1)) >= keep
                && swap_of(ms[i].1) is Some && stale_swaps(ms, keep, 0)[j].0 == ms[i].0
                && stale_swaps(ms, keep, 0)[j].4 == swap_of(ms[i].1)->0.placeholder,
{
    lemma_stale_swaps_are_old(ms, keep, 0, j);
}

} // verus!
