//! Whether an agent that was asked for research has read what it found.
use vstd::prelude::*;
use crate::bus::InboundMessage;
use crate::message::{ChatMessage, MessageView};
use crate::text;

verus! {

/// Whether a text asks for research.
pub open spec fn asks_for_research(content: Seq<char>) -> bool {
    let lower = text::ascii_lower(content);
    ||| text::contains(lower, "research"@)
    ||| text::contains(lower, "literature"@)
    ||| text::contains(lower, "paper"@)
    ||| text::contains(lower, "state-of-the-art"@)
    ||| text::contains(lower, "state of the art"@)
    ||| text::contains(lower, "survey"@)
    ||| text::contains(lower, "arxiv"@)
    ||| text::contains(lower, "evidence"@)
    ||| text::contains(lower, "cite"@)
    ||| text::contains(lower, "compare methods"@)
}

/// Whether a text asks for research.
pub fn text_looks_like_research_request(content: &str) -> (r: bool)
    ensures
        r == asks_for_research(content@),
{
    let lower: String = text::to_ascii_lower(content);
    let l: &str = lower.as_str();
    text::has(l, "research") || text::has(l, "literature") || text::has(l, "paper") || text::has(
        l,
        "state-of-the-art",
    ) || text::has(l, "state of the art") || text::has(l, "survey") || text::has(l, "arxiv")
        || text::has(l, "evidence") || text::has(l, "cite") || text::has(l, "compare methods")
}

/// Whether a message calls the tool, whatever the case of its name.
pub open spec fn message_calls(m: MessageView, tool: Seq<char>) -> bool {
    m.tool_calls matches Some(calls) && exists|c: int|
        0 <= c < calls.len() && text::same_ignoring_ascii_case((#[trigger] calls[c]).name, tool)
}

/// Whether one of the messages calls the tool, whatever the case of its name.
pub open spec fn calls_tool(ms: Seq<MessageView>, tool: Seq<char>) -> bool {
    exists|i: int| 0 <= i < ms.len() && message_calls(#[trigger] ms[i], tool)
}

/// Whether one of the messages calls the tool, whatever the case of its name.
pub fn context_has_tool_call(context: &[ChatMessage], tool_name: &str) -> (r: bool)
    ensures
        r == calls_tool(context.deep_view(), tool_name@),
{
    let ghost ms = context.deep_view();
    let mut i: usize = 0;
    while i < context.len()
        invariant
            i <= context@.len(),
            ms == context.deep_view(),
            forall|k: int| 0 <= k < i ==> !message_calls(#[trigger] ms[k], tool_name@),
        decreases context@.len() - i,
    {
        assert(ms[i as int] == context@[i as int].deep_view());
        if let Some(calls) = &context[i].tool_calls {
            let ghost views = calls.deep_view();
            let mut c: usize = 0;
            while c < calls.len()
                invariant
                    c <= calls@.len(),
                    i < ms.len(),
                    ms == context.deep_view(),
                    views == calls.deep_view(),
                    ms[i as int].tool_calls == Some(views),
                    forall|k: int|
                        0 <= k < c ==> !text::same_ignoring_ascii_case(
                            (#[trigger] views[k]).name,
                            tool_name@,
                        ),
                decreases calls@.len() - c,
            {
                if text::equals_ignoring_ascii_case(calls[c].function.name.as_str(), tool_name) {
                    assert(text::same_ignoring_ascii_case(views[c as int].name, tool_name@));
                    assert(message_calls(ms[i as int], tool_name@));
                    return true;
                }
                assert(views[c as int].name == calls@[c as int].function.name@);
                c = c + 1;
            }
        }
        i = i + 1;
    }
    false
}

/// Whether sources were searched for.
pub open spec fn has_searched(ms: Seq<MessageView>) -> bool {
    calls_tool(ms, "web_search"@) || calls_tool(ms, "arxiv_search"@)
}

/// Whether a source was read.
pub open spec fn has_read_sources(ms: Seq<MessageView>) -> bool {
    calls_tool(ms, "web_fetch"@) || calls_tool(ms, "arxiv_fetch"@) || calls_tool(
        ms,
        "hf_hub_file_fetch"@,
    ) || calls_tool(ms, "read_file"@)
}

/// Whether an agent that was asked for research has searched for sources and read none.
pub fn should_nudge_research_depth(inbound: &InboundMessage, context: &[ChatMessage]) -> (r: bool)
    ensures
        r == (asks_for_research(inbound.content@) && has_searched(context.deep_view())
            && !has_read_sources(context.deep_view())),
{
    if !text_looks_like_research_request(inbound.content.as_str()) {
        return false;
    }
    let searched: bool = context_has_tool_call(context, "web_search") || context_has_tool_call(
        context,
        "arxiv_search",
    );
    if !searched {
        return false;
    }
    let has_deep_source_reads: bool = context_has_tool_call(context, "web_fetch")
        || context_has_tool_call(context, "arxiv_fetch") || context_has_tool_call(
        context,
        "hf_hub_file_fetch",
    ) || context_has_tool_call(context, "read_file");
    !has_deep_source_reads
}

// ---------------------------------------------------------------------------
// Laws
// ---------------------------------------------------------------------------

/// A message asks for research where one of the ten words of research stands in it, in any case
/// and whatever stands around it, and only there.
pub proof fn law_words_of_research_are_seen(
    content: Seq<char>,
    before: Seq<char>,
    word: Seq<char>,
    after: Seq<char>,
)
    ensures
        seq![
            "research"@,
            "literature"@,
            "paper"@,
            "state-of-the-art"@,
            "state of the art"@,
            "survey"@,
            "arxiv"@,
            "evidence"@,
            "cite"@,
            "compare methods"@,
        ].contains(word) && text::ascii_lower(content) == before + word + after
            ==> asks_for_research(content),
        asks_for_research(content) ==> exists|w: Seq<char>| #[trigger]
            text::contains(text::ascii_lower(content), w) && seq![
                "research"@,
                "literature"@,
                "paper"@,
                "state-of-the-art"@,
                "state of the art"@,
                "survey"@,
                "arxiv"@,
                "evidence"@,
                "cite"@,
                "compare methods"@,
            ].contains(w),
{
    let lower = text::ascii_lower(content);
    let all = seq![
        "research"@,
        "literature"@,
        "paper"@,
        "state-of-the-art"@,
        "state of the art"@,
        "survey"@,
        "arxiv"@,
        "evidence"@,
        "cite"@,
        "compare methods"@,
    ];
    text::lemma_contains_middle(before, word, after);
    if asks_for_research(content) {
        let i = if text::contains(lower, "research"@) {
            0int
        } else if text::contains(lower, "literature"@) {
            1
        } else if text::contains(lower, "paper"@) {
            2
        } else if text::contains(lower, "state-of-the-art"@) {
            3
        } else if text::contains(lower, "state of the art"@) {
            4
        } else if text::contains(lower, "survey"@) {
            5
        } else if text::contains(lower, "arxiv"@) {
            6
        } else if text::contains(lower, "evidence"@) {
            7
        } else if text::contains(lower, "cite"@) {
            8
        } else {
            9
        };
        assert(text::contains(lower, all[i]));
        assert(all.contains(all[i]));
    }
}

/// A tool was called in two conversations, one after the other, if and only if it was in one of
/// them; and in a single message if and only if one of its calls names the tool, in any case.
pub proof fn law_calls_are_found_wherever_they_are(
    a: Seq<MessageView>,
    b: Seq<MessageView>,
    m: MessageView,
    tool: Seq<char>,
    c: int,
)
    ensures
        calls_tool(a + b, tool) <==> calls_tool(a, tool) || calls_tool(b, tool),
        (m.tool_calls matches Some(calls) && 0 <= c < calls.len() && text::ascii_lower(
            calls[c].name,
        ) == text::ascii_lower(tool)) ==> calls_tool(seq![m], tool),
        m.tool_calls is None ==> !calls_tool(seq![m], tool),
        calls_tool(seq![m], tool) ==> exists|k: int|
            0 <= k < m.tool_calls->0.len() && text::ascii_lower(
                (#[trigger] m.tool_calls->0[k]).name,
            ) == text::ascii_lower(tool),
{
    if calls_tool(a, tool) {
        let i = choose|i: int| 0 <= i < a.len() && message_calls(#[trigger] a[i], tool);
        assert((a + b)[i] == a[i]);
    }
    if calls_tool(b, tool) {
        let i = choose|i: int| 0 <= i < b.len() && message_calls(#[trigger] b[i], tool);
        assert((a + b)[a.len() + i] == b[i]);
    }
    if calls_tool(a + b, tool) {
        let i = choose|i: int| 0 <= i < (a + b).len() && message_calls(#[trigger] (a + b)[i], tool);
        if i < a.len() {
            assert((a + b)[i] == a[i]);
        } else {
            assert((a + b)[i] == b[i - a.len()]);
        }
    }
    assert(seq![m][0] == m);
    if m.tool_calls matches Some(calls) && 0 <= c < calls.len() && text::ascii_lower(calls[c].name)
        == text::ascii_lower(tool) {
        assert(message_calls(m, tool));
    }
}

/// Sources were searched for by either of the two searches, and read by any of the four ways to
/// read one; a search is no reading.
pub proof fn law_searches_and_readings_are_told_apart(ms: Seq<MessageView>)
    ensures
        calls_tool(ms, "web_search"@) || calls_tool(ms, "arxiv_search"@) ==> has_searched(ms),
        calls_tool(ms, "web_fetch"@) || calls_tool(ms, "arxiv_fetch"@) || calls_tool(
            ms,
            "hf_hub_file_fetch"@,
        ) || calls_tool(ms, "read_file"@) ==> has_read_sources(ms),
        ms.len() == 0 ==> !has_searched(ms) && !has_read_sources(ms),
        (forall|i: int| 0 <= i < ms.len() ==> (#[trigger] ms[i]).tool_calls is None)
            ==> !has_searched(ms) && !has_read_sources(ms),
        !calls_tool(ms, "web_search"@) && !calls_tool(ms, "arxiv_search"@) ==> !has_searched(ms),
        !calls_tool(ms, "web_fetch"@) && !calls_tool(ms, "arxiv_fetch"@) && !calls_tool(
            ms,
            "hf_hub_file_fetch"@,
        ) && !calls_tool(ms, "read_file"@) ==> !has_read_sources(ms),
{
}

} // verus!
