//! The context that is sent to a model: its size, how it is cut down to a budget,
//! and how interrupted tool calls in it are repaired.
use vstd::prelude::*;
use crate::message::{ChatMessage, MessageView, ToolCallView};
use crate::message;
use crate::text;

verus! {

/// The token budget of a context.
pub const MAX_CONTEXT_TOKENS_DEFAULT: usize = 120_000;

/// Stands in a trimmed context for the messages that were taken out.
pub const TRIM_MARKER: &'static str =
    "[Earlier conversation messages were trimmed to fit context window]";

/// Stands in a repaired context for the result of a tool call that has none.
pub const CANCELLED_TOOL_RESULT: &'static str = "[Cancelled — tool execution interrupted]";

// ---------------------------------------------------------------------------
// Size estimates
// ---------------------------------------------------------------------------

/// The bytes of the calls' arguments.
pub open spec fn argument_bytes(calls: Seq<ToolCallView>) -> nat
    decreases calls.len(),
{
    if calls.len() == 0 {
        0
    } else {
        argument_bytes(calls.drop_last()) + text::byte_len(calls.last().arguments)
    }
}

/// The bytes of a message: those of its text and of its calls' arguments.
pub open spec fn message_bytes(m: MessageView) -> nat {
    let of_text = match m.content {
        Some(c) => text::byte_len(message::content_text(c)),
        None => 0,
    };
    let of_calls = match m.tool_calls {
        Some(calls) => argument_bytes(calls),
        None => 0,
    };
    of_text + of_calls
}

/// About how many tokens a message takes: one for every four bytes.
pub open spec fn message_tokens(m: MessageView) -> nat {
    message_bytes(m) / 4
}

/// The bytes of all messages.
pub open spec fn context_bytes(ms: Seq<MessageView>) -> nat
    decreases ms.len(),
{
    if ms.len() == 0 {
        0
    } else {
        message_bytes(ms[0]) + context_bytes(ms.drop_first())
    }
}

/// About how many tokens the messages take together.
pub open spec fn context_tokens(ms: Seq<MessageView>) -> nat
    decreases ms.len(),
{
    if ms.len() == 0 {
        0
    } else {
        message_tokens(ms[0]) + context_tokens(ms.drop_first())
    }
}

/// Whether the bytes of the messages can be counted by the machine. Messages that
/// are all in memory at once always can.
pub open spec fn countable(ms: Seq<MessageView>) -> bool {
    context_bytes(ms) <= usize::MAX
}

proof fn lemma_skip_step(ms: Seq<MessageView>, i: int)
    requires
        0 <= i < ms.len(),
    ensures
        ms.skip(i).drop_first() == ms.skip(i + 1),
        ms.skip(i)[0] == ms[i],
        context_tokens(ms.skip(i)) == message_tokens(ms[i]) + context_tokens(ms.skip(i + 1)),
        context_bytes(ms.skip(i)) == message_bytes(ms[i]) + context_bytes(ms.skip(i + 1)),
{
    assert(ms.skip(i).drop_first() =~= ms.skip(i + 1));
}

proof fn lemma_tokens_within_bytes(ms: Seq<MessageView>)
    ensures
        4 * context_tokens(ms) <= context_bytes(ms),
    decreases ms.len(),
{
    if ms.len() > 0 {
        lemma_tokens_within_bytes(ms.drop_first());
    }
}

proof fn lemma_message_within_context(ms: Seq<MessageView>, i: int)
    requires
        0 <= i < ms.len(),
    ensures
        message_bytes(ms[i]) <= context_bytes(ms),
    decreases i,
{
    if i > 0 {
        lemma_message_within_context(ms.drop_first(), i - 1);
    }
}

/// About how many tokens `msg` takes: one for every four bytes of its text and of its
/// calls' arguments.
pub fn estimate_message_tokens(msg: &ChatMessage) -> (r: usize)
    requires
        message_bytes(msg.deep_view()) <= usize::MAX,
    ensures
        r == message_tokens(msg.deep_view()),
{
    let text_len: usize = match &msg.content {
        Some(content) => text::byte_length(content.text_content().as_str()),
        None => 0,
    };
    let mut args_len: usize = 0;
    if let Some(calls) = &msg.tool_calls {
        let ghost all = calls.deep_view();
        let mut i: usize = 0;
        assert(all.take(0) =~= Seq::<ToolCallView>::empty());
        while i < calls.len()
            invariant
                i <= calls@.len(),
                all == calls.deep_view(),
                args_len == argument_bytes(all.take(i as int)),
                argument_bytes(all) <= usize::MAX,
            decreases calls@.len() - i,
        {
            let width: usize = text::byte_length(calls[i].function.arguments.as_str());
            proof {
                assert(all.take(i + 1).drop_last() =~= all.take(i as int));
                lemma_argument_bytes_prefix(all, i + 1);
            }
            args_len = args_len + width;
            i = i + 1;
        }
        assert(all.take(i as int) =~= all);
    }
    (text_len + args_len) / 4
}

proof fn lemma_argument_bytes_prefix(calls: Seq<ToolCallView>, n: int)
    requires
        0 <= n <= calls.len(),
    ensures
        argument_bytes(calls.take(n)) <= argument_bytes(calls),
    decreases calls.len() - n,
{
    if n < calls.len() {
        assert(calls.take(n + 1).drop_last() =~= calls.take(n));
        lemma_argument_bytes_prefix(calls, n + 1);
    } else {
        assert(calls.take(n) =~= calls);
    }
}

/// About how many tokens the messages take together.
pub fn estimate_context_tokens(context: &[ChatMessage]) -> (r: usize)
    requires
        countable(context.deep_view()),
    ensures
        r == context_tokens(context.deep_view()),
{
    let ghost ms = context.deep_view();
    let mut total: usize = 0;
    let mut i: usize = 0;
    proof {
        assert(ms.skip(0) =~= ms);
        lemma_tokens_within_bytes(ms);
    }
    while i < context.len()
        invariant
            i <= context@.len(),
            ms == context.deep_view(),
            countable(ms),
            4 * context_tokens(ms) <= context_bytes(ms),
            total + context_tokens(ms.skip(i as int)) == context_tokens(ms),
        decreases context@.len() - i,
    {
        proof {
            lemma_skip_step(ms, i as int);
            lemma_message_within_context(ms, i as int);
        }
        total = total + estimate_message_tokens(&context[i]);
        i = i + 1;
    }
    assert(ms.skip(i as int) =~= Seq::<MessageView>::empty());
    total
}

/// The larger of the estimate and the count that the provider gave for the last
/// call.
pub fn effective_context_tokens(estimate: usize, last_prompt_tokens: Option<u32>) -> (r: usize)
    ensures
        r as int == match last_prompt_tokens {
            Some(exact) => if exact > estimate {
                exact as int
            } else {
                estimate as int
            },
            None => estimate as int,
        },
{
    let exact: usize = match last_prompt_tokens {
        Some(n) => n as usize,
        None => 0,
    };
    if estimate < exact {
        exact
    } else {
        estimate
    }
}

// ---------------------------------------------------------------------------
// Trimming
// ---------------------------------------------------------------------------

/// Whether the message is the result of a tool call.
pub open spec fn is_tool_result(m: MessageView) -> bool {
    m.role == "tool"@
}

/// Whether the message calls tools.
pub open spec fn calls_tools(m: MessageView) -> bool {
    m.role == "assistant"@ && m.tool_calls is Some
}

/// How many tool results the messages begin with.
pub open spec fn leading_results(ms: Seq<MessageView>) -> nat
    decreases ms.len(),
{
    if ms.len() > 0 && is_tool_result(ms[0]) {
        1 + leading_results(ms.drop_first())
    } else {
        0
    }
}

/// How many messages go together at the start: a message that calls tools goes
/// with the results behind it.
pub open spec fn block_length(ms: Seq<MessageView>) -> nat {
    if calls_tools(ms[0]) {
        1 + leading_results(ms.drop_first())
    } else {
        1
    }
}

/// The leading results are results, and what follows them is none.
pub proof fn lemma_leading_results_bound(ms: Seq<MessageView>)
    ensures
        leading_results(ms) <= ms.len(),
        forall|k: int| 0 <= k < leading_results(ms) ==> is_tool_result(#[trigger] ms[k]),
        leading_results(ms) < ms.len() ==> !is_tool_result(ms[leading_results(ms) as int]),
    decreases ms.len(),
{
    if ms.len() > 0 && is_tool_result(ms[0]) {
        let rest = ms.drop_first();
        lemma_leading_results_bound(rest);
        assert forall|k: int| 0 <= k < leading_results(ms) implies is_tool_result(
            #[trigger] ms[k],
        ) by {
            if k > 0 {
                assert(ms[k] == rest[k - 1]);
            }
        }
    }
}

proof fn lemma_leading_results_unique(ms: Seq<MessageView>, n: int)
    requires
        0 <= n <= ms.len(),
        forall|k: int| 0 <= k < n ==> is_tool_result(#[trigger] ms[k]),
        n < ms.len() ==> !is_tool_result(ms[n]),
    ensures
        leading_results(ms) == n,
{
    lemma_leading_results_bound(ms);
    let m = leading_results(ms) as int;
    if m < n {
        assert(is_tool_result(ms[m]));
    } else if n < m {
        assert(is_tool_result(ms[n]));
    }
}

/// What is left of the messages behind `head` once the oldest of them were taken
/// out, block by block, until `head` and the rest fit into `max_tokens` or one
/// message is left.
pub open spec fn keep_latest(head: MessageView, rest: Seq<MessageView>, max_tokens: nat) -> Seq<
    MessageView,
>
    decreases rest.len(),
{
    if rest.len() >= 2 && message_tokens(head) + context_tokens(rest) > max_tokens {
        proof {
            lemma_block_length_bound(rest);
        }
        keep_latest(head, rest.skip(block_length(rest) as int), max_tokens)
    } else {
        rest
    }
}

/// The context cut down to `max_tokens`: the first message stays, the oldest of the
/// others go, and a marker stands in their place.
pub open spec fn trimmed_context(ms: Seq<MessageView>, max_tokens: nat) -> Seq<MessageView> {
    if ms.len() <= 2 || context_tokens(ms) <= max_tokens {
        ms
    } else {
        seq![ms[0], message::plain_message("user"@, TRIM_MARKER@)] + keep_latest(
            ms[0],
            ms.drop_first(),
            max_tokens,
        )
    }
}

/// A block is at least one message long, and lies within the messages.
pub proof fn lemma_block_length_bound(ms: Seq<MessageView>)
    requires
        ms.len() > 0,
    ensures
        1 <= block_length(ms) <= ms.len(),
{
    lemma_leading_results_bound(ms.drop_first());
}

/// Takes messages out of the front of the context until it fits into `max_tokens`.
/// The first message stays, a message that calls tools goes together with the
/// results behind it, and a marker is put in where anything was taken out.
pub fn trim_context_to_budget(context: &mut Vec<ChatMessage>, max_tokens: usize)
    requires
        countable(old(context).deep_view()),
    ensures
        final(context).deep_view() == trimmed_context(old(context).deep_view(), max_tokens as nat),
{
    let ghost ms = context.deep_view();
    let len: usize = context.len();
    if len <= 2 {
        return;
    }
    let whole: &[ChatMessage] = context.as_slice();
    assert(whole.deep_view() =~= ms);
    let total: usize = estimate_context_tokens(whole);
    if total <= max_tokens {
        return;
    }
    let mut remaining: usize = total;
    let mut cut: usize = 1;
    proof {
        assert(ms.skip(0) =~= ms);
        lemma_skip_step(ms, 0);
        assert(ms.skip(1) =~= ms.drop_first());
    }
    while remaining > max_tokens && len - cut > 1
        invariant
            1 <= cut <= len,
            len == context@.len(),
            len > 2,
            ms == context.deep_view(),
            countable(ms),
            remaining == message_tokens(ms[0]) + context_tokens(ms.skip(cut as int)),
            keep_latest(ms[0], ms.drop_first(), max_tokens as nat) == keep_latest(
                ms[0],
                ms.skip(cut as int),
                max_tokens as nat,
            ),
        decreases len - cut,
    {
        let ghost rest = ms.skip(cut as int);
        let start: usize = cut;
        proof {
            lemma_skip_step(ms, cut as int);
            lemma_message_within_context(ms, cut as int);
            lemma_block_length_bound(rest);
        }
        remaining = remaining - estimate_message_tokens(&context[cut]);
        cut = cut + 1;
        if text::same(context[start].role.as_str(), "assistant") && context[start].tool_calls.is_some() {
            while cut < len && text::same(context[cut].role.as_str(), "tool")
                invariant
                    start + 1 <= cut <= len,
                    len == context@.len(),
                    ms == context.deep_view(),
                    countable(ms),
                    rest == ms.skip(start as int),
                    remaining == message_tokens(ms[0]) + context_tokens(ms.skip(cut as int)),
                    forall|k: int|
                        0 <= k < cut - start - 1 ==> is_tool_result(
                            #[trigger] rest.drop_first()[k],
                        ),
                decreases len - cut,
            {
                proof {
                    lemma_skip_step(ms, cut as int);
                    lemma_message_within_context(ms, cut as int);
                    assert(rest.drop_first()[cut - start - 1] == ms[cut as int]);
                }
                remaining = remaining - estimate_message_tokens(&context[cut]);
                cut = cut + 1;
            }
            proof {
                if cut < len {
                    assert(rest.drop_first()[cut - start - 1] == ms[cut as int]);
                }
                lemma_leading_results_unique(rest.drop_first(), cut - start - 1);
                assert(calls_tools(rest[0]));
            }
        } else {
            assert(!calls_tools(rest[0]));
        }
        assert(rest.skip(block_length(rest) as int) =~= ms.skip(cut as int));
    }
    let ghost kept = ms.skip(cut as int);
    let mut tail: Vec<ChatMessage> = context.split_off(cut);
    context.truncate(1);
    let marker = ChatMessage::user(TRIM_MARKER);
    context.push(marker);
    context.append(&mut tail);
    assert(context.deep_view() =~= seq![
        ms[0],
        message::plain_message("user"@, TRIM_MARKER@),
    ] + kept);
}

/// The first message stays.
pub proof fn law_trim_keeps_first(ms: Seq<MessageView>, max_tokens: nat)
    requires
        ms.len() > 0,
    ensures
        trimmed_context(ms, max_tokens).len() > 0,
        trimmed_context(ms, max_tokens)[0] == ms[0],
{
}

/// Whether `ms[i]` is one of the results behind the message `ms[call]`, which calls
/// tools.
pub open spec fn is_result_of(ms: Seq<MessageView>, call: int, i: int) -> bool {
    &&& 0 <= call < i < ms.len()
    &&& ms[call].role == "assistant"@ && ms[call].tool_calls is Some
    &&& forall|k: int| call < k <= i ==> (#[trigger] ms[k]).role == "tool"@
}

/// Whether no message before `cut` has a result at `cut` or behind it.
pub open spec fn keeps_calls_whole(ms: Seq<MessageView>, cut: int) -> bool {
    forall|call: int, i: int| call < cut <= i ==> !#[trigger] is_result_of(ms, call, i)
}

proof fn lemma_block_is_whole(ms: Seq<MessageView>)
    requires
        ms.len() > 0,
    ensures
        keeps_calls_whole(ms, block_length(ms) as int),
{
    let n = block_length(ms) as int;
    lemma_leading_results_bound(ms.drop_first());
    assert forall|call: int, i: int| call < n <= i implies !#[trigger] is_result_of(
        ms,
        call,
        i,
    ) by {
        if is_result_of(ms, call, i) {
            assert(is_tool_result(ms[n]));
            assert(ms.drop_first()[n - 1] == ms[n]);
        }
    }
}

proof fn lemma_keep_latest_is_suffix(
    head: MessageView,
    rest: Seq<MessageView>,
    max_tokens: nat,
) -> (cut: int)
    ensures
        0 <= cut <= rest.len(),
        keep_latest(head, rest, max_tokens) == rest.skip(cut),
        rest.len() >= 2 && message_tokens(head) + context_tokens(rest) > max_tokens ==> cut > 0,
        message_tokens(head) + context_tokens(rest.skip(cut)) <= max_tokens || rest.len() - cut
            <= 1,
        keeps_calls_whole(rest, cut),
        forall|longer: int|
            0 <= longer < cut && keeps_calls_whole(rest, longer) ==> message_tokens(head)
                + context_tokens(#[trigger] rest.skip(longer)) > max_tokens,
    decreases rest.len(),
{
    if rest.len() >= 2 && message_tokens(head) + context_tokens(rest) > max_tokens {
        lemma_block_length_bound(rest);
        lemma_block_is_whole(rest);
        let n = block_length(rest) as int;
        let shorter = rest.skip(n);
        let further = lemma_keep_latest_is_suffix(head, shorter, max_tokens);
        assert(shorter.skip(further) =~= rest.skip(n + further));
        assert forall|call: int, i: int|
            call < n + further <= i implies !#[trigger] is_result_of(rest, call, i) by {
            if is_result_of(rest, call, i) && call >= n {
                assert forall|k: int| call - n < k <= i - n implies is_tool_result(
                    #[trigger] shorter[k],
                ) by {
                    assert(shorter[k] == rest[k + n]);
                }
                assert(is_result_of(shorter, call - n, i - n));
            }
        }
        assert forall|longer: int|
            0 <= longer < n + further && keeps_calls_whole(rest, longer) implies message_tokens(
            head,
        ) + context_tokens(#[trigger] rest.skip(longer)) > max_tokens by {
            if longer == 0 {
                assert(rest.skip(0) =~= rest);
            } else if longer < n {
                lemma_leading_results_bound(rest.drop_first());
                assert forall|k: int| 0 < k <= longer implies is_tool_result(
                    #[trigger] rest[k],
                ) by {
                    assert(rest.drop_first()[k - 1] == rest[k]);
                }
                assert(is_result_of(rest, 0, longer));
            } else {
                assert forall|call: int, i: int|
                    call < longer - n <= i implies !#[trigger] is_result_of(shorter, call, i) by {
                    if is_result_of(shorter, call, i) {
                        assert forall|k: int| call + n < k <= i + n implies is_tool_result(
                            #[trigger] rest[k],
                        ) by {
                            assert(shorter[k - n] == rest[k]);
                        }
                        assert(is_result_of(rest, call + n, i + n));
                    }
                }
                assert(shorter.skip(longer - n) =~= rest.skip(longer));
            }
        }
        n + further
    } else {
        assert(rest.skip(0) =~= rest);
        0
    }
}

/// What is left behind the marker is an end of the context; it fits into the budget
/// together with the first message, or is one message at the most; and behind the first
/// message no call is parted from its results: they go together or stay together.
pub proof fn law_trim_keeps_latest(ms: Seq<MessageView>, max_tokens: nat)
    requires
        ms.len() > 2,
        context_tokens(ms) > max_tokens,
    ensures
        exists|cut: int|
            1 < cut <= ms.len() && #[trigger] ms.skip(cut) == trimmed_context(
                ms,
                max_tokens,
            ).skip(2) && keeps_calls_whole(ms.drop_first(), cut - 1),
        message_tokens(ms[0]) + context_tokens(trimmed_context(ms, max_tokens).skip(2))
            <= max_tokens || trimmed_context(ms, max_tokens).len() <= 3,
{
    let rest = ms.drop_first();
    let cut = lemma_keep_latest_is_suffix(ms[0], rest, max_tokens);
    assert(trimmed_context(ms, max_tokens).skip(2) =~= rest.skip(cut));
    assert(rest.skip(cut) =~= ms.skip(cut + 1));
}

/// Trimming takes out no more than it must: any longer end of the context that keeps the
/// calls whole would be over the budget together with the first message.
pub proof fn law_trim_takes_no_more_than_it_must(
    ms: Seq<MessageView>,
    max_tokens: nat,
    cut: int,
    longer: int,
)
    requires
        ms.len() > 2,
        context_tokens(ms) > max_tokens,
        1 <= longer < cut <= ms.len(),
        ms.skip(cut) == trimmed_context(ms, max_tokens).skip(2),
        keeps_calls_whole(ms.drop_first(), longer - 1),
    ensures
        message_tokens(ms[0]) + context_tokens(ms.skip(longer)) > max_tokens,
{
    let rest = ms.drop_first();
    let kept = lemma_keep_latest_is_suffix(ms[0], rest, max_tokens);
    assert(trimmed_context(ms, max_tokens).skip(2) =~= rest.skip(kept));
    assert(ms.skip(cut).len() == rest.skip(kept).len());
    assert(rest.skip(longer - 1) =~= ms.skip(longer));
}

/// Where anything is taken out, a message of a user says so in its place, behind the first
/// message; a context of one or two messages is left as it is.
pub proof fn law_trim_marks_the_gap(ms: Seq<MessageView>, max_tokens: nat)
    ensures
        ms.len() <= 2 ==> trimmed_context(ms, max_tokens) == ms,
        ms.len() > 2 && context_tokens(ms) > max_tokens ==> ({
            let trimmed = trimmed_context(ms, max_tokens);
            &&& trimmed.len() >= 2
            &&& trimmed[1].role == "user"@
            &&& trimmed[1].content == Some(message::ContentView::Text(TRIM_MARKER@))
            &&& trimmed[1].tool_calls is None
            &&& trimmed.len() <= ms.len()
        }),
{
    if ms.len() > 2 && context_tokens(ms) > max_tokens {
        let cut = lemma_keep_latest_is_suffix(ms[0], ms.drop_first(), max_tokens);
    }
}

/// The tokens of two contexts put together are those of the one and of the other.
pub proof fn law_tokens_add_up(a: Seq<MessageView>, b: Seq<MessageView>)
    ensures
        context_tokens(a + b) == context_tokens(a) + context_tokens(b),
    decreases a.len(),
{
    if a.len() == 0 {
        assert(a + b =~= b);
    } else {
        assert((a + b).drop_first() =~= a.drop_first() + b);
        law_tokens_add_up(a.drop_first(), b);
    }
}

/// A message is counted with a token for every four bytes, of its text as well as of the
/// arguments of all its calls; a message alone is a context of as many tokens.
pub proof fn law_tokens_are_a_quarter_of_the_bytes(m: MessageView, t: Seq<char>, call: ToolCallView)
    ensures
        context_tokens(seq![m]) == message_tokens(m),
        ({
            let said = vstd::utf8::encode_utf8(t).len();
            let plain = MessageView { content: Some(message::ContentView::Text(t)), ..m };
            &&& m.tool_calls is None ==> said / 4 == message_tokens(plain)
            &&& m.content is None && m.tool_calls is None ==> message_tokens(m) == 0
        }),
        m.content is None && m.tool_calls is None ==> ({
            let asked = vstd::utf8::encode_utf8(call.arguments).len();
            let calling = MessageView { tool_calls: Some(seq![call]), ..m };
            let both = MessageView { content: Some(message::ContentView::Text(t)), ..calling };
            &&& message_tokens(calling) == asked / 4
            &&& message_tokens(both) == (vstd::utf8::encode_utf8(t).len() + asked) / 4
        }),
{
    text::lemma_byte_len_is_encoded_len(t);
    text::lemma_byte_len_is_encoded_len(call.arguments);
    reveal_with_fuel(context_tokens, 2);
    reveal_with_fuel(argument_bytes, 2);
    assert(seq![m].drop_first() =~= Seq::<MessageView>::empty());
    assert(seq![call].drop_last() =~= Seq::<ToolCallView>::empty());
}

/// Each call of a message counts with the bytes of its arguments.
pub proof fn law_every_call_is_counted(calls: Seq<ToolCallView>, more: ToolCallView)
    ensures
        argument_bytes(calls.push(more)) == argument_bytes(calls) + vstd::utf8::encode_utf8(
            more.arguments,
        ).len(),
{
    text::lemma_byte_len_is_encoded_len(more.arguments);
    assert(calls.push(more).drop_last() =~= calls);
}

/// A context that fits is left as it is.
pub proof fn law_trim_leaves_small_context(ms: Seq<MessageView>, max_tokens: nat)
    requires
        context_tokens(ms) <= max_tokens,
    ensures
        trimmed_context(ms, max_tokens) == ms,
{
}

// ---------------------------------------------------------------------------
// Repair
// ---------------------------------------------------------------------------

/// Whether the message calls at least one tool.
pub open spec fn has_calls(m: MessageView) -> bool {
    m.role == "assistant"@ && m.tool_calls is Some && m.tool_calls->0.len() > 0
}

/// The ids of the calls, in their order.
pub open spec fn call_ids(calls: Seq<ToolCallView>) -> Seq<Seq<char>> {
    calls.map_values(|c: ToolCallView| c.id)
}

/// Whether one of the messages answers the call `id`.
pub open spec fn answered_in(results: Seq<MessageView>, id: Seq<char>) -> bool {
    exists|k: int| 0 <= k < results.len() && (#[trigger] results[k]).tool_call_id == Some(id)
}

/// The ids among `ids` that none of the messages answers.
pub open spec fn unanswered(ids: Seq<Seq<char>>, results: Seq<MessageView>) -> Seq<Seq<char>> {
    ids.filter(|id: Seq<char>| !answered_in(results, id))
}

/// The results that stand in for those of interrupted calls.
pub open spec fn cancelled_results(ids: Seq<Seq<char>>) -> Seq<MessageView> {
    ids.map_values(
        |id: Seq<char>| message::tool_message(CANCELLED_TOOL_RESULT@, id, None, None),
    )
}

/// The messages with a result put in for every call that has none: behind the
/// results that follow the call's message.
pub open spec fn repaired(ms: Seq<MessageView>) -> Seq<MessageView>
    decreases ms.len(),
{
    if ms.len() == 0 {
        ms
    } else if has_calls(ms[0]) {
        proof {
            lemma_leading_results_bound(ms.drop_first());
        }
        let n = 1 + leading_results(ms.drop_first());
        let results = ms.subrange(1, n as int);
        ms.take(n as int) + cancelled_results(
            unanswered(call_ids(ms[0].tool_calls->0), results),
        ) + repaired(ms.skip(n as int))
    } else {
        seq![ms[0]] + repaired(ms.drop_first())
    }
}

/// Whether one of the messages answers the call `id`.
fn is_answered(context: &Vec<ChatMessage>, from: usize, to: usize, id: &String) -> (r: bool)
    requires
        from <= to <= context@.len(),
    ensures
        r == answered_in(context.deep_view().subrange(from as int, to as int), id@),
{
    let ghost results = context.deep_view().subrange(from as int, to as int);
    let mut k: usize = from;
    while k < to
        invariant
            from <= k <= to <= context@.len(),
            results == context.deep_view().subrange(from as int, to as int),
            forall|j: int| 0 <= j < k - from ==> (#[trigger] results[j]).tool_call_id != Some(id@),
        decreases to - k,
    {
        assert(results[k - from] == context@[k as int].deep_view());
        if let Some(answered) = &context[k].tool_call_id {
            if *answered == *id {
                return true;
            }
        }
        k = k + 1;
    }
    false
}

/// The ids of the calls of `context[at]` that none of `context[at + 1 .. to]` answers.
fn missing_ids(context: &Vec<ChatMessage>, at: usize, to: usize) -> (r: Vec<String>)
    requires
        at < to <= context@.len(),
        has_calls(context.deep_view()[at as int]),
    ensures
        r.deep_view() == unanswered(
            call_ids(context.deep_view()[at as int].tool_calls->0),
            context.deep_view().subrange(at + 1, to as int),
        ),
{
    let ghost ids = call_ids(context.deep_view()[at as int].tool_calls->0);
    let ghost results = context.deep_view().subrange(at + 1, to as int);
    let ghost open = |id: Seq<char>| !answered_in(results, id);
    let mut missing: Vec<String> = Vec::new();
    proof {
        reveal(Seq::filter);
        assert(missing.deep_view() =~= ids.take(0).filter(open));
    }
    if let Some(calls) = &context[at].tool_calls {
        let mut i: usize = 0;
        while i < calls.len()
            invariant
                i <= calls@.len(),
                at < to <= context@.len(),
                ids == call_ids(calls.deep_view()),
                results == context.deep_view().subrange(at + 1, to as int),
                open == (|id: Seq<char>| !answered_in(results, id)),
                missing.deep_view() == ids.take(i as int).filter(open),
            decreases calls@.len() - i,
        {
            let ghost before = missing.deep_view();
            let id: String = calls[i].id.clone();
            proof {
                assert(ids[i as int] == id@);
                assert(ids.take(i + 1).drop_last() =~= ids.take(i as int));
                reveal(Seq::filter);
            }
            if !is_answered(context, at + 1, to, &id) {
                missing.push(id);
                assert(missing.deep_view() =~= before.push(id@));
            }
            i = i + 1;
        }
        assert(ids.take(i as int) =~= ids);
    }
    missing
}

/// Puts a result in for every tool call of an assistant that has none, behind the
/// results that follow the call's message.
pub fn repair_tool_call_context(context: &mut Vec<ChatMessage>)
    ensures
        final(context).deep_view() == repaired(old(context).deep_view()),
{
    let ghost ms = context.deep_view();
    let ghost mut done: Seq<MessageView> = Seq::empty();
    let ghost mut taken: int = 0;
    let mut i: usize = 0;
    proof {
        assert(ms.skip(0) =~= ms);
        assert(done + ms.skip(0) =~= ms);
        assert(done + repaired(ms.skip(0)) =~= repaired(ms));
    }
    while i < context.len()
        invariant
            i <= context@.len(),
            0 <= taken <= ms.len(),
            done.len() == i,
            context.deep_view() == done + ms.skip(taken),
            repaired(ms) == done + repaired(ms.skip(taken)),
        decreases ms.len() - taken,
    {
        let ghost now = context.deep_view();
        let ghost rest = ms.skip(taken);
        proof {
            assert(now.len() == context@.len());
            assert(now[i as int] == rest[0]);
            assert(rest.drop_first() =~= ms.skip(taken + 1));
        }
        let calls_some: bool = match &context[i].tool_calls {
            Some(calls) => text::same(context[i].role.as_str(), "assistant") && calls.len() > 0,
            None => false,
        };
        assert(calls_some == has_calls(rest[0]));
        if !calls_some {
            proof {
                done = done.push(rest[0]);
                taken = taken + 1;
                assert(context.deep_view() =~= done + ms.skip(taken));
                assert(repaired(ms) =~= done + repaired(ms.skip(taken)));
            }
            i = i + 1;
        } else {
            let mut j: usize = i + 1;
            while j < context.len() && text::same(context[j].role.as_str(), "tool")
                invariant
                    i + 1 <= j <= context@.len(),
                    context.deep_view() == now,
                    now == done + rest,
                    now.len() == context@.len(),
                    done.len() == i,
                    forall|k: int|
                        0 <= k < j - i - 1 ==> is_tool_result(#[trigger] rest.drop_first()[k]),
                decreases context@.len() - j,
            {
                assert(rest.drop_first()[j - i - 1] == now[j as int]);
                assert(now[j as int] == context@[j as int].deep_view());
                j = j + 1;
            }
            let ghost n = j - i;
            proof {
                if j < context@.len() {
                    assert(rest.drop_first()[n - 1] == now[j as int]);
                    assert(now[j as int] == context@[j as int].deep_view());
                }
                lemma_leading_results_unique(rest.drop_first(), n - 1);
            }
            let missing: Vec<String> = missing_ids(context, i, j);
            let ghost ids = missing.deep_view();
            proof {
                assert(now.subrange(i + 1, j as int) =~= rest.subrange(1, n));
                assert(now =~= done + rest.take(n) + cancelled_results(ids).take(0) + rest.skip(n));
            }
            let start: usize = j;
            let mut k: usize = 0;
            while k < missing.len()
                invariant
                    k <= missing@.len(),
                    ids == missing.deep_view(),
                    j == start + k,
                    start == done.len() + n,
                    0 <= n <= rest.len(),
                    j <= context@.len(),
                    context.deep_view() == done + rest.take(n) + cancelled_results(ids).take(
                        k as int,
                    ) + rest.skip(n),
                decreases missing@.len() - k,
            {
                let ghost before = context.deep_view();
                let filler = ChatMessage::tool(CANCELLED_TOOL_RESULT, missing[k].as_str(), None);
                context.insert(j, filler);
                proof {
                    assert(filler.deep_view() == cancelled_results(ids)[k as int]);
                    assert(context.deep_view() =~= before.insert(j as int, filler.deep_view()));
                    assert(context.deep_view() =~= done + rest.take(n) + cancelled_results(
                        ids,
                    ).take(k + 1) + rest.skip(n));
                    assert(context@.len() > j);
                }
                assert(j < context.len());
                j = j + 1;
                k = k + 1;
            }
            proof {
                assert(cancelled_results(ids).take(k as int) =~= cancelled_results(ids));
                let added = rest.take(n) + cancelled_results(ids);
                assert(rest.skip(n) =~= ms.skip(taken + n));
                assert(done + rest.take(n) + cancelled_results(ids) =~= done + added);
                assert(repaired(rest) =~= added + repaired(ms.skip(taken + n)));
                assert(done + (added + repaired(ms.skip(taken + n))) =~= done + added + repaired(
                    ms.skip(taken + n),
                ));
                done = done + added;
                taken = taken + n;
            }
            i = j;
        }
    }
    proof {
        assert(ms.skip(taken) =~= Seq::<MessageView>::empty());
        assert(done + ms.skip(taken) =~= done);
        assert(done + repaired(ms.skip(taken)) =~= done);
    }
}

/// Whether each call of the message at `i` is answered by one of the results right
/// behind it.
pub open spec fn calls_answered_at(ms: Seq<MessageView>, i: int) -> bool {
    let results = ms.subrange(i + 1, i + 1 + leading_results(ms.skip(i + 1)));
    forall|c: int|
        0 <= c < ms[i].tool_calls->0.len() ==> answered_in(
            results,
            (#[trigger] ms[i].tool_calls->0[c]).id,
        )
}

/// Whether each tool call in the context is answered by one of the results right
/// behind the message that makes it.
pub open spec fn all_calls_answered(ms: Seq<MessageView>) -> bool {
    forall|i: int|
        0 <= i < ms.len() && has_calls(#[trigger] ms[i]) ==> calls_answered_at(ms, i)
}

proof fn lemma_roles_differ()
    ensures
        "tool"@ != "assistant"@,
{
    reveal_strlit("tool");
    reveal_strlit("assistant");
    assert("tool"@.len() != "assistant"@.len());
}

proof fn lemma_repaired_first(ms: Seq<MessageView>)
    ensures
        repaired(ms).len() >= ms.len(),
        ms.len() == 0 ==> repaired(ms).len() == 0,
        ms.len() > 0 ==> repaired(ms)[0] == ms[0],
    decreases ms.len(),
{
    if ms.len() > 0 {
        if has_calls(ms[0]) {
            lemma_leading_results_bound(ms.drop_first());
            lemma_repaired_first(ms.skip(1 + leading_results(ms.drop_first()) as int));
        } else {
            lemma_repaired_first(ms.drop_first());
        }
    }
}

/// In a repaired context every tool call is answered.
pub proof fn law_repair_answers_every_call(ms: Seq<MessageView>)
    ensures
        all_calls_answered(repaired(ms)),
    decreases ms.len(),
{
    let r = repaired(ms);
    if ms.len() == 0 {
    } else if has_calls(ms[0]) {
        lemma_leading_results_bound(ms.drop_first());
        let n = 1 + leading_results(ms.drop_first()) as int;
        let ids = call_ids(ms[0].tool_calls->0);
        let results = ms.subrange(1, n);
        let fill = cancelled_results(unanswered(ids, results));
        let rest = repaired(ms.skip(n));
        let k = n + fill.len();
        assert(r == ms.take(n) + fill + rest);
        lemma_repaired_first(ms.skip(n));
        law_repair_answers_every_call(ms.skip(n));
        lemma_roles_differ();
        // The results right behind the first message are its own and those put in.
        assert forall|j: int| 0 <= j < k - 1 implies is_tool_result(#[trigger] r.skip(1)[j]) by {
            if j < n - 1 {
                assert(r.skip(1)[j] == ms.drop_first()[j]);
            } else {
                assert(r.skip(1)[j] == fill[j - (n - 1)]);
            }
        }
        if k - 1 < r.skip(1).len() {
            assert(r.skip(1)[k - 1] == rest[0]);
            assert(rest[0] == ms.skip(n)[0]);
            assert(ms.skip(n)[0] == ms.drop_first()[n - 1]);
        }
        lemma_leading_results_unique(r.skip(1), k - 1);
        assert forall|i: int| 0 <= i < r.len() && has_calls(#[trigger] r[i]) implies calls_answered_at(
            r,
            i,
        ) by {
            if i == 0 {
                let found = r.subrange(1, k);
                assert forall|c: int| 0 <= c < ms[0].tool_calls->0.len() implies answered_in(
                    found,
                    (#[trigger] ms[0].tool_calls->0[c]).id,
                ) by {
                    let id = ms[0].tool_calls->0[c].id;
                    assert(ids[c] == id);
                    if answered_in(results, id) {
                        let w = choose|w: int|
                            0 <= w < results.len() && (#[trigger] results[w]).tool_call_id == Some(
                                id,
                            );
                        assert(found[w] == results[w]);
                    } else {
                        let open = |x: Seq<char>| !answered_in(results, x);
                        ids.lemma_filter_contains(open, c);
                        let w = choose|w: int|
                            0 <= w < ids.filter(open).len() && ids.filter(open)[w] == id;
                        assert(found[n - 1 + w] == fill[w]);
                    }
                }
            } else if i < n {
                assert(r[i] == ms.drop_first()[i - 1]);
                assert(is_tool_result(r[i]));
            } else if i < k {
                assert(r[i] == fill[i - n]);
                assert(is_tool_result(r[i]));
            } else {
                assert(r[i] == rest[i - k]);
                assert(r.skip(i + 1) =~= rest.skip(i - k + 1));
                let m = leading_results(r.skip(i + 1)) as int;
                lemma_leading_results_bound(r.skip(i + 1));
                assert(r.subrange(i + 1, i + 1 + m) =~= rest.subrange(
                    i - k + 1,
                    i - k + 1 + m,
                ));
                assert(calls_answered_at(rest, i - k));
            }
        }
    } else {
        let rest = repaired(ms.drop_first());
        law_repair_answers_every_call(ms.drop_first());
        assert forall|i: int| 0 <= i < r.len() && has_calls(#[trigger] r[i]) implies calls_answered_at(
            r,
            i,
        ) by {
            if i > 0 {
                assert(r[i] == rest[i - 1]);
                assert(r.skip(i + 1) =~= rest.skip(i));
                let m = leading_results(r.skip(i + 1)) as int;
                lemma_leading_results_bound(r.skip(i + 1));
                assert(r.subrange(i + 1, i + 1 + m) =~= rest.subrange(i, i + m));
                assert(calls_answered_at(rest, i - 1));
            }
        }
    }
}

/// Nothing is in a repaired context but what was in it, and results that are said to be
/// cancelled.
pub proof fn law_repair_adds_results_only(ms: Seq<MessageView>, j: int)
    requires
        0 <= j < repaired(ms).len(),
    ensures
        ms.contains(repaired(ms)[j]) || (repaired(ms)[j].role == "tool"@ && repaired(ms)[j].content
            == Some(message::ContentView::Text(CANCELLED_TOOL_RESULT@))),
    decreases ms.len(),
{
    if ms.len() > 0 {
        if has_calls(ms[0]) {
            lemma_leading_results_bound(ms.drop_first());
            let n = 1 + leading_results(ms.drop_first()) as int;
            let fill = cancelled_results(
                unanswered(call_ids(ms[0].tool_calls->0), ms.subrange(1, n)),
            );
            if j < n {
                assert(repaired(ms)[j] == ms[j]);
            } else if j < n + fill.len() {
                assert(repaired(ms)[j] == fill[j - n]);
            } else {
                let k = j - n - fill.len();
                assert(repaired(ms)[j] == repaired(ms.skip(n))[k]);
                law_repair_adds_results_only(ms.skip(n), k);
                if ms.skip(n).contains(repaired(ms)[j]) {
                    let i = choose|i: int|
                        0 <= i < ms.skip(n).len() && ms.skip(n)[i] == repaired(ms)[j];
                    assert(ms[n + i] == repaired(ms)[j]);
                }
            }
        } else if j == 0 {
            assert(repaired(ms)[0] == ms[0]);
        } else {
            assert(repaired(ms)[j] == repaired(ms.drop_first())[j - 1]);
            law_repair_adds_results_only(ms.drop_first(), j - 1);
            if ms.drop_first().contains(repaired(ms)[j]) {
                let i = choose|i: int|
                    0 <= i < ms.drop_first().len() && ms.drop_first()[i] == repaired(ms)[j];
                assert(ms[1 + i] == repaired(ms)[j]);
            }
        }
    }
}

proof fn lemma_repair_keeps_at(ms: Seq<MessageView>, i: int) -> (at: int)
    requires
        0 <= i < ms.len(),
    ensures
        i <= at < repaired(ms).len(),
        repaired(ms)[at] == ms[i],
        repaired(ms).len() - at >= ms.len() - i,
    decreases ms.len(),
{
    lemma_repaired_first(ms);
    if has_calls(ms[0]) {
        lemma_leading_results_bound(ms.drop_first());
        let n = 1 + leading_results(ms.drop_first()) as int;
        let fill = cancelled_results(unanswered(call_ids(ms[0].tool_calls->0), ms.subrange(1, n)));
        lemma_repaired_first(ms.skip(n));
        if i < n {
            assert(repaired(ms)[i] == ms[i]);
            i
        } else {
            let at = lemma_repair_keeps_at(ms.skip(n), i - n);
            assert(repaired(ms)[n + fill.len() + at] == repaired(ms.skip(n))[at]);
            n + fill.len() + at
        }
    } else if i == 0 {
        0
    } else {
        let at = lemma_repair_keeps_at(ms.drop_first(), i - 1);
        assert(repaired(ms)[at + 1] == repaired(ms.drop_first())[at]);
        at + 1
    }
}

/// Every message of a context is in the repaired one.
pub proof fn law_repair_keeps_every_message(ms: Seq<MessageView>, i: int)
    requires
        0 <= i < ms.len(),
    ensures
        repaired(ms).contains(ms[i]),
{
    let at = lemma_repair_keeps_at(ms, i);
    assert(repaired(ms)[at] == ms[i]);
}

/// A message that calls no tools stays where it is, whatever follows it.
pub proof fn law_repair_keeps_plain_messages(m: MessageView, rest: Seq<MessageView>)
    requires
        m.role != "assistant"@ || m.tool_calls is None || m.tool_calls->0.len() == 0,
    ensures
        repaired(seq![m] + rest) == seq![m] + repaired(rest),
{
    assert((seq![m] + rest).drop_first() =~= rest);
}

/// Behind a message that calls tools and the results that follow it stand results for those
/// of its calls that had none, each said to be cancelled, and for no other; everything else
/// stays as it is and in its order.
pub proof fn law_repair_answers_open_calls_only(
    m: MessageView,
    results: Seq<MessageView>,
    rest: Seq<MessageView>,
)
    requires
        m.role == "assistant"@,
        m.tool_calls is Some,
        m.tool_calls->0.len() > 0,
        forall|k: int| 0 <= k < results.len() ==> (#[trigger] results[k]).role == "tool"@,
        rest.len() > 0 ==> rest[0].role != "tool"@,
    ensures
        ({
            let r = repaired(seq![m] + results + rest);
            let added = r.len() - 1 - results.len() - repaired(rest).len();
            let calls = m.tool_calls->0;
            let fill = r.subrange(1 + results.len() as int, 1 + results.len() + added);
            &&& 0 <= added <= calls.len()
            &&& r == seq![m] + results + fill + repaired(rest)
            &&& forall|j: int|
                0 <= j < fill.len() ==> (#[trigger] fill[j]).role == "tool"@ && fill[j].content
                    == Some(message::ContentView::Text(CANCELLED_TOOL_RESULT@))
                    && fill[j].tool_calls is None && exists|c: int|
                    0 <= c < calls.len() && fill[j].tool_call_id == Some((#[trigger] calls[c]).id)
                        && !answered_in(results, calls[c].id)
            &&& forall|c: int|
                0 <= c < calls.len() && !answered_in(results, (#[trigger] calls[c]).id)
                    ==> answered_in(fill, calls[c].id)
        }),
{
    let ms = seq![m] + results + rest;
    let calls = m.tool_calls->0;
    let n = 1 + results.len() as int;
    assert(ms.drop_first() =~= results + rest);
    assert forall|k: int| 0 <= k < n - 1 implies is_tool_result(
        #[trigger] ms.drop_first()[k],
    ) by {
        assert(ms.drop_first()[k] == results[k]);
    }
    if rest.len() > 0 {
        assert(ms.drop_first()[n - 1] == rest[0]);
    }
    lemma_leading_results_unique(ms.drop_first(), n - 1);
    assert(ms.subrange(1, n) =~= results);
    assert(ms.take(n) =~= seq![m] + results);
    assert(ms.skip(n) =~= rest);
    let ids = call_ids(calls);
    let open = |id: Seq<char>| !answered_in(results, id);
    let fill = cancelled_results(unanswered(ids, results));
    let r = repaired(ms);
    assert(r == seq![m] + results + fill + repaired(rest));
    assert(r.subrange(n, n + fill.len()) =~= fill);
    assert(fill.len() <= calls.len()) by {
        ids.lemma_filter_len(open);
    }
    assert forall|j: int| 0 <= j < fill.len() implies exists|c: int|
        0 <= c < calls.len() && (#[trigger] fill[j]).tool_call_id == Some(
            (#[trigger] calls[c]).id,
        ) && !answered_in(results, calls[c].id) by {
        broadcast use vstd::seq_lib::group_filter_ensures;

        lemma_filter_member(ids, open, j);
        let id = ids.filter(open)[j];
        let c = choose|c: int| 0 <= c < ids.len() && ids[c] == id;
        assert(calls[c].id == id);
        assert(open(id));
    }
    assert forall|c: int|
        0 <= c < calls.len() && !answered_in(results, (#[trigger] calls[c]).id) implies answered_in(
        fill,
        calls[c].id,
    ) by {
        assert(ids[c] == calls[c].id);
        ids.lemma_filter_contains(open, c);
        let w = choose|w: int|
            0 <= w < ids.filter(open).len() && ids.filter(open)[w] == calls[c].id;
        assert(fill[w].tool_call_id == Some(calls[c].id));
    }
}

proof fn lemma_answered_tail(ms: Seq<MessageView>, n: int)
    requires
        0 <= n <= ms.len(),
        all_calls_answered(ms),
    ensures
        all_calls_answered(ms.skip(n)),
{
    let rest = ms.skip(n);
    assert forall|i: int| 0 <= i < rest.len() && has_calls(#[trigger] rest[i]) implies calls_answered_at(
        rest,
        i,
    ) by {
        assert(rest[i] == ms[n + i]);
        assert(rest.skip(i + 1) =~= ms.skip(n + i + 1));
        let m = leading_results(rest.skip(i + 1)) as int;
        lemma_leading_results_bound(rest.skip(i + 1));
        assert(rest.subrange(i + 1, i + 1 + m) =~= ms.subrange(n + i + 1, n + i + 1 + m));
        assert(calls_answered_at(ms, n + i));
    }
}

/// A context in which every tool call is answered is left as it is.
pub proof fn law_repair_leaves_answered_context(ms: Seq<MessageView>)
    requires
        all_calls_answered(ms),
    ensures
        repaired(ms) == ms,
    decreases ms.len(),
{
    if ms.len() == 0 {
    } else if has_calls(ms[0]) {
        lemma_leading_results_bound(ms.drop_first());
        let n = 1 + leading_results(ms.drop_first()) as int;
        let ids = call_ids(ms[0].tool_calls->0);
        let results = ms.subrange(1, n);
        let open = |x: Seq<char>| !answered_in(results, x);
        assert(ms.skip(1) =~= ms.drop_first());
        assert(calls_answered_at(ms, 0));
        assert(ids.filter(open).len() == 0) by {
            broadcast use vstd::seq_lib::group_filter_ensures;

            if ids.filter(open).len() > 0 {
                let id = ids.filter(open)[0];
                assert(open(id));
                lemma_filter_member(ids, open, 0);
                let c = choose|c: int| 0 <= c < ids.len() && ids[c] == id;
                assert(ms[0].tool_calls->0[c].id == id);
            }
        }
        lemma_answered_tail(ms, n);
        law_repair_leaves_answered_context(ms.skip(n));
        assert(cancelled_results(unanswered(ids, results)) =~= Seq::<MessageView>::empty());
        assert(repaired(ms) =~= ms);
    } else {
        lemma_answered_tail(ms, 1);
        assert(ms.skip(1) =~= ms.drop_first());
        law_repair_leaves_answered_context(ms.drop_first());
        assert(repaired(ms) =~= ms);
    }
}

proof fn lemma_filter_member(ids: Seq<Seq<char>>, pred: spec_fn(Seq<char>) -> bool, w: int)
    requires
        0 <= w < ids.filter(pred).len(),
    ensures
        exists|c: int| 0 <= c < ids.len() && ids[c] == ids.filter(pred)[w],
    decreases ids.len(),
{
    reveal(Seq::filter);
    if ids.len() > 0 {
        let before = ids.drop_last().filter(pred);
        if w < before.len() {
            lemma_filter_member(ids.drop_last(), pred, w);
            let c = choose|c: int|
                0 <= c < ids.drop_last().len() && ids.drop_last()[c] == before[w];
            assert(ids[c] == ids.filter(pred)[w]);
        } else {
            assert(ids[ids.len() - 1] == ids.filter(pred)[w]);
        }
    }
}

/// Repairing twice is repairing once.
pub proof fn law_repair_idempotent(ms: Seq<MessageView>)
    ensures
        repaired(repaired(ms)) == repaired(ms),
{
    law_repair_answers_every_call(ms);
    law_repair_leaves_answered_context(repaired(ms));
}

proof fn lemma_last_is_kept(head: MessageView, rest: Seq<MessageView>, max_tokens: nat)
    requires
        rest.len() > 0,
        rest.last().role != "tool"@,
    ensures
        keep_latest(head, rest, max_tokens).len() > 0,
        keep_latest(head, rest, max_tokens).last() == rest.last(),
    decreases rest.len(),
{
    if rest.len() >= 2 && message_tokens(head) + context_tokens(rest) > max_tokens {
        lemma_block_length_bound(rest);
        lemma_leading_results_bound(rest.drop_first());
        let n = block_length(rest) as int;
        if n == rest.len() {
            let behind = rest.drop_first();
            assert(is_tool_result(behind[behind.len() - 1]));
        }
        lemma_last_is_kept(head, rest.skip(n), max_tokens);
        assert(rest.skip(n).last() == rest.last());
    }
}

/// The latest message stays, however long the context is, unless it is the result of a tool.
pub proof fn law_trim_keeps_the_latest_word(ms: Seq<MessageView>, max_tokens: nat)
    requires
        ms.len() > 0,
        ms.last().role != "tool"@,
    ensures
        trimmed_context(ms, max_tokens).len() > 0,
        trimmed_context(ms, max_tokens).last() == ms.last(),
{
    if ms.len() > 2 && context_tokens(ms) > max_tokens {
        lemma_last_is_kept(ms[0], ms.drop_first(), max_tokens);
        assert(ms.drop_first().last() == ms.last());
    }
}

} // verus!
