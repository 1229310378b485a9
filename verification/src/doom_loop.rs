//! Detection of an agent that calls the same tools over and over.
use vstd::prelude::*;
use vstd::string::*;
use crate::message::{ChatMessage, MessageView, ToolCallRequest, ToolCallView};
use crate::outside;
use crate::text;

verus! {

/// How many of the latest messages are looked at.
pub const LOOKBACK_MESSAGES: usize = 30;

/// How many identical calls in a row make a loop.
pub const IDENTICAL_THRESHOLD: usize = 3;

/// How many calls in a row that differ in numbers alone make a possible loop.
pub const NORMALIZED_THRESHOLD: usize = 4;

/// The regular expression for a number in an argument text.
pub const NUMBER_PATTERN: &'static str = r"\d+(?:\.\d+)?";

/// What tells two tool calls apart: the tool's name, a digest of the arguments, and
/// a digest of the arguments with every number replaced by a constant.
#[derive(Clone, Debug)]
pub struct ToolCallSignature {
    pub name: String,
    pub args_hash: String,
    pub norm_args_hash: String,
}

/// A signature in the abstract.
#[verifier::ext_equal]
pub struct SignatureView {
    pub name: Seq<char>,
    pub args_hash: Seq<char>,
    pub norm_args_hash: Seq<char>,
}

impl DeepView for ToolCallSignature {
    type V = SignatureView;

    open spec fn deep_view(&self) -> SignatureView {
        SignatureView {
            name: self.name@,
            args_hash: self.args_hash@,
            norm_args_hash: self.norm_args_hash@,
        }
    }
}

/// The first twelve hexadecimal digits of the SHA-256 digest of `args`.
pub open spec fn args_digest(args: Seq<char>) -> Seq<char> {
    outside::hex_text(outside::sha256_digest(vstd::utf8::encode_utf8(args))).take(12)
}

/// `args` with every number replaced by `0`; `args` itself if the expression for
/// a number does not compile.
pub open spec fn without_numbers(args: Seq<char>) -> Seq<char> {
    match outside::regex_replaced_all(NUMBER_PATTERN@, args, "0"@) {
        Some(t) => t,
        None => args,
    }
}

/// The signature of a tool call.
pub open spec fn call_signature(call: ToolCallView) -> SignatureView {
    SignatureView {
        name: call.name,
        args_hash: args_digest(call.arguments),
        norm_args_hash: args_digest(without_numbers(call.arguments)),
    }
}

/// Whether two signatures are of the same tool with arguments that are the same
/// once numbers are left aside.
pub open spec fn same_but_for_numbers(a: SignatureView, b: SignatureView) -> bool {
    a.name == b.name && a.norm_args_hash == b.norm_args_hash
}

impl ToolCallSignature {
    /// Same tool, same arguments once numbers are left aside.
    pub fn norm_eq(&self, other: &Self) -> (r: bool)
        ensures
            r == same_but_for_numbers(self.deep_view(), other.deep_view()),
    {
        self.name == other.name && self.norm_args_hash == other.norm_args_hash
    }

    /// Same tool, same arguments.
    pub fn exact_eq(&self, other: &Self) -> (r: bool)
        ensures
            r == (self.deep_view() == other.deep_view()),
    {
        self.name == other.name && self.args_hash == other.args_hash && self.norm_args_hash
            == other.norm_args_hash
    }
}

/// The first twelve hexadecimal digits of the SHA-256 digest of `args`.
pub fn hash_args(args: &str) -> (r: String)
    ensures
        r@ == args_digest(args@),
{
    let digest: Vec<u8> = outside::sha256(args.as_bytes());
    let full: String = outside::hex_encode(&digest);
    let chars: Vec<char> = text::chars_of(full.as_str());
    let head: String = text::string_of(&chars, 0, 12);
    assert(head@ =~= args_digest(args@));
    head
}

/// `args` with every number replaced by `0`.
pub fn normalize_args(args: &str) -> (r: String)
    ensures
        r@ == without_numbers(args@),
{
    match outside::regex_replace_all(NUMBER_PATTERN, args, "0") {
        Some(t) => t,
        None => args.to_owned(),
    }
}

/// The signature of a tool call.
pub fn signature(tc: &ToolCallRequest) -> (r: ToolCallSignature)
    ensures
        r.deep_view() == call_signature(tc.deep_view()),
{
    let normalized: String = normalize_args(tc.function.arguments.as_str());
    ToolCallSignature {
        name: tc.function.name.clone(),
        args_hash: hash_args(tc.function.arguments.as_str()),
        norm_args_hash: hash_args(normalized.as_str()),
    }
}

/// The signatures of the calls that a message makes: none but an assistant's
/// count.
pub open spec fn message_signatures(message: MessageView) -> Seq<SignatureView> {
    match message.tool_calls {
        Some(calls) if message.role == "assistant"@ => calls.map_values(
            |c: ToolCallView| call_signature(c),
        ),
        _ => Seq::empty(),
    }
}

/// The signatures of all the calls that the messages make, in their order.
pub open spec fn signatures_of(messages: Seq<MessageView>) -> Seq<SignatureView>
    decreases messages.len(),
{
    if messages.len() == 0 {
        Seq::empty()
    } else {
        signatures_of(messages.drop_last()) + message_signatures(messages.last())
    }
}

/// The last `n` messages, or all of them where there are fewer.
pub open spec fn latest(messages: Seq<MessageView>, n: nat) -> Seq<MessageView> {
    if messages.len() <= n {
        messages
    } else {
        messages.skip(messages.len() - n)
    }
}

/// The signatures of the calls that the last `lookback` messages make.
pub open spec fn recent_signatures(messages: Seq<MessageView>, lookback: nat) -> Seq<
    SignatureView,
> {
    signatures_of(latest(messages, lookback))
}

/// The signatures of the calls that the last `lookback` messages make.
pub fn extract_recent_tool_signatures(messages: &[ChatMessage], lookback: usize) -> (r: Vec<
    ToolCallSignature,
>)
    ensures
        r.deep_view() == recent_signatures(messages.deep_view(), lookback as nat),
{
    let mut sigs: Vec<ToolCallSignature> = Vec::new();
    let len: usize = messages.len();
    let start: usize = if len <= lookback {
        0
    } else {
        len - lookback
    };
    let ghost window = latest(messages.deep_view(), lookback as nat);
    proof {
        assert(window =~= messages.deep_view().skip(start as int));
        assert(window.take(0) =~= Seq::<MessageView>::empty());
    }
    let mut i: usize = start;
    while i < len
        invariant
            start <= i <= len,
            len == messages@.len(),
            window == messages.deep_view().skip(start as int),
            sigs.deep_view() == signatures_of(window.take(i - start)),
        decreases len - i,
    {
        let ghost before = sigs.deep_view();
        proof {
            assert(window.take(i - start + 1).drop_last() =~= window.take(i - start));
            assert(window[i - start] == messages@[i as int].deep_view());
        }
        let message = &messages[i];
        let ghost found = message_signatures(message.deep_view());
        if text::same(message.role.as_str(), "assistant") {
            if let Some(calls) = &message.tool_calls {
                let mut j: usize = 0;
                assert(before + found.take(0) =~= before);
                while j < calls.len()
                    invariant
                        j <= calls@.len(),
                        found == calls.deep_view().map_values(
                            |c: ToolCallView| call_signature(c),
                        ),
                        sigs.deep_view() == before + found.take(j as int),
                    decreases calls@.len() - j,
                {
                    let ghost grown = sigs.deep_view();
                    let sig = signature(&calls[j]);
                    sigs.push(sig);
                    assert(sigs.deep_view() =~= grown.push(sig.deep_view()));
                    assert(before + found.take(j + 1) =~= (before + found.take(j as int)).push(
                        found[j as int],
                    ));
                    j = j + 1;
                }
                assert(found.take(j as int) =~= found);
            } else {
                assert(before + found =~= before);
            }
        } else {
            assert(before + found =~= before);
        }
        i = i + 1;
    }
    assert(window.take(i - start) =~= window);
    sigs
}

/// Whether the `count` signatures up to and with the one at `end` are each like the
/// one before.
pub open spec fn run_ends_at(
    sigs: Seq<SignatureView>,
    end: int,
    count: nat,
    alike: spec_fn(SignatureView, SignatureView) -> bool,
) -> bool {
    &&& count <= end + 1 <= sigs.len()
    &&& forall|k: int| #![trigger sigs[k]] end + 1 - count < k <= end ==> alike(sigs[k], sigs[k - 1])
}

/// Where the first run of `count` signatures that are alike is complete.
pub open spec fn first_run(
    sigs: Seq<SignatureView>,
    count: nat,
    alike: spec_fn(SignatureView, SignatureView) -> bool,
) -> Option<int>
    decreases sigs.len(),
{
    if sigs.len() == 0 {
        None
    } else {
        match first_run(sigs.drop_last(), count, alike) {
            Some(i) => Some(i),
            None => if run_ends_at(sigs, sigs.len() - 1, count, alike) {
                Some(sigs.len() - 1)
            } else {
                None
            },
        }
    }
}

/// How many signatures a run has at the least: a single call is no run.
pub open spec fn run_length(threshold: nat) -> nat {
    if threshold < 2 {
        2
    } else {
        threshold
    }
}

/// The tool that is called `threshold` times in a row, each call like the one
/// before.
pub open spec fn repeated_tool(
    sigs: Seq<SignatureView>,
    threshold: nat,
    alike: spec_fn(SignatureView, SignatureView) -> bool,
) -> Option<Seq<char>> {
    match first_run(sigs, run_length(threshold), alike) {
        Some(i) => Some(sigs[i].name),
        None => None,
    }
}

/// Equality of signatures.
pub open spec fn exactly_alike() -> spec_fn(SignatureView, SignatureView) -> bool {
    |a: SignatureView, b: SignatureView| a == b
}

/// Equality of signatures but for numbers.
pub open spec fn alike_but_for_numbers() -> spec_fn(SignatureView, SignatureView) -> bool {
    |a: SignatureView, b: SignatureView| same_but_for_numbers(a, b)
}

/// A run found in the first part of the signatures is the first run of them all.
pub proof fn lemma_first_run_prefix(
    sigs: Seq<SignatureView>,
    n: int,
    count: nat,
    alike: spec_fn(SignatureView, SignatureView) -> bool,
)
    requires
        0 <= n <= sigs.len(),
        first_run(sigs.take(n), count, alike) is Some,
    ensures
        first_run(sigs, count, alike) == first_run(sigs.take(n), count, alike),
    decreases sigs.len() - n,
{
    if n == sigs.len() {
        assert(sigs.take(n) =~= sigs);
    } else {
        assert(sigs.take(n + 1).drop_last() =~= sigs.take(n));
        lemma_first_run_prefix(sigs, n + 1, count, alike);
    }
}

/// Finds the tool that is called `threshold` times in a row with `numbers_count`
/// deciding whether numbers tell two calls apart.
fn find_repeated(signatures: &[ToolCallSignature], threshold: usize, numbers_count: bool) -> (r:
    Option<String>)
    ensures
        r.deep_view() == repeated_tool(
            signatures.deep_view(),
            threshold as nat,
            if numbers_count {
                exactly_alike()
            } else {
                alike_but_for_numbers()
            },
        ),
{
    let ghost sigs = signatures.deep_view();
    let ghost alike = if numbers_count {
        exactly_alike()
    } else {
        alike_but_for_numbers()
    };
    let wanted: usize = if threshold < 2 {
        2
    } else {
        threshold
    };
    let mut count: usize = 1;
    let mut i: usize = 1;
    if signatures.len() == 0 {
        assert(sigs.len() == 0);
        return None;
    }
    proof {
        reveal_with_fuel(first_run, 2);
        assert(sigs.take(1).drop_last() =~= Seq::<SignatureView>::empty());
        assert(!run_ends_at(sigs.take(1), 0, wanted as nat, alike));
    }
    while i < signatures.len()
        invariant
            1 <= i <= signatures@.len(),
            1 <= count <= i,
            count < wanted,
            wanted >= 2,
            sigs == signatures.deep_view(),
            alike == if numbers_count {
                exactly_alike()
            } else {
                alike_but_for_numbers()
            },
            wanted == run_length(threshold as nat),
            first_run(sigs.take(i as int), wanted as nat, alike) is None,
            forall|k: int|
                #![trigger sigs[k]]
                i - count < k < i ==> alike(sigs[k], sigs[k - 1]),
            count < i ==> !alike(sigs[i - count], sigs[i - count - 1]),
        decreases signatures@.len() - i,
    {
        let repeats: bool = if numbers_count {
            signatures[i].exact_eq(&signatures[i - 1])
        } else {
            signatures[i].norm_eq(&signatures[i - 1])
        };
        assert(repeats == alike(sigs[i as int], sigs[i - 1]));
        let ghost here = sigs.take(i + 1);
        assert(here.drop_last() =~= sigs.take(i as int));
        if repeats {
            count = count + 1;
            if count >= wanted {
                proof {
                    assert forall|k: int|
                        #![trigger here[k]]
                        i + 1 - wanted < k <= i implies alike(here[k], here[k - 1]) by {
                        assert(here[k] == sigs[k]);
                        assert(here[k - 1] == sigs[k - 1]);
                    }
                    assert(run_ends_at(here, i as int, wanted as nat, alike));
                    lemma_first_run_prefix(sigs, i + 1, wanted as nat, alike);
                }
                return Some(signatures[i].name.clone());
            }
            proof {
                if run_ends_at(here, i as int, wanted as nat, alike) {
                    let k = i + 1 - count;
                    assert(alike(here[k], here[k - 1]));
                    assert(here[k] == sigs[k] && here[k - 1] == sigs[k - 1]);
                    assert(false);
                }
            }
        } else {
            proof {
                if run_ends_at(here, i as int, wanted as nat, alike) {
                    assert(alike(here[i as int], here[i - 1]));
                    assert(false);
                }
            }
            count = 1;
        }
        i = i + 1;
    }
    assert(sigs.take(i as int) =~= sigs);
    None
}

/// Finds the tool that is called `threshold` times in a row with the same
/// arguments.
pub fn detect_identical_consecutive(signatures: &[ToolCallSignature], threshold: usize) -> (r:
    Option<String>)
    ensures
        r.deep_view() == repeated_tool(
            signatures.deep_view(),
            threshold as nat,
            exactly_alike(),
        ),
{
    find_repeated(signatures, threshold, true)
}

/// Finds the tool that is called `threshold` times in a row with arguments that
/// differ in numbers at the most.
pub fn detect_identical_consecutive_normalized(
    signatures: &[ToolCallSignature],
    threshold: usize,
) -> (r: Option<String>)
    ensures
        r.deep_view() == repeated_tool(
            signatures.deep_view(),
            threshold as nat,
            alike_but_for_numbers(),
        ),
{
    find_repeated(signatures, threshold, false)
}

/// Whether the last `len` signatures are the same as the `len` before them.
pub open spec fn ends_in_repeat(sigs: Seq<SignatureView>, len: int) -> bool {
    let n = sigs.len();
    &&& n >= 2 * len
    &&& sigs.subrange(n - len, n as int) == sigs.subrange(n - 2 * len, n - len)
}

/// The length of the cycle that the signatures end in: the shortest from two to
/// five.
pub open spec fn cycle_length(sigs: Seq<SignatureView>) -> Option<int> {
    if ends_in_repeat(sigs, 2) {
        Some(2)
    } else if ends_in_repeat(sigs, 3) {
        Some(3)
    } else if ends_in_repeat(sigs, 4) {
        Some(4)
    } else if ends_in_repeat(sigs, 5) {
        Some(5)
    } else {
        None
    }
}

/// The names of the tools in the cycle that the signatures end in.
pub open spec fn cycle_names(sigs: Seq<SignatureView>) -> Option<Seq<Seq<char>>> {
    match cycle_length(sigs) {
        Some(len) => Some(
            sigs.subrange(sigs.len() - len, sigs.len() as int).map_values(
                |s: SignatureView| s.name,
            ),
        ),
        None => None,
    }
}

/// Whether the last `len` signatures are the same as the `len` before them.
fn tail_repeats(signatures: &[ToolCallSignature], len: usize) -> (r: bool)
    requires
        2 <= len <= 5,
    ensures
        r == ends_in_repeat(signatures.deep_view(), len as int),
{
    let n: usize = signatures.len();
    let ghost sigs = signatures.deep_view();
    if n < 2 * len {
        return false;
    }
    let ghost last = sigs.subrange(n - len, n as int);
    let ghost previous = sigs.subrange(n - 2 * len, n - len);
    let mut i: usize = 0;
    while i < len
        invariant
            i <= len <= 5,
            n == signatures@.len(),
            n >= 2 * len,
            sigs == signatures.deep_view(),
            last == sigs.subrange(n - len, n as int),
            previous == sigs.subrange(n - 2 * len, n - len),
            forall|k: int| 0 <= k < i ==> #[trigger] last[k] == previous[k],
        decreases len - i,
    {
        if !signatures[n - len + i].exact_eq(&signatures[n - 2 * len + i]) {
            assert(last[i as int] != previous[i as int]);
            return false;
        }
        assert(last[i as int] == previous[i as int]);
        i = i + 1;
    }
    assert(last =~= previous);
    true
}

/// Finds the cycle of two to five tool calls that the signatures end in, and names
/// its tools.
pub fn detect_repeating_sequence(signatures: &[ToolCallSignature]) -> (r: Option<Vec<String>>)
    ensures
        r.deep_view() == cycle_names(signatures.deep_view()),
{
    let n: usize = signatures.len();
    let ghost sigs = signatures.deep_view();
    let mut len: usize = 2;
    while len <= 5
        invariant
            2 <= len <= 6,
            n == signatures@.len(),
            sigs == signatures.deep_view(),
            forall|l: int| 2 <= l < len ==> !#[trigger] ends_in_repeat(sigs, l),
        decreases 6 - len,
    {
        if tail_repeats(signatures, len) {
            let mut names: Vec<String> = Vec::new();
            let ghost wanted = sigs.subrange(n - len, n as int).map_values(
                |s: SignatureView| s.name,
            );
            let mut i: usize = 0;
            assert(names.deep_view() =~= wanted.take(0));
            while i < len
                invariant
                    i <= len <= n,
                    n == signatures@.len(),
                    sigs == signatures.deep_view(),
                    wanted == sigs.subrange(n - len, n as int).map_values(
                        |s: SignatureView| s.name,
                    ),
                    names.deep_view() == wanted.take(i as int),
                decreases len - i,
            {
                let ghost before = names.deep_view();
                let name: String = signatures[n - len + i].name.clone();
                names.push(name);
                assert(names.deep_view() =~= before.push(name@));
                assert(wanted.take(i + 1) =~= wanted.take(i as int).push(wanted[i as int]));
                i = i + 1;
            }
            assert(wanted.take(i as int) =~= wanted);
            assert(cycle_length(sigs) == Some(len as int)) by {
                assert(ends_in_repeat(sigs, len as int));
                assert(forall|l: int| 2 <= l < len ==> !#[trigger] ends_in_repeat(sigs, l));
            }
            return Some(names);
        }
        len = len + 1;
    }
    None
}

/// What an agent is told that has made the same call several times.
pub open spec fn identical_prompt(tool: Seq<char>) -> Seq<char> {
    "[SYSTEM: DOOM LOOP DETECTED] You have called '"@ + tool
        + "' with the same arguments multiple times in a row. STOP repeating this approach — it is not working. Step back and try a fundamentally different strategy: use a different tool, change your arguments significantly, or explain what you are stuck on and ask for guidance."@
}

/// What an agent is told that goes round in a cycle.
pub open spec fn cycle_prompt(names: Seq<Seq<char>>) -> Seq<char> {
    "[SYSTEM: DOOM LOOP DETECTED] You are stuck in a repeating cycle of tool calls: ["@
        + text::join(names, " → "@)
        + "]. STOP this cycle and try a fundamentally different approach."@
}

/// What an agent is told that has made calls which differ in numbers alone.
pub open spec fn numeric_prompt(tool: Seq<char>) -> Seq<char> {
    "[SYSTEM: POSSIBLE LOOP] You have called '"@ + tool
        + "' several times in a row changing only a numeric argument (e.g. an incrementing offset/page or one tweaked value). If you are intentionally paginating or sweeping, continue — but if you expected different results and are not making progress, STOP and try a fundamentally different approach (a different tool, a substantially different query, or explain what you are stuck on)."@
}

/// The prompt that corrects an agent whose calls have these signatures: for a run
/// of identical calls, else for a cycle at the end, else for a run of calls that
/// differ in numbers alone.
pub open spec fn loop_prompt(sigs: Seq<SignatureView>) -> Option<Seq<char>> {
    if sigs.len() < 3 {
        None
    } else if repeated_tool(sigs, IDENTICAL_THRESHOLD as nat, exactly_alike()) is Some {
        Some(
            identical_prompt(
                repeated_tool(sigs, IDENTICAL_THRESHOLD as nat, exactly_alike())->0,
            ),
        )
    } else if cycle_names(sigs) is Some {
        Some(cycle_prompt(cycle_names(sigs)->0))
    } else if repeated_tool(sigs, NORMALIZED_THRESHOLD as nat, alike_but_for_numbers()) is Some {
        Some(
            numeric_prompt(
                repeated_tool(sigs, NORMALIZED_THRESHOLD as nat, alike_but_for_numbers())->0,
            ),
        )
    } else {
        None
    }
}

/// The message that corrects an agent which is caught in a loop.
pub fn check_for_doom_loop_prompt(messages: &[ChatMessage]) -> (r: Option<String>)
    ensures
        r.deep_view() == loop_prompt(
            recent_signatures(messages.deep_view(), LOOKBACK_MESSAGES as nat),
        ),
{
    let signatures: Vec<ToolCallSignature> = extract_recent_tool_signatures(
        messages,
        LOOKBACK_MESSAGES,
    );
    assert(signatures.deep_view().len() == signatures@.len());
    if signatures.len() < 3 {
        return None;
    }
    if let Some(tool_name) = detect_identical_consecutive(&signatures, IDENTICAL_THRESHOLD) {
        let mut prompt: String = "[SYSTEM: DOOM LOOP DETECTED] You have called '".to_owned();
        prompt.append(tool_name.as_str());
        prompt.append(
            "' with the same arguments multiple times in a row. STOP repeating this approach — it is not working. Step back and try a fundamentally different strategy: use a different tool, change your arguments significantly, or explain what you are stuck on and ask for guidance.",
        );
        return Some(prompt);
    }
    if let Some(pattern) = detect_repeating_sequence(&signatures) {
        let described: String = text::joined(&pattern, " → ");
        let mut prompt: String =
            "[SYSTEM: DOOM LOOP DETECTED] You are stuck in a repeating cycle of tool calls: [".to_owned();
        prompt.append(described.as_str());
        prompt.append("]. STOP this cycle and try a fundamentally different approach.");
        return Some(prompt);
    }
    if let Some(tool_name) = detect_identical_consecutive_normalized(
        &signatures,
        NORMALIZED_THRESHOLD,
    ) {
        let mut prompt: String = "[SYSTEM: POSSIBLE LOOP] You have called '".to_owned();
        prompt.append(tool_name.as_str());
        prompt.append(
            "' several times in a row changing only a numeric argument (e.g. an incrementing offset/page or one tweaked value). If you are intentionally paginating or sweeping, continue — but if you expected different results and are not making progress, STOP and try a fundamentally different approach (a different tool, a substantially different query, or explain what you are stuck on).",
        );
        return Some(prompt);
    }
    None
}

/// Whether the last call repeats the one before it, or the calls end in a cycle.
pub open spec fn active_at_tail(sigs: Seq<SignatureView>) -> bool {
    &&& sigs.len() >= 2
    &&& sigs[sigs.len() - 1] == sigs[sigs.len() - 2] || cycle_length(sigs) is Some
}

/// Whether the agent is still going round in a loop at the end of the conversation.
pub fn doom_loop_active_at_tail(messages: &[ChatMessage]) -> (r: bool)
    ensures
        r == active_at_tail(recent_signatures(messages.deep_view(), LOOKBACK_MESSAGES as nat)),
{
    let signatures: Vec<ToolCallSignature> = extract_recent_tool_signatures(
        messages,
        LOOKBACK_MESSAGES,
    );
    assert(signatures.deep_view().len() == signatures@.len());
    let n: usize = signatures.len();
    if n < 2 {
        return false;
    }
    if signatures[n - 1].exact_eq(&signatures[n - 2]) {
        return true;
    }
    detect_repeating_sequence(&signatures).is_some()
}

proof fn lemma_first_run_exists(
    sigs: Seq<SignatureView>,
    count: nat,
    alike: spec_fn(SignatureView, SignatureView) -> bool,
)
    ensures
        first_run(sigs, count, alike) matches Some(end) ==> {
            &&& 0 <= end < sigs.len()
            &&& run_ends_at(sigs, end, count, alike)
            &&& forall|e: int| 0 <= e < end ==> !#[trigger] run_ends_at(sigs, e, count, alike)
        },
        first_run(sigs, count, alike) is None ==> forall|e: int|
            0 <= e < sigs.len() ==> !#[trigger] run_ends_at(sigs, e, count, alike),
    decreases sigs.len(),
{
    if sigs.len() > 0 {
        let init = sigs.drop_last();
        lemma_first_run_exists(init, count, alike);
        assert forall|e: int| 0 <= e < init.len() implies run_ends_at(init, e, count, alike)
            == #[trigger] run_ends_at(sigs, e, count, alike) by {
            if run_ends_at(init, e, count, alike) {
                assert forall|k: int| #![trigger sigs[k]] e + 1 - count < k <= e implies alike(
                    sigs[k],
                    sigs[k - 1],
                ) by {
                    assert(init[k] == sigs[k] && init[k - 1] == sigs[k - 1]);
                }
            }
            if run_ends_at(sigs, e, count, alike) {
                assert forall|k: int| #![trigger init[k]] e + 1 - count < k <= e implies alike(
                    init[k],
                    init[k - 1],
                ) by {
                    assert(init[k] == sigs[k] && init[k - 1] == sigs[k - 1]);
                }
            }
        }
    }
}

/// Whether the call at `end` is the third in a row of the same call.
pub open spec fn third_in_a_row(sigs: Seq<SignatureView>, end: int) -> bool {
    2 <= end < sigs.len() && sigs[end] == sigs[end - 1] && sigs[end - 1] == sigs[end - 2]
}

/// Whether the call at `end` is the fourth in a row of calls of one tool that differ in
/// numbers at the most.
pub open spec fn fourth_but_for_numbers(sigs: Seq<SignatureView>, end: int) -> bool {
    &&& 3 <= end < sigs.len()
    &&& sigs[end].name == sigs[end - 1].name && sigs[end].norm_args_hash == sigs[end
        - 1].norm_args_hash
    &&& sigs[end - 1].name == sigs[end - 2].name && sigs[end - 1].norm_args_hash == sigs[end
        - 2].norm_args_hash
    &&& sigs[end - 2].name == sigs[end - 3].name && sigs[end - 2].norm_args_hash == sigs[end
        - 3].norm_args_hash
}

/// Whether the last calls go through the same `len` calls twice.
pub open spec fn goes_round(sigs: Seq<SignatureView>, len: int) -> bool {
    &&& 2 * len <= sigs.len()
    &&& forall|k: int|
        sigs.len() - len <= k < sigs.len() ==> #[trigger] sigs[k] == sigs[k - len]
}

proof fn lemma_goes_round(sigs: Seq<SignatureView>, len: int)
    requires
        len >= 2,
    ensures
        goes_round(sigs, len) == ends_in_repeat(sigs, len),
{
    let n = sigs.len() as int;
    if 2 * len <= n {
        let last = sigs.subrange(n - len, n);
        let previous = sigs.subrange(n - 2 * len, n - len);
        if goes_round(sigs, len) {
            assert forall|k: int| 0 <= k < len implies last[k] == previous[k] by {
                assert(sigs[n - len + k] == sigs[n - 2 * len + k]);
            }
            assert(last =~= previous);
        }
        if ends_in_repeat(sigs, len) {
            assert forall|k: int| n - len <= k < n implies #[trigger] sigs[k] == sigs[k - len] by {
                assert(last[k - (n - len)] == previous[k - (n - len)]);
            }
        }
    }
}

proof fn lemma_runs(sigs: Seq<SignatureView>, end: int)
    ensures
        0 <= end < sigs.len() ==> run_ends_at(sigs, end, 3, exactly_alike()) == third_in_a_row(
            sigs,
            end,
        ),
        0 <= end < sigs.len() ==> run_ends_at(sigs, end, 4, alike_but_for_numbers())
            == fourth_but_for_numbers(sigs, end),
{
    if 0 <= end < sigs.len() {
        if run_ends_at(sigs, end, 3, exactly_alike()) {
            assert(exactly_alike()(sigs[end], sigs[end - 1]));
            assert(exactly_alike()(sigs[end - 1], sigs[end - 2]));
        }
        if run_ends_at(sigs, end, 4, alike_but_for_numbers()) {
            assert(alike_but_for_numbers()(sigs[end], sigs[end - 1]));
            assert(alike_but_for_numbers()(sigs[end - 1], sigs[end - 2]));
            assert(alike_but_for_numbers()(sigs[end - 2], sigs[end - 3]));
        }
    }
}

/// The agent is told of a loop if and only if the calls hold three identical ones in a row,
/// wherever, or end in a cycle of two to five calls gone through twice, or hold four in a row
/// that differ in numbers alone.
pub proof fn law_agent_is_told_of_every_loop(sigs: Seq<SignatureView>)
    ensures
        loop_prompt(sigs) is Some <==> ({
            ||| exists|end: int| #[trigger] third_in_a_row(sigs, end)
            ||| exists|len: int| 2 <= len <= 5 && #[trigger] goes_round(sigs, len)
            ||| exists|end: int| #[trigger] fourth_but_for_numbers(sigs, end)
        }),
{
    lemma_first_run_exists(sigs, 3, exactly_alike());
    lemma_first_run_exists(sigs, 4, alike_but_for_numbers());
    assert forall|end: int| 0 <= end < sigs.len() implies #[trigger] third_in_a_row(sigs, end)
        == run_ends_at(sigs, end, 3, exactly_alike()) by {
        lemma_runs(sigs, end);
    }
    assert forall|end: int| 0 <= end < sigs.len() implies #[trigger] fourth_but_for_numbers(
        sigs,
        end,
    ) == run_ends_at(sigs, end, 4, alike_but_for_numbers()) by {
        lemma_runs(sigs, end);
    }
    lemma_goes_round(sigs, 2);
    lemma_goes_round(sigs, 3);
    lemma_goes_round(sigs, 4);
    lemma_goes_round(sigs, 5);
    if let Some(end) = first_run(sigs, 3, exactly_alike()) {
        assert(third_in_a_row(sigs, end));
    }
    if let Some(end) = first_run(sigs, 4, alike_but_for_numbers()) {
        assert(fourth_but_for_numbers(sigs, end));
    }
    if exists|end: int| #[trigger] third_in_a_row(sigs, end) {
        let end = choose|end: int| #[trigger] third_in_a_row(sigs, end);
        assert(run_ends_at(sigs, end, 3, exactly_alike()));
    }
    if exists|end: int| #[trigger] fourth_but_for_numbers(sigs, end) {
        let end = choose|end: int| #[trigger] fourth_but_for_numbers(sigs, end);
        assert(run_ends_at(sigs, end, 4, alike_but_for_numbers()));
    }
    if exists|len: int| 2 <= len <= 5 && #[trigger] goes_round(sigs, len) {
        let len = choose|len: int| 2 <= len <= 5 && #[trigger] goes_round(sigs, len);
        assert(len == 2 || len == 3 || len == 4 || len == 5);
    }
}

/// What the agent is told fits the loop: identical calls come first, then a cycle, and calls
/// that differ in numbers alone are only said to be a possible loop. The prompt names the
/// tool of the first run, or the tools of the shortest cycle in their order.
pub proof fn law_prompt_fits_the_loop(sigs: Seq<SignatureView>, end: int, len: int)
    ensures
        third_in_a_row(sigs, end) && (forall|e: int| e < end ==> !#[trigger] third_in_a_row(sigs, e))
            ==> loop_prompt(sigs) == Some(identical_prompt(sigs[end].name)),
        (forall|e: int| !#[trigger] third_in_a_row(sigs, e)) && 2 <= len <= 5 && goes_round(
            sigs,
            len,
        ) && (forall|l: int| 2 <= l < len ==> !#[trigger] goes_round(sigs, l)) ==> loop_prompt(sigs)
            == Some(
            cycle_prompt(Seq::new(len as nat, |k: int| sigs[sigs.len() - len + k].name)),
        ),
        (forall|e: int| !#[trigger] third_in_a_row(sigs, e)) && (forall|l: int|
            2 <= l <= 5 ==> !#[trigger] goes_round(sigs, l)) && fourth_but_for_numbers(sigs, end)
            && (forall|e: int| e < end ==> !#[trigger] fourth_but_for_numbers(sigs, e))
            ==> loop_prompt(sigs) == Some(numeric_prompt(sigs[end].name)),
{
    lemma_first_run_exists(sigs, 3, exactly_alike());
    lemma_first_run_exists(sigs, 4, alike_but_for_numbers());
    assert forall|e: int| 0 <= e < sigs.len() implies #[trigger] third_in_a_row(sigs, e)
        == run_ends_at(sigs, e, 3, exactly_alike()) by {
        lemma_runs(sigs, e);
    }
    assert forall|e: int| 0 <= e < sigs.len() implies #[trigger] fourth_but_for_numbers(sigs, e)
        == run_ends_at(sigs, e, 4, alike_but_for_numbers()) by {
        lemma_runs(sigs, e);
    }
    lemma_goes_round(sigs, 2);
    lemma_goes_round(sigs, 3);
    lemma_goes_round(sigs, 4);
    lemma_goes_round(sigs, 5);
    let exact = first_run(sigs, 3, exactly_alike());
    let loose = first_run(sigs, 4, alike_but_for_numbers());
    if third_in_a_row(sigs, end) && (forall|e: int| e < end ==> !#[trigger] third_in_a_row(sigs, e)) {
        assert(run_ends_at(sigs, end, 3, exactly_alike()));
        assert(exact is Some);
        assert(third_in_a_row(sigs, exact->0));
        assert(exact == Some(end));
    }
    if forall|e: int| !#[trigger] third_in_a_row(sigs, e) {
        if exact is Some {
            assert(third_in_a_row(sigs, exact->0));
        }
        if 2 <= len <= 5 && goes_round(sigs, len) && (forall|l: int|
            2 <= l < len ==> !#[trigger] goes_round(sigs, l)) {
            assert(len == 2 || len == 3 || len == 4 || len == 5);
            assert(len > 2 ==> !goes_round(sigs, 2));
            assert(len > 3 ==> !goes_round(sigs, 3));
            assert(len > 4 ==> !goes_round(sigs, 4));
            assert(cycle_length(sigs) == Some(len));
            assert(cycle_names(sigs)->0 =~= Seq::new(
                len as nat,
                |k: int| sigs[sigs.len() - len + k].name,
            ));
        }
        if (forall|l: int| 2 <= l <= 5 ==> !#[trigger] goes_round(sigs, l))
            && fourth_but_for_numbers(sigs, end) && (forall|e: int|
            e < end ==> !#[trigger] fourth_but_for_numbers(sigs, e)) {
            assert(!goes_round(sigs, 2) && !goes_round(sigs, 3) && !goes_round(sigs, 4)
                && !goes_round(sigs, 5));
            assert(run_ends_at(sigs, end, 4, alike_but_for_numbers()));
            assert(loose is Some);
            assert(fourth_but_for_numbers(sigs, loose->0));
            assert(loose == Some(end));
        }
    }
}

/// A loop goes on if and only if the last call repeats the one before it, or the calls end in
/// a cycle of two to five calls gone through twice.
pub proof fn law_loop_goes_on_at_the_tail(sigs: Seq<SignatureView>)
    ensures
        active_at_tail(sigs) <==> ({
            ||| sigs.len() >= 2 && sigs[sigs.len() - 1] == sigs[sigs.len() - 2]
            ||| exists|len: int| 2 <= len <= 5 && #[trigger] goes_round(sigs, len)
        }),
{
    lemma_goes_round(sigs, 2);
    lemma_goes_round(sigs, 3);
    lemma_goes_round(sigs, 4);
    lemma_goes_round(sigs, 5);
    if exists|len: int| 2 <= len <= 5 && #[trigger] goes_round(sigs, len) {
        let len = choose|len: int| 2 <= len <= 5 && #[trigger] goes_round(sigs, len);
        assert(len == 2 || len == 3 || len == 4 || len == 5);
    }
}

/// Each call of an assistant counts, in the order of the calls; the calls of nobody else do.
pub proof fn law_every_call_of_the_assistant_counts(ms: Seq<MessageView>, m: MessageView)
    ensures
        signatures_of(Seq::empty()).len() == 0,
        m.role == "assistant"@ && m.tool_calls is Some ==> {
            let n = signatures_of(ms).len() as int;
            let all = signatures_of(ms.push(m));
            &&& all.len() == n + m.tool_calls->0.len()
            &&& all.take(n) == signatures_of(ms)
            &&& forall|c: int|
                0 <= c < m.tool_calls->0.len() ==> (#[trigger] all[n + c]).name
                    == m.tool_calls->0[c].name && all[n + c].args_hash == args_digest(
                    m.tool_calls->0[c].arguments,
                ) && all[n + c].norm_args_hash == args_digest(
                    without_numbers(m.tool_calls->0[c].arguments),
                )
        },
        m.role != "assistant"@ || m.tool_calls is None ==> signatures_of(ms.push(m))
            == signatures_of(ms),
        forall|n: nat| ms.len() <= n ==> #[trigger] recent_signatures(ms, n) == signatures_of(ms),
{
    let n = signatures_of(ms).len() as int;
    assert(ms.push(m).drop_last() =~= ms);
    if m.role == "assistant"@ && m.tool_calls is Some {
        assert(signatures_of(ms.push(m)).take(n) =~= signatures_of(ms));
    } else {
        assert(signatures_of(ms.push(m)) =~= signatures_of(ms));
    }
}

/// What came before the last thirty messages changes nothing.
pub proof fn law_only_recent_messages_count(
    earlier: Seq<MessageView>,
    recent: Seq<MessageView>,
)
    requires
        recent.len() >= LOOKBACK_MESSAGES,
    ensures
        recent_signatures(earlier + recent, LOOKBACK_MESSAGES as nat) == recent_signatures(
            recent,
            LOOKBACK_MESSAGES as nat,
        ),
{
    let all = earlier + recent;
    let n = LOOKBACK_MESSAGES as nat;
    assert(latest(all, n) =~= latest(recent, n)) by {
        if all.len() > n {
            assert(all.skip(all.len() - n) =~= recent.skip(recent.len() - n));
        } else {
            assert(all =~= recent);
        }
    }
}

/// A last call that is unlike every call before it ends the loop: a run that was
/// left behind is not active.
pub proof fn law_new_call_ends_loop(sigs: Seq<SignatureView>)
    requires
        sigs.len() > 0,
        forall|k: int| 0 <= k < sigs.len() - 1 ==> sigs[k] != sigs.last(),
    ensures
        !active_at_tail(sigs),
{
    let n = sigs.len() as int;
    assert forall|len: int| 2 <= len implies !#[trigger] ends_in_repeat(sigs, len) by {
        if ends_in_repeat(sigs, len) {
            let last = sigs.subrange(n - len, n);
            let previous = sigs.subrange(n - 2 * len, n - len);
            assert(last[len - 1] == previous[len - 1]);
            assert(sigs[n - len - 1] == sigs[n - 1]);
        }
    }
}

/// Calls that all differ, be it in a number alone, are never active at the tail,
/// whatever prompt they bring.
pub proof fn law_distinct_calls_are_not_active(sigs: Seq<SignatureView>)
    requires
        forall|i: int, j: int| 0 <= i < j < sigs.len() ==> sigs[i] != sigs[j],
    ensures
        !active_at_tail(sigs),
{
    if sigs.len() > 0 {
        law_new_call_ends_loop(sigs);
    }
}

/// Three identical calls at the end bring a prompt, and are active at the tail.
pub proof fn law_three_identical_calls_prompt(sigs: Seq<SignatureView>)
    requires
        sigs.len() >= 3,
        sigs[sigs.len() - 1] == sigs[sigs.len() - 2],
        sigs[sigs.len() - 2] == sigs[sigs.len() - 3],
    ensures
        loop_prompt(sigs) is Some,
        active_at_tail(sigs),
{
    assert(run_ends_at(sigs, sigs.len() - 1, 3, exactly_alike()));
}

/// A cycle of two to five calls at the end that is gone through twice brings a
/// prompt, and is active at the tail.
pub proof fn law_cycle_prompts(sigs: Seq<SignatureView>, len: int)
    requires
        2 <= len <= 5,
        ends_in_repeat(sigs, len),
    ensures
        loop_prompt(sigs) is Some,
        active_at_tail(sigs),
{
    assert(len == 2 || len == 3 || len == 4 || len == 5);
}

proof fn lemma_first_run_weaker(sigs: Seq<SignatureView>, count: nat)
    ensures
        first_run(sigs, count, exactly_alike()) is Some ==> first_run(
            sigs,
            count,
            alike_but_for_numbers(),
        ) is Some,
    decreases sigs.len(),
{
    if sigs.len() > 0 {
        lemma_first_run_weaker(sigs.drop_last(), count);
        let end = sigs.len() - 1;
        if run_ends_at(sigs, end, count, exactly_alike()) {
            assert forall|k: int|
                #![trigger sigs[k]]
                end + 1 - count < k <= end implies alike_but_for_numbers()(
                sigs[k],
                sigs[k - 1],
            ) by {
                assert(exactly_alike()(sigs[k], sigs[k - 1]));
            }
        }
    }
}

/// Identical calls are also alike once numbers are left aside: a run of the first
/// kind is a run of the second.
pub proof fn law_identical_run_is_normalized_run(sigs: Seq<SignatureView>, threshold: nat)
    ensures
        repeated_tool(sigs, threshold, exactly_alike()) is Some ==> repeated_tool(
            sigs,
            threshold,
            alike_but_for_numbers(),
        ) is Some,
{
    lemma_first_run_weaker(sigs, run_length(threshold));
}

/// The prompt for a run of identical calls names the tool.
pub proof fn law_prompt_names_tool(sigs: Seq<SignatureView>)
    requires
        sigs.len() >= 3,
        repeated_tool(sigs, IDENTICAL_THRESHOLD as nat, exactly_alike()) is Some,
    ensures
        text::contains(
            loop_prompt(sigs)->0,
            repeated_tool(sigs, IDENTICAL_THRESHOLD as nat, exactly_alike())->0,
        ),
{
    text::lemma_contains_middle(
        "[SYSTEM: DOOM LOOP DETECTED] You have called '"@,
        repeated_tool(sigs, IDENTICAL_THRESHOLD as nat, exactly_alike())->0,
        "' with the same arguments multiple times in a row. STOP repeating this approach — it is not working. Step back and try a fundamentally different strategy: use a different tool, change your arguments significantly, or explain what you are stuck on and ask for guidance."@,
    );
}

} // verus!
