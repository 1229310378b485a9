//! Calls to a model provider that are tried again, and the providers that are tried in its
//! place.
use vstd::prelude::*;
use vstd::string::*;
use crate::bus::{set_metadata, OutboundMessage, LLM_RETRY_AVAILABLE, TERMINAL_ERROR};
use crate::json::{Json, JsonView};
use crate::json;
use crate::outside;
use crate::text;

verus! {

broadcast use vstd::string::group_string_axioms;

// ---------------------------------------------------------------------------
// Fallback providers
// ---------------------------------------------------------------------------

/// A provider that is tried where the primary one has failed.
pub struct FallbackProviderSpec {
    pub provider_name: String,
    pub base_url: String,
    pub api_key: String,
    pub model_name: String,
}

impl Clone for FallbackProviderSpec {
    fn clone(&self) -> (r: Self)
        ensures
            r == *self,
    {
        FallbackProviderSpec {
            provider_name: self.provider_name.clone(),
            base_url: self.base_url.clone(),
            api_key: self.api_key.clone(),
            model_name: self.model_name.clone(),
        }
    }
}

/// The text that describes a provider in a log. The key is left out.
pub open spec fn described(provider: Seq<char>, base_url: Seq<char>, model: Seq<char>) -> Seq<char> {
    "FallbackProviderSpec { provider_name: "@ + outside::debug_quoted(provider) + ", base_url: "@
        + outside::debug_quoted(base_url) + ", api_key: \"[redacted]\", model_name: "@
        + outside::debug_quoted(model) + " }"@
}

impl FallbackProviderSpec {
    /// Describes the provider for a log, without its key.
    pub fn debug_text(&self) -> (r: String)
        ensures
            r@ == described(self.provider_name@, self.base_url@, self.model_name@),
    {
        let provider: String = outside::debug_quote(self.provider_name.as_str());
        let base_url: String = outside::debug_quote(self.base_url.as_str());
        let model: String = outside::debug_quote(self.model_name.as_str());
        let mut out: String = "FallbackProviderSpec { provider_name: ".to_owned();
        out.append(provider.as_str());
        out.append(", base_url: ");
        out.append(base_url.as_str());
        out.append(", api_key: \"[redacted]\", model_name: ");
        out.append(model.as_str());
        out.append(" }");
        out
    }
}

/// Whether a provider is the primary one: the same name and model but for case, and the
/// same address but for slashes at its end.
pub open spec fn is_primary(
    c: FallbackProviderSpec,
    provider: Seq<char>,
    base_url: Seq<char>,
    model: Seq<char>,
) -> bool {
    &&& text::same_ignoring_ascii_case(c.provider_name@, provider)
    &&& text::trim_end_char(c.base_url@, '/') == text::trim_end_char(base_url, '/')
    &&& text::same_ignoring_ascii_case(c.model_name@, model)
}

/// The candidates that are not the primary provider, in their order.
pub fn build_fallback_specs(
    primary_provider: &str,
    primary_base_url: &str,
    primary_model: &str,
    candidates: Vec<FallbackProviderSpec>,
) -> (r: Vec<FallbackProviderSpec>)
    ensures
        r@ == candidates@.filter(
            |c: FallbackProviderSpec|
                !is_primary(c, primary_provider@, primary_base_url@, primary_model@),
        ),
{
    let ghost all = candidates@;
    let ghost keep = |c: FallbackProviderSpec|
        !is_primary(c, primary_provider@, primary_base_url@, primary_model@);
    let primary_url: String = text::without_trailing(primary_base_url, '/');
    let mut out: Vec<FallbackProviderSpec> = Vec::new();
    proof {
        reveal(Seq::filter);
        assert(all.take(0) =~= Seq::<FallbackProviderSpec>::empty());
    }
    for candidate in it: candidates
        invariant
            it.seq() == all,
            primary_url@ == text::trim_end_char(primary_base_url@, '/'),
            keep == (|c: FallbackProviderSpec|
                !is_primary(c, primary_provider@, primary_base_url@, primary_model@)),
            out@ == all.take(it.index()).filter(keep),
    {
        proof {
            reveal(Seq::filter);
            assert(all.take(it.index() + 1).drop_last() =~= all.take(it.index()));
        }
        let url: String = text::without_trailing(candidate.base_url.as_str(), '/');
        let primary: bool = text::equals_ignoring_ascii_case(
            candidate.provider_name.as_str(),
            primary_provider,
        ) && url == primary_url && text::equals_ignoring_ascii_case(
            candidate.model_name.as_str(),
            primary_model,
        );
        if !primary {
            out.push(candidate);
        }
    }
    assert(all.take(all.len() as int) =~= all);
    out
}

/// Puts a new list of fallback providers in place of the old one.
pub fn set_fallback_providers(list: &mut Vec<FallbackProviderSpec>, specs: Vec<FallbackProviderSpec>)
    ensures
        *final(list) == specs,
{
    *list = specs;
}

/// The fallback providers as they stand now.
pub fn fallback_providers(list: &Vec<FallbackProviderSpec>) -> (r: Vec<FallbackProviderSpec>)
    ensures
        r@ == list@,
{
    let copy: Vec<FallbackProviderSpec> = list.clone();
    assert(copy@ =~= list@);
    copy
}

/// How one attempt with a fallback provider went.
#[derive(Debug, Clone, Copy, PartialEq, Eq, Structural)]
pub enum FallbackResult {
    Answered,
    Failed,
    Cancelled,
}

/// What comes next among the fallback providers.
#[derive(Debug, Clone, Copy, PartialEq, Eq, Structural)]
pub enum FallbackStep {
    /// Try the provider at this place in the list.
    Try(usize),
    /// The provider at this place gave an answer.
    Answered(usize),
    Cancelled,
    Exhausted,
}

/// Begins with the first of `count` fallback providers.
pub fn start_fallbacks(count: usize) -> (r: FallbackStep)
    ensures
        r == if count == 0 {
            FallbackStep::Exhausted
        } else {
            FallbackStep::Try(0)
        },
{
    if count == 0 {
        FallbackStep::Exhausted
    } else {
        FallbackStep::Try(0)
    }
}

/// What follows an attempt with the provider at `tried`: an answer and a cancellation end
/// the search, a failure leads on to the next provider.
pub open spec fn fallback_step(tried: int, count: int, result: FallbackResult) -> FallbackStep {
    match result {
        FallbackResult::Answered => FallbackStep::Answered(tried as usize),
        FallbackResult::Cancelled => FallbackStep::Cancelled,
        FallbackResult::Failed => if tried + 1 < count {
            FallbackStep::Try((tried + 1) as usize)
        } else {
            FallbackStep::Exhausted
        },
    }
}

/// Goes on after an attempt with the provider at `tried`.
pub fn after_fallback(tried: usize, count: usize, result: FallbackResult) -> (r: FallbackStep)
    requires
        tried < count,
    ensures
        r == fallback_step(tried as int, count as int, result),
{
    match result {
        FallbackResult::Answered => FallbackStep::Answered(tried),
        FallbackResult::Cancelled => FallbackStep::Cancelled,
        FallbackResult::Failed => if count - tried > 1 {
            FallbackStep::Try(tried + 1)
        } else {
            FallbackStep::Exhausted
        },
    }
}

/// Where the search ends that finds the providers from `tried` on to give these results.
pub open spec fn fallback_search(results: Seq<FallbackResult>, tried: int) -> FallbackStep
    decreases results.len() - tried,
{
    if tried < 0 || tried >= results.len() {
        FallbackStep::Exhausted
    } else {
        match fallback_step(tried, results.len() as int, results[tried]) {
            FallbackStep::Try(_) => fallback_search(results, tried + 1),
            end => end,
        }
    }
}

/// The first provider that gives an answer is the one that is used, where none before it
/// was cancelled.
pub proof fn law_first_answer_wins(results: Seq<FallbackResult>, k: int, tried: int)
    requires
        0 <= tried <= k < results.len() <= usize::MAX,
        results[k] == FallbackResult::Answered,
        forall|i: int| tried <= i < k ==> results[i] == FallbackResult::Failed,
    ensures
        fallback_search(results, tried) == FallbackStep::Answered(k as usize),
    decreases k - tried,
{
    if tried < k {
        assert(results[tried] == FallbackResult::Failed);
        law_first_answer_wins(results, k, tried + 1);
    }
}

/// Where every provider fails, the search ends without an answer.
pub proof fn law_all_failures_exhaust(results: Seq<FallbackResult>, tried: int)
    requires
        0 <= tried <= results.len() <= usize::MAX,
        forall|i: int| tried <= i < results.len() ==> results[i] == FallbackResult::Failed,
    ensures
        fallback_search(results, tried) == FallbackStep::Exhausted,
    decreases results.len() - tried,
{
    if tried < results.len() {
        assert(results[tried] == FallbackResult::Failed);
        law_all_failures_exhaust(results, tried + 1);
    }
}

// ---------------------------------------------------------------------------
// Attempts with the primary provider
// ---------------------------------------------------------------------------

/// How many times the primary provider is called.
pub const MAX_ATTEMPTS: u32 = 3;

/// How many milliseconds are waited before the second attempt.
pub const BACKOFF_BASE_MS: u64 = 1000;

/// How one call to the primary provider went.
#[derive(Debug)]
pub enum AttemptResult {
    Answered,
    Cancelled,
    /// The context was too long for the model.
    ContextOverflow { tokens_attempted: u32, max: Option<u32> },
    /// The call failed; `transient` says that another attempt may succeed.
    Failed { message: String, transient: bool },
}

/// What comes after a call to the primary provider.
#[derive(Debug)]
pub enum RetryStep {
    Answered,
    Cancelled,
    ContextOverflow { tokens_attempted: u32, max: Option<u32> },
    /// Wait, then call again.
    RetryAfter { backoff_ms: u64 },
    /// Go over to the fallback providers.
    UseFallbacks { last_error: String },
}

/// How long is waited after the attempt with this number: twice as long each time.
pub open spec fn backoff_after(attempt: nat) -> nat
    decreases attempt,
{
    if attempt == 0 {
        BACKOFF_BASE_MS as nat
    } else {
        2 * backoff_after((attempt - 1) as nat)
    }
}

/// Whether the step follows the attempt with this number, the first being zero.
pub open spec fn follows_attempt(r: RetryStep, attempt: nat, result: AttemptResult) -> bool {
    match result {
        AttemptResult::Answered => r is Answered,
        AttemptResult::Cancelled => r is Cancelled,
        AttemptResult::ContextOverflow { tokens_attempted, max } => r
            == (RetryStep::ContextOverflow { tokens_attempted, max }),
        AttemptResult::Failed { message, transient } => if transient && attempt + 1
            < MAX_ATTEMPTS {
            r matches RetryStep::RetryAfter { backoff_ms } && backoff_ms == backoff_after(attempt)
        } else {
            r matches RetryStep::UseFallbacks { last_error } && last_error@ == message@
        },
    }
}

/// Goes on after the attempt with this number, the first being zero. A call is repeated
/// only after a transient failure, and not after the last attempt.
pub fn after_attempt(attempt: u32, result: AttemptResult) -> (r: RetryStep)
    requires
        attempt < MAX_ATTEMPTS,
    ensures
        follows_attempt(r, attempt as nat, result),
{
    match result {
        AttemptResult::Answered => RetryStep::Answered,
        AttemptResult::Cancelled => RetryStep::Cancelled,
        AttemptResult::ContextOverflow { tokens_attempted, max } => RetryStep::ContextOverflow {
            tokens_attempted,
            max,
        },
        AttemptResult::Failed { message, transient } => {
            if transient && attempt + 1 < MAX_ATTEMPTS {
                proof {
                    reveal_with_fuel(backoff_after, 3);
                }
                let backoff_ms: u64 = if attempt == 0 {
                    BACKOFF_BASE_MS
                } else {
                    BACKOFF_BASE_MS * 2
                };
                RetryStep::RetryAfter { backoff_ms }
            } else {
                RetryStep::UseFallbacks { last_error: message }
            }
        },
    }
}

/// Each attempt but the first follows one that failed in a way that may pass, and there are
/// three at the most: the provider is not called again after an answer, a cancellation, a
/// context that was too long, or the third failure.
pub proof fn law_three_attempts_at_most(results: Seq<AttemptResult>, steps: Seq<RetryStep>)
    requires
        results.len() == steps.len(),
        forall|i: int|
            0 <= i < steps.len() ==> follows_attempt(#[trigger] steps[i], i as nat, results[i]),
        forall|i: int| 0 <= i < steps.len() - 1 ==> (#[trigger] steps[i]) is RetryAfter,
    ensures
        steps.len() <= MAX_ATTEMPTS,
        forall|i: int|
            0 <= i < results.len() - 1 ==> (#[trigger] results[i] matches AttemptResult::Failed {
                message,
                transient,
            } && transient),
{
    assert forall|i: int| 0 <= i < results.len() - 1 implies (#[trigger] results[i] matches AttemptResult::Failed {
        message,
        transient,
    } && transient) by {
        assert(steps[i] is RetryAfter);
        assert(follows_attempt(steps[i], i as nat, results[i]));
    }
    if steps.len() > MAX_ATTEMPTS {
        let last = MAX_ATTEMPTS as int - 1;
        assert(steps[last] is RetryAfter);
        assert(follows_attempt(steps[last], last as nat, results[last]));
    }
}

/// The banner that tells the user of a failed call.
pub open spec fn banner_text(error: Seq<char>) -> Seq<char> {
    "LLM call failed after 3 attempts: "@ + error
        + "\nPress /retry to try again or /cancel to abandon."@
}

/// Writes the banner that tells the user of a failed call. In the terminal it is marked as an
/// error after which another attempt can be asked for.
pub fn build_llm_failed_banner(
    channel: &str,
    chat_id: &str,
    thread_id: Option<&str>,
    error: &str,
) -> (r: OutboundMessage)
    ensures
        r.channel@ == channel@,
        r.chat_id@ == chat_id@,
        r.thread_id.deep_view() == thread_id.deep_view(),
        r.content@ == banner_text(error@),
        forall|k: Seq<char>|
            #[trigger] json::member(json::members_view(r.metadata@), k) == if channel@ == "terminal"@ && (k
                == TERMINAL_ERROR@ || k == LLM_RETRY_AVAILABLE@) {
                Some(JsonView::Bool(true))
            } else {
                None
            },
{
    let mut content: String = "LLM call failed after 3 attempts: ".to_owned();
    content.append(error);
    content.append("\nPress /retry to try again or /cancel to abandon.");
    let mut metadata: Vec<(String, Json)> = Vec::new();
    assert(json::members_view(metadata@) =~= Seq::<(Seq<char>, JsonView)>::empty());
    if text::same(channel, "terminal") {
        set_metadata(&mut metadata, TERMINAL_ERROR, Json::Bool(true));
        set_metadata(&mut metadata, LLM_RETRY_AVAILABLE, Json::Bool(true));
    }
    OutboundMessage {
        channel: channel.to_owned(),
        chat_id: chat_id.to_owned(),
        thread_id: match thread_id {
            Some(t) => Some(t.to_owned()),
            None => None,
        },
        content,
        metadata,
    }
}

/// The provider that fell out is asked for no fallback: a candidate stays if and only if it
/// differs in its name, its address or its model, the case of letters and slashes at the end
/// of the address aside. Those that stay keep their order.
pub proof fn law_fallbacks_differ_from_the_primary(
    c: FallbackProviderSpec,
    provider: Seq<char>,
    base_url: Seq<char>,
    model: Seq<char>,
)
    ensures
        c.provider_name@ == provider && c.base_url@ == base_url && c.model_name@ == model
            ==> is_primary(c, provider, base_url, model),
        text::ascii_lower(c.provider_name@) != text::ascii_lower(provider) ==> !is_primary(
            c,
            provider,
            base_url,
            model,
        ),
        text::ascii_lower(c.model_name@) != text::ascii_lower(model) ==> !is_primary(
            c,
            provider,
            base_url,
            model,
        ),
        c.base_url@ == base_url.push('/') ==> (is_primary(c, provider, base_url, model)
            <==> text::ascii_lower(c.provider_name@) == text::ascii_lower(provider)
            && text::ascii_lower(c.model_name@) == text::ascii_lower(model)),
        c.base_url@ != base_url && c.base_url@.len() > 0 && c.base_url@.last() != '/'
            && base_url.len() > 0 && base_url.last() != '/' ==> !is_primary(
            c,
            provider,
            base_url,
            model,
        ),
{
    assert(base_url.push('/').drop_last() =~= base_url);
}

/// A call that failed in a way that may pass is made again, three times in all: after a second
/// for the first time and after two for the second. What failed otherwise, and what failed for
/// the third time, goes to the fallback providers with its error; nothing else does.
pub proof fn law_failed_calls_are_made_again(r: RetryStep, attempt: nat, result: AttemptResult)
    requires
        follows_attempt(r, attempt, result),
    ensures
        result matches AttemptResult::Failed { message, transient } ==> {
            &&& transient && attempt == 0 ==> r == (RetryStep::RetryAfter { backoff_ms: 1000 })
            &&& transient && attempt == 1 ==> r == (RetryStep::RetryAfter { backoff_ms: 2000 })
            &&& !transient || attempt >= 2 ==> (r matches RetryStep::UseFallbacks { last_error }
                && last_error@ == message@)
        },
        r is RetryAfter || r is UseFallbacks ==> result is Failed,
        r is Answered <==> result is Answered,
        r is Cancelled <==> result is Cancelled,
        result matches AttemptResult::ContextOverflow { tokens_attempted, max } ==> r == (
        RetryStep::ContextOverflow { tokens_attempted, max }),
{
    reveal_with_fuel(backoff_after, 3);
}

/// A cancellation ends the search among the fallback providers, whatever is left to try.
pub proof fn law_cancelled_search_ends(results: Seq<FallbackResult>, k: int, tried: int)
    requires
        0 <= tried <= k < results.len() <= usize::MAX,
        results[k] == FallbackResult::Cancelled,
        forall|i: int| tried <= i < k ==> results[i] == FallbackResult::Failed,
    ensures
        fallback_search(results, tried) == FallbackStep::Cancelled,
    decreases k - tried,
{
    if tried < k {
        assert(results[tried] == FallbackResult::Failed);
        law_cancelled_search_ends(results, k, tried + 1);
    }
}

/// After a failure the next provider is tried while there is one.
pub proof fn law_every_fallback_is_tried(tried: int, count: int)
    requires
        0 <= tried < count <= usize::MAX,
    ensures
        tried < count - 1 ==> fallback_step(tried, count, FallbackResult::Failed)
            == FallbackStep::Try((tried + 1) as usize),
        tried == count - 1 ==> fallback_step(tried, count, FallbackResult::Failed)
            == FallbackStep::Exhausted,
        fallback_step(tried, count, FallbackResult::Answered) == FallbackStep::Answered(
            tried as usize,
        ),
        fallback_step(tried, count, FallbackResult::Cancelled) == FallbackStep::Cancelled,
{
}

/// The banner says what the error was and how to try again or give up.
pub proof fn law_banner_tells_of_the_error(error: Seq<char>)
    ensures
        text::contains(banner_text(error), error),
        text::contains(banner_text(error), "/retry"@),
        text::contains(banner_text(error), "/cancel"@),
{
    let head = "LLM call failed after 3 attempts: "@;
    let tail = "\nPress /retry to try again or /cancel to abandon."@;
    text::lemma_contains_middle(head, error, tail);
    reveal_strlit("\nPress /retry to try again or /cancel to abandon.");
    reveal_strlit("/retry");
    reveal_strlit("/cancel");
    let before = head + error;
    let n = before.len() as int;
    assert(banner_text(error) =~= before + tail);
    assert(tail.subrange(7, 13) =~= "/retry"@);
    assert(banner_text(error).subrange(n + 7, n + 13) =~= "/retry"@);
    assert(text::occurs_at(banner_text(error), "/retry"@, n + 7));
    assert(tail.subrange(30, 37) =~= "/cancel"@);
    assert(banner_text(error).subrange(n + 30, n + 37) =~= "/cancel"@);
    assert(text::occurs_at(banner_text(error), "/cancel"@, n + 30));
}

/// What is printed of a provider tells its name, its address and its model, each quoted, and in
/// place of its key the word that it is left out.
pub proof fn law_description_leaves_the_key_out(
    provider: Seq<char>,
    base_url: Seq<char>,
    model: Seq<char>,
)
    ensures
        text::contains(
            described(provider, base_url, model),
            "provider_name: "@ + outside::debug_quoted(provider),
        ),
        text::contains(described(provider, base_url, model), outside::debug_quoted(base_url)),
        text::contains(described(provider, base_url, model), outside::debug_quoted(model)),
        text::contains(described(provider, base_url, model), ", api_key: \"[redacted]\", "@),
{
    let p = outside::debug_quoted(provider);
    let u = outside::debug_quoted(base_url);
    let m = outside::debug_quoted(model);
    let a = "FallbackProviderSpec { provider_name: "@;
    let b = ", base_url: "@;
    let c = ", api_key: \"[redacted]\", model_name: "@;
    let e = " }"@;
    let all = described(provider, base_url, model);
    assert(all == a + p + b + u + c + m + e);
    reveal_strlit("FallbackProviderSpec { provider_name: ");
    reveal_strlit("provider_name: ");
    reveal_strlit(", api_key: \"[redacted]\", model_name: ");
    reveal_strlit(", api_key: \"[redacted]\", ");
    let named = "provider_name: "@ + p;
    assert(a.skip(23) =~= "provider_name: "@);
    assert((a + p).subrange(23, 23 + named.len() as int) =~= named);
    assert(text::occurs_at(a + p, named, 23));
    text::lemma_contains_longer(a + p, b, named);
    text::lemma_contains_longer(a + p + b, u, named);
    text::lemma_contains_longer(a + p + b + u, c, named);
    text::lemma_contains_longer(a + p + b + u + c, m, named);
    text::lemma_contains_longer(a + p + b + u + c + m, e, named);
    text::lemma_contains_end(a + p + b, u);
    text::lemma_contains_longer(a + p + b + u, c, u);
    text::lemma_contains_longer(a + p + b + u + c, m, u);
    text::lemma_contains_longer(a + p + b + u + c + m, e, u);
    text::lemma_contains_end(a + p + b + u + c, m);
    text::lemma_contains_longer(a + p + b + u + c + m, e, m);
    let left_out = ", api_key: \"[redacted]\", "@;
    assert(c.subrange(0, left_out.len() as int) =~= left_out);
    assert(text::occurs_at(c, left_out, 0));
    text::lemma_contains_behind(a + p + b + u, c, left_out);
    text::lemma_contains_longer(a + p + b + u + c, m, left_out);
    text::lemma_contains_longer(a + p + b + u + c + m, e, left_out);
}

} // verus!
