use isanagent::failover::{
    after_attempt, after_fallback, build_fallback_specs, build_llm_failed_banner,
    fallback_providers, set_fallback_providers, start_fallbacks, AttemptResult,
    FallbackProviderSpec, FallbackResult, FallbackStep, RetryStep,
};

fn fb_full(provider: &str, base: &str, model: &str) -> FallbackProviderSpec {
    FallbackProviderSpec {
        provider_name: provider.to_string(),
        base_url: base.to_string(),
        api_key: "k".to_string(),
        model_name: model.to_string(),
    }
}

/// The step in which the search ends where the results come one after the other.
fn search(results: &[FallbackResult]) -> FallbackStep {
    let mut step = start_fallbacks(results.len());
    while let FallbackStep::Try(i) = step {
        step = after_fallback(i, results.len(), results[i]);
    }
    step
}

#[test]
fn build_fallback_specs_excludes_primary_by_full_identity() {
    let candidates = vec![
        // Same identity as the primary but with different casing and a trailing slash on the
        // base URL — must still be excluded after normalization.
        fb_full("Anthropic", "https://api.anthropic.com/", "Model-X"),
        fb_full("openai", "https://api.openai.com", "gpt-4o"),
    ];
    let out = build_fallback_specs(
        "anthropic",
        "https://api.anthropic.com",
        "model-x",
        candidates,
    );
    assert_eq!(out.len(), 1);
    assert_eq!(out[0].provider_name, "openai");
}

#[test]
fn build_fallback_specs_keeps_same_provider_different_model_or_url() {
    // Same provider but a different model — a legitimate fallback, must be kept.
    let candidates = vec![
        fb_full("openai", "u", "gpt-4o-mini"),
        fb_full("openai", "u2", "gpt-4o"), // same provider+model, different base_url -> kept
    ];
    let out = build_fallback_specs("openai", "u", "gpt-4o", candidates);
    assert_eq!(out.len(), 2);
}

#[test]
fn fallback_spec_debug_redacts_api_key() {
    let dbg = fb_full("openai", "u", "m").debug_text();
    assert!(dbg.contains("[redacted]"), "{dbg}");
    assert!(!dbg.contains("\"k\""), "api key must not appear: {dbg}");
}

#[test]
fn try_fallbacks_returns_first_success() {
    assert_eq!(
        search(&[FallbackResult::Failed, FallbackResult::Answered]),
        FallbackStep::Answered(1)
    );
}

#[test]
fn try_fallbacks_all_fail_is_exhausted() {
    assert_eq!(
        search(&[FallbackResult::Failed, FallbackResult::Failed]),
        FallbackStep::Exhausted
    );
}

#[test]
fn try_fallbacks_empty_is_exhausted() {
    assert_eq!(search(&[]), FallbackStep::Exhausted);
}

#[test]
fn try_fallbacks_cancellation_short_circuits() {
    assert_eq!(
        search(&[FallbackResult::Cancelled, FallbackResult::Answered]),
        FallbackStep::Cancelled
    );
}

#[test]
fn description_is_written_out() {
    assert_eq!(
        fb_full("open\"ai", "u", "m").debug_text(),
        "FallbackProviderSpec { provider_name: \"open\\\"ai\", base_url: \"u\", \
api_key: \"[redacted]\", model_name: \"m\" }"
    );
}

#[test]
fn the_list_of_fallbacks_is_replaced() {
    let mut list = vec![fb_full("a", "u", "m")];
    set_fallback_providers(&mut list, vec![fb_full("b", "u", "m"), fb_full("c", "u", "m")]);
    let now = fallback_providers(&list);
    assert_eq!(now.len(), 2);
    assert_eq!(now[0].provider_name, "b");
}

fn failure(transient: bool) -> AttemptResult {
    AttemptResult::Failed {
        message: "busy".to_string(),
        transient,
    }
}

#[test]
fn transient_failures_are_tried_three_times() {
    assert!(matches!(
        after_attempt(0, failure(true)),
        RetryStep::RetryAfter { backoff_ms: 1000 }
    ));
    assert!(matches!(
        after_attempt(1, failure(true)),
        RetryStep::RetryAfter { backoff_ms: 2000 }
    ));
    match after_attempt(2, failure(true)) {
        RetryStep::UseFallbacks { last_error } => assert_eq!(last_error, "busy"),
        other => panic!("{:?}", other),
    }
}

#[test]
fn other_results_end_the_attempts() {
    assert!(matches!(after_attempt(0, failure(false)), RetryStep::UseFallbacks { .. }));
    assert!(matches!(after_attempt(0, AttemptResult::Answered), RetryStep::Answered));
    assert!(matches!(after_attempt(1, AttemptResult::Cancelled), RetryStep::Cancelled));
    assert!(matches!(
        after_attempt(
            0,
            AttemptResult::ContextOverflow {
                tokens_attempted: 9,
                max: Some(8)
            }
        ),
        RetryStep::ContextOverflow {
            tokens_attempted: 9,
            max: Some(8)
        }
    ));
}

#[test]
fn the_banner_offers_another_try_in_the_terminal() {
    let banner = build_llm_failed_banner("terminal", "c", None, "busy");
    assert_eq!(
        banner.content,
        "LLM call failed after 3 attempts: busy\nPress /retry to try again or /cancel to abandon."
    );
    assert_eq!(banner.metadata.len(), 2);
    let other = build_llm_failed_banner("api", "c", Some("t"), "busy");
    assert!(other.metadata.is_empty());
    assert_eq!(other.thread_id.as_deref(), Some("t"));
}
