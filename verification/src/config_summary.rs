//! The shell policy, and the lines with which an agent is told how it is configured.
use vstd::prelude::*;
use vstd::string::*;
use crate::config::{
    AppConfig, ExecutionHarnessConfig, ResolvedShellPolicy, ShellPolicyConfig, ShellPolicyMode,
    SubagentHarnessConfig,
};
use crate::config_resolve;
use crate::named;
use crate::order;
use crate::prompt;
use crate::text;

verus! {

broadcast use vstd::string::group_string_axioms;

// ---------------------------------------------------------------------------
// The shell policy
// ---------------------------------------------------------------------------

/// The mode that a word names, in any case; the default where it names none.
pub open spec fn mode_named(raw: Option<Seq<char>>, default_mode: ShellPolicyMode) -> ShellPolicyMode {
    match raw {
        None => default_mode,
        Some(value) => {
            let word = text::ascii_lower(text::trim(value));
            if word == "allow"@ {
                ShellPolicyMode::Allow
            } else if word == "deny"@ {
                ShellPolicyMode::Deny
            } else if word == "ask"@ {
                ShellPolicyMode::Ask
            } else {
                default_mode
            }
        },
    }
}

/// Reads the mode that a word names.
pub fn parse_shell_policy_mode(raw: Option<&str>, default_mode: ShellPolicyMode) -> (r:
    ShellPolicyMode)
    ensures
        r == mode_named(raw.deep_view(), default_mode),
{
    match raw {
        None => default_mode,
        Some(value) => {
            let trimmed: String = text::trimmed(value);
            let word: String = text::to_ascii_lower(trimmed.as_str());
            if text::same(word.as_str(), "allow") {
                ShellPolicyMode::Allow
            } else if text::same(word.as_str(), "deny") {
                ShellPolicyMode::Deny
            } else if text::same(word.as_str(), "ask") {
                ShellPolicyMode::Ask
            } else {
                default_mode
            }
        },
    }
}

/// The beginnings of commands that need approval whatever the settings say.
pub open spec fn builtin_patterns() -> Seq<Seq<char>> {
    seq![
        "rm -rf"@,
        "rm -fr"@,
        "del /f"@,
        "del /q"@,
        "rmdir /s"@,
        "git clean -fd"@,
        "git reset --hard"@,
    ]
}

/// Whether the pattern is one that needs approval.
pub open spec fn is_approval_pattern(policy: Option<ShellPolicyConfig>, pattern: Seq<char>) -> bool {
    builtin_patterns().contains(pattern) || (policy matches Some(p)
        && p.interactive_requires_approval_for matches Some(extra) && exists|i: int|
        0 <= i < extra.deep_view().len() && text::ascii_lower(
            text::trim(#[trigger] extra.deep_view()[i]),
        ) == pattern && pattern.len() > 0)
}

/// The word that the shell policy has for a setting.
pub open spec fn policy_word(
    policy: Option<ShellPolicyConfig>,
    word: spec_fn(ShellPolicyConfig) -> Option<String>,
) -> Option<Seq<char>> {
    match policy {
        Some(p) => word(p).deep_view(),
        None => None,
    }
}

/// Whether the shell policy is what the settings come to. The patterns are in order, each
/// once.
pub open spec fn is_policy_of(table: Option<ShellPolicyConfig>, policy: ResolvedShellPolicy) -> bool {
    &&& policy.interactive_mode == mode_named(
        policy_word(table, |p: ShellPolicyConfig| p.mode),
        ShellPolicyMode::Ask,
    )
    &&& policy.unattended_mode == mode_named(
        policy_word(table, |p: ShellPolicyConfig| p.unattended_default),
        ShellPolicyMode::Deny,
    )
    &&& policy.interactive_edit_mode == mode_named(
        policy_word(table, |p: ShellPolicyConfig| p.edit_mode),
        ShellPolicyMode::Ask,
    )
    &&& policy.unattended_edit_mode == mode_named(
        policy_word(table, |p: ShellPolicyConfig| p.edit_unattended_default),
        ShellPolicyMode::Deny,
    )
    &&& order::strictly_sorted(policy.approval_patterns.deep_view())
    &&& forall|pattern: Seq<char>| #[trigger]
        policy.approval_patterns.deep_view().contains(pattern) <==> is_approval_pattern(
            table,
            pattern,
        )
}

fn word_of(s: &Option<String>) -> (r: Option<&str>)
    ensures
        r.deep_view() == s.deep_view(),
{
    match s {
        Some(t) => Some(t.as_str()),
        None => None,
    }
}

fn add_pattern(patterns: &mut Vec<String>, pattern: &str)
    requires
        order::strictly_sorted(old(patterns).deep_view()),
    ensures
        order::strictly_sorted(final(patterns).deep_view()),
        final(patterns).deep_view().to_set() == old(patterns).deep_view().to_set().insert(pattern@),
{
    order::insert_sorted(patterns, pattern.to_owned());
}

fn builtin_list() -> (r: Vec<String>)
    ensures
        order::strictly_sorted(r.deep_view()),
        r.deep_view().to_set() == builtin_patterns().to_set(),
{
    let mut patterns: Vec<String> = Vec::new();
    assert(patterns.deep_view().to_set() =~= Set::<Seq<char>>::empty());
    add_pattern(&mut patterns, "rm -rf");
    add_pattern(&mut patterns, "rm -fr");
    add_pattern(&mut patterns, "del /f");
    add_pattern(&mut patterns, "del /q");
    add_pattern(&mut patterns, "rmdir /s");
    add_pattern(&mut patterns, "git clean -fd");
    add_pattern(&mut patterns, "git reset --hard");
    proof {
        let b = builtin_patterns();
        assert(b[0] == "rm -rf"@ && b[1] == "rm -fr"@ && b[2] == "del /f"@ && b[3] == "del /q"@
            && b[4] == "rmdir /s"@ && b[5] == "git clean -fd"@ && b[6] == "git reset --hard"@);
        assert(patterns.deep_view().to_set() =~= b.to_set());
    }
    patterns
}

impl AppConfig {
    /// The shell policy with its defaults filled in. The patterns are in order, each once.
    pub fn resolved_shell_policy(&self) -> (r: ResolvedShellPolicy)
        ensures
            is_policy_of(self.shell_policy_table(), r),
    {
        let mut patterns: Vec<String> = builtin_list();
        proof {
            assert forall|pattern: Seq<char>| #[trigger]
                patterns.deep_view().contains(pattern) <==> builtin_patterns().contains(pattern) by {
                assert(patterns.deep_view().to_set().contains(pattern)
                    <==> builtin_patterns().to_set().contains(pattern));
            }
        }
        let policy: Option<&ShellPolicyConfig> = match &self.harness {
            Some(h) => match &h.shell_policy {
                Some(p) => Some(p),
                None => None,
            },
            None => None,
        };
        match policy {
            None => ResolvedShellPolicy {
                interactive_mode: ShellPolicyMode::Ask,
                unattended_mode: ShellPolicyMode::Deny,
                interactive_edit_mode: ShellPolicyMode::Ask,
                unattended_edit_mode: ShellPolicyMode::Deny,
                approval_patterns: patterns,
            },
            Some(p) => {
                if let Some(extra) = &p.interactive_requires_approval_for {
                    add_extra_patterns(&mut patterns, extra);
                }
                ResolvedShellPolicy {
                    interactive_mode: parse_shell_policy_mode(
                        word_of(&p.mode),
                        ShellPolicyMode::Ask,
                    ),
                    unattended_mode: parse_shell_policy_mode(
                        word_of(&p.unattended_default),
                        ShellPolicyMode::Deny,
                    ),
                    interactive_edit_mode: parse_shell_policy_mode(
                        word_of(&p.edit_mode),
                        ShellPolicyMode::Ask,
                    ),
                    unattended_edit_mode: parse_shell_policy_mode(
                        word_of(&p.edit_unattended_default),
                        ShellPolicyMode::Deny,
                    ),
                    approval_patterns: patterns,
                }
            },
        }
    }
}

fn add_extra_patterns(patterns: &mut Vec<String>, extra: &Vec<String>)
    requires
        order::strictly_sorted(old(patterns).deep_view()),
    ensures
        order::strictly_sorted(final(patterns).deep_view()),
        forall|pattern: Seq<char>| #[trigger]
            final(patterns).deep_view().contains(pattern) <==> (old(patterns).deep_view().contains(
                pattern,
            ) || exists|i: int|
                0 <= i < extra.deep_view().len() && text::ascii_lower(
                    text::trim(#[trigger] extra.deep_view()[i]),
                ) == pattern && pattern.len() > 0),
{
    let ghost all = extra.deep_view();
    let ghost given = patterns.deep_view();
    let mut i: usize = 0;
    while i < extra.len()
        invariant
            i <= extra@.len(),
            all == extra.deep_view(),
            given == old(patterns).deep_view(),
            order::strictly_sorted(patterns.deep_view()),
            forall|pattern: Seq<char>| #[trigger]
                patterns.deep_view().contains(pattern) <==> (given.contains(pattern) || exists|
                    k: int,
                |
                    0 <= k < i && text::ascii_lower(text::trim(#[trigger] all[k])) == pattern
                        && pattern.len() > 0),
        decreases extra@.len() - i,
    {
        let ghost before = patterns.deep_view();
        let trimmed: String = text::trimmed(extra[i].as_str());
        let pattern: String = text::to_ascii_lower(trimmed.as_str());
        let ghost added = pattern@;
        assert(all[i as int] == extra@[i as int]@);
        assert(added == text::ascii_lower(text::trim(all[i as int])));
        if !pattern.as_str().is_empty() {
            order::insert_sorted(patterns, pattern);
        }
        proof {
            let now = patterns.deep_view();
            assert forall|p: Seq<char>| #[trigger] now.contains(p) <==> (given.contains(p)
                || exists|k: int|
                0 <= k < i + 1 && text::ascii_lower(text::trim(#[trigger] all[k])) == p && p.len()
                    > 0) by {
                assert(now.to_set().contains(p) == now.contains(p));
                assert(before.to_set().contains(p) == before.contains(p));
                if exists|k: int|
                    0 <= k < i + 1 && text::ascii_lower(text::trim(#[trigger] all[k])) == p
                        && p.len() > 0 {
                    let k = choose|k: int|
                        0 <= k < i + 1 && text::ascii_lower(text::trim(#[trigger] all[k])) == p
                            && p.len() > 0;
                    if k < i {
                        assert(text::ascii_lower(text::trim(all[k])) == p);
                        assert(before.contains(p));
                    }
                }
                if before.contains(p) && !given.contains(p) {
                    let k = choose|k: int|
                        0 <= k < i && text::ascii_lower(text::trim(#[trigger] all[k])) == p
                            && p.len() > 0;
                    assert(text::ascii_lower(text::trim(all[k])) == p);
                }
                if added == p && p.len() > 0 {
                    assert(text::ascii_lower(text::trim(all[i as int])) == p);
                }
            }
        }
        i = i + 1;
    }
}

/// The commands that destroy files need approval whatever the settings say.
pub proof fn law_builtin_patterns_stay(policy: Option<ShellPolicyConfig>, pattern: Seq<char>)
    requires
        builtin_patterns().contains(pattern),
    ensures
        is_approval_pattern(policy, pattern),
{
}

// ---------------------------------------------------------------------------
// The summary
// ---------------------------------------------------------------------------

/// What the summary says of the machine.
#[derive(Debug)]
pub struct HostSummary {
    pub os_family: String,
    pub windows: bool,
    pub path_separator: char,
}

/// The name of a mode.
pub open spec fn mode_name(mode: ShellPolicyMode) -> Seq<char> {
    match mode {
        ShellPolicyMode::Ask => "Ask"@,
        ShellPolicyMode::Deny => "Deny"@,
        ShellPolicyMode::Allow => "Allow"@,
    }
}

fn mode_text(mode: ShellPolicyMode) -> (r: &'static str)
    ensures
        r@ == mode_name(mode),
{
    match mode {
        ShellPolicyMode::Ask => "Ask",
        ShellPolicyMode::Deny => "Deny",
        ShellPolicyMode::Allow => "Allow",
    }
}

/// The line about the machine.
pub open spec fn host_line(host: HostSummary) -> Seq<char> {
    "host_os="@ + host.os_family@ + " shell_family="@ + (if host.windows {
        "powershell_or_cmd"@
    } else {
        "sh_or_bash"@
    }) + " path_separator="@ + seq![host.path_separator]
}

fn host_line_text(host: &HostSummary) -> (r: String)
    ensures
        r@ == host_line(*host),
{
    let mut out: String = "host_os=".to_owned();
    out.append(host.os_family.as_str());
    out.append(" shell_family=");
    out.append(
        if host.windows {
            "powershell_or_cmd"
        } else {
            "sh_or_bash"
        },
    );
    out.append(" path_separator=");
    let ghost start = out@;
    out.push(host.path_separator);
    assert(out@ =~= start + seq![host.path_separator]);
    out
}

/// A line with a name and a switch.
pub open spec fn switch_line(name: Seq<char>, on: bool) -> Seq<char> {
    name + "="@ + prompt::bool_text(on)
}

fn switch_line_text(name: &str, on: bool) -> (r: String)
    ensures
        r@ == switch_line(name@, on),
{
    let mut out: String = name.to_owned();
    out.append("=");
    out.append(prompt::text_of_bool(on));
    out
}

/// A line with a name and a number.
pub open spec fn number_line(name: Seq<char>, n: int) -> Seq<char> {
    name + "="@ + text::decimal(n as nat)
}

fn number_line_text(name: &str, n: u64) -> (r: String)
    ensures
        r@ == number_line(name@, n as int),
{
    let number: String = text::decimal_text(n);
    let mut out: String = name.to_owned();
    out.append("=");
    out.append(number.as_str());
    out
}

/// The settings of the execution of code as they take effect.
pub struct ExecutionFacts {
    pub enabled: bool,
    pub default_provider: Seq<char>,
    pub max_wall_secs: int,
    pub default_timeout_secs: int,
    pub auto_promote_secs: int,
    pub max_output_bytes: int,
    pub file_bytes: int,
    pub total_bytes: int,
    pub files: int,
    pub wake: bool,
}

/// The settings of the execution of code as they take effect.
pub open spec fn execution_facts(config: AppConfig) -> ExecutionFacts {
    let t = match config.execution_table() {
        Some(t) => t,
        None => no_execution_settings(),
    };
    ExecutionFacts {
        enabled: config_resolve::setting(t.enabled, true),
        default_provider: config_resolve::setting(
            config_resolve::clean_text(t.default_provider),
            "local"@,
        ),
        max_wall_secs: config.max_wall(),
        default_timeout_secs: config_resolve::clamped(
            config_resolve::setting(t.default_execution_timeout_secs, 600) as int,
            1,
            config.max_wall(),
        ),
        auto_promote_secs: config.auto_promote_after(),
        max_output_bytes: config_resolve::clamped(
            config_resolve::setting(t.max_output_bytes, 262144) as int,
            4096,
            16777216,
        ),
        file_bytes: config_resolve::clamped(
            config_resolve::setting(t.artifact_max_file_bytes, 4194304) as int,
            65536,
            67108864,
        ),
        total_bytes: config_resolve::clamped(
            config_resolve::setting(t.artifact_max_total_bytes_per_run, 33554432) as int,
            262144,
            134217728,
        ),
        files: config_resolve::clamped(
            config_resolve::setting(t.artifact_max_files_per_run, 64) as int,
            1,
            256,
        ),
        wake: config_resolve::setting(t.wake_on_job_terminal, true),
    }
}

/// A table for the execution of code in which no setting is made.
pub open spec fn no_execution_settings() -> ExecutionHarnessConfig {
    ExecutionHarnessConfig {
        enabled: None,
        default_provider: None,
        max_output_bytes: None,
        max_wall_secs: None,
        default_execution_timeout_secs: None,
        auto_promote_after_secs: None,
        max_sessions: None,
        allowed_providers: None,
        python_executable: None,
        local_python_mode: None,
        local_python_runtime: None,
        uv_binary: None,
        uv_python: None,
        uv_requirements: None,
        artifact_max_file_bytes: None,
        artifact_max_total_bytes_per_run: None,
        artifact_max_files_per_run: None,
        jupyter: None,
        ssh: None,
        wake_on_job_terminal: None,
    }
}

/// The lines about the execution of code.
pub open spec fn execution_lines(f: ExecutionFacts) -> Seq<Seq<char>> {
    if f.enabled {
        seq![
            switch_line("execution_harness_enabled"@, true),
            "execution_default_provider="@ + f.default_provider,
            number_line("execution_max_wall_secs"@, f.max_wall_secs),
            number_line("execution_default_run_timeout_secs"@, f.default_timeout_secs),
            number_line("execution_auto_promote_after_secs"@, f.auto_promote_secs),
            number_line("execution_max_output_bytes"@, f.max_output_bytes),
            "execution_artifact_caps=file:"@ + text::decimal(f.file_bytes as nat)
                + " total_per_run:"@ + text::decimal(f.total_bytes as nat) + " max_files:"@
                + text::decimal(f.files as nat),
            switch_line("execution_wake_on_job_terminal"@, f.wake),
        ]
    } else {
        seq![switch_line("execution_harness_enabled"@, false)]
    }
}

/// The settings of the sub-agents as they take effect.
pub struct SubagentFacts {
    pub enabled: bool,
    pub max_tasks: int,
    pub max_wait_secs: int,
    pub wake: bool,
    /// How many tools the sub-agents may call, where there is a list.
    pub allowed: Option<nat>,
    pub named_agents: nat,
}

/// A table for sub-agents in which no setting is made.
pub open spec fn no_subagent_settings() -> SubagentHarnessConfig {
    SubagentHarnessConfig {
        enabled: None,
        cancel_children_on_parent_cancel: None,
        allowed_tools: None,
        max_tasks: None,
        max_wait_secs: None,
        wake_on_completion: None,
        task_history_retention: None,
    }
}

/// The settings of the sub-agents as they take effect.
pub open spec fn subagent_facts(config: AppConfig) -> SubagentFacts {
    let t = match config.subagents_table() {
        Some(t) => t,
        None => no_subagent_settings(),
    };
    SubagentFacts {
        enabled: config_resolve::setting(t.enabled, false),
        max_tasks: config_resolve::clamped(
            config_resolve::setting(t.max_tasks, 32) as int,
            1,
            256,
        ),
        max_wait_secs: config_resolve::clamped(
            config_resolve::setting(t.max_wait_secs, 300) as int,
            10,
            3600,
        ),
        wake: config_resolve::setting(t.wake_on_completion, true),
        allowed: match t.allowed_tools {
            Some(list) => if list@.len() == 0 {
                None
            } else {
                Some(list.deep_view().to_set().len())
            },
            None => None,
        },
        named_agents: config.agents_by_name().len(),
    }
}

/// The lines about sub-agents.
pub open spec fn subagent_lines(f: SubagentFacts) -> Seq<Seq<char>> {
    if f.enabled {
        seq![
            switch_line("subagent_harness_enabled"@, true),
            number_line("subagent_max_tasks"@, f.max_tasks),
            number_line("subagent_max_wait_secs"@, f.max_wait_secs),
            switch_line("subagent_wake_on_completion"@, f.wake),
            "subagent_allowlist_active="@ + prompt::bool_text(f.allowed is Some) + " (count="@
                + text::decimal(
                match f.allowed {
                    Some(n) => n,
                    None => 0,
                },
            ) + ")"@,
            number_line("named_agents"@, f.named_agents as int),
        ]
    } else {
        seq![switch_line("subagent_harness_enabled"@, false)]
    }
}

/// The line about the shell policy.
pub open spec fn policy_line(policy: ResolvedShellPolicy) -> Seq<char> {
    "shell_policy_mode_interactive="@ + mode_name(policy.interactive_mode)
        + " shell_policy_mode_unattended="@ + mode_name(policy.unattended_mode)
        + " shell_policy_approval_patterns="@ + text::decimal(policy.approval_patterns@.len())
}

/// The line about the hooks.
pub open spec fn hooks_line(config: AppConfig) -> Seq<char> {
    let observing = config.hooks_table() matches Some(h) && h.observation matches Some(o)
        && o.enabled == Some(true);
    let steering = config.hooks_table() matches Some(h) && h.steering matches Some(s) && s.enabled
        == Some(true);
    "hooks_observation_enabled="@ + prompt::bool_text(observing) + " hooks_steering_enabled="@
        + prompt::bool_text(steering)
}

/// The lines about the policy for machine-learning work.
pub open spec fn ml_lines(config: AppConfig) -> Seq<Seq<char>> {
    seq![
        switch_line(
            "ml_engineer_harness_enabled"@,
            config.ml_engineer_table() matches Some(t) && t.enabled == Some(true),
        ),
        switch_line(
            "ml_engineer_forbid_final_without_tools_default"@,
            config.ml_engineer_table() matches Some(t) && t.forbid_final_without_tools == Some(
                true,
            ),
        ),
    ]
}

fn execution_summary(config: &AppConfig) -> (r: Vec<String>)
    ensures
        r.deep_view() == execution_lines(execution_facts(*config)),
{
    let mut lines: Vec<String> = Vec::new();
    let enabled: bool = config.execution_harness_enabled();
    lines.push(switch_line_text("execution_harness_enabled", enabled));
    if enabled {
        let provider: String = config.execution_default_provider();
        let mut provider_line: String = "execution_default_provider=".to_owned();
        provider_line.append(provider.as_str());
        lines.push(provider_line);
        lines.push(number_line_text("execution_max_wall_secs", config.execution_max_wall_secs()));
        lines.push(
            number_line_text(
                "execution_default_run_timeout_secs",
                config.execution_default_run_timeout_secs(),
            ),
        );
        lines.push(
            number_line_text(
                "execution_auto_promote_after_secs",
                config.execution_auto_promote_after_secs(),
            ),
        );
        lines.push(
            number_line_text(
                "execution_max_output_bytes",
                config.execution_max_output_bytes() as u64,
            ),
        );
        let file: String = text::decimal_usize(config.execution_artifact_max_file_bytes());
        let total: String = text::decimal_usize(config.execution_artifact_max_total_bytes_per_run());
        let files: String = text::decimal_usize(config.execution_artifact_max_files_per_run());
        let mut caps: String = "execution_artifact_caps=file:".to_owned();
        caps.append(file.as_str());
        caps.append(" total_per_run:");
        caps.append(total.as_str());
        caps.append(" max_files:");
        caps.append(files.as_str());
        lines.push(caps);
        lines.push(
            switch_line_text(
                "execution_wake_on_job_terminal",
                config.execution_wake_on_job_terminal(),
            ),
        );
    }
    assert(lines.deep_view() =~= execution_lines(execution_facts(*config)));
    lines
}

fn subagent_summary(config: &AppConfig) -> (r: Vec<String>)
    requires
        config.lists_once(),
    ensures
        r.deep_view() == subagent_lines(subagent_facts(*config)),
{
    let mut lines: Vec<String> = Vec::new();
    let enabled: bool = config.subagent_harness_enabled();
    lines.push(switch_line_text("subagent_harness_enabled", enabled));
    if enabled {
        lines.push(number_line_text("subagent_max_tasks", config.subagent_max_tasks() as u64));
        lines.push(number_line_text("subagent_max_wait_secs", config.subagent_max_wait_secs()));
        lines.push(
            switch_line_text("subagent_wake_on_completion", config.subagent_wake_on_completion()),
        );
        let allowed: Option<Vec<String>> = config.subagent_allowed_tools_set();
        let active: bool = allowed.is_some();
        let count: usize = match &allowed {
            Some(tools) => {
                proof {
                    order::lemma_strictly_sorted_unique(tools.deep_view());
                    tools.deep_view().unique_seq_to_set();
                    assert(tools.deep_view().len() == tools@.len());
                }
                tools.len()
            },
            None => 0,
        };
        let number: String = text::decimal_usize(count);
        let mut line: String = "subagent_allowlist_active=".to_owned();
        line.append(prompt::text_of_bool(active));
        line.append(" (count=");
        line.append(number.as_str());
        line.append(")");
        lines.push(line);
        let agents = config.agent_definitions();
        proof {
            named::lemma_name_count(agents@);
        }
        lines.push(number_line_text("named_agents", agents.len() as u64));
    }
    assert(lines.deep_view() =~= subagent_lines(subagent_facts(*config)));
    lines
}

fn append_lines(lines: &mut Vec<String>, more: Vec<String>)
    ensures
        final(lines).deep_view() == old(lines).deep_view() + more.deep_view(),
{
    let ghost start = lines.deep_view();
    let ghost given = more@;
    let ghost all = more.deep_view();
    assert(start + all.take(0) =~= start);
    for line in it: more
        invariant
            it.seq() == given,
            all.len() == given.len(),
            forall|k: int| 0 <= k < all.len() ==> #[trigger] all[k] == given[k]@,
            lines.deep_view() == start + all.take(it.index()),
    {
        let ghost before = lines.deep_view();
        lines.push(line);
        assert(lines.deep_view() =~= before.push(line@));
        assert(start + all.take(it.index() + 1) =~= (start + all.take(it.index())).push(
            all[it.index()],
        ));
    }
    assert(all.take(all.len() as int) =~= all);
}

impl AppConfig {
    /// The lines with which an agent is told how it is configured.
    pub fn runtime_harness_summary_lines(&self, host: &HostSummary) -> (r: Vec<String>)
        requires
            self.lists_once(),
        ensures
            exists|policy: ResolvedShellPolicy|
                is_policy_of(self.shell_policy_table(), policy) && r.deep_view() == seq![
                    host_line(*host),
                ] + execution_lines(execution_facts(*self)) + subagent_lines(
                    subagent_facts(*self),
                ) + ml_lines(*self) + seq![#[trigger] policy_line(policy), hooks_line(*self)],
    {
        let policy: ResolvedShellPolicy = self.resolved_shell_policy();
        let mut lines: Vec<String> = Vec::new();
        lines.push(host_line_text(host));
        assert(lines.deep_view() =~= seq![host_line(*host)]);
        append_lines(&mut lines, execution_summary(self));
        append_lines(&mut lines, subagent_summary(self));
        let ghost before = lines.deep_view();
        lines.push(
            switch_line_text("ml_engineer_harness_enabled", self.ml_engineer_harness_enabled()),
        );
        lines.push(
            switch_line_text(
                "ml_engineer_forbid_final_without_tools_default",
                self.ml_engineer_forbid_final_without_tools(),
            ),
        );
        assert(lines.deep_view() =~= before + ml_lines(*self));
        let ghost before = lines.deep_view();
        let patterns: String = text::decimal_usize(policy.approval_patterns.len());
        let mut shell_line: String = "shell_policy_mode_interactive=".to_owned();
        shell_line.append(mode_text(policy.interactive_mode));
        shell_line.append(" shell_policy_mode_unattended=");
        shell_line.append(mode_text(policy.unattended_mode));
        shell_line.append(" shell_policy_approval_patterns=");
        shell_line.append(patterns.as_str());
        lines.push(shell_line);
        let observing: bool = match &self.harness {
            Some(h) => match &h.hooks {
                Some(hooks) => match &hooks.observation {
                    Some(o) => match o.enabled {
                        Some(v) => v,
                        None => false,
                    },
                    None => false,
                },
                None => false,
            },
            None => false,
        };
        let steering: bool = match &self.harness {
            Some(h) => match &h.hooks {
                Some(hooks) => match &hooks.steering {
                    Some(s) => match s.enabled {
                        Some(v) => v,
                        None => false,
                    },
                    None => false,
                },
                None => false,
            },
            None => false,
        };
        let mut hooks: String = "hooks_observation_enabled=".to_owned();
        hooks.append(prompt::text_of_bool(observing));
        hooks.append(" hooks_steering_enabled=");
        hooks.append(prompt::text_of_bool(steering));
        lines.push(hooks);
        assert(lines.deep_view() =~= before + seq![policy_line(policy), hooks_line(*self)]);
        lines
    }
}

// ---------------------------------------------------------------------------
// Laws
// ---------------------------------------------------------------------------

/// A mode is read by its name, in any case and with white space around it; what names none, and
/// what is not set, is the default.
pub proof fn law_modes_are_read_by_name(raw: Seq<char>, default_mode: ShellPolicyMode)
    ensures
        text::ascii_lower(text::trim(raw)) == "allow"@ ==> mode_named(Some(raw), default_mode)
            == ShellPolicyMode::Allow,
        text::ascii_lower(text::trim(raw)) == "deny"@ ==> mode_named(Some(raw), default_mode)
            == ShellPolicyMode::Deny,
        text::ascii_lower(text::trim(raw)) == "ask"@ ==> mode_named(Some(raw), default_mode)
            == ShellPolicyMode::Ask,
        text::ascii_lower(text::trim(raw)) != "allow"@ && text::ascii_lower(text::trim(raw))
            != "deny"@ && text::ascii_lower(text::trim(raw)) != "ask"@ ==> mode_named(
            Some(raw),
            default_mode,
        ) == default_mode,
        mode_named(None, default_mode) == default_mode,
{
    reveal_strlit("allow");
    reveal_strlit("deny");
    reveal_strlit("ask");
    assert("allow"@.len() == 5 && "deny"@.len() == 4 && "ask"@.len() == 3);
}

/// Where nothing is set, a user is asked and nobody is not: commands and edits wait for approval
/// in a session with a user and are denied in one without. Each mode that is set counts for its
/// own kind of session.
pub proof fn law_policy_is_careful_by_default(
    table: Option<ShellPolicyConfig>,
    policy: ResolvedShellPolicy,
)
    requires
        is_policy_of(table, policy),
    ensures
        table is None ==> policy.interactive_mode == ShellPolicyMode::Ask && policy.unattended_mode
            == ShellPolicyMode::Deny && policy.interactive_edit_mode == ShellPolicyMode::Ask
            && policy.unattended_edit_mode == ShellPolicyMode::Deny,
        table matches Some(p) ==> (p.mode is None ==> policy.interactive_mode
            == ShellPolicyMode::Ask),
        table matches Some(p) ==> (p.unattended_default is None ==> policy.unattended_mode
            == ShellPolicyMode::Deny),
        table matches Some(p) ==> (p.edit_mode is None ==> policy.interactive_edit_mode
            == ShellPolicyMode::Ask),
        table matches Some(p) ==> (p.edit_unattended_default is None ==> policy.unattended_edit_mode
            == ShellPolicyMode::Deny),
        table matches Some(p) ==> (p.mode matches Some(w) ==> (w@ == "allow"@
            ==> policy.interactive_mode == ShellPolicyMode::Allow) && (w@ == "deny"@
            ==> policy.interactive_mode == ShellPolicyMode::Deny)),
        table matches Some(p) ==> (p.unattended_default matches Some(w) ==> (w@ == "allow"@
            ==> policy.unattended_mode == ShellPolicyMode::Allow) && (w@ == "ask"@
            ==> policy.unattended_mode == ShellPolicyMode::Ask)),
        table matches Some(p) ==> (p.edit_mode matches Some(w) ==> (w@ == "allow"@
            ==> policy.interactive_edit_mode == ShellPolicyMode::Allow) && (w@ == "deny"@
            ==> policy.interactive_edit_mode == ShellPolicyMode::Deny)),
        table matches Some(p) ==> (p.edit_unattended_default matches Some(w) ==> (w@ == "allow"@
            ==> policy.unattended_edit_mode == ShellPolicyMode::Allow) && (w@ == "ask"@
            ==> policy.unattended_edit_mode == ShellPolicyMode::Ask)),
{
    lemma_plain_word("allow"@);
    lemma_plain_word("deny"@);
    lemma_plain_word("ask"@);
    reveal_strlit("allow");
    reveal_strlit("deny");
    reveal_strlit("ask");
    assert("allow"@.len() == 5 && "deny"@.len() == 4 && "ask"@.len() == 3);
}

proof fn lemma_plain_word(w: Seq<char>)
    requires
        w == "allow"@ || w == "deny"@ || w == "ask"@,
    ensures
        text::ascii_lower(text::trim(w)) == w,
{
    reveal_strlit("allow");
    reveal_strlit("deny");
    reveal_strlit("ask");
    assert(w[0] == 'a' || w[0] == 'd');
    assert(w.last() == 'w' || w.last() == 'y' || w.last() == 'k');
    assert(!text::is_white_space(w[0]));
    assert(!text::is_white_space(w.last()));
    assert(text::trim(w) == w);
    assert(text::ascii_lower(w) =~= w);
}

/// The commands that delete for good need approval whatever is set, and so does every pattern
/// that is set, in small letters; nothing else does, and no pattern is there twice.
pub proof fn law_patterns_are_those_that_are_set(
    table: Option<ShellPolicyConfig>,
    policy: ResolvedShellPolicy,
    pattern: Seq<char>,
    i: int,
)
    requires
        is_policy_of(table, policy),
    ensures
        seq![
            "rm -rf"@,
            "rm -fr"@,
            "del /f"@,
            "del /q"@,
            "rmdir /s"@,
            "git clean -fd"@,
            "git reset --hard"@,
        ].contains(pattern) ==> policy.approval_patterns.deep_view().contains(pattern),
        table matches Some(p) ==> (p.interactive_requires_approval_for matches Some(extra) ==> (0
            <= i < extra@.len() && text::trim(extra@[i]@).len() > 0
            ==> policy.approval_patterns.deep_view().contains(
            text::ascii_lower(text::trim(extra@[i]@)),
        ))),
        table is None && policy.approval_patterns.deep_view().contains(pattern) ==> seq![
            "rm -rf"@,
            "rm -fr"@,
            "del /f"@,
            "del /q"@,
            "rmdir /s"@,
            "git clean -fd"@,
            "git reset --hard"@,
        ].contains(pattern),
        policy.approval_patterns.deep_view().no_duplicates(),
{
    if let Some(p) = table {
        if let Some(extra) = p.interactive_requires_approval_for {
            if 0 <= i < extra@.len() && text::trim(extra@[i]@).len() > 0 {
                assert(extra.deep_view()[i] == extra@[i]@);
                assert(is_approval_pattern(table, text::ascii_lower(text::trim(extra@[i]@))));
            }
        }
    }
    let list = policy.approval_patterns.deep_view();
    assert forall|a: int, b: int| 0 <= a < b < list.len() implies list[a] != list[b] by {
        assert(order::before(list[a], list[b]));
        if list[a] == list[b] {
            order::law_first_difference_decides(
                list[a],
                'a',
                Seq::empty(),
                'a',
                Seq::empty(),
            );
        }
    }
}

/// What is turned on is told with its numbers, each under its own name; what is turned off is
/// told as that alone.
pub proof fn law_execution_is_told(f: ExecutionFacts)
    ensures
        !f.enabled ==> execution_lines(f) == seq!["execution_harness_enabled"@ + "="@ + "false"@],
        f.enabled ==> execution_lines(f).len() == 8,
        f.enabled ==> execution_lines(f)[0] == "execution_harness_enabled"@ + "="@ + "true"@,
        f.enabled ==> text::ends_with(execution_lines(f)[1], f.default_provider),
        f.enabled ==> execution_lines(f)[2] == "execution_max_wall_secs"@ + "="@ + text::decimal(
            f.max_wall_secs as nat,
        ),
        f.enabled ==> execution_lines(f)[3] == "execution_default_run_timeout_secs"@ + "="@
            + text::decimal(f.default_timeout_secs as nat),
        f.enabled ==> execution_lines(f)[4] == "execution_auto_promote_after_secs"@ + "="@
            + text::decimal(f.auto_promote_secs as nat),
        f.enabled ==> execution_lines(f)[5] == "execution_max_output_bytes"@ + "="@ + text::decimal(
            f.max_output_bytes as nat,
        ),
        f.enabled ==> text::ends_with(execution_lines(f)[6], text::decimal(f.files as nat)),
        f.enabled ==> execution_lines(f)[7] == "execution_wake_on_job_terminal"@ + "="@ + (
        if f.wake {
            "true"@
        } else {
            "false"@
        }),
{
    if f.enabled {
        let one = "execution_default_provider="@ + f.default_provider;
        assert(one.subrange(one.len() - f.default_provider.len(), one.len() as int)
            =~= f.default_provider);
        let caps = execution_lines(f)[6];
        let n = text::decimal(f.files as nat);
        assert(caps.subrange(caps.len() - n.len(), caps.len() as int) =~= n);
    }
}

/// What is known of the execution harness is what is set, within its bounds, and the defaults
/// where nothing is.
pub proof fn law_execution_facts_are_the_settings(config: AppConfig, n: u64)
    ensures
        config.execution_table() is None ==> execution_facts(config).enabled
            && execution_facts(config).default_provider == "local"@ && execution_facts(
            config,
        ).max_wall_secs == 3600 && execution_facts(config).default_timeout_secs == 600
            && execution_facts(config).max_output_bytes == 262144 && execution_facts(config).files
            == 64 && execution_facts(config).wake,
        config.execution_table() matches Some(t) ==> (t.enabled == Some(false) ==> !execution_facts(
            config,
        ).enabled),
        config.execution_table() matches Some(t) ==> (t.default_execution_timeout_secs == Some(n)
            && 1 <= n <= config.max_wall() ==> execution_facts(config).default_timeout_secs == n),
        config.execution_table() is Some ==> 1 <= execution_facts(config).default_timeout_secs
            <= execution_facts(config).max_wall_secs,
        config.execution_table() matches Some(t) ==> (t.default_provider matches Some(p) ==> (
        text::trim(p@).len() > 0 ==> execution_facts(config).default_provider == text::trim(p@))),
        4096 <= execution_facts(config).max_output_bytes <= 16777216,
        1 <= execution_facts(config).files <= 256,
        65536 <= execution_facts(config).file_bytes <= 67108864,
        262144 <= execution_facts(config).total_bytes <= 134217728,
{
}

/// What is known of the sub-agents is what is set, within its bounds, and the defaults where
/// nothing is: they are off unless they are turned on.
pub proof fn law_subagent_facts_are_the_settings(config: AppConfig, n: usize)
    ensures
        config.subagents_table() is None ==> !subagent_facts(config).enabled && subagent_facts(
            config,
        ).max_tasks == 32 && subagent_facts(config).max_wait_secs == 300 && subagent_facts(
            config,
        ).wake && subagent_facts(config).allowed is None,
        config.subagents_table() matches Some(t) ==> (subagent_facts(config).enabled <==> t.enabled
            == Some(true)),
        config.subagents_table() matches Some(t) ==> (t.max_tasks == Some(n) && 1 <= n <= 256
            ==> subagent_facts(config).max_tasks == n),
        1 <= subagent_facts(config).max_tasks <= 256,
        10 <= subagent_facts(config).max_wait_secs <= 3600,
        config.subagents_table() matches Some(t) ==> (t.allowed_tools matches Some(list) ==> (
        list@.len() == 0 ==> subagent_facts(config).allowed is None)),
        subagent_facts(config).named_agents == config.agents_by_name().len(),
{
}

/// The sub-agents are told of with their numbers where they are on, and as off where they are
/// not.
pub proof fn law_subagents_are_told(f: SubagentFacts)
    ensures
        !f.enabled ==> subagent_lines(f) == seq!["subagent_harness_enabled"@ + "="@ + "false"@],
        f.enabled ==> subagent_lines(f).len() == 6,
        f.enabled ==> subagent_lines(f)[0] == "subagent_harness_enabled"@ + "="@ + "true"@,
        f.enabled ==> subagent_lines(f)[1] == "subagent_max_tasks"@ + "="@ + text::decimal(
            f.max_tasks as nat,
        ),
        f.enabled ==> subagent_lines(f)[2] == "subagent_max_wait_secs"@ + "="@ + text::decimal(
            f.max_wait_secs as nat,
        ),
        f.enabled ==> subagent_lines(f)[3] == "subagent_wake_on_completion"@ + "="@ + (if f.wake {
            "true"@
        } else {
            "false"@
        }),
        f.enabled ==> (f.allowed matches Some(n) ==> subagent_lines(f)[4]
            == "subagent_allowlist_active="@ + "true"@ + " (count="@ + text::decimal(n) + ")"@),
        f.enabled && f.allowed is None ==> subagent_lines(f)[4] == "subagent_allowlist_active="@
            + "false"@ + " (count="@ + text::decimal(0) + ")"@,
        f.enabled ==> subagent_lines(f)[5] == "named_agents"@ + "="@ + text::decimal(
            f.named_agents,
        ),
{
}

/// The policy is told by its two modes and the number of its patterns, and the hooks by which of
/// the two kinds is on.
pub proof fn law_policy_is_told(policy: ResolvedShellPolicy, config: AppConfig)
    ensures
        text::starts_with(
            policy_line(policy),
            "shell_policy_mode_interactive="@ + (match policy.interactive_mode {
                ShellPolicyMode::Ask => "Ask"@,
                ShellPolicyMode::Deny => "Deny"@,
                ShellPolicyMode::Allow => "Allow"@,
            }) + " shell_policy_mode_unattended="@ + (match policy.unattended_mode {
                ShellPolicyMode::Ask => "Ask"@,
                ShellPolicyMode::Deny => "Deny"@,
                ShellPolicyMode::Allow => "Allow"@,
            }),
        ),
        text::ends_with(policy_line(policy), text::decimal(policy.approval_patterns@.len())),
        config.hooks_table() is None ==> hooks_line(config) == "hooks_observation_enabled="@
            + "false"@ + " hooks_steering_enabled="@ + "false"@,
        config.hooks_table() matches Some(h) ==> (h.steering matches Some(s) ==> (s.enabled == Some(
            true,
        ) ==> text::ends_with(hooks_line(config), " hooks_steering_enabled="@ + "true"@))),
        config.hooks_table() matches Some(h) ==> (h.observation matches Some(o) ==> (o.enabled
            == Some(true) ==> text::starts_with(
            hooks_line(config),
            "hooks_observation_enabled="@ + "true"@,
        ))),
{
    let n = text::decimal(policy.approval_patterns@.len());
    let all = policy_line(policy);
    let head = "shell_policy_mode_interactive="@ + mode_name(policy.interactive_mode)
        + " shell_policy_mode_unattended="@ + mode_name(policy.unattended_mode);
    assert(all == head + " shell_policy_approval_patterns="@ + n);
    assert(all.subrange(0, head.len() as int) =~= head);
    assert(all.subrange(all.len() - n.len(), all.len() as int) =~= n);
    let hooks = hooks_line(config);
    let on = " hooks_steering_enabled="@ + "true"@;
    let watching = "hooks_observation_enabled="@ + "true"@;
    if let Some(h) = config.hooks_table() {
        if let Some(s) = h.steering {
            if s.enabled == Some(true) {
                assert(hooks.subrange(hooks.len() - on.len(), hooks.len() as int) =~= on);
            }
        }
        if let Some(o) = h.observation {
            if o.enabled == Some(true) {
                assert(hooks.subrange(0, watching.len() as int) =~= watching);
            }
        }
    }
}

/// The harness for machine learning is on only where it is turned on, and so is the rule that it
/// does not end without tools.
pub proof fn law_ml_harness_is_told(config: AppConfig)
    ensures
        config.ml_engineer_table() is None ==> ml_lines(config) == seq![
            "ml_engineer_harness_enabled"@ + "="@ + "false"@,
            "ml_engineer_forbid_final_without_tools_default"@ + "="@ + "false"@,
        ],
        config.ml_engineer_table() matches Some(t) ==> (t.enabled == Some(true) ==> ml_lines(
            config,
        )[0] == "ml_engineer_harness_enabled"@ + "="@ + "true"@),
        config.ml_engineer_table() matches Some(t) ==> (t.forbid_final_without_tools == Some(true)
            ==> ml_lines(config)[1] == "ml_engineer_forbid_final_without_tools_default"@ + "="@
            + "true"@),
{
}

/// The host is told by its system, by the shells that such a system has, and by what stands
/// between the parts of its paths.
pub proof fn law_host_is_told(host: HostSummary)
    ensures
        text::starts_with(host_line(host), "host_os="@ + host.os_family@),
        host.windows ==> text::contains(host_line(host), "powershell_or_cmd"@),
        !host.windows ==> text::contains(host_line(host), "sh_or_bash"@),
        text::ends_with(host_line(host), "path_separator="@ + seq![host.path_separator]),
{
    let head = "host_os="@ + host.os_family@;
    let shell = if host.windows {
        "powershell_or_cmd"@
    } else {
        "sh_or_bash"@
    };
    reveal_strlit(" path_separator=");
    reveal_strlit("path_separator=");
    let sep = " path_separator="@ + seq![host.path_separator];
    let all = host_line(host);
    assert(all =~= head + " shell_family="@ + shell + sep);
    assert(all.subrange(0, head.len() as int) =~= head);
    text::lemma_contains_middle(head + " shell_family="@, shell, sep);
    let end = "path_separator="@ + seq![host.path_separator];
    assert(" path_separator="@.skip(1) =~= "path_separator="@);
    assert(sep.skip(1) =~= end);
    assert(all.subrange(all.len() - end.len(), all.len() as int) =~= end);
}

} // verus!
