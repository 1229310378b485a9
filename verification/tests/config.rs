use isanagent::config::{
    AgentDefinition, AgentMode, ApiConfig, AppConfig, BackgroundJobsConfig,
    ExecutionHarnessConfig, HarnessConfig, JinaConfig, JupyterExecutionConfig,
    KernelPortingHarnessConfig, MlEngineerHarnessConfig, ProviderConfig, ShellPolicyConfig,
    ShellPolicyMode, SlackConfig, SlackMode, SshExecutionConfig, SubagentHarnessConfig,
    TerminalConfig,
};
use isanagent::config_providers::api_key_looks_like_placeholder;
use isanagent::config_summary::{parse_shell_policy_mode, HostSummary};
use isanagent::provider_registry;

fn cfg(name: &str, base: Option<&str>) -> ProviderConfig {
    ProviderConfig {
        provider_name: name.to_string(),
        model_name: "m".to_string(),
        models: None,
        api_key_env: "X".to_string(),
        api_key: None,
        base_url: base.map(str::to_string),
    }
}

fn texts(items: &[&str]) -> Vec<String> {
    items.iter().map(|s| s.to_string()).collect()
}

fn with_execution(execution: ExecutionHarnessConfig) -> AppConfig {
    AppConfig {
        harness: Some(HarnessConfig {
            execution: Some(execution),
            ..Default::default()
        }),
        ..Default::default()
    }
}

fn with_providers(providers: Vec<(&str, ProviderConfig)>) -> AppConfig {
    AppConfig {
        providers: Some(
            providers
                .into_iter()
                .map(|(k, v)| (k.to_string(), v))
                .collect(),
        ),
        ..Default::default()
    }
}

fn family(models: &[&str], key: Option<&str>) -> ProviderConfig {
    ProviderConfig {
        models: Some(texts(models)),
        api_key: key.map(str::to_string),
        ..Default::default()
    }
}

fn get<'a, V>(list: &'a [(String, V)], name: &str) -> Option<&'a V> {
    list.iter().find(|e| e.0 == name).map(|e| &e.1)
}

fn agent(description: &str) -> AgentDefinition {
    AgentDefinition {
        description: description.to_string(),
        mode: AgentMode::Subagent,
        system_prompt: None,
        system_prompt_file: None,
        allowed_tools: None,
        model: None,
        temperature: None,
        max_iterations: None,
        hidden: false,
        color: None,
    }
}

#[test]
fn resolves_known_name_from_registry() {
    let url = cfg("gemini", None).resolved_base_url().unwrap();
    assert!(
        url.contains("generativelanguage.googleapis.com"),
        "got {url}"
    );
}

#[test]
fn explicit_base_url_overrides_known() {
    let url = cfg(
        "openai",
        Some("https://relay.example.com/v1/chat/completions"),
    )
    .resolved_base_url()
    .unwrap();
    assert_eq!(url, "https://relay.example.com/v1/chat/completions");
}

#[test]
fn openai_compatible_requires_base_url() {
    let err = cfg("openai_compatible", None)
        .resolved_base_url()
        .unwrap_err();
    assert!(err.contains("openai_compatible"), "got {err}");
    assert!(err.contains("base_url"), "got {err}");

    let url = cfg(
        "openai_compatible",
        Some("https://my.host/v1/chat/completions"),
    )
    .resolved_base_url()
    .unwrap();
    assert_eq!(url, "https://my.host/v1/chat/completions");
}

#[test]
fn unknown_provider_name_errors() {
    let err = cfg("totally-bogus", None).resolved_base_url().unwrap_err();
    assert!(err.contains("unknown provider_name"), "got {err}");
    assert!(err.contains("openai_compatible"), "got {err}");
}

#[test]
fn empty_base_url_string_is_treated_as_unset() {
    let url = cfg("gemini", Some("   ")).resolved_base_url().unwrap();
    assert!(url.contains("generativelanguage.googleapis.com"));
}

#[test]
fn harness_execution_toml_roundtrip() {
    let c = with_execution(ExecutionHarnessConfig {
        enabled: Some(true),
        default_provider: Some("local".to_string()),
        max_wall_secs: Some(90),
        max_output_bytes: Some(8192),
        allowed_providers: Some(texts(&["local"])),
        python_executable: Some("python3".to_string()),
        ..Default::default()
    });
    assert!(c.execution_harness_enabled());
    assert_eq!(c.execution_max_wall_secs(), 90);
    assert_eq!(c.execution_default_run_timeout_secs(), 90);
    assert_eq!(c.execution_max_output_bytes(), 8192);
    assert!(c.execution_provider_allowed("local"));
    assert!(!c.execution_provider_allowed("jupyter"));
    assert_eq!(c.execution_python_executable(), "python3");
}

#[test]
fn harness_execution_on_by_default_without_harness_section() {
    let c = AppConfig {
        restrict_to_workspace: Some(true),
        ..Default::default()
    };
    assert!(c.execution_harness_enabled());
    assert_eq!(c.execution_default_provider(), "local");
}

#[test]
fn harness_execution_explicit_disabled() {
    let mut c = with_execution(ExecutionHarnessConfig {
        enabled: Some(false),
        ..Default::default()
    });
    c.restrict_to_workspace = Some(true);
    assert!(!c.execution_harness_enabled());
}

#[test]
fn harness_execution_defaults_when_only_enabled() {
    let c = with_execution(ExecutionHarnessConfig {
        enabled: Some(true),
        ..Default::default()
    });
    assert_eq!(c.execution_max_wall_secs(), 3600);
    assert_eq!(c.execution_default_run_timeout_secs(), 600);
    assert_eq!(c.execution_local_python_runtime(), "uv_managed");
    assert_eq!(c.execution_default_provider(), "local");
}

#[test]
fn harness_execution_default_run_timeout_respects_max_wall() {
    let c = with_execution(ExecutionHarnessConfig {
        enabled: Some(true),
        max_wall_secs: Some(120),
        default_execution_timeout_secs: Some(9999),
        ..Default::default()
    });
    assert_eq!(c.execution_default_run_timeout_secs(), 120);
    let c2 = with_execution(ExecutionHarnessConfig {
        enabled: Some(true),
        max_wall_secs: Some(600),
        default_execution_timeout_secs: Some(45),
        ..Default::default()
    });
    assert_eq!(c2.execution_default_run_timeout_secs(), 45);
}

#[test]
fn harness_execution_artifact_limits_toml() {
    let c = with_execution(ExecutionHarnessConfig {
        enabled: Some(true),
        artifact_max_file_bytes: Some(100000),
        artifact_max_total_bytes_per_run: Some(500000),
        artifact_max_files_per_run: Some(10),
        ..Default::default()
    });
    assert_eq!(c.execution_artifact_max_file_bytes(), 100_000);
    assert_eq!(c.execution_artifact_max_total_bytes_per_run(), 500_000);
    assert_eq!(c.execution_artifact_max_files_per_run(), 10);
}

#[test]
fn doom_loop_enabled_toml() {
    let c = AppConfig {
        doom_loop_enabled: Some(false),
        ..Default::default()
    };
    assert!(!c.doom_loop_enabled());
    assert!(AppConfig::default().doom_loop_enabled());
}

#[test]
fn resolved_max_iterations_falls_back_to_terminal_table() {
    let c = AppConfig {
        terminal: Some(TerminalConfig {
            enabled: Some(true),
            max_iterations: Some(999),
            ..Default::default()
        }),
        ..Default::default()
    };
    assert_eq!(c.resolved_max_iterations(), Some(999));
}

#[test]
fn resolved_max_iterations_root_wins_over_terminal() {
    let c = AppConfig {
        max_iterations: Some(12),
        terminal: Some(TerminalConfig {
            max_iterations: Some(999),
            ..Default::default()
        }),
        ..Default::default()
    };
    assert_eq!(c.resolved_max_iterations(), Some(12));
}

#[test]
fn harness_execution_jupyter_toml() {
    let c = with_execution(ExecutionHarnessConfig {
        enabled: Some(true),
        default_provider: Some("jupyter".to_string()),
        allowed_providers: Some(texts(&["jupyter", "local"])),
        jupyter: Some(JupyterExecutionConfig {
            base_url: Some("http://127.0.0.1:8888".to_string()),
            token: Some("testtoken".to_string()),
            kernel_name: Some("python3".to_string()),
            notebook_sync_path_template: Some("scratch/{session_id}.ipynb".to_string()),
        }),
        ..Default::default()
    });
    assert_eq!(c.execution_default_provider(), "jupyter");
    assert!(c.execution_provider_allowed("jupyter"));
    assert_eq!(
        c.execution_jupyter_base_url().as_deref(),
        Some("http://127.0.0.1:8888")
    );
    assert_eq!(c.execution_jupyter_token(&None).as_deref(), Some("testtoken"));
    assert_eq!(c.execution_jupyter_kernel_name(), "python3");
    assert_eq!(
        c.execution_jupyter_notebook_sync_path_template().as_deref(),
        Some("scratch/{session_id}.ipynb")
    );
}

fn ssh_config() -> AppConfig {
    with_execution(ExecutionHarnessConfig {
        enabled: Some(true),
        default_provider: Some("ssh".to_string()),
        allowed_providers: Some(texts(&["ssh", "local"])),
        ssh: Some(SshExecutionConfig {
            host: Some("10.0.0.5".to_string()),
            port: Some(2222),
            user: Some("dev".to_string()),
            identity_file: Some("~/.ssh/id_ed25519".to_string()),
            remote_workdir: Some("/tmp/isanagent-exec".to_string()),
            remote_python: Some("python3".to_string()),
            accept_unknown_host_keys: Some(false),
        }),
        ..Default::default()
    })
}

#[test]
fn harness_execution_ssh_toml() {
    let c = ssh_config();
    assert_eq!(c.execution_default_provider(), "ssh");
    assert!(c.execution_provider_allowed("ssh"));
    assert_eq!(c.execution_ssh_host().as_deref(), Some("10.0.0.5"));
    assert_eq!(c.execution_ssh_port(), 2222);
    assert_eq!(c.execution_ssh_user().as_deref(), Some("dev"));
    assert!(c
        .execution_ssh_identity_file()
        .expect("identity")
        .replace('\\', "/")
        .ends_with("/.ssh/id_ed25519"));
    assert_eq!(
        c.execution_ssh_remote_workdir().as_deref(),
        Some("/tmp/isanagent-exec")
    );
    assert_eq!(c.execution_ssh_remote_python(), "python3");
    assert!(!c.execution_ssh_accept_unknown_host_keys());
}

#[test]
fn ssh_accept_unknown_host_keys_defaults_false() {
    // Host-key verification must be ON by default. Omitting the key => secure default.
    let c = with_execution(ExecutionHarnessConfig {
        ssh: Some(SshExecutionConfig {
            host: Some("10.0.0.9".to_string()),
            user: Some("dev".to_string()),
            remote_workdir: Some("/tmp/x".to_string()),
            ..Default::default()
        }),
        ..Default::default()
    });
    assert!(
        !c.execution_ssh_accept_unknown_host_keys(),
        "default must verify host keys (accept_unknown_host_keys=false)"
    );
}

#[test]
fn harness_execution_uv_local_runtime_toml() {
    let c = with_execution(ExecutionHarnessConfig {
        enabled: Some(true),
        local_python_runtime: Some("uv_managed".to_string()),
        uv_binary: Some("uvx".to_string()),
        uv_python: Some("3.12".to_string()),
        uv_requirements: Some(texts(&["numpy", "pandas>=2.2"])),
        ..Default::default()
    });
    assert_eq!(c.execution_local_python_runtime(), "uv_managed");
    assert_eq!(c.execution_uv_binary(), "uvx");
    assert_eq!(c.execution_uv_python(), "3.12");
    assert_eq!(
        c.execution_uv_requirements(),
        vec!["numpy".to_string(), "pandas>=2.2".to_string()]
    );
}

#[test]
fn agent_definitions_toml() {
    let mut researcher = agent("Research topics and gather context");
    researcher.allowed_tools = Some(texts(&["web_search", "web_fetch", "read_file"]));
    researcher.temperature = Some("0.10".to_string());
    let mut coder = agent("Implement code changes");
    coder.allowed_tools = Some(texts(&["*"]));
    coder.model = Some("gemini-2.5-pro".to_string());
    coder.color = Some("4CAF50".to_string());
    let c = AppConfig {
        agents: vec![
            ("researcher".to_string(), researcher),
            ("coder".to_string(), coder),
        ],
        ..Default::default()
    };
    let agents = c.agent_definitions();
    assert_eq!(agents.len(), 2);
    let r = get(&agents, "researcher").expect("researcher");
    assert_eq!(r.description, "Research topics and gather context");
    assert_eq!(r.mode, AgentMode::Subagent);
    assert_eq!(
        r.allowed_tools.as_deref(),
        Some(
            &[
                "web_search".to_string(),
                "web_fetch".to_string(),
                "read_file".to_string()
            ][..]
        )
    );
    assert!(!r.hidden);
    let c2 = get(&agents, "coder").expect("coder");
    assert_eq!(c2.model.as_deref(), Some("gemini-2.5-pro"));
    assert_eq!(c2.color.as_deref(), Some("4CAF50"));
}

#[test]
fn agent_definitions_harness_merge() {
    let mut in_harness = agent("Harness-level agent");
    in_harness.allowed_tools = Some(texts(&["read_file"]));
    let c = AppConfig {
        agents: vec![("shared".to_string(), agent("Top-level agent"))],
        harness: Some(HarnessConfig {
            agents: vec![
                ("shared".to_string(), in_harness),
                ("harness_only".to_string(), agent("Only in harness")),
            ],
            ..Default::default()
        }),
        ..Default::default()
    };
    let agents = c.agent_definitions();
    // Harness-level wins over top-level for same name
    let shared = get(&agents, "shared").expect("shared");
    assert_eq!(shared.description, "Harness-level agent");
    assert_eq!(
        shared.allowed_tools.as_deref(),
        Some(&["read_file".to_string()][..])
    );
    // Harness-only entry surfaces
    assert!(get(&agents, "harness_only").is_some());
}

#[test]
fn shell_policy_defaults_and_overrides() {
    let c = AppConfig::default();
    let p = c.resolved_shell_policy();
    assert_eq!(p.interactive_mode, ShellPolicyMode::Ask);
    assert_eq!(p.unattended_mode, ShellPolicyMode::Deny);
    assert!(!p.approval_patterns.is_empty());

    let c2 = AppConfig {
        harness: Some(HarnessConfig {
            shell_policy: Some(ShellPolicyConfig {
                mode: Some("deny".to_string()),
                unattended_default: Some("allow".to_string()),
                interactive_requires_approval_for: Some(texts(&["terraform destroy"])),
                ..Default::default()
            }),
            ..Default::default()
        }),
        ..Default::default()
    };
    let p2 = c2.resolved_shell_policy();
    assert_eq!(p2.interactive_mode, ShellPolicyMode::Deny);
    assert_eq!(p2.unattended_mode, ShellPolicyMode::Allow);
    assert!(p2
        .approval_patterns
        .iter()
        .any(|s| s.contains("terraform destroy")));
    // The patterns that are always there stay.
    assert!(p
        .approval_patterns
        .iter()
        .all(|s| p2.approval_patterns.contains(s)));
}

#[test]
fn family_format_expands_to_per_model_entries() {
    let cfg = with_providers(vec![(
        "deepseek",
        family(&["deepseek-v4-pro", "deepseek-v4-flash"], Some("sk-test")),
    )]);
    let expanded = cfg.expanded_providers();
    assert_eq!(expanded.len(), 2);

    let pro = get(&expanded, "deepseek-v4-pro").expect("pro entry");
    assert_eq!(pro.provider_name, "deepseek");
    assert_eq!(pro.model_name, "deepseek-v4-pro");
    assert_eq!(pro.api_key.as_deref(), Some("sk-test"));
    assert!(pro.models.is_none());

    let flash = get(&expanded, "deepseek-v4-flash").expect("flash entry");
    assert_eq!(flash.provider_name, "deepseek");
    assert_eq!(flash.model_name, "deepseek-v4-flash");
    assert_eq!(flash.api_key.as_deref(), Some("sk-test"));
}

#[test]
fn legacy_single_model_format_passes_through() {
    let cfg = with_providers(vec![(
        "my-custom",
        ProviderConfig {
            provider_name: "openai_compatible".to_string(),
            model_name: "custom-model".to_string(),
            base_url: Some("https://example.com/v1/chat/completions".to_string()),
            ..Default::default()
        },
    )]);
    let expanded = cfg.expanded_providers();
    assert_eq!(expanded.len(), 1);

    let entry = get(&expanded, "my-custom").expect("legacy entry");
    assert_eq!(entry.provider_name, "openai_compatible");
    assert_eq!(entry.model_name, "custom-model");
    assert_eq!(
        entry.base_url.as_deref(),
        Some("https://example.com/v1/chat/completions")
    );
}

#[test]
fn infers_provider_name_from_map_key() {
    let cfg = with_providers(vec![("gemini", family(&["gemini-2.5-flash"], None))]);
    let expanded = cfg.expanded_providers();
    let entry = get(&expanded, "gemini-2.5-flash").expect("entry");
    assert_eq!(entry.provider_name, "gemini");
}

#[test]
fn mixed_family_and_legacy_coexist() {
    let cfg = with_providers(vec![
        ("anthropic", family(&["model-large-4-7", "model-small-4-6"], None)),
        (
            "my-proxy",
            ProviderConfig {
                provider_name: "openai_compatible".to_string(),
                model_name: "proxy-model".to_string(),
                base_url: Some("https://proxy.example/v1/chat/completions".to_string()),
                ..Default::default()
            },
        ),
    ]);
    let expanded = cfg.expanded_providers();
    assert_eq!(expanded.len(), 3);
    assert!(get(&expanded, "model-large-4-7").is_some());
    assert!(get(&expanded, "model-small-4-6").is_some());
    assert!(get(&expanded, "my-proxy").is_some());
}

#[test]
fn empty_providers_returns_empty_map() {
    let cfg = AppConfig::default();
    assert!(cfg.expanded_providers().is_empty());
}

#[test]
fn duplicate_model_name_across_families_is_detected() {
    let cfg = with_providers(vec![
        ("openai", family(&["gpt-5.5"], Some("sk-openai"))),
        ("openrouter", family(&["gpt-5.5", "model-large-4-7"], Some("sk-or"))),
    ]);
    let expanded = cfg.expanded_providers();
    // Both families list "gpt-5.5"; only two unique keys survive.
    assert_eq!(expanded.len(), 2);
    assert!(get(&expanded, "gpt-5.5").is_some());
    assert!(get(&expanded, "model-large-4-7").is_some());
    // Both values are valid API keys from one of the providers.
    let gpt_key = get(&expanded, "gpt-5.5").unwrap().api_key.as_deref().unwrap();
    assert!(gpt_key == "sk-openai" || gpt_key == "sk-or");
}

#[test]
fn family_and_legacy_with_same_model_name_is_detected() {
    let cfg = with_providers(vec![
        ("openai", family(&["gpt-5.5"], Some("sk-family"))),
        (
            "legacy-gpt",
            ProviderConfig {
                provider_name: "openai".to_string(),
                model_name: "gpt-5.5".to_string(),
                api_key: Some("sk-legacy".to_string()),
                ..Default::default()
            },
        ),
    ]);
    let expanded = cfg.expanded_providers();
    // "gpt-5.5" (overwritten) + "legacy-gpt" (pass-through)
    assert_eq!(expanded.len(), 2);
    assert!(get(&expanded, "gpt-5.5").is_some());
    assert!(get(&expanded, "legacy-gpt").is_some());
    // The "legacy-gpt" key always uses sk-legacy
    assert_eq!(
        get(&expanded, "legacy-gpt").unwrap().api_key.as_deref(),
        Some("sk-legacy")
    );
    // "gpt-5.5" gets one of the two keys
    let gpt_key = get(&expanded, "gpt-5.5").unwrap().api_key.as_deref().unwrap();
    assert!(gpt_key == "sk-family" || gpt_key == "sk-legacy");
}

#[test]
fn empty_models_and_model_name_warns_and_skips() {
    // neither models nor model_name set
    let cfg = with_providers(vec![("broken", ProviderConfig::default())]);
    let expanded = cfg.expanded_providers();
    assert!(expanded.is_empty());
}

#[test]
fn empty_models_list_skips_entry() {
    let cfg = with_providers(vec![("gemini", family(&[], None))]);
    let expanded = cfg.expanded_providers();
    // models is Some but empty vec: no expansions produced
    assert!(expanded.is_empty());
}

fn provider_with_key(key: &str) -> ProviderConfig {
    ProviderConfig {
        provider_name: "nonexistent-provider".to_string(),
        model_name: "some-model".to_string(),
        models: None,
        api_key_env: "".to_string(),
        api_key: Some(key.to_string()),
        base_url: None,
    }
}

#[test]
fn rejects_angle_bracket_placeholder() {
    assert!(provider_with_key("<changethis>").resolve_api_key(&None).is_err());
}

#[test]
fn rejects_changethis_without_brackets() {
    assert!(provider_with_key("changethis").resolve_api_key(&None).is_err());
}

#[test]
fn rejects_replace_me() {
    assert!(provider_with_key("replace_me").resolve_api_key(&None).is_err());
}

#[test]
fn rejects_placeholder_keyword() {
    assert!(provider_with_key("my_placeholder_key")
        .resolve_api_key(&None)
        .is_err());
}

#[test]
fn accepts_real_api_key() {
    let result = provider_with_key("sk-abc123def456").resolve_api_key(&None);
    assert_eq!(result.unwrap(), "sk-abc123def456");
}

#[test]
fn the_environment_gives_the_key_where_the_configuration_has_none() {
    let mut p = provider_with_key("x");
    p.api_key = None;
    p.api_key_env = "MY_KEY".to_string();
    assert_eq!(p.resolved_api_key_env(), "MY_KEY");
    assert_eq!(p.resolve_api_key(&Some("from-env".to_string())).unwrap(), "from-env");
    let err = p.resolve_api_key(&None).unwrap_err();
    assert!(err.contains("MY_KEY"), "got {err}");
    p.api_key_env = String::new();
    p.provider_name = "my-host".to_string();
    assert_eq!(p.resolved_api_key_env(), "MY-HOST_API_KEY");
}

#[test]
fn blank_keys_are_placeholders() {
    assert!(api_key_looks_like_placeholder("  "));
    assert!(!api_key_looks_like_placeholder("sk-1"));
}

#[test]
fn known_providers_are_listed() {
    assert!(provider_registry::lookup("openai").is_some());
    assert!(provider_registry::lookup("nobody").is_none());
    assert!(provider_registry::known_names().contains(&"gemini".to_string()));
}

#[test]
fn numbers_are_kept_in_range() {
    let c = AppConfig {
        harness: Some(HarnessConfig {
            subagents: Some(SubagentHarnessConfig {
                max_tasks: Some(0),
                max_wait_secs: Some(1_000_000),
                allowed_tools: Some(texts(&["b", "a", "b"])),
                ..Default::default()
            }),
            background_jobs: Some(BackgroundJobsConfig {
                enabled: Some(true),
                auto_resume: Some(false),
            }),
            ..Default::default()
        }),
        ..Default::default()
    };
    assert!(c.subagent_max_tasks() >= 1);
    assert!(c.subagent_max_wait_secs() < 1_000_000);
    assert_eq!(c.subagent_allowed_tools_set(), Some(texts(&["a", "b"])));
    assert!(c.background_jobs_enabled());
    assert!(!c.background_jobs_auto_resume());
}

#[test]
fn the_web_backend_needs_to_be_switched_on() {
    let mut c = AppConfig::default();
    assert!(c.jina_web_backend().is_none());
    c.jina = Some(JinaConfig {
        enabled: Some(true),
        api_key: Some(" k ".to_string()),
    });
    assert_eq!(c.jina_web_backend().unwrap().api_key.as_deref(), Some("k"));
}

#[test]
fn slack_listens_on_a_webhook_by_default() {
    let mut slack = SlackConfig {
        enabled: None,
        mode: None,
        app_token: None,
        bot_token: "t".to_string(),
        signing_secret: None,
        webhook_port: None,
        webhook_path: None,
        reply_in_thread: None,
        reaction_emoji: None,
    };
    assert_eq!(slack.mode(), SlackMode::Webhook);
    slack.mode = Some(SlackMode::Socket);
    assert_eq!(slack.mode(), SlackMode::Socket);
}

#[test]
fn shell_policy_words_are_read() {
    let ask = ShellPolicyMode::Ask;
    assert_eq!(parse_shell_policy_mode(Some(" Deny "), ask), ShellPolicyMode::Deny);
    assert_eq!(parse_shell_policy_mode(Some("ALLOW"), ask), ShellPolicyMode::Allow);
    assert_eq!(parse_shell_policy_mode(Some("what"), ask), ask);
    assert_eq!(parse_shell_policy_mode(None, ShellPolicyMode::Deny), ShellPolicyMode::Deny);
}

#[test]
fn a_channel_besides_the_terminal_is_seen() {
    let mut c = AppConfig::default();
    assert!(!c.has_non_terminal_inbound_channel());
    c.api = Some(ApiConfig {
        enabled: Some(true),
        port: 8080,
        serve_ui: None,
        bind_address: None,
        auth_token: None,
    });
    assert!(c.has_non_terminal_inbound_channel());
}

#[test]
fn a_path_at_home_is_expanded_and_others_are_not() {
    let mut c = ssh_config();
    let home = c.execution_ssh_identity_file().unwrap();
    assert!(!home.starts_with('~') || home == "~/.ssh/id_ed25519");
    let ssh = c
        .harness
        .as_mut()
        .and_then(|h| h.execution.as_mut())
        .and_then(|e| e.ssh.as_mut())
        .unwrap();
    ssh.identity_file = Some("/keys/a".to_string());
    assert_eq!(c.execution_ssh_identity_file().as_deref(), Some("/keys/a"));
}

#[test]
fn a_run_goes_on_in_the_background_before_it_is_cut_off() {
    let after = |max_wall_secs: Option<u64>, auto_promote_after_secs: Option<u64>| {
        with_execution(ExecutionHarnessConfig {
            max_wall_secs,
            auto_promote_after_secs,
            ..Default::default()
        })
        .execution_auto_promote_after_secs()
    };
    assert_eq!(after(None, None), 120);
    assert_eq!(after(Some(90), None), 90);
    assert_eq!(after(Some(90), Some(0)), 0);
    assert_eq!(after(Some(90), Some(1)), 5);
    assert_eq!(after(Some(90), Some(60)), 60);
    assert_eq!(after(Some(90), Some(1000)), 90);
    assert_eq!(after(Some(3), Some(10)), 3);
    assert_eq!(after(Some(3), Some(1)), 3);
    assert_eq!(after(Some(3), None), 3);
}

#[test]
fn the_summary_tells_how_the_agent_is_configured() {
    let c = with_execution(ExecutionHarnessConfig {
        max_wall_secs: Some(90),
        ..Default::default()
    });
    let lines = c.runtime_harness_summary_lines(&HostSummary {
        os_family: "linux".to_string(),
        windows: false,
        path_separator: '/',
    });
    assert_eq!(
        lines[0],
        "host_os=linux shell_family=sh_or_bash path_separator=/"
    );
    assert_eq!(lines[1], "execution_harness_enabled=true");
    assert_eq!(lines[2], "execution_default_provider=local");
    assert_eq!(lines[3], "execution_max_wall_secs=90");
    assert_eq!(lines[4], "execution_default_run_timeout_secs=90");
    assert_eq!(lines[8], "execution_wake_on_job_terminal=true");
    assert_eq!(
        lines[lines.len() - 1],
        "hooks_observation_enabled=false hooks_steering_enabled=false"
    );
}

#[test]
fn settings_have_defaults() {
    let c = AppConfig::default();
    assert!(c.notifications_enabled());
    assert!(!c.git_worktree_tool_enabled());
    assert!(!c.git_worktree_allow_path_outside_sandbox());
    assert!(!c.subagent_harness_enabled());
    assert!(c.subagent_cancel_children_on_parent_cancel());
    assert_eq!(c.subagent_allowed_tools_set(), None);
    assert_eq!(c.subagent_max_tasks(), 32);
    assert_eq!(c.subagent_task_history_retention(), 200);
    assert!(!c.kernel_porting_harness_enabled());
    assert_eq!(c.kernel_porting_default_project_root(), "kernels/projects");
    assert_eq!(
        c.kernel_porting_map_elites_schema(),
        ".agents/kernel-porting/map_elites.schema.json"
    );
    assert_eq!(c.kernel_porting_max_archive_entries(), 500);
    assert_eq!(c.kernel_porting_mutation_batch_size(), 4);
    assert!(!c.ml_engineer_harness_enabled());
    assert!(!c.ml_engineer_subagent_research_overlay());
    assert!(!c.ml_engineer_forbid_final_without_tools());
    assert_eq!(c.execution_max_sessions(), 32);
    assert!(c.execution_local_python_repl_enabled());
    assert!(!c.execution_default_provider_explicit());
    assert_eq!(c.execution_allowed_providers(), None);
    assert_eq!(c.execution_python_executable(), "python");
    assert_eq!(c.execution_ssh_port(), 22);
    assert!(c.terminal_enabled());
    assert_eq!(c.resolved_max_tool_output_chars(), None);
    assert_eq!(c.effective_max_web_tool_output_chars(), 50_000);
    assert_eq!(c.effective_search_text_ripgrep_timeout_secs(), 30);
    assert!(!c.checkpoint_enabled());
}

#[test]
fn settings_are_kept_within_their_bounds() {
    let c = AppConfig {
        search_text_ripgrep_timeout_secs: Some(0),
        harness: Some(HarnessConfig {
            kernel_porting: Some(KernelPortingHarnessConfig {
                max_archive_entries: Some(1),
                mutation_batch_size: Some(1000),
                ..Default::default()
            }),
            ml_engineer: Some(MlEngineerHarnessConfig {
                enabled: Some(true),
                ..Default::default()
            }),
            execution: Some(ExecutionHarnessConfig {
                max_sessions: Some(1000),
                local_python_mode: Some(" One_Shot ".to_string()),
                ..Default::default()
            }),
            ..Default::default()
        }),
        ..Default::default()
    };
    assert_eq!(c.effective_search_text_ripgrep_timeout_secs(), 1);
    assert_eq!(c.kernel_porting_max_archive_entries(), 10);
    assert_eq!(c.kernel_porting_mutation_batch_size(), 64);
    assert!(c.ml_engineer_subagent_research_overlay());
    assert_eq!(c.execution_max_sessions(), 256);
    assert!(!c.execution_local_python_repl_enabled());
}
