//! The configuration: every setting that a user can make.
use vstd::prelude::*;

verus! {

/// The local terminal channel.
#[derive(Debug, Clone, Default)]
pub struct TerminalConfig {
    pub enabled: Option<bool>,
    pub max_iterations: Option<usize>,
    pub max_tool_output_chars: Option<usize>,
}

/// Remote execution over SSH.
#[derive(Debug, Clone, Default)]
pub struct SshExecutionConfig {
    pub host: Option<String>,
    pub port: Option<u16>,
    pub user: Option<String>,
    pub identity_file: Option<String>,
    pub remote_workdir: Option<String>,
    pub remote_python: Option<String>,
    pub accept_unknown_host_keys: Option<bool>,
}

/// Remote execution in a Jupyter kernel.
#[derive(Debug, Clone, Default)]
pub struct JupyterExecutionConfig {
    pub base_url: Option<String>,
    pub token: Option<String>,
    pub kernel_name: Option<String>,
    pub notebook_sync_path_template: Option<String>,
}

/// The tools that execute code.
#[derive(Debug, Clone, Default)]
pub struct ExecutionHarnessConfig {
    pub enabled: Option<bool>,
    pub default_provider: Option<String>,
    pub max_output_bytes: Option<usize>,
    pub max_wall_secs: Option<u64>,
    pub default_execution_timeout_secs: Option<u64>,
    pub auto_promote_after_secs: Option<u64>,
    pub max_sessions: Option<usize>,
    pub allowed_providers: Option<Vec<String>>,
    pub python_executable: Option<String>,
    pub local_python_mode: Option<String>,
    pub local_python_runtime: Option<String>,
    pub uv_binary: Option<String>,
    pub uv_python: Option<String>,
    pub uv_requirements: Option<Vec<String>>,
    pub artifact_max_file_bytes: Option<usize>,
    pub artifact_max_total_bytes_per_run: Option<usize>,
    pub artifact_max_files_per_run: Option<usize>,
    pub jupyter: Option<JupyterExecutionConfig>,
    pub ssh: Option<SshExecutionConfig>,
    pub wake_on_job_terminal: Option<bool>,
}

/// Sub-agents and the tasks they work on.
#[derive(Debug, Clone, Default)]
pub struct SubagentHarnessConfig {
    pub enabled: Option<bool>,
    pub cancel_children_on_parent_cancel: Option<bool>,
    pub allowed_tools: Option<Vec<String>>,
    pub max_tasks: Option<usize>,
    pub max_wait_secs: Option<u64>,
    pub wake_on_completion: Option<bool>,
    pub task_history_retention: Option<usize>,
}

/// A named agent. `temperature` is the decimal text of the setting.
#[derive(Debug, Clone)]
pub struct AgentDefinition {
    pub description: String,
    pub mode: AgentMode,
    pub system_prompt: Option<String>,
    pub system_prompt_file: Option<String>,
    pub allowed_tools: Option<Vec<String>>,
    pub model: Option<String>,
    pub temperature: Option<String>,
    pub max_iterations: Option<usize>,
    pub hidden: bool,
    pub color: Option<String>,
}

/// How an agent is reached.
#[derive(Debug, Clone, PartialEq, Eq, Default, Structural)]
pub enum AgentMode {
    #[default]
    Subagent,
}

/// The policy for machine-learning work.
#[derive(Debug, Clone, Default)]
pub struct MlEngineerHarnessConfig {
    pub enabled: Option<bool>,
    pub subagent_research_overlay: Option<bool>,
    pub forbid_final_without_tools: Option<bool>,
}

/// What decides whether a shell command may run.
#[derive(Debug, Clone, Default)]
pub struct ShellPolicyConfig {
    pub mode: Option<String>,
    pub unattended_default: Option<String>,
    pub interactive_requires_approval_for: Option<Vec<String>>,
    pub edit_mode: Option<String>,
    pub edit_unattended_default: Option<String>,
}

/// What happens to a command that needs approval.
#[derive(Debug, Clone, Copy, PartialEq, Eq, Structural)]
pub enum ShellPolicyMode {
    Ask,
    Deny,
    Allow,
}

/// The shell policy with its defaults filled in.
#[derive(Debug, Clone)]
pub struct ResolvedShellPolicy {
    pub interactive_mode: ShellPolicyMode,
    pub unattended_mode: ShellPolicyMode,
    pub interactive_edit_mode: ShellPolicyMode,
    pub unattended_edit_mode: ShellPolicyMode,
    pub approval_patterns: Vec<String>,
}

/// Hooks that watch.
#[derive(Debug, Clone, Default)]
pub struct HarnessHooksObservationConfig {
    pub enabled: Option<bool>,
    pub jsonl_path: Option<String>,
    pub webhook_url: Option<String>,
    pub webhook_hmac_secret: Option<String>,
    pub queue_capacity: Option<usize>,
    pub metadata_keys: Option<Vec<String>>,
}

/// Hooks that steer.
#[derive(Debug, Clone, Default)]
pub struct HarnessHooksSteeringConfig {
    pub enabled: Option<bool>,
    pub max_stdout_bytes: Option<usize>,
    pub default_timeout_ms: Option<u64>,
    pub pre_tool: Option<Vec<HarnessHookCommandConfig>>,
    pub post_tool: Option<Vec<HarnessHookCommandConfig>>,
    pub user_prompt: Option<Vec<HarnessHookCommandConfig>>,
}

/// The command that a steering hook runs.
#[derive(Debug, Clone)]
pub struct HarnessHookCommandConfig {
    pub matcher: Option<String>,
    pub command: String,
    pub timeout_ms: Option<u64>,
    pub cwd: Option<String>,
}

/// The hooks.
#[derive(Debug, Clone, Default)]
pub struct HarnessHooksConfig {
    pub observation: Option<HarnessHooksObservationConfig>,
    pub steering: Option<HarnessHooksSteeringConfig>,
}

/// Background jobs.
#[derive(Debug, Clone, Default)]
pub struct BackgroundJobsConfig {
    pub enabled: Option<bool>,
    pub auto_resume: Option<bool>,
}

/// Notifications.
#[derive(Debug, Clone, Default)]
pub struct NotificationsConfig {
    pub enabled: Option<bool>,
}

/// The tools for porting kernels.
#[derive(Debug, Clone, Default)]
pub struct KernelPortingHarnessConfig {
    pub enabled: Option<bool>,
    pub default_project_root: Option<String>,
    pub map_elites_schema: Option<String>,
    pub max_archive_entries: Option<usize>,
    pub mutation_batch_size: Option<usize>,
}

/// The optional features. The agents are listed by name, each name once.
#[derive(Debug, Clone, Default)]
pub struct HarnessConfig {
    pub git_worktree: Option<GitWorktreeConfig>,
    pub subagents: Option<SubagentHarnessConfig>,
    pub kernel_porting: Option<KernelPortingHarnessConfig>,
    pub agents: Vec<(String, AgentDefinition)>,
    pub shell_policy: Option<ShellPolicyConfig>,
    pub execution: Option<ExecutionHarnessConfig>,
    pub ml_engineer: Option<MlEngineerHarnessConfig>,
    pub hooks: Option<HarnessHooksConfig>,
    pub background_jobs: Option<BackgroundJobsConfig>,
    pub notifications: Option<NotificationsConfig>,
}

/// The worktree tool.
#[derive(Debug, Clone, Default)]
pub struct GitWorktreeConfig {
    pub enabled: Option<bool>,
    pub allow_path_outside_sandbox: Option<bool>,
}

/// The configuration as a whole. Providers and agents are listed by name, each name
/// once.
#[derive(Debug, Default, Clone)]
pub struct AppConfig {
    pub restrict_to_workspace: Option<bool>,
    pub provider: Option<ProviderConfig>,
    pub providers: Option<Vec<(String, ProviderConfig)>>,
    pub api: Option<ApiConfig>,
    pub slack: Option<SlackConfig>,
    pub email: Option<EmailConfig>,
    pub terminal: Option<TerminalConfig>,
    pub max_iterations: Option<usize>,
    pub doom_loop_enabled: Option<bool>,
    pub checkpoint_enabled: Option<bool>,
    pub max_tool_output_chars: Option<usize>,
    pub max_web_tool_output_chars: Option<usize>,
    pub search_text_ripgrep_timeout_secs: Option<u64>,
    pub memory: Option<MemoryConfig>,
    pub multi_tenant_edge: Option<MultiTenantEdgeConfig>,
    pub jina: Option<JinaConfig>,
    pub harness: Option<HarnessConfig>,
    pub agents: Vec<(String, AgentDefinition)>,
}

/// The Jina web backend.
#[derive(Debug, Clone, Default)]
pub struct JinaConfig {
    pub enabled: Option<bool>,
    pub api_key: Option<String>,
}

/// The Jina web backend, where it is on.
#[derive(Clone, Debug, Default)]
pub struct JinaWebBackend {
    pub api_key: Option<String>,
}

/// Short-term and long-term memory.
#[derive(Debug, Clone, Default)]
pub struct MemoryConfig {
    pub enabled: Option<bool>,
    pub short_term_threshold_turns: Option<usize>,
    pub short_term_threshold_tokens: Option<usize>,
    pub short_term_threshold_mins: Option<u64>,
    pub long_term_interval_mins: Option<u64>,
    pub max_recent_summaries: Option<usize>,
    pub long_term_threshold_summaries: Option<usize>,
}

/// The multi-tenant edge.
#[derive(Debug, Clone, Default)]
pub struct MultiTenantEdgeConfig {
    pub activity_heartbeat_enabled: Option<bool>,
    pub cron_scheduling_enabled: Option<bool>,
}

/// The HTTP channel.
#[derive(Debug, Clone)]
pub struct ApiConfig {
    pub enabled: Option<bool>,
    pub port: u16,
    pub serve_ui: Option<bool>,
    pub bind_address: Option<String>,
    pub auth_token: Option<String>,
}

/// A model provider.
#[derive(Debug, Clone, Default)]
pub struct ProviderConfig {
    pub provider_name: String,
    pub model_name: String,
    pub models: Option<Vec<String>>,
    pub api_key_env: String,
    pub api_key: Option<String>,
    pub base_url: Option<String>,
}

/// How Slack delivers its messages.
#[derive(Debug, Clone, Copy, PartialEq, Eq, Default, Structural)]
pub enum SlackMode {
    #[default]
    Webhook,
    Socket,
}

/// The Slack channel.
#[derive(Debug, Clone)]
pub struct SlackConfig {
    pub enabled: Option<bool>,
    pub mode: Option<SlackMode>,
    pub app_token: Option<String>,
    pub bot_token: String,
    pub signing_secret: Option<String>,
    pub webhook_port: Option<u16>,
    pub webhook_path: Option<String>,
    pub reply_in_thread: Option<bool>,
    pub reaction_emoji: Option<String>,
}

/// The email channel.
#[derive(Debug, Clone)]
pub struct EmailConfig {
    pub enabled: Option<bool>,
    pub imap_host: String,
    pub imap_port: u16,
    pub imap_username: String,
    pub imap_password: String,
    pub smtp_host: String,
    pub smtp_port: u16,
    pub email_address: String,
}

// ---------------------------------------------------------------------------
// Settings in the abstract
// ---------------------------------------------------------------------------

/// A model provider in the abstract.
#[verifier::ext_equal]
pub struct ProviderView {
    pub provider_name: Seq<char>,
    pub model_name: Seq<char>,
    pub models: Option<Seq<Seq<char>>>,
    pub api_key_env: Seq<char>,
    pub api_key: Option<Seq<char>>,
    pub base_url: Option<Seq<char>>,
}

impl DeepView for ProviderConfig {
    type V = ProviderView;

    open spec fn deep_view(&self) -> ProviderView {
        ProviderView {
            provider_name: self.provider_name@,
            model_name: self.model_name@,
            models: self.models.deep_view(),
            api_key_env: self.api_key_env@,
            api_key: self.api_key.deep_view(),
            base_url: self.base_url.deep_view(),
        }
    }
}

/// A named agent in the abstract.
#[verifier::ext_equal]
pub struct AgentView {
    pub description: Seq<char>,
    pub mode: AgentMode,
    pub system_prompt: Option<Seq<char>>,
    pub system_prompt_file: Option<Seq<char>>,
    pub allowed_tools: Option<Seq<Seq<char>>>,
    pub model: Option<Seq<char>>,
    pub temperature: Option<Seq<char>>,
    pub max_iterations: Option<usize>,
    pub hidden: bool,
    pub color: Option<Seq<char>>,
}

impl DeepView for AgentDefinition {
    type V = AgentView;

    open spec fn deep_view(&self) -> AgentView {
        AgentView {
            description: self.description@,
            mode: self.mode,
            system_prompt: self.system_prompt.deep_view(),
            system_prompt_file: self.system_prompt_file.deep_view(),
            allowed_tools: self.allowed_tools.deep_view(),
            model: self.model.deep_view(),
            temperature: self.temperature.deep_view(),
            max_iterations: self.max_iterations,
            hidden: self.hidden,
            color: self.color.deep_view(),
        }
    }
}

fn copy_text(s: &Option<String>) -> (r: Option<String>)
    ensures
        r.deep_view() == s.deep_view(),
{
    match s {
        Some(t) => Some(t.clone()),
        None => None,
    }
}

fn copy_texts(list: &Option<Vec<String>>) -> (r: Option<Vec<String>>)
    ensures
        r.deep_view() == list.deep_view(),
{
    match list {
        None => None,
        Some(items) => {
            let mut copies: Vec<String> = Vec::new();
            let mut i: usize = 0;
            while i < items.len()
                invariant
                    i <= items@.len(),
                    copies@.len() == i,
                    forall|k: int| 0 <= k < i ==> #[trigger] copies@[k] == items@[k],
                decreases items@.len() - i,
            {
                copies.push(items[i].clone());
                i = i + 1;
            }
            assert(copies.deep_view() =~= items.deep_view());
            Some(copies)
        },
    }
}

impl ProviderConfig {
    /// The same settings under another provider and another model, for one model only.
    pub fn for_model(&self, provider_name: &str, model_name: &str) -> (r: ProviderConfig)
        ensures
            r.deep_view() == (ProviderView {
                provider_name: provider_name@,
                model_name: model_name@,
                models: None,
                ..self.deep_view()
            }),
    {
        ProviderConfig {
            provider_name: provider_name.to_owned(),
            model_name: model_name.to_owned(),
            models: None,
            api_key_env: self.api_key_env.clone(),
            api_key: copy_text(&self.api_key),
            base_url: copy_text(&self.base_url),
        }
    }
}

impl AgentDefinition {
    /// A definition of its own that says the same.
    pub fn duplicate(&self) -> (r: AgentDefinition)
        ensures
            r.deep_view() == self.deep_view(),
    {
        AgentDefinition {
            description: self.description.clone(),
            mode: match self.mode {
                AgentMode::Subagent => AgentMode::Subagent,
            },
            system_prompt: copy_text(&self.system_prompt),
            system_prompt_file: copy_text(&self.system_prompt_file),
            allowed_tools: copy_texts(&self.allowed_tools),
            model: copy_text(&self.model),
            temperature: copy_text(&self.temperature),
            max_iterations: self.max_iterations,
            hidden: self.hidden,
            color: copy_text(&self.color),
        }
    }
}

} // verus!
