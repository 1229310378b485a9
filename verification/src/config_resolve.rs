//! The configuration as it takes effect: every setting with its default filled in, and kept
//! within its bounds.
use vstd::prelude::*;
use vstd::string::*;
use crate::config::{
    AppConfig, BackgroundJobsConfig, ExecutionHarnessConfig, GitWorktreeConfig, HarnessHooksConfig,
    JupyterExecutionConfig, KernelPortingHarnessConfig, MlEngineerHarnessConfig,
    NotificationsConfig, ShellPolicyConfig, SshExecutionConfig, SubagentHarnessConfig,
};
use crate::outside;
use crate::text;

verus! {

broadcast use vstd::string::group_string_axioms;

// ---------------------------------------------------------------------------
// Defaults and bounds
// ---------------------------------------------------------------------------

/// The setting, or the default where it is not made.
pub open spec fn setting<T>(made: Option<T>, default_value: T) -> T {
    match made {
        Some(v) => v,
        None => default_value,
    }
}

/// `v` kept within the bounds.
pub open spec fn clamped(v: int, low: int, high: int) -> int {
    if v < low {
        low
    } else if v > high {
        high
    } else {
        v
    }
}

fn clamp_usize(v: usize, low: usize, high: usize) -> (r: usize)
    ensures
        r == clamped(v as int, low as int, high as int),
{
    if v < low {
        low
    } else if v > high {
        high
    } else {
        v
    }
}

fn clamp_u64(v: u64, low: u64, high: u64) -> (r: u64)
    ensures
        r == clamped(v as int, low as int, high as int),
{
    if v < low {
        low
    } else if v > high {
        high
    } else {
        v
    }
}

/// A text setting, trimmed; a blank one counts as none.
pub open spec fn clean_text(made: Option<String>) -> Option<Seq<char>> {
    match made {
        Some(s) => text::non_blank(s@),
        None => None,
    }
}

fn cleaned(made: &Option<String>) -> (r: Option<String>)
    ensures
        r.deep_view() == clean_text(*made),
{
    match made {
        Some(s) => text::non_blank_text(s.as_str()),
        None => None,
    }
}

fn cleaned_or(made: &Option<String>, default_value: &str) -> (r: String)
    ensures
        r@ == setting(clean_text(*made), default_value@),
{
    match cleaned(made) {
        Some(s) => s,
        None => default_value.to_owned(),
    }
}

fn holds(list: &Vec<String>, wanted: &str) -> (r: bool)
    ensures
        r == list.deep_view().contains(wanted@),
{
    let ghost all = list.deep_view();
    let mut i: usize = 0;
    while i < list.len()
        invariant
            i <= list@.len(),
            all == list.deep_view(),
            forall|k: int| 0 <= k < i ==> #[trigger] all[k] != wanted@,
        decreases list@.len() - i,
    {
        assert(all[i as int] == list@[i as int]@);
        if text::same(list[i].as_str(), wanted) {
            return true;
        }
        i = i + 1;
    }
    false
}

// ---------------------------------------------------------------------------
// Tables
// ---------------------------------------------------------------------------

impl AppConfig {
    /// The table `harness.background_jobs`.
    pub open spec fn background_jobs_table(self) -> Option<BackgroundJobsConfig> {
        match self.harness {
            Some(h) => h.background_jobs,
            None => None,
        }
    }

    fn find_background_jobs(&self) -> (r: Option<&BackgroundJobsConfig>)
        ensures
            match r {
                Some(t) => self.background_jobs_table() == Some(*t),
                None => self.background_jobs_table() is None,
            },
    {
        match &self.harness {
            Some(h) => match &h.background_jobs {
                Some(t) => Some(t),
                None => None,
            },
            None => None,
        }
    }

    /// The table `harness.notifications`.
    pub open spec fn notifications_table(self) -> Option<NotificationsConfig> {
        match self.harness {
            Some(h) => h.notifications,
            None => None,
        }
    }

    fn find_notifications(&self) -> (r: Option<&NotificationsConfig>)
        ensures
            match r {
                Some(t) => self.notifications_table() == Some(*t),
                None => self.notifications_table() is None,
            },
    {
        match &self.harness {
            Some(h) => match &h.notifications {
                Some(t) => Some(t),
                None => None,
            },
            None => None,
        }
    }

    /// The table `harness.git_worktree`.
    pub open spec fn git_worktree_table(self) -> Option<GitWorktreeConfig> {
        match self.harness {
            Some(h) => h.git_worktree,
            None => None,
        }
    }

    fn find_git_worktree(&self) -> (r: Option<&GitWorktreeConfig>)
        ensures
            match r {
                Some(t) => self.git_worktree_table() == Some(*t),
                None => self.git_worktree_table() is None,
            },
    {
        match &self.harness {
            Some(h) => match &h.git_worktree {
                Some(t) => Some(t),
                None => None,
            },
            None => None,
        }
    }

    /// The table `harness.subagents`.
    pub open spec fn subagents_table(self) -> Option<SubagentHarnessConfig> {
        match self.harness {
            Some(h) => h.subagents,
            None => None,
        }
    }

    fn find_subagents(&self) -> (r: Option<&SubagentHarnessConfig>)
        ensures
            match r {
                Some(t) => self.subagents_table() == Some(*t),
                None => self.subagents_table() is None,
            },
    {
        match &self.harness {
            Some(h) => match &h.subagents {
                Some(t) => Some(t),
                None => None,
            },
            None => None,
        }
    }

    /// The table `harness.execution`.
    pub open spec fn execution_table(self) -> Option<ExecutionHarnessConfig> {
        match self.harness {
            Some(h) => h.execution,
            None => None,
        }
    }

    fn find_execution(&self) -> (r: Option<&ExecutionHarnessConfig>)
        ensures
            match r {
                Some(t) => self.execution_table() == Some(*t),
                None => self.execution_table() is None,
            },
    {
        match &self.harness {
            Some(h) => match &h.execution {
                Some(t) => Some(t),
                None => None,
            },
            None => None,
        }
    }

    /// The table `harness.kernel_porting`.
    pub open spec fn kernel_porting_table(self) -> Option<KernelPortingHarnessConfig> {
        match self.harness {
            Some(h) => h.kernel_porting,
            None => None,
        }
    }

    fn find_kernel_porting(&self) -> (r: Option<&KernelPortingHarnessConfig>)
        ensures
            match r {
                Some(t) => self.kernel_porting_table() == Some(*t),
                None => self.kernel_porting_table() is None,
            },
    {
        match &self.harness {
            Some(h) => match &h.kernel_porting {
                Some(t) => Some(t),
                None => None,
            },
            None => None,
        }
    }

    /// The table `harness.ml_engineer`.
    pub open spec fn ml_engineer_table(self) -> Option<MlEngineerHarnessConfig> {
        match self.harness {
            Some(h) => h.ml_engineer,
            None => None,
        }
    }

    fn find_ml_engineer(&self) -> (r: Option<&MlEngineerHarnessConfig>)
        ensures
            match r {
                Some(t) => self.ml_engineer_table() == Some(*t),
                None => self.ml_engineer_table() is None,
            },
    {
        match &self.harness {
            Some(h) => match &h.ml_engineer {
                Some(t) => Some(t),
                None => None,
            },
            None => None,
        }
    }

    /// The table `harness.shell_policy`.
    pub open spec fn shell_policy_table(self) -> Option<ShellPolicyConfig> {
        match self.harness {
            Some(h) => h.shell_policy,
            None => None,
        }
    }

    /// The table `harness.hooks`.
    pub open spec fn hooks_table(self) -> Option<HarnessHooksConfig> {
        match self.harness {
            Some(h) => h.hooks,
            None => None,
        }
    }

    /// The table `harness.execution.jupyter`.
    pub open spec fn jupyter_table(self) -> Option<JupyterExecutionConfig> {
        match self.execution_table() {
            Some(e) => e.jupyter,
            None => None,
        }
    }

    fn find_jupyter(&self) -> (r: Option<&JupyterExecutionConfig>)
        ensures
            match r {
                Some(t) => self.jupyter_table() == Some(*t),
                None => self.jupyter_table() is None,
            },
    {
        match self.find_execution() {
            Some(e) => match &e.jupyter {
                Some(t) => Some(t),
                None => None,
            },
            None => None,
        }
    }

    /// The table `harness.execution.ssh`.
    pub open spec fn ssh_table(self) -> Option<SshExecutionConfig> {
        match self.execution_table() {
            Some(e) => e.ssh,
            None => None,
        }
    }

    fn find_ssh(&self) -> (r: Option<&SshExecutionConfig>)
        ensures
            match r {
                Some(t) => self.ssh_table() == Some(*t),
                None => self.ssh_table() is None,
            },
    {
        match self.find_execution() {
            Some(e) => match &e.ssh {
                Some(t) => Some(t),
                None => None,
            },
            None => None,
        }
    }
}

// ---------------------------------------------------------------------------
// Switches and numbers
// ---------------------------------------------------------------------------

impl AppConfig {
    /// Whether background jobs are on; they are where nothing is said.
    pub fn background_jobs_enabled(&self) -> (r: bool)
        ensures
            r == match self.background_jobs_table() {
                Some(t) => setting(t.enabled, true),
                None => true,
            },
    {
        match self.find_background_jobs() {
            Some(t) => match t.enabled {
                Some(v) => v,
                None => true,
            },
            None => true,
        }
    }

    /// Whether background jobs go on by themselves; they do where nothing is said.
    pub fn background_jobs_auto_resume(&self) -> (r: bool)
        ensures
            r == match self.background_jobs_table() {
                Some(t) => setting(t.auto_resume, true),
                None => true,
            },
    {
        match self.find_background_jobs() {
            Some(t) => match t.auto_resume {
                Some(v) => v,
                None => true,
            },
            None => true,
        }
    }

    /// Whether notifications are on; they are where nothing is said.
    pub fn notifications_enabled(&self) -> (r: bool)
        ensures
            r == match self.notifications_table() {
                Some(t) => setting(t.enabled, true),
                None => true,
            },
    {
        match self.find_notifications() {
            Some(t) => match t.enabled {
                Some(v) => v,
                None => true,
            },
            None => true,
        }
    }

    /// Whether the worktree tool is on; it is not where nothing is said.
    pub fn git_worktree_tool_enabled(&self) -> (r: bool)
        ensures
            r == match self.git_worktree_table() {
                Some(t) => setting(t.enabled, false),
                None => false,
            },
    {
        match self.find_git_worktree() {
            Some(t) => match t.enabled {
                Some(v) => v,
                None => false,
            },
            None => false,
        }
    }

    /// Whether worktrees may lie outside of the sandbox.
    pub fn git_worktree_allow_path_outside_sandbox(&self) -> (r: bool)
        ensures
            r == match self.git_worktree_table() {
                Some(t) => setting(t.allow_path_outside_sandbox, false),
                None => false,
            },
    {
        match self.find_git_worktree() {
            Some(t) => match t.allow_path_outside_sandbox {
                Some(v) => v,
                None => false,
            },
            None => false,
        }
    }

    /// Whether there are sub-agents.
    pub fn subagent_harness_enabled(&self) -> (r: bool)
        ensures
            r == match self.subagents_table() {
                Some(t) => setting(t.enabled, false),
                None => false,
            },
    {
        match self.find_subagents() {
            Some(t) => match t.enabled {
                Some(v) => v,
                None => false,
            },
            None => false,
        }
    }

    /// Whether the sub-agents of a chat are cancelled with it; they are where nothing is said.
    pub fn subagent_cancel_children_on_parent_cancel(&self) -> (r: bool)
        ensures
            r == match self.subagents_table() {
                Some(t) => setting(t.cancel_children_on_parent_cancel, true),
                None => true,
            },
    {
        match self.find_subagents() {
            Some(t) => match t.cancel_children_on_parent_cancel {
                Some(v) => v,
                None => true,
            },
            None => true,
        }
    }

    /// Whether a chat is told when a sub-agent ends; it is where nothing is said.
    pub fn subagent_wake_on_completion(&self) -> (r: bool)
        ensures
            r == match self.subagents_table() {
                Some(t) => setting(t.wake_on_completion, true),
                None => true,
            },
    {
        match self.find_subagents() {
            Some(t) => match t.wake_on_completion {
                Some(v) => v,
                None => true,
            },
            None => true,
        }
    }

    /// Whether code can be executed; it can where nothing is said.
    pub fn execution_harness_enabled(&self) -> (r: bool)
        ensures
            r == match self.execution_table() {
                Some(t) => setting(t.enabled, true),
                None => true,
            },
    {
        match self.find_execution() {
            Some(t) => match t.enabled {
                Some(v) => v,
                None => true,
            },
            None => true,
        }
    }

    /// Whether a chat is told when a job of execution ends; it is where nothing is said.
    pub fn execution_wake_on_job_terminal(&self) -> (r: bool)
        ensures
            r == match self.execution_table() {
                Some(t) => setting(t.wake_on_job_terminal, true),
                None => true,
            },
    {
        match self.find_execution() {
            Some(t) => match t.wake_on_job_terminal {
                Some(v) => v,
                None => true,
            },
            None => true,
        }
    }

    /// Whether the tools for porting kernels are on.
    pub fn kernel_porting_harness_enabled(&self) -> (r: bool)
        ensures
            r == match self.kernel_porting_table() {
                Some(t) => setting(t.enabled, false),
                None => false,
            },
    {
        match self.find_kernel_porting() {
            Some(t) => match t.enabled {
                Some(v) => v,
                None => false,
            },
            None => false,
        }
    }

    /// Whether the policy for machine-learning work is on.
    pub fn ml_engineer_harness_enabled(&self) -> (r: bool)
        ensures
            r == match self.ml_engineer_table() {
                Some(t) => setting(t.enabled, false),
                None => false,
            },
    {
        match self.find_ml_engineer() {
            Some(t) => match t.enabled {
                Some(v) => v,
                None => false,
            },
            None => false,
        }
    }

    /// Whether a turn must not end on plain text.
    pub fn ml_engineer_forbid_final_without_tools(&self) -> (r: bool)
        ensures
            r == match self.ml_engineer_table() {
                Some(t) => setting(t.forbid_final_without_tools, false),
                None => false,
            },
    {
        match self.find_ml_engineer() {
            Some(t) => match t.forbid_final_without_tools {
                Some(v) => v,
                None => false,
            },
            None => false,
        }
    }

    /// Whether any host key is taken; only where it is said.
    pub fn execution_ssh_accept_unknown_host_keys(&self) -> (r: bool)
        ensures
            r == match self.ssh_table() {
                Some(t) => setting(t.accept_unknown_host_keys, false),
                None => false,
            },
    {
        match self.find_ssh() {
            Some(t) => match t.accept_unknown_host_keys {
                Some(v) => v,
                None => false,
            },
            None => false,
        }
    }

    /// How many sub-agents run at one time.
    pub fn subagent_max_tasks(&self) -> (r: usize)
        ensures
            r == clamped(
                match self.subagents_table() {
                    Some(t) => setting(t.max_tasks, 32) as int,
                    None => 32,
                },
                1,
                256,
            ),
    {
        let v: usize = match self.find_subagents() {
            Some(t) => match t.max_tasks {
                Some(v) => v,
                None => 32,
            },
            None => 32,
        };
        clamp_usize(v, 1, 256)
    }

    /// How long a caller waits for a sub-agent.
    pub fn subagent_max_wait_secs(&self) -> (r: u64)
        ensures
            r == clamped(
                match self.subagents_table() {
                    Some(t) => setting(t.max_wait_secs, 300) as int,
                    None => 300,
                },
                10,
                3600,
            ),
    {
        let v: u64 = match self.find_subagents() {
            Some(t) => match t.max_wait_secs {
                Some(v) => v,
                None => 300,
            },
            None => 300,
        };
        clamp_u64(v, 10, 3600)
    }

    /// How many finished tasks of a chat are remembered.
    pub fn subagent_task_history_retention(&self) -> (r: usize)
        ensures
            r == clamped(
                match self.subagents_table() {
                    Some(t) => setting(t.task_history_retention, 200) as int,
                    None => 200,
                },
                10,
                2000,
            ),
    {
        let v: usize = match self.find_subagents() {
            Some(t) => match t.task_history_retention {
                Some(v) => v,
                None => 200,
            },
            None => 200,
        };
        clamp_usize(v, 10, 2000)
    }

    /// How many entries an archive of kernels has.
    pub fn kernel_porting_max_archive_entries(&self) -> (r: usize)
        ensures
            r == clamped(
                match self.kernel_porting_table() {
                    Some(t) => setting(t.max_archive_entries, 500) as int,
                    None => 500,
                },
                10,
                10000,
            ),
    {
        let v: usize = match self.find_kernel_porting() {
            Some(t) => match t.max_archive_entries {
                Some(v) => v,
                None => 500,
            },
            None => 500,
        };
        clamp_usize(v, 10, 10000)
    }

    /// How many mutations are tried at one time.
    pub fn kernel_porting_mutation_batch_size(&self) -> (r: usize)
        ensures
            r == clamped(
                match self.kernel_porting_table() {
                    Some(t) => setting(t.mutation_batch_size, 4) as int,
                    None => 4,
                },
                1,
                64,
            ),
    {
        let v: usize = match self.find_kernel_porting() {
            Some(t) => match t.mutation_batch_size {
                Some(v) => v,
                None => 4,
            },
            None => 4,
        };
        clamp_usize(v, 1, 64)
    }

    /// How many bytes of output are kept.
    pub fn execution_max_output_bytes(&self) -> (r: usize)
        ensures
            r == clamped(
                match self.execution_table() {
                    Some(t) => setting(t.max_output_bytes, 262144) as int,
                    None => 262144,
                },
                4096,
                16777216,
            ),
    {
        let v: usize = match self.find_execution() {
            Some(t) => match t.max_output_bytes {
                Some(v) => v,
                None => 262144,
            },
            None => 262144,
        };
        clamp_usize(v, 4096, 16777216)
    }

    /// How long a run takes at the most.
    pub fn execution_max_wall_secs(&self) -> (r: u64)
        ensures
            r == clamped(
                match self.execution_table() {
                    Some(t) => setting(t.max_wall_secs, 3600) as int,
                    None => 3600,
                },
                1,
                86400,
            ),
    {
        let v: u64 = match self.find_execution() {
            Some(t) => match t.max_wall_secs {
                Some(v) => v,
                None => 3600,
            },
            None => 3600,
        };
        clamp_u64(v, 1, 86400)
    }

    /// How many sessions are open at one time.
    pub fn execution_max_sessions(&self) -> (r: usize)
        ensures
            r == clamped(
                match self.execution_table() {
                    Some(t) => setting(t.max_sessions, 32) as int,
                    None => 32,
                },
                1,
                256,
            ),
    {
        let v: usize = match self.find_execution() {
            Some(t) => match t.max_sessions {
                Some(v) => v,
                None => 32,
            },
            None => 32,
        };
        clamp_usize(v, 1, 256)
    }

    /// How large a file is that a run leaves behind.
    pub fn execution_artifact_max_file_bytes(&self) -> (r: usize)
        ensures
            r == clamped(
                match self.execution_table() {
                    Some(t) => setting(t.artifact_max_file_bytes, 4194304) as int,
                    None => 4194304,
                },
                65536,
                67108864,
            ),
    {
        let v: usize = match self.find_execution() {
            Some(t) => match t.artifact_max_file_bytes {
                Some(v) => v,
                None => 4194304,
            },
            None => 4194304,
        };
        clamp_usize(v, 65536, 67108864)
    }

    /// How much a run leaves behind in all.
    pub fn execution_artifact_max_total_bytes_per_run(&self) -> (r: usize)
        ensures
            r == clamped(
                match self.execution_table() {
                    Some(t) => setting(t.artifact_max_total_bytes_per_run, 33554432) as int,
                    None => 33554432,
                },
                262144,
                134217728,
            ),
    {
        let v: usize = match self.find_execution() {
            Some(t) => match t.artifact_max_total_bytes_per_run {
                Some(v) => v,
                None => 33554432,
            },
            None => 33554432,
        };
        clamp_usize(v, 262144, 134217728)
    }

    /// How many files a run leaves behind.
    pub fn execution_artifact_max_files_per_run(&self) -> (r: usize)
        ensures
            r == clamped(
                match self.execution_table() {
                    Some(t) => setting(t.artifact_max_files_per_run, 64) as int,
                    None => 64,
                },
                1,
                256,
            ),
    {
        let v: usize = match self.find_execution() {
            Some(t) => match t.artifact_max_files_per_run {
                Some(v) => v,
                None => 64,
            },
            None => 64,
        };
        clamp_usize(v, 1, 256)
    }

    /// Whether the terminal channel is on; it is where nothing is said.
    pub fn terminal_enabled(&self) -> (r: bool)
        ensures
            r == match self.terminal {
                Some(t) => setting(t.enabled, true),
                None => true,
            },
    {
        match &self.terminal {
            Some(t) => match t.enabled {
                Some(v) => v,
                None => true,
            },
            None => true,
        }
    }

    /// How many steps a turn has: the setting at the top, or else that of the terminal.
    pub fn resolved_max_iterations(&self) -> (r: Option<usize>)
        ensures
            r == match self.max_iterations {
                Some(n) => Some(n),
                None => match self.terminal {
                    Some(t) => t.max_iterations,
                    None => None,
                },
            },
    {
        match self.max_iterations {
            Some(n) => Some(n),
            None => match &self.terminal {
                Some(t) => t.max_iterations,
                None => None,
            },
        }
    }

    /// How much of a tool's output is shown: the setting at the top, or else that of the
    /// terminal.
    pub fn resolved_max_tool_output_chars(&self) -> (r: Option<usize>)
        ensures
            r == match self.max_tool_output_chars {
                Some(n) => Some(n),
                None => match self.terminal {
                    Some(t) => t.max_tool_output_chars,
                    None => None,
                },
            },
    {
        match self.max_tool_output_chars {
            Some(n) => Some(n),
            None => match &self.terminal {
                Some(t) => t.max_tool_output_chars,
                None => None,
            },
        }
    }

    /// Whether a channel other than the terminal is on.
    pub fn has_non_terminal_inbound_channel(&self) -> (r: bool)
        ensures
            r == ((self.api matches Some(a) && a.enabled == Some(true)) || (
            self.slack matches Some(s) && s.enabled == Some(true)) || (self.email matches Some(e)
                && e.enabled == Some(true))),
    {
        let api_on: bool = match &self.api {
            Some(a) => match a.enabled {
                Some(v) => v,
                None => false,
            },
            None => false,
        };
        let slack_on: bool = match &self.slack {
            Some(s) => match s.enabled {
                Some(v) => v,
                None => false,
            },
            None => false,
        };
        let email_on: bool = match &self.email {
            Some(e) => match e.enabled {
                Some(v) => v,
                None => false,
            },
            None => false,
        };
        api_on || slack_on || email_on
    }

    /// How much a web tool gives back at the most.
    pub fn effective_max_web_tool_output_chars(&self) -> (r: usize)
        ensures
            r == setting(self.max_web_tool_output_chars, 50_000),
    {
        match self.max_web_tool_output_chars {
            Some(n) => n,
            None => 50_000,
        }
    }

    /// How long a search in texts takes at the most.
    pub fn effective_search_text_ripgrep_timeout_secs(&self) -> (r: u64)
        ensures
            r == clamped(setting(self.search_text_ripgrep_timeout_secs, 30) as int, 1, 3600),
    {
        let secs: u64 = match self.search_text_ripgrep_timeout_secs {
            Some(n) => n,
            None => 30,
        };
        clamp_u64(secs, 1, 3600)
    }

    /// Whether turns are checked for loops; they are where nothing is said.
    pub fn doom_loop_enabled(&self) -> (r: bool)
        ensures
            r == setting(self.doom_loop_enabled, true),
    {
        match self.doom_loop_enabled {
            Some(v) => v,
            None => true,
        }
    }

    /// Whether files are backed up before they are changed; only where it is said.
    pub fn checkpoint_enabled(&self) -> (r: bool)
        ensures
            r == setting(self.checkpoint_enabled, false),
    {
        match self.checkpoint_enabled {
            Some(v) => v,
            None => false,
        }
    }

    /// Whether sub-agents are told how to do research, where the policy for machine-learning
    /// work is on.
    pub fn ml_engineer_subagent_research_overlay(&self) -> (r: bool)
        ensures
            r == match self.ml_engineer_table() {
                Some(t) => setting(t.enabled, false) && setting(t.subagent_research_overlay, true),
                None => false,
            },
    {
        if !self.ml_engineer_harness_enabled() {
            return false;
        }
        match self.find_ml_engineer() {
            Some(t) => match t.subagent_research_overlay {
                Some(v) => v,
                None => true,
            },
            None => true,
        }
    }

    /// How long a run takes at the most that does not say so itself.
    pub fn execution_default_run_timeout_secs(&self) -> (r: u64)
        ensures
            r == clamped(
                match self.execution_table() {
                    Some(t) => setting(t.default_execution_timeout_secs, 600) as int,
                    None => 600,
                },
                1,
                self.max_wall(),
            ),
    {
        let cap: u64 = self.execution_max_wall_secs();
        let secs: u64 = match self.find_execution() {
            Some(t) => match t.default_execution_timeout_secs {
                Some(v) => v,
                None => 600,
            },
            None => 600,
        };
        clamp_u64(secs, 1, cap)
    }

    /// How long a run takes at the most.
    pub open spec fn max_wall(self) -> int {
        clamped(
            match self.execution_table() {
                Some(t) => setting(t.max_wall_secs, 3600) as int,
                None => 3600,
            },
            1,
            86400,
        )
    }

    /// After how long a run goes on in the background: zero where it never does, else five
    /// seconds at the least, but never longer than a run takes at the most.
    pub open spec fn auto_promote_after(self) -> int {
        match self.execution_table() {
            Some(t) => match t.auto_promote_after_secs {
                Some(v) => if v == 0 {
                    0
                } else if self.max_wall() < 5 {
                    self.max_wall()
                } else {
                    clamped(v as int, 5, self.max_wall())
                },
                None => if self.max_wall() < 120 {
                    self.max_wall()
                } else {
                    120
                },
            },
            None => 120,
        }
    }

    /// After how long a run goes on in the background; zero where it never does.
    pub fn execution_auto_promote_after_secs(&self) -> (r: u64)
        ensures
            r == self.auto_promote_after(),
            r <= self.max_wall(),
    {
        let cap: u64 = self.execution_max_wall_secs();
        let made: Option<u64> = match self.find_execution() {
            Some(t) => t.auto_promote_after_secs,
            None => None,
        };
        match made {
            Some(v) => if v == 0 {
                0
            } else if cap < 5 {
                cap
            } else {
                clamp_u64(v, 5, cap)
            },
            None => if cap < 120 {
                cap
            } else {
                120
            },
        }
    }

    /// The port of the machine that code is executed on.
    pub fn execution_ssh_port(&self) -> (r: u16)
        ensures
            r == match self.ssh_table() {
                Some(t) => setting(t.port, 22),
                None => 22,
            },
    {
        match self.find_ssh() {
            Some(t) => match t.port {
                Some(p) => p,
                None => 22,
            },
            None => 22,
        }
    }
}

// ---------------------------------------------------------------------------
// Texts
// ---------------------------------------------------------------------------

impl AppConfig {
    /// Where the projects for porting kernels are.
    pub fn kernel_porting_default_project_root(&self) -> (r: String)
        ensures
            r@ == match self.kernel_porting_table() {
                Some(t) => setting(clean_text(t.default_project_root), "kernels/projects"@),
                None => "kernels/projects"@,
            },
    {
        match self.find_kernel_porting() {
            Some(t) => cleaned_or(&t.default_project_root, "kernels/projects"),
            None => "kernels/projects".to_owned(),
        }
    }

    /// Where the schema for the archive of kernels is.
    pub fn kernel_porting_map_elites_schema(&self) -> (r: String)
        ensures
            r@ == match self.kernel_porting_table() {
                Some(t) => setting(clean_text(t.map_elites_schema), ".agents/kernel-porting/map_elites.schema.json"@),
                None => ".agents/kernel-porting/map_elites.schema.json"@,
            },
    {
        match self.find_kernel_porting() {
            Some(t) => cleaned_or(&t.map_elites_schema, ".agents/kernel-porting/map_elites.schema.json"),
            None => ".agents/kernel-porting/map_elites.schema.json".to_owned(),
        }
    }

    /// Where code is executed.
    pub fn execution_default_provider(&self) -> (r: String)
        ensures
            r@ == match self.execution_table() {
                Some(t) => setting(clean_text(t.default_provider), "local"@),
                None => "local"@,
            },
    {
        match self.find_execution() {
            Some(t) => cleaned_or(&t.default_provider, "local"),
            None => "local".to_owned(),
        }
    }

    /// The program that manages Python.
    pub fn execution_uv_binary(&self) -> (r: String)
        ensures
            r@ == match self.execution_table() {
                Some(t) => setting(clean_text(t.uv_binary), "uv"@),
                None => "uv"@,
            },
    {
        match self.find_execution() {
            Some(t) => cleaned_or(&t.uv_binary, "uv"),
            None => "uv".to_owned(),
        }
    }

    /// The version of Python that is asked for.
    pub fn execution_uv_python(&self) -> (r: String)
        ensures
            r@ == match self.execution_table() {
                Some(t) => setting(clean_text(t.uv_python), "3.11"@),
                None => "3.11"@,
            },
    {
        match self.find_execution() {
            Some(t) => cleaned_or(&t.uv_python, "3.11"),
            None => "3.11".to_owned(),
        }
    }

    /// The kernel that code is executed in.
    pub fn execution_jupyter_kernel_name(&self) -> (r: String)
        ensures
            r@ == match self.jupyter_table() {
                Some(t) => setting(clean_text(t.kernel_name), "python3"@),
                None => "python3"@,
            },
    {
        match self.find_jupyter() {
            Some(t) => cleaned_or(&t.kernel_name, "python3"),
            None => "python3".to_owned(),
        }
    }

    /// The Python of the machine that code is executed on.
    pub fn execution_ssh_remote_python(&self) -> (r: String)
        ensures
            r@ == match self.ssh_table() {
                Some(t) => setting(clean_text(t.remote_python), "python3"@),
                None => "python3"@,
            },
    {
        match self.find_ssh() {
            Some(t) => cleaned_or(&t.remote_python, "python3"),
            None => "python3".to_owned(),
        }
    }

    /// The Python that is set.
    pub fn execution_python_executable_configured(&self) -> (r: Option<String>)
        ensures
            r.deep_view() == match self.execution_table() {
                Some(t) => clean_text(t.python_executable),
                None => None,
            },
    {
        match self.find_execution() {
            Some(t) => cleaned(&t.python_executable),
            None => None,
        }
    }

    /// Where notebooks are stored.
    pub fn execution_jupyter_notebook_sync_path_template(&self) -> (r: Option<String>)
        ensures
            r.deep_view() == match self.jupyter_table() {
                Some(t) => clean_text(t.notebook_sync_path_template),
                None => None,
            },
    {
        match self.find_jupyter() {
            Some(t) => cleaned(&t.notebook_sync_path_template),
            None => None,
        }
    }

    /// The machine that code is executed on.
    pub fn execution_ssh_host(&self) -> (r: Option<String>)
        ensures
            r.deep_view() == match self.ssh_table() {
                Some(t) => clean_text(t.host),
                None => None,
            },
    {
        match self.find_ssh() {
            Some(t) => cleaned(&t.host),
            None => None,
        }
    }

    /// The user on the machine that code is executed on.
    pub fn execution_ssh_user(&self) -> (r: Option<String>)
        ensures
            r.deep_view() == match self.ssh_table() {
                Some(t) => clean_text(t.user),
                None => None,
            },
    {
        match self.find_ssh() {
            Some(t) => cleaned(&t.user),
            None => None,
        }
    }

    /// The directory on the machine that code is executed on.
    pub fn execution_ssh_remote_workdir(&self) -> (r: Option<String>)
        ensures
            r.deep_view() == match self.ssh_table() {
                Some(t) => clean_text(t.remote_workdir),
                None => None,
            },
    {
        match self.find_ssh() {
            Some(t) => cleaned(&t.remote_workdir),
            None => None,
        }
    }

    /// The Python that runs.
    pub fn execution_python_executable(&self) -> (r: String)
        ensures
            r@ == match self.execution_table() {
                Some(t) => setting(clean_text(t.python_executable), "python"@),
                None => "python"@,
            },
    {
        match self.execution_python_executable_configured() {
            Some(p) => p,
            None => "python".to_owned(),
        }
    }

    /// Whether it is said expressly where code is executed.
    pub fn execution_default_provider_explicit(&self) -> (r: bool)
        ensures
            r == (self.execution_table() matches Some(t) && clean_text(t.default_provider) is Some),
    {
        match self.find_execution() {
            Some(t) => cleaned(&t.default_provider).is_some(),
            None => false,
        }
    }

    /// Where code may be executed; anywhere where there is no list.
    pub fn execution_allowed_providers(&self) -> (r: Option<Vec<String>>)
        ensures
            r.deep_view() == match self.execution_table() {
                Some(t) => match t.allowed_providers {
                    Some(list) => if text::clean_texts(list.deep_view()).len() == 0 {
                        None
                    } else {
                        Some(text::clean_texts(list.deep_view()))
                    },
                    None => None,
                },
                None => None,
            },
    {
        match self.find_execution() {
            Some(t) => match &t.allowed_providers {
                Some(list) => {
                    let kept: Vec<String> = text::cleaned_list(list);
                    assert(kept.deep_view().len() == kept@.len());
                    if kept.len() == 0 {
                        None
                    } else {
                        Some(kept)
                    }
                },
                None => None,
            },
            None => None,
        }
    }

    /// Whether code may be executed there: it stands on the list, or there is no list or an
    /// empty one.
    pub fn execution_provider_allowed(&self, provider_id: &str) -> (r: bool)
        ensures
            r == match self.execution_table() {
                Some(t) => match t.allowed_providers {
                    Some(list) => list@.len() == 0 || list.deep_view().contains(provider_id@),
                    None => true,
                },
                None => true,
            },
    {
        match self.find_execution() {
            Some(t) => match &t.allowed_providers {
                Some(list) => list.len() == 0 || holds(list, provider_id),
                None => true,
            },
            None => true,
        }
    }

    /// The packages that are installed for Python.
    pub fn execution_uv_requirements(&self) -> (r: Vec<String>)
        ensures
            r.deep_view() == match self.execution_table() {
                Some(t) => match t.uv_requirements {
                    Some(list) => text::clean_texts(list.deep_view()),
                    None => Seq::empty(),
                },
                None => Seq::empty(),
            },
    {
        if let Some(t) = self.find_execution() {
            if let Some(list) = &t.uv_requirements {
                return text::cleaned_list(list);
            }
        }
        let none: Vec<String> = Vec::new();
        assert(none.deep_view() =~= Seq::<Seq<char>>::empty());
        none
    }

    /// Whether Python keeps running between runs: unless one of the words says otherwise.
    pub fn execution_local_python_repl_enabled(&self) -> (r: bool)
        ensures
            r == match self.execution_table() {
                Some(t) => match clean_text(t.local_python_mode) {
                    Some(mode) => !starts_anew(text::ascii_lower(mode)),
                    None => true,
                },
                None => true,
            },
    {
        match self.find_execution() {
            Some(t) => match cleaned(&t.local_python_mode) {
                Some(mode) => {
                    let lower: String = text::to_ascii_lower(mode.as_str());
                    let s: &str = lower.as_str();
                    !(text::same(s, "subprocess") || text::same(s, "fresh") || text::same(
                        s,
                        "stateless",
                    ) || text::same(s, "one_shot") || text::same(s, "oneshot") || text::same(
                        s,
                        "no",
                    ) || text::same(s, "false") || text::same(s, "0"))
                },
                None => true,
            },
            None => true,
        }
    }

    /// How Python is run: the setting in small letters, with underscores for hyphens.
    pub fn execution_local_python_runtime(&self) -> (r: String)
        ensures
            r@ == match self.execution_table() {
                Some(t) => match clean_text(t.local_python_runtime) {
                    Some(s) => underscored(text::ascii_lower(s)),
                    None => "uv_managed"@,
                },
                None => "uv_managed"@,
            },
    {
        if let Some(t) = self.find_execution() {
            if let Some(s) = cleaned(&t.local_python_runtime) {
                let lower: String = text::to_ascii_lower(s.as_str());
                return with_underscores(lower.as_str());
            }
        }
        "uv_managed".to_owned()
    }

    /// The token for the kernel that code is executed in: that of the environment, or else
    /// the setting.
    pub fn execution_jupyter_token(&self, from_env: &Option<String>) -> (r: Option<String>)
        ensures
            r.deep_view() == match clean_text(*from_env) {
                Some(t) => Some(t),
                None => match self.jupyter_table() {
                    Some(t) => clean_text(t.token),
                    None => None,
                },
            },
    {
        let token: Option<String> = cleaned(from_env);
        if token.is_some() {
            return token;
        }
        match self.find_jupyter() {
            Some(t) => cleaned(&t.token),
            None => None,
        }
    }

    /// Where the kernel is that code is executed in, without slashes at the end.
    pub fn execution_jupyter_base_url(&self) -> (r: Option<String>)
        ensures
            r.deep_view() == match self.jupyter_table() {
                Some(t) => match t.base_url {
                    Some(s) => {
                        let url = text::trim_end_char(text::trim(s@), '/');
                        if url.len() == 0 {
                            None
                        } else {
                            Some(url)
                        }
                    },
                    None => None,
                },
                None => None,
            },
    {
        match self.find_jupyter() {
            Some(t) => match &t.base_url {
                Some(s) => {
                    let trimmed: String = text::trimmed(s.as_str());
                    let url: String = text::without_trailing(trimmed.as_str(), '/');
                    if url.as_str().is_empty() {
                        None
                    } else {
                        Some(url)
                    }
                },
                None => None,
            },
            None => None,
        }
    }

    /// The file with the key for the machine that code is executed on. A path in the home
    /// directory is written out; what comes of it rests on the machine.
    pub fn execution_ssh_identity_file(&self) -> (r: Option<String>)
        ensures
            match self.ssh_table() {
                Some(t) => match clean_text(t.identity_file) {
                    Some(path) => if outside::is_home_path(path) {
                        &&& r matches Some(p) ==> text::ends_with(p@, path.skip(1)) && text::trim(
                            p@,
                        ).len() > 0
                        &&& text::trim(path.skip(1)).len() > 0 ==> r is Some
                    } else {
                        r.deep_view() == Some(path)
                    },
                    None => r is None,
                },
                None => r is None,
            },
    {
        match self.find_ssh() {
            Some(t) => match cleaned(&t.identity_file) {
                Some(path) => {
                    proof {
                        text::lemma_trim_idempotent(t.identity_file->0@);
                    }
                    let expanded: String = outside::expand_tilde(path.as_str());
                    proof {
                        if outside::is_home_path(path@) && text::trim(path@.skip(1)).len() > 0 {
                            text::lemma_trim_of_tail(expanded@, path@.skip(1));
                        }
                    }
                    unless_blank(expanded)
                },
                None => None,
            },
            None => None,
        }
    }
}

/// The path that was written out, unless it is blank.
pub fn unless_blank(expanded: String) -> (r: Option<String>)
    ensures
        r == if text::trim(expanded@).len() == 0 {
            None
        } else {
            Some(expanded)
        },
{
    let trimmed: String = text::trimmed(expanded.as_str());
    if trimmed.as_str().is_empty() {
        None
    } else {
        Some(expanded)
    }
}

/// Whether the word says that Python is started anew for each run.
pub open spec fn starts_anew(mode: Seq<char>) -> bool {
    mode == "subprocess"@ || mode == "fresh"@ || mode == "stateless"@ || mode == "one_shot"@ || mode
        == "oneshot"@ || mode == "no"@ || mode == "false"@ || mode == "0"@
}

/// The text with underscores for hyphens.
pub open spec fn underscored(s: Seq<char>) -> Seq<char> {
    s.map_values(
        |c: char|
            if c == '-' {
                '_'
            } else {
                c
            },
    )
}

fn with_underscores(s: &str) -> (r: String)
    ensures
        r@ == underscored(s@),
{
    let chars: Vec<char> = text::chars_of(s);
    let mut out: String = String::new();
    let mut i: usize = 0;
    assert(out@ =~= underscored(s@).take(0));
    while i < chars.len()
        invariant
            i <= chars@.len(),
            chars@ == s@,
            out@ == underscored(s@).take(i as int),
        decreases chars@.len() - i,
    {
        let c: char = if chars[i] == '-' {
            '_'
        } else {
            chars[i]
        };
        out.push(c);
        assert(underscored(s@).take(i + 1) =~= underscored(s@).take(i as int).push(c));
        i = i + 1;
    }
    assert(underscored(s@).take(i as int) =~= underscored(s@));
    out
}

// ---------------------------------------------------------------------------
// Laws
// ---------------------------------------------------------------------------

/// A setting that was made counts, and only where none was made the default does; a number that
/// lies outside its bounds is moved to the nearer one, and one that lies within them is kept.
pub proof fn law_settings_count_within_bounds(made: u64, default_value: u64, low: int, high: int)
    requires
        low <= high,
    ensures
        setting(Some(made), default_value) == made,
        setting(None, default_value) == default_value,
        low <= made <= high ==> clamped(made as int, low, high) == made,
        made < low ==> clamped(made as int, low, high) == low,
        made > high ==> clamped(made as int, low, high) == high,
{
}

/// A text is taken as it was set, trimmed; a blank one counts as none.
pub proof fn law_blank_settings_are_none(s: String)
    ensures
        text::trim(s@).len() > 0 ==> clean_text(Some(s)) == Some(text::trim(s@)),
        text::trim(s@).len() == 0 ==> clean_text(Some(s)) is None,
        clean_text(None) is None,
{
}

/// A run takes at most a day and at least a second, an hour where nothing is said; and it goes to
/// the background before its time is up: after two minutes where nothing is said, after five
/// seconds at the least where a time is set, and never where that is zero.
pub proof fn law_runs_are_promoted_in_time(config: AppConfig, set: u64)
    ensures
        1 <= config.max_wall() <= 86400,
        config.harness is None ==> config.max_wall() == 3600 && config.auto_promote_after() == 120,
        config.execution_table() matches Some(t) ==> (t.max_wall_secs == Some(set) && 1 <= set
            <= 86400 ==> config.max_wall() == set),
        config.execution_table() matches Some(t) ==> (t.max_wall_secs is None ==> config.max_wall()
            == 3600),
        config.execution_table() is Some ==> 0 <= config.auto_promote_after()
            <= config.max_wall(),
        config.execution_table() matches Some(t) ==> (t.auto_promote_after_secs == Some(0u64)
            ==> config.auto_promote_after() == 0),
        config.execution_table() matches Some(t) ==> (t.auto_promote_after_secs == Some(set) && 5
            <= set <= config.max_wall() ==> config.auto_promote_after() == set),
        config.execution_table() matches Some(t) ==> (t.auto_promote_after_secs == Some(set) && 1
            <= set < 5 <= config.max_wall() ==> config.auto_promote_after() == 5),
        config.execution_table() matches Some(t) ==> (t.auto_promote_after_secs is None && 120
            <= config.max_wall() ==> config.auto_promote_after() == 120),
{
}

/// Each table is found in the place it is set in, and only there.
pub proof fn law_tables_are_found_in_their_places(config: AppConfig)
    ensures
        config.harness is None ==> config.execution_table() is None && config.subagents_table()
            is None && config.shell_policy_table() is None && config.hooks_table() is None
            && config.background_jobs_table() is None && config.notifications_table() is None
            && config.git_worktree_table() is None && config.kernel_porting_table() is None
            && config.ml_engineer_table() is None && config.jupyter_table() is None
            && config.ssh_table() is None,
        config.harness matches Some(h) ==> config.execution_table() == h.execution
            && config.subagents_table() == h.subagents && config.shell_policy_table()
            == h.shell_policy && config.hooks_table() == h.hooks && config.background_jobs_table()
            == h.background_jobs && config.notifications_table() == h.notifications
            && config.git_worktree_table() == h.git_worktree && config.kernel_porting_table()
            == h.kernel_porting && config.ml_engineer_table() == h.ml_engineer,
        config.harness matches Some(h) ==> (h.execution matches Some(e) ==> config.jupyter_table()
            == e.jupyter && config.ssh_table() == e.ssh),
{
}

/// Python is started anew under the eight words that say so and under no others.
pub proof fn law_words_for_a_new_start(mode: Seq<char>)
    ensures
        starts_anew(mode) <==> seq![
            "subprocess"@,
            "fresh"@,
            "stateless"@,
            "one_shot"@,
            "oneshot"@,
            "no"@,
            "false"@,
            "0"@,
        ].contains(mode),
{
    let words = seq![
        "subprocess"@,
        "fresh"@,
        "stateless"@,
        "one_shot"@,
        "oneshot"@,
        "no"@,
        "false"@,
        "0"@,
    ];
    assert(words[0] == "subprocess"@ && words[1] == "fresh"@ && words[2] == "stateless"@ && words[3]
        == "one_shot"@ && words[4] == "oneshot"@ && words[5] == "no"@ && words[6] == "false"@
        && words[7] == "0"@);
}

/// Hyphens become underscores, and no other character changes.
pub proof fn law_hyphens_become_underscores(s: Seq<char>, i: int)
    requires
        0 <= i < s.len(),
    ensures
        underscored(s).len() == s.len(),
        s[i] == '-' ==> underscored(s)[i] == '_',
        s[i] != '-' ==> underscored(s)[i] == s[i],
        !underscored(s).contains('-'),
{
    if underscored(s).contains('-') {
        let k = choose|k: int| 0 <= k < s.len() && underscored(s)[k] == '-';
        assert(s[k] == s[k]);
    }
}

} // verus!
