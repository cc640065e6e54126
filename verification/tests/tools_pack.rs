//! The built-in tool pack and the tools of the framework.

use drip::tools::pack::{
    async_bash_ended, async_bash_execute, async_bash_log_head, async_bash_prepare, async_tail_execute,
    async_tail_prepare, async_wait_execute, async_wait_prepare, builtin_tool_pack, clamp_lines,
    clamp_timeout_ms, fallback_log_preview, get_framework_tool_definitions,
    job_status_to_tool_call_status, outcome_to_result, policy_gate, resolve_async_job_reference,
    sync_complete, sync_prepare, BuiltinSchema, CommandPolicyVerdict, ToolOutcome,
    BUILTIN_TOOL_NAMES, PLAN_MODE_TOOLS,
};
use drip::tools::types::{
    AsyncBashInput, ChatAsyncToolCommandRequest, ChatAsyncToolJob, ChatAsyncToolJobStatus,
    ChatAsyncToolRuntime, ChatAsyncToolTailResult, ChatAsyncToolTaskRequest,
    ChatAsyncToolWaitResult, ChatTmuxSession, ChatTmuxSessionRuntime, ChatToolMode,
    ChatToolParameters, ChatToolRuntimeServices, ToolCallStatus, ToolData, ToolInput,
};
use drip::tui::app::job_browser::job_output;

fn schemas() -> Vec<BuiltinSchema> {
    (0..9)
        .map(|index| BuiltinSchema {
            description: format!("tool {index}"),
            parameters: ChatToolParameters::object(),
        })
        .collect()
}

fn job(id: &str, status: ChatAsyncToolJobStatus) -> ChatAsyncToolJob {
    ChatAsyncToolJob {
        command: None,
        cwd: "/w".to_string(),
        error: None,
        exit_code: None,
        finished_at: None,
        id: id.to_string(),
        log_path: "/w/job.log".to_string(),
        started_at: "2026-01-01T00:00:00Z".to_string(),
        status,
        title: "demo".to_string(),
        tool_name: "BASH_ASYNC".to_string(),
    }
}

/// A runtime that knows one job, and how much of its log was asked for last.
#[derive(Default)]
struct OneJob {
    lines: std::cell::Cell<Option<i64>>,
}

impl ChatAsyncToolRuntime for OneJob {
    fn get_job(&self, job_id: &str) -> Option<ChatAsyncToolJob> {
        (job_id == "job-1").then_some(job("job-1", ChatAsyncToolJobStatus::Running))
    }

    fn start_command(
        &self,
        _request: ChatAsyncToolCommandRequest,
    ) -> Result<ChatAsyncToolJob, String> {
        Err("no commands".to_string())
    }

    fn start_task(&self, _request: ChatAsyncToolTaskRequest) -> Result<ChatAsyncToolJob, String> {
        Err("no tasks".to_string())
    }

    fn tail_job(
        &self,
        job_id: &str,
        lines: Option<i64>,
    ) -> Result<ChatAsyncToolTailResult, String> {
        self.lines.set(lines);
        if job_id != "job-1" {
            return Err(format!("Unknown async job: {job_id}"));
        }
        Ok(ChatAsyncToolTailResult {
            job: job("job-1", ChatAsyncToolJobStatus::Running),
            lines: lines.unwrap_or(0),
            output: "one\ntwo".to_string(),
        })
    }

    fn wait_for_job(
        &self,
        job_id: &str,
        _timeout_ms: Option<i64>,
    ) -> Result<ChatAsyncToolWaitResult, String> {
        if job_id != "job-1" {
            return Err(format!("Unknown async job: {job_id}"));
        }
        Ok(ChatAsyncToolWaitResult {
            completed: true,
            job: job("job-1", ChatAsyncToolJobStatus::Completed),
        })
    }

    fn running_jobs(&self) -> Vec<ChatAsyncToolJob> {
        Vec::new()
    }

    fn take_settled_unreported(&self) -> Vec<ChatAsyncToolJob> {
        Vec::new()
    }
}

struct NoSessions;

impl ChatTmuxSessionRuntime for NoSessions {
    fn get_session(&self, _session_name: &str) -> Option<ChatTmuxSession> {
        None
    }

    fn list_sessions(&self) -> Vec<ChatTmuxSession> {
        Vec::new()
    }

    fn register_session(&self, _session: ChatTmuxSession) {}
}

fn services() -> ChatToolRuntimeServices<OneJob, NoSessions> {
    ChatToolRuntimeServices {
        async_jobs: OneJob::default(),
        tmux_sessions: NoSessions,
    }
}

#[test]
fn pack_names_match_tools_index_order() {
    let names: Vec<String> = builtin_tool_pack(schemas())
        .into_iter()
        .map(|tool| tool.name)
        .collect();
    assert_eq!(
        names,
        BUILTIN_TOOL_NAMES
            .iter()
            .map(|name| name.to_string())
            .collect::<Vec<_>>()
    );
    let modes: Vec<ChatToolMode> = builtin_tool_pack(schemas())
        .into_iter()
        .map(|tool| tool.mode)
        .collect();
    assert_eq!(modes[4], ChatToolMode::Async);
    assert!(modes
        .iter()
        .enumerate()
        .all(|(index, mode)| index == 4 || *mode == ChatToolMode::Sync));
}

#[test]
fn pack_schemas_match_builtin_definitions() {
    for (index, (tool, schema)) in builtin_tool_pack(schemas())
        .iter()
        .zip(schemas().iter())
        .enumerate()
    {
        assert_eq!(tool.description, schema.description, "{index}");
        assert_eq!(tool.parameters, schema.parameters, "{index}");
    }
}

#[test]
fn sync_adapter_preserves_success_and_failure_text() {
    let result = outcome_to_result(ToolOutcome {
        text: "1: hi".to_string(),
        failed: false,
    })
    .expect("a success stays one");
    let completion = sync_complete(&result);
    assert_eq!(completion.tool_content.as_deref(), Some("1: hi"));

    // A failure loses its prefix here; whoever reports it puts it back.
    let error = outcome_to_result(ToolOutcome {
        text: "ERROR: no such file".to_string(),
        failed: true,
    })
    .expect_err("a failure stays one");
    assert_eq!(error, "no such file");
}

#[test]
fn a_call_without_a_display_shows_its_raw_input() {
    assert_eq!(sync_prepare("not json", None).display_input, "not json");
}

#[test]
fn framework_tools_have_the_ts_names_and_clamps() {
    let names: Vec<String> = get_framework_tool_definitions()
        .into_iter()
        .map(|tool| tool.name)
        .collect();
    assert_eq!(names, vec!["ASYNC_TAIL", "ASYNC_WAIT"]);
    assert_eq!(clamp_lines(None), 80);
    assert_eq!(clamp_lines(Some(0)), 1);
    assert_eq!(clamp_lines(Some(999)), 400);
    assert_eq!(clamp_lines(Some(12.9_f64.floor() as i64)), 12);
    assert_eq!(clamp_timeout_ms(None), 60_000);
    assert_eq!(clamp_timeout_ms(Some(-5)), 0);
    assert_eq!(clamp_timeout_ms(Some(9e9 as i64)), 3_600_000);
}

#[test]
fn async_tail_reports_unknown_job() {
    let error = async_tail_execute("nope", 80, &services()).unwrap_err();
    assert!(error.contains("nope"), "{error}");
}

#[test]
fn a_tail_and_a_wait_carry_the_log() {
    let tail = async_tail_execute("job-1", 80, &services()).expect("the job is known");
    assert_eq!(
        tail.output_text.as_deref(),
        Some("Read 80 line(s) from async job job-1. Current status: running.")
    );
    assert!(matches!(tail.data, Some(ToolData::Tail(tail)) if tail.output == "one\ntwo"));
    let wait = async_wait_execute("job-1", 80, 1_000, &services()).expect("the job is known");
    assert!(
        matches!(wait.data, Some(ToolData::Wait { tail, .. }) if tail.output == "one\ntwo")
    );
}

#[test]
fn reads_of_a_log_are_clamped_when_prepared() {
    let tail = async_tail_prepare("job-1", Some(9_999));
    assert_eq!(
        tail.input,
        ToolInput::Tail {
            job_id: "job-1".to_string(),
            lines: 400
        }
    );
    let wait = async_wait_prepare("job-1", None, Some(-1));
    assert_eq!(
        wait.input,
        ToolInput::Wait {
            job_id: "job-1".to_string(),
            tail_lines: 80,
            timeout_ms: 0
        }
    );
}

#[test]
fn a_session_name_stands_for_its_job() {
    let session = ChatTmuxSession {
        attach_command: String::new(),
        cwd: String::new(),
        job_id: "job-7".to_string(),
        kill_command: String::new(),
        session_name: "drip-7".to_string(),
        started_at: String::new(),
        title: String::new(),
        tool_name: String::new(),
    };
    assert_eq!(
        resolve_async_job_reference("drip-7", false, Some(session)),
        "job-7"
    );
    assert_eq!(resolve_async_job_reference("job-1", true, None), "job-1");
    assert_eq!(resolve_async_job_reference("what", false, None), "what");
}

#[test]
fn a_command_runs_only_in_a_directory_with_tmux_and_a_fresh_session() {
    let input = || AsyncBashInput {
        absolute_cwd: "/w".to_string(),
        command: "true".to_string(),
        display_cwd: ".".to_string(),
        session_name: "drip-1".to_string(),
        title: "demo".to_string(),
    };
    let request =
        async_bash_execute(&input(), Ok(()), Ok(()), false).expect("nothing stands in the way");
    assert_eq!(request.tool_name, "BASH_ASYNC");
    assert_eq!(request.cwd.as_deref(), Some("/w"));
    assert_eq!(request.title.as_deref(), Some("demo"));

    let missing = "ENOENT".to_string();
    assert!(async_bash_execute(&input(), Err(missing.clone()), Ok(()), false).is_err());
    assert!(async_bash_execute(&input(), Ok(()), Err(missing), false).is_err());
    assert!(async_bash_execute(&input(), Ok(()), Ok(()), true).is_err());
}

#[test]
fn a_prepared_command_shows_where_and_what() {
    let cut = |command: &str, most: usize| format!("{command}<{most}");
    let prepared = async_bash_prepare("sleep 1", "/w/sub", "sub", "drip-1", None, cut);
    assert!(prepared.display_input.contains("sub"), "{prepared:?}");
    assert!(prepared.display_input.contains("sleep 1"), "{prepared:?}");
    assert!(
        matches!(&prepared.input, ToolInput::AsyncBash(input) if input.title == "tmux drip-1: sleep 1<72"),
        "{prepared:?}"
    );
    let named = async_bash_prepare("x", "/w", ".", "s", Some("given".to_string()), cut);
    assert!(matches!(&named.input, ToolInput::AsyncBash(input) if input.title == "given"));
    let head = async_bash_log_head("drip-1", "/w/sub", "sleep 1", cut).join("\n");
    assert!(head.contains("drip-1"), "{head}");
    assert!(head.contains("/w/sub"), "{head}");
    assert!(head.ends_with("[command] sleep 1<240"), "{head}");
}

#[test]
fn a_command_that_ended_badly_has_an_error() {
    assert_eq!(async_bash_ended("drip-1", Ok(Some(0))).0, None);
    assert!(async_bash_ended("drip-1", Ok(Some(2))).0.is_some());
    assert!(async_bash_ended("drip-1", Err("gone".to_string())).0.is_some());
}

#[test]
fn a_policy_refusal_is_final_unless_destruction_is_allowed() {
    let block = || CommandPolicyVerdict::Block {
        rule: "rm-rf".to_string(),
        refusal: "refused by rm-rf".to_string(),
    };
    assert_eq!(policy_gate(CommandPolicyVerdict::Allow, false, "ls"), Ok(None));
    assert!(policy_gate(block(), false, "rm -rf /").is_err());
    assert!(policy_gate(block(), true, "rm -rf /").is_ok());
}

#[test]
fn job_states_map_to_call_states() {
    assert_eq!(
        job_status_to_tool_call_status(ChatAsyncToolJobStatus::Failed),
        ToolCallStatus::Failed
    );
    assert_eq!(
        job_status_to_tool_call_status(ChatAsyncToolJobStatus::Running),
        ToolCallStatus::Running
    );
    assert_eq!(
        job_status_to_tool_call_status(ChatAsyncToolJobStatus::Completed),
        ToolCallStatus::Completed
    );
}

#[test]
fn an_empty_log_says_so() {
    assert_eq!(fallback_log_preview("a\nb"), "a\nb");
    assert!(!fallback_log_preview("   ").trim().is_empty());
    assert_eq!(PLAN_MODE_TOOLS, ["READ", "GREP", "DIR"]);
}

#[test]
fn a_job_in_detail_shows_the_end_of_its_log() {
    let jobs = OneJob::default();
    let running = job("job-1", ChatAsyncToolJobStatus::Running);
    assert_eq!(job_output(&jobs, &running), "one\ntwo");
    assert_eq!(jobs.lines.get(), Some(60));
    let gone = job("gone", ChatAsyncToolJobStatus::Running);
    assert_eq!(job_output(&jobs, &gone), "");
}
