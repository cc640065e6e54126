//! Tool definitions and what the runtimes behind them report.

use drip::tools::pack::{async_tail_execute, sync_complete, sync_input, sync_prepare};
use drip::tools::types::{
    define_async_tool, define_sync_tool, ChatAsyncToolCommandRequest, ChatAsyncToolJob,
    ChatAsyncToolJobStatus, ChatAsyncToolRuntime, ChatAsyncToolTailResult,
    ChatAsyncToolTaskRequest, ChatAsyncToolWaitResult, ChatTmuxSession, ChatTmuxSessionRuntime,
    ChatToolCompletionResult, ChatToolDefinition, ChatToolMode, ChatToolParameters, ChatToolResult,
    ChatToolRuntimeServices, ChatToolsModule, ToolProperty,
};

fn object_parameters() -> ChatToolParameters {
    let mut parameters = ChatToolParameters::object();
    parameters.properties.push(ToolProperty {
        name: "label".to_string(),
        schema: "{\"type\":\"string\"}".to_string(),
    });
    parameters.required = Some(vec!["label".to_string()]);
    parameters
}

fn stub_definition() -> ChatToolDefinition {
    ChatToolDefinition {
        name: "STUB".to_string(),
        description: "Stub tool.".to_string(),
        parameters: object_parameters(),
        mutates_workspace: false,
        mode: ChatToolMode::Sync,
    }
}

/// A completion stage of a tool outside the pack.
fn stub_complete(result: &ChatToolResult) -> ChatToolCompletionResult {
    ChatToolCompletionResult {
        blocks: Some(Vec::new()),
        tool_content: result.output_text.clone(),
    }
}

#[test]
fn chat_tool_parameters_start_as_an_empty_object() {
    let parameters = ChatToolParameters::object();
    assert_eq!(parameters.tool_type, "object");
    assert!(parameters.properties.is_empty());
    assert!(parameters.required.is_none());
    assert!(parameters.additional_properties.is_none());
}

#[test]
fn chat_async_tool_job_round_trips_optional_fields() {
    let job = ChatAsyncToolJob {
        command: None,
        cwd: "/tmp/project".to_string(),
        error: None,
        exit_code: None,
        finished_at: None,
        id: "job-1".to_string(),
        log_path: "/tmp/logs/job-1.log".to_string(),
        started_at: "2026-09-01T00:00:00.000Z".to_string(),
        status: ChatAsyncToolJobStatus::Running,
        title: "demo".to_string(),
        tool_name: "DEMO_ASYNC".to_string(),
    };
    assert_eq!(job.clone_job(), job);
    // A fresh job with no settled fields is still running.
    assert!(job.is_running());
}

#[test]
fn define_sync_tool_normalizes_the_mode() {
    let mut definition = stub_definition();
    definition.mode = ChatToolMode::Async;
    let definition = define_sync_tool(definition);

    assert_eq!(definition.mode, ChatToolMode::Sync);
    assert_eq!(definition.name, "STUB");
    assert_eq!(definition.parameters, object_parameters());
}

#[test]
fn define_async_tool_normalizes_the_mode() {
    let definition = define_async_tool(stub_definition());

    assert_eq!(definition.mode, ChatToolMode::Async);
}

#[test]
fn sync_tool_stages_run_prepare_execute_complete() {
    let prepared = sync_prepare("{\"path\":\"src/a.ts\"}", Some("src/a.ts".to_string()));
    assert_eq!(prepared.display_input, "src/a.ts");
    assert_eq!(sync_input(&prepared), "{\"path\":\"src/a.ts\"}");

    let result = ChatToolResult {
        output_text: Some("src/a.ts".to_string()),
        ..Default::default()
    };
    let completion = stub_complete(&result);
    assert_eq!(completion.tool_content.as_deref(), Some("src/a.ts"));
    assert!(completion.blocks.unwrap().is_empty());

    // The tools of the pack say the same and add no block of their own.
    let completion = sync_complete(&result);
    assert_eq!(completion.tool_content.as_deref(), Some("src/a.ts"));
    assert!(completion.blocks.is_none());
}

#[test]
fn a_throwing_stage_surfaces_as_an_error_result() {
    let services = ChatToolRuntimeServices {
        async_jobs: StubAsyncJobs,
        tmux_sessions: StubTmuxSessions,
    };
    let error = async_tail_execute("job-1", 80, &services).unwrap_err();
    assert_eq!(error, "stub async runtime has no jobs");
}

#[test]
fn chat_tools_module_holds_default_and_named_tool_lists() {
    let module = ChatToolsModule {
        default: None,
        tools: Some(vec![]),
    };

    assert!(module.default.is_none());
    assert!(module.tools.unwrap().is_empty());
}

struct StubAsyncJobs;

fn no_jobs<T>() -> Result<T, String> {
    Err("stub async runtime has no jobs".to_string())
}

impl ChatAsyncToolRuntime for StubAsyncJobs {
    fn get_job(&self, _job_id: &str) -> Option<ChatAsyncToolJob> {
        None
    }

    fn start_command(
        &self,
        _request: ChatAsyncToolCommandRequest,
    ) -> Result<ChatAsyncToolJob, String> {
        no_jobs()
    }

    fn start_task(&self, _request: ChatAsyncToolTaskRequest) -> Result<ChatAsyncToolJob, String> {
        no_jobs()
    }

    fn tail_job(
        &self,
        _job_id: &str,
        _lines: Option<i64>,
    ) -> Result<ChatAsyncToolTailResult, String> {
        no_jobs()
    }

    fn wait_for_job(
        &self,
        _job_id: &str,
        _timeout_ms: Option<i64>,
    ) -> Result<ChatAsyncToolWaitResult, String> {
        no_jobs()
    }

    fn running_jobs(&self) -> Vec<ChatAsyncToolJob> {
        Vec::new()
    }

    fn take_settled_unreported(&self) -> Vec<ChatAsyncToolJob> {
        Vec::new()
    }
}

struct StubTmuxSessions;

impl ChatTmuxSessionRuntime for StubTmuxSessions {
    fn get_session(&self, _session_name: &str) -> Option<ChatTmuxSession> {
        None
    }

    fn list_sessions(&self) -> Vec<ChatTmuxSession> {
        Vec::new()
    }

    fn register_session(&self, _session: ChatTmuxSession) {}
}
