//! The tool-definition contract: parameters, modes, background jobs and the
//! values that the three stages of a tool hand on.

use std::collections::BTreeMap;
use vstd::prelude::*;
use crate::transcript::clone_opt;

verus! {

/// One argument of a tool: its name and the JSON text of its schema.
#[derive(Debug, PartialEq)]
pub struct ToolProperty {
    pub name: String,
    pub schema: String,
}

/// What a property says.
pub open spec fn property_model(p: ToolProperty) -> (Seq<char>, Seq<char>) {
    (p.name@, p.schema@)
}

/// What the properties of a sequence say.
pub open spec fn property_models(v: Seq<ToolProperty>) -> Seq<(Seq<char>, Seq<char>)> {
    Seq::new(v.len(), |i: int| property_model(v[i]))
}

/// The JSON schema of a tool's arguments, the properties in the order of their
/// names; its type is always `object`.
#[derive(Debug, PartialEq)]
pub struct ChatToolParameters {
    pub additional_properties: Option<bool>,
    pub properties: Vec<ToolProperty>,
    pub required: Option<Vec<String>>,
    pub tool_type: String,
}

impl ChatToolParameters {
    /// A schema without properties.
    pub fn object() -> (r: Self)
        ensures
            r.additional_properties is None,
            r.properties@.len() == 0,
            r.required is None,
            r.tool_type@ == "object"@,
    {
        ChatToolParameters {
            additional_properties: None,
            properties: Vec::new(),
            required: None,
            tool_type: "object".to_string(),
        }
    }
}

/// Whether a tool answers at once or starts background work.
#[derive(Clone, Copy, Debug, PartialEq, Eq, Structural)]
pub enum ChatToolMode {
    Async,
    Sync,
}

impl Default for ChatToolMode {
    fn default() -> (r: Self)
        ensures
            r == ChatToolMode::Sync,
    {
        ChatToolMode::Sync
    }
}

/// The state of a background job.
#[derive(Clone, Copy, Debug, PartialEq, Eq, Structural)]
pub enum ChatAsyncToolJobStatus {
    Completed,
    Failed,
    Running,
}

/// The state of a tool call.
#[derive(Clone, Copy, Debug, PartialEq, Eq, Structural)]
pub enum ToolCallStatus {
    Completed,
    Failed,
    Running,
}

/// One background job.
#[derive(Debug, PartialEq)]
pub struct ChatAsyncToolJob {
    pub command: Option<String>,
    pub cwd: String,
    pub error: Option<String>,
    /// Absent while running, `Some(None)` when the process ended without a
    /// status, a number otherwise.
    pub exit_code: Option<Option<i32>>,
    pub finished_at: Option<String>,
    pub id: String,
    pub log_path: String,
    pub started_at: String,
    pub status: ChatAsyncToolJobStatus,
    pub title: String,
    pub tool_name: String,
}

impl Clone for ChatAsyncToolJob {
    fn clone(&self) -> (r: Self)
        ensures
            r == *self,
    {
        ChatAsyncToolJob {
            command: clone_opt(&self.command),
            cwd: self.cwd.clone(),
            error: clone_opt(&self.error),
            exit_code: self.exit_code,
            finished_at: clone_opt(&self.finished_at),
            id: self.id.clone(),
            log_path: self.log_path.clone(),
            started_at: self.started_at.clone(),
            status: self.status,
            title: self.title.clone(),
            tool_name: self.tool_name.clone(),
        }
    }
}

impl ChatAsyncToolJob {
    /// A structural copy.
    pub fn clone_job(&self) -> (r: Self)
        ensures
            r == *self,
    {
        self.clone()
    }

    pub fn is_running(&self) -> (r: bool)
        ensures
            r == (self.status == ChatAsyncToolJobStatus::Running),
    {
        self.status == ChatAsyncToolJobStatus::Running
    }
}

/// The last lines of a job's log.
#[derive(Debug, PartialEq)]
pub struct ChatAsyncToolTailResult {
    pub job: ChatAsyncToolJob,
    pub lines: i64,
    pub output: String,
}

/// How a wait for a job ended.
#[derive(Debug, PartialEq)]
pub struct ChatAsyncToolWaitResult {
    pub completed: bool,
    pub job: ChatAsyncToolJob,
}

/// Where a background task writes its log.
pub trait ChatAsyncToolLogger {
    fn append(&self, text: &str) -> Result<(), String>;

    fn line(&self, text: &str) -> Result<(), String>;

    fn log(&self, text: &str) -> Result<(), String>;

    fn job_id(&self) -> String;

    fn log_path(&self) -> String;
}

/// A tmux session that a background command runs in.
#[derive(Debug, PartialEq)]
pub struct ChatTmuxSession {
    pub attach_command: String,
    pub cwd: String,
    pub job_id: String,
    pub kill_command: String,
    pub session_name: String,
    pub started_at: String,
    pub title: String,
    pub tool_name: String,
}

/// The tmux sessions that background commands run in.
pub trait ChatTmuxSessionRuntime {
    fn get_session(&self, session_name: &str) -> Option<ChatTmuxSession>;

    fn list_sessions(&self) -> Vec<ChatTmuxSession>;

    fn register_session(&self, session: ChatTmuxSession);
}

/// A command to start in the background.
#[derive(Debug, PartialEq)]
pub struct ChatAsyncToolCommandRequest {
    pub args: Option<Vec<String>>,
    pub command: String,
    pub cwd: Option<String>,
    pub env: Option<BTreeMap<String, String>>,
    pub title: Option<String>,
    pub tool_name: String,
}

/// A task to start in the background.
#[derive(Debug, PartialEq)]
pub struct ChatAsyncToolTaskRequest {
    pub cwd: Option<String>,
    pub title: Option<String>,
    pub tool_name: String,
}

/// The background jobs of a session.
pub trait ChatAsyncToolRuntime {
    fn get_job(&self, job_id: &str) -> Option<ChatAsyncToolJob>;

    fn start_command(&self, request: ChatAsyncToolCommandRequest) -> Result<
        ChatAsyncToolJob,
        String,
    >;

    fn start_task(&self, request: ChatAsyncToolTaskRequest) -> Result<ChatAsyncToolJob, String>;

    fn tail_job(&self, job_id: &str, lines: Option<i64>) -> Result<ChatAsyncToolTailResult, String>;

    fn wait_for_job(&self, job_id: &str, timeout_ms: Option<i64>) -> Result<
        ChatAsyncToolWaitResult,
        String,
    >;

    fn running_jobs(&self) -> Vec<ChatAsyncToolJob>;

    fn take_settled_unreported(&self) -> Vec<ChatAsyncToolJob>;
}

/// What a running tool may call on.
pub struct ChatToolRuntimeServices<J: ChatAsyncToolRuntime, T: ChatTmuxSessionRuntime> {
    pub async_jobs: J,
    pub tmux_sessions: T,
}

/// The arguments of a background command.
#[derive(Debug, PartialEq)]
pub struct AsyncBashInput {
    pub absolute_cwd: String,
    pub command: String,
    pub display_cwd: String,
    pub session_name: String,
    pub title: String,
}

/// The arguments that the prepare stage hands on.
#[derive(Debug, PartialEq)]
pub enum ToolInput {
    /// The raw input, for a tool that parses it when it runs.
    Raw(String),
    AsyncBash(AsyncBashInput),
    Tail { job_id: String, lines: i64 },
    Wait { job_id: String, tail_lines: i64, timeout_ms: i64 },
}

/// What the prepare stage hands on.
#[derive(Debug, PartialEq)]
pub struct ChatToolPreparedInput {
    /// How the call is shown.
    pub display_input: String,
    pub input: ToolInput,
}

/// A started tmux session.
#[derive(Debug, PartialEq)]
pub struct AsyncBashData {
    pub attach_command: String,
    pub command: String,
    pub cwd: String,
    pub kill_command: String,
    pub session_name: String,
}

/// The data that the execute stage hands on.
#[derive(Debug, PartialEq)]
pub enum ToolData {
    AsyncBash(AsyncBashData),
    Tail(ChatAsyncToolTailResult),
    Wait { wait: ChatAsyncToolWaitResult, tail: ChatAsyncToolTailResult },
}

/// What the execute stage hands on.
#[derive(Debug, PartialEq)]
pub struct ChatToolResult {
    pub async_job: Option<ChatAsyncToolJob>,
    pub data: Option<ToolData>,
    pub error: Option<String>,
    pub output_text: Option<String>,
    /// Overrides the state of the tool call.
    pub status: Option<ToolCallStatus>,
}

impl Default for ChatToolResult {
    fn default() -> (r: Self)
        ensures
            r.async_job is None,
            r.data is None,
            r.error is None,
            r.output_text is None,
            r.status is None,
    {
        ChatToolResult {
            async_job: None,
            data: None,
            error: None,
            output_text: None,
            status: None,
        }
    }
}

/// A block that the complete stage shows.
#[derive(Debug, PartialEq)]
pub enum ChatMessageBlock {
    Text { text: String },
    Completion { code: String, description: String, language: String, path: String },
}

/// What the complete stage hands on.
#[derive(Debug, PartialEq)]
pub struct ChatToolCompletionResult {
    pub blocks: Option<Vec<ChatMessageBlock>>,
    pub tool_content: Option<String>,
}

/// A call to the prepare stage.
pub struct ChatToolPrepareRequest<'a> {
    pub call_id: &'a str,
    pub cwd: &'a str,
    pub raw_input: &'a str,
}

/// A call to the execute stage.
pub struct ChatToolExecuteRequest<'a> {
    pub call_id: &'a str,
    pub cwd: &'a str,
    pub prepared: &'a ChatToolPreparedInput,
}

/// A call to the complete stage.
pub struct ChatToolCompleteRequest<'a> {
    pub call_id: &'a str,
    pub cwd: &'a str,
    pub prepared: &'a ChatToolPreparedInput,
    pub result: &'a ChatToolResult,
}

/// What a tool's name, schema and mode say of it.
#[derive(Debug, PartialEq)]
pub struct ChatToolDefinition {
    pub name: String,
    pub description: String,
    pub parameters: ChatToolParameters,
    /// Declares progress for stall accounting.
    pub mutates_workspace: bool,
    pub mode: ChatToolMode,
}

/// Whether two definitions differ in the mode at most.
pub open spec fn same_but_mode(a: ChatToolDefinition, b: ChatToolDefinition) -> bool {
    &&& a.name == b.name
    &&& a.description == b.description
    &&& a.parameters == b.parameters
    &&& a.mutates_workspace == b.mutates_workspace
}

/// The definition with its mode set to `Sync`.
pub fn define_sync_tool(definition: ChatToolDefinition) -> (r: ChatToolDefinition)
    ensures
        r.mode == ChatToolMode::Sync,
        same_but_mode(r, definition),
{
    let mut d = definition;
    d.mode = ChatToolMode::Sync;
    d
}

/// The definition with its mode set to `Async`.
pub fn define_async_tool(definition: ChatToolDefinition) -> (r: ChatToolDefinition)
    ensures
        r.mode == ChatToolMode::Async,
        same_but_mode(r, definition),
{
    let mut d = definition;
    d.mode = ChatToolMode::Async;
    d
}

/// The tools that a module offers.
pub struct ChatToolsModule {
    pub default: Option<Vec<ChatToolDefinition>>,
    pub tools: Option<Vec<ChatToolDefinition>>,
}

} // verus!
