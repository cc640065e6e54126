//! The built-in tools: the sync adapter, background bash commands, and the two
//! framework tools that read and await background jobs.

use vstd::prelude::*;
use crate::text;
use crate::text::{blank, concat2, concat3, format_signed, join_texts, skip_chars, starts_with};
use crate::tools::types;
use crate::tools::types::{
    define_async_tool, define_sync_tool, AsyncBashData, AsyncBashInput, ChatAsyncToolJob,
    ChatAsyncToolJobStatus, ChatAsyncToolRuntime, ChatAsyncToolTailResult,
    ChatAsyncToolTaskRequest, ChatAsyncToolWaitResult, ChatMessageBlock, ChatTmuxSession,
    ChatTmuxSessionRuntime, ChatToolCompleteRequest, ChatToolCompletionResult,
    ChatToolDefinition, ChatToolMode, ChatToolParameters, ChatToolPreparedInput, ChatToolResult,
    ChatToolRuntimeServices, ToolCallStatus, ToolData, ToolInput, ToolProperty,
};
use crate::transcript::clone_opt;

verus! {

/// The built-in tools, in the order in which they are offered.
pub const BUILTIN_TOOL_NAMES: [&'static str; 9] = [
    "READ",
    "PATCH",
    "DIR",
    "BASH",
    "BASH_ASYNC",
    "GREP",
    "VERIFY",
    "FETCH",
    "CHECK",
];

/// The tools that plan mode offers.
pub const PLAN_MODE_TOOLS: [&'static str; 3] = ["READ", "GREP", "DIR"];

// ---------------------------------------------------------------------------
// The sync adapter
// ---------------------------------------------------------------------------

/// How a built-in tool ended.
#[derive(Debug, PartialEq)]
pub struct ToolOutcome {
    pub text: String,
    pub failed: bool,
}

/// What marks the text of an error that a stage raised.
pub const ERROR_PREFIX: &'static str = "ERROR: ";

/// Whether an outcome is an error that a stage raised, not a failed report.
pub open spec fn is_raised(text: Seq<char>, failed: bool) -> bool {
    failed && text::occurs_at(text, ERROR_PREFIX@, 0)
}

/// The execute stage of an outcome. An error that was raised comes back as
/// `Err` without its prefix; a report that failed keeps its text and marks the
/// call as failed.
pub fn outcome_to_result(outcome: ToolOutcome) -> (r: Result<ChatToolResult, String>)
    ensures
        match r {
            Err(message) => is_raised(outcome.text@, outcome.failed) && message@
                == outcome.text@.skip(ERROR_PREFIX@.len() as int),
            Ok(result) => {
                &&& !is_raised(outcome.text@, outcome.failed)
                &&& result.async_job is None
                &&& result.data is None
                &&& result.error is None
                &&& result.output_text == Some(outcome.text)
                &&& result.status == (if outcome.failed {
                    Some(ToolCallStatus::Failed)
                } else {
                    None
                })
            },
        },
{
    if outcome.failed {
        if starts_with(outcome.text.as_str(), ERROR_PREFIX) {
            let n: usize = ERROR_PREFIX.unicode_len();
            return Err(skip_chars(outcome.text.as_str(), n));
        }
        return Ok(
            ChatToolResult {
                async_job: None,
                data: None,
                error: None,
                output_text: Some(outcome.text),
                status: Some(ToolCallStatus::Failed),
            },
        );
    }
    Ok(
        ChatToolResult {
            async_job: None,
            data: None,
            error: None,
            output_text: Some(outcome.text),
            status: None,
        },
    )
}

/// The prepare stage of a sync tool: the raw input is handed on, and shown
/// where the tool has no better way to show it.
pub fn sync_prepare(raw_input: &str, display: Option<String>) -> (r: ChatToolPreparedInput)
    ensures
        r.display_input@ == (match display {
            Some(d) => d@,
            None => raw_input@,
        }),
        r.input matches ToolInput::Raw(s) && s@ == raw_input@,
{
    ChatToolPreparedInput {
        display_input: match display {
            Some(d) => d,
            None => raw_input.to_string(),
        },
        input: ToolInput::Raw(raw_input.to_string()),
    }
}

/// The raw input that a sync tool runs on.
pub fn sync_input(prepared: &ChatToolPreparedInput) -> (r: String)
    ensures
        r@ == (match prepared.input {
            ToolInput::Raw(s) => s@,
            _ => Seq::empty(),
        }),
{
    match &prepared.input {
        ToolInput::Raw(s) => s.clone(),
        _ => String::new(),
    }
}

/// The complete stage of a sync tool: its text is the tool's message.
pub fn sync_complete(result: &ChatToolResult) -> (r: ChatToolCompletionResult)
    ensures
        r.blocks is None,
        r.tool_content == result.output_text,
{
    ChatToolCompletionResult { blocks: None, tool_content: clone_opt(&result.output_text) }
}

// ---------------------------------------------------------------------------
// Background bash commands
// ---------------------------------------------------------------------------

/// What the command policy says of a command.
pub enum CommandPolicyVerdict {
    Allow,
    /// Refused by a rule; `refusal` is what the model is told.
    Block { rule: String, refusal: String },
}

/// The line that says that a refused command runs after all.
pub open spec fn policy_notice(rule: Seq<char>, command: Seq<char>) -> Seq<char> {
    "[policy] allowing destructive command (rule "@ + rule + ", --allow-destructive): "@ + command
}

/// The switch in front of a command: `Err` with the refusal where a rule blocks
/// it, else the notice to print, where there is one.
pub fn policy_gate(verdict: CommandPolicyVerdict, allow_destructive: bool, command: &str) -> (r:
    Result<Option<String>, String>)
    ensures
        match (verdict, r) {
            (CommandPolicyVerdict::Allow, Ok(notice)) => notice is None,
            (CommandPolicyVerdict::Block { rule, refusal }, Ok(notice)) => allow_destructive
                && notice is Some && notice->0@ == policy_notice(rule@, command@),
            (CommandPolicyVerdict::Block { rule, refusal }, Err(message)) => !allow_destructive
                && message == refusal,
            _ => false,
        },
{
    match verdict {
        CommandPolicyVerdict::Allow => Ok(None),
        CommandPolicyVerdict::Block { rule, refusal } => {
            if allow_destructive {
                let head = concat3(
                    "[policy] allowing destructive command (rule ",
                    rule.as_str(),
                    ", --allow-destructive): ",
                );
                Ok(Some(concat2(head.as_str(), command)))
            } else {
                Err(refusal)
            }
        },
    }
}

/// How many characters of a background command its title may show.
pub const BASH_TITLE_CHARS: usize = 72;

/// How many characters of a background command its log may show.
pub const BASH_LOG_CHARS: usize = 240;

/// The title of a background command where none was given: the session's name
/// and `brief`, the command cut to `BASH_TITLE_CHARS`.
pub open spec fn bash_title(session_name: Seq<char>, brief: Seq<char>) -> Seq<char> {
    "tmux "@ + session_name + ": "@ + brief
}

/// The prepare stage of a background command. `cut` puts a command on one line
/// of at most so many characters.
pub fn async_bash_prepare<C: Fn(&str, usize) -> String>(
    command: &str,
    absolute_cwd: &str,
    display_cwd: &str,
    session_name: &str,
    title: Option<String>,
    cut: C,
) -> (r: ChatToolPreparedInput)
    requires
        call_requires(cut, (command, BASH_TITLE_CHARS)),
    ensures
        r.display_input@ == display_cwd@ + "\nsession "@ + session_name@ + "\n"@ + command@,
        r.input matches ToolInput::AsyncBash(input) && {
            &&& input.absolute_cwd@ == absolute_cwd@
            &&& input.command@ == command@
            &&& input.display_cwd@ == display_cwd@
            &&& input.session_name@ == session_name@
            &&& match title {
                Some(t) => input.title@ == t@,
                None => exists|brief: String|
                    #[trigger] call_ensures(cut, (command, BASH_TITLE_CHARS), brief)
                        && input.title@ == bash_title(session_name@, brief@),
            }
        },
{
    let mut shown = concat3(display_cwd, "\nsession ", session_name);
    shown.append("\n");
    shown.append(command);
    let title = match title {
        Some(t) => t,
        None => {
            let brief = cut(command, BASH_TITLE_CHARS);
            let mut t = concat3("tmux ", session_name, ": ");
            t.append(brief.as_str());
            assert(t@ == bash_title(session_name@, brief@));
            t
        },
    };
    ChatToolPreparedInput {
        display_input: shown,
        input: ToolInput::AsyncBash(
            AsyncBashInput {
                absolute_cwd: absolute_cwd.to_string(),
                command: command.to_string(),
                display_cwd: display_cwd.to_string(),
                session_name: session_name.to_string(),
                title,
            },
        ),
    }
}

/// The command that attaches to a session.
pub open spec fn attach_text(session_name: Seq<char>) -> Seq<char> {
    "tmux attach -t "@ + session_name
}

/// The command that kills a session.
pub open spec fn kill_text(session_name: Seq<char>) -> Seq<char> {
    "tmux kill-session -t "@ + session_name
}

/// What is said where a session of that name runs already.
pub open spec fn session_taken(session_name: Seq<char>) -> Seq<char> {
    "tmux session \""@ + session_name + "\" already exists. Choose a different sessionName."@
}

/// What stands in the way of a background command, the first thing first: the
/// directory, tmux itself, a session of the same name.
pub open spec fn async_bash_obstacle(
    input: AsyncBashInput,
    directory: Result<(), String>,
    tmux: Result<(), String>,
    session_exists: bool,
) -> Option<Seq<char>> {
    match (directory, tmux) {
        (Err(message), _) => Some(message@),
        (Ok(_), Err(message)) => Some(message@),
        (Ok(_), Ok(_)) => if session_exists {
            Some(session_taken(input.session_name@))
        } else {
            None
        },
    }
}

/// Decides whether a background command may start, and what task to start.
pub fn async_bash_execute(
    input: &AsyncBashInput,
    directory: Result<(), String>,
    tmux: Result<(), String>,
    session_exists: bool,
) -> (r: Result<ChatAsyncToolTaskRequest, String>)
    ensures
        match r {
            Err(message) => async_bash_obstacle(*input, directory, tmux, session_exists) == Some(
                message@,
            ),
            Ok(request) => {
                &&& async_bash_obstacle(*input, directory, tmux, session_exists) is None
                &&& request.cwd == Some(input.absolute_cwd)
                &&& request.title == Some(input.title)
                &&& request.tool_name@ == "BASH_ASYNC"@
            },
        },
{
    match directory {
        Err(message) => {
            return Err(message);
        },
        Ok(_) => {},
    }
    match tmux {
        Err(message) => {
            return Err(message);
        },
        Ok(_) => {},
    }
    if session_exists {
        return Err(
            concat3(
                "tmux session \"",
                input.session_name.as_str(),
                "\" already exists. Choose a different sessionName.",
            ),
        );
    }
    Ok(
        ChatAsyncToolTaskRequest {
            cwd: Some(input.absolute_cwd.clone()),
            title: Some(input.title.clone()),
            tool_name: "BASH_ASYNC".to_string(),
        },
    )
}

/// The first lines of a background command's log; `brief` is the command cut to
/// `BASH_LOG_CHARS`.
pub open spec fn log_head(
    session_name: Seq<char>,
    cwd: Seq<char>,
    brief: Seq<char>,
) -> Seq<Seq<char>> {
    seq![
        "[session] "@ + session_name,
        "[attach] "@ + attach_text(session_name),
        "[kill] "@ + kill_text(session_name),
        "[cwd] "@ + cwd,
        "[command] "@ + brief,
    ]
}

/// The first lines of a background command's log. `cut` puts a command on one
/// line of at most so many characters.
pub fn async_bash_log_head<C: Fn(&str, usize) -> String>(
    session_name: &str,
    cwd: &str,
    command: &str,
    cut: C,
) -> (r: Vec<String>)
    requires
        call_requires(cut, (command, BASH_LOG_CHARS)),
    ensures
        exists|brief: String|
            #[trigger] call_ensures(cut, (command, BASH_LOG_CHARS), brief) && text::texts(r@)
                == log_head(session_name@, cwd@, brief@),
{
    let brief = cut(command, BASH_LOG_CHARS);
    let attach = concat2("tmux attach -t ", session_name);
    let kill = concat2("tmux kill-session -t ", session_name);
    let mut out: Vec<String> = Vec::new();
    out.push(concat2("[session] ", session_name));
    out.push(concat2("[attach] ", attach.as_str()));
    out.push(concat2("[kill] ", kill.as_str()));
    out.push(concat2("[cwd] ", cwd));
    out.push(concat2("[command] ", brief.as_str()));
    assert(text::texts(out@) =~= log_head(session_name@, cwd@, brief@));
    out
}

/// What a session's end comes to: nothing for exit code zero, else the error.
pub open spec fn session_error(
    session_name: Seq<char>,
    exit: Result<Option<i32>, String>,
) -> Option<Seq<char>> {
    match exit {
        Err(message) => Some(message@),
        Ok(None) => Some(
            "tmux session \""@ + session_name + "\" ended before an exit status was available."@,
        ),
        Ok(Some(code)) => if code == 0 {
            None
        } else {
            Some(
                "tmux session \""@ + session_name + "\" exited with code "@ + text::signed_decimal(
                    code as int,
                ) + "."@,
            )
        },
    }
}

/// The lines that a session's end leaves in the log.
pub open spec fn session_log_tail(
    session_name: Seq<char>,
    exit: Result<Option<i32>, String>,
) -> Seq<Seq<char>> {
    let status = match exit {
        Ok(Some(code)) => seq![
            "[tmux-exit] session="@ + session_name + " exitCode="@ + text::signed_decimal(
                code as int,
            ),
        ],
        _ => Seq::empty(),
    };
    match session_error(session_name, exit) {
        Some(error) => status.push("[tmux-error] "@ + error),
        None => status,
    }
}

/// How a background command ended: the error, if any, and the lines that the
/// log still gets.
pub fn async_bash_ended(session_name: &str, exit: Result<Option<i32>, String>) -> (r: (
    Option<String>,
    Vec<String>,
))
    ensures
        text::opt_text(r.0) == session_error(session_name@, exit),
        text::texts(r.1@) == session_log_tail(session_name@, exit),
{
    let mut lines: Vec<String> = Vec::new();
    let error: Option<String>;
    assert(text::texts(lines@) =~= Seq::empty());
    broadcast use text::lemma_texts_push;

    match exit {
        Err(message) => {
            error = Some(message);
        },
        Ok(None) => {
            error = Some(
                concat3(
                    "tmux session \"",
                    session_name,
                    "\" ended before an exit status was available.",
                ),
            );
        },
        Ok(Some(code)) => {
            let shown = format_signed(code as i64);
            let mut line = concat3("[tmux-exit] session=", session_name, " exitCode=");
            line.append(shown.as_str());
            lines.push(line);
            assert(text::texts(lines@) =~= seq![
                "[tmux-exit] session="@ + session_name@ + " exitCode="@ + text::signed_decimal(
                    code as int,
                ),
            ]);
            if code == 0 {
                error = None;
            } else {
                let mut m = concat3("tmux session \"", session_name, "\" exited with code ");
                m.append(shown.as_str());
                m.append(".");
                error = Some(m);
            }
        },
    }
    match &error {
        Some(m) => {
            lines.push(concat2("[tmux-error] ", m.as_str()));
        },
        None => {},
    }
    (error, lines)
}

/// Whether a result reports that a background command was started.
pub open spec fn reports_started(
    input: AsyncBashInput,
    job: ChatAsyncToolJob,
    result: ChatToolResult,
) -> bool {
    &&& result.async_job == Some(job)
    &&& result.data matches Some(ToolData::AsyncBash(data)) && {
        &&& data.attach_command@ == attach_text(input.session_name@)
        &&& data.command == input.command
        &&& data.cwd == input.absolute_cwd
        &&& data.kill_command@ == kill_text(input.session_name@)
        &&& data.session_name == input.session_name
    }
    &&& result.error is None
    &&& result.output_text is Some
    &&& result.output_text->0@ == "Started background bash command in tmux session "@
        + input.session_name@ + "."@
    &&& result.status == Some(ToolCallStatus::Running)
}

/// The session to register and the result to hand on once the job of a
/// background command was started.
pub fn async_bash_started(input: AsyncBashInput, job: ChatAsyncToolJob) -> (r: (
    ChatTmuxSession,
    ChatToolResult,
))
    ensures
        r.0.attach_command@ == attach_text(input.session_name@),
        r.0.cwd == input.absolute_cwd,
        r.0.job_id == job.id,
        r.0.kill_command@ == kill_text(input.session_name@),
        r.0.session_name == input.session_name,
        r.0.started_at == job.started_at,
        r.0.title == input.title,
        r.0.tool_name@ == "BASH_ASYNC"@,
        reports_started(input, job, r.1),
{
    let attach = concat2("tmux attach -t ", input.session_name.as_str());
    let kill = concat2("tmux kill-session -t ", input.session_name.as_str());
    let said = concat3(
        "Started background bash command in tmux session ",
        input.session_name.as_str(),
        ".",
    );
    let session = ChatTmuxSession {
        attach_command: attach.clone(),
        cwd: input.absolute_cwd.clone(),
        job_id: job.id.clone(),
        kill_command: kill.clone(),
        session_name: input.session_name.clone(),
        started_at: job.started_at.clone(),
        title: input.title,
        tool_name: "BASH_ASYNC".to_string(),
    };
    let result = ChatToolResult {
        async_job: Some(job),
        data: Some(
            ToolData::AsyncBash(
                AsyncBashData {
                    attach_command: attach,
                    command: input.command,
                    cwd: input.absolute_cwd,
                    kill_command: kill,
                    session_name: input.session_name,
                },
            ),
        ),
        error: None,
        output_text: Some(said),
        status: Some(ToolCallStatus::Running),
    };
    (session, result)
}

/// What a block shows.
pub ghost enum BlockModel {
    Text(Seq<char>),
    Completion(Seq<char>, Seq<char>, Seq<char>, Seq<char>),
}

impl View for ChatMessageBlock {
    type V = BlockModel;

    open spec fn view(&self) -> BlockModel {
        match *self {
            ChatMessageBlock::Text { text } => BlockModel::Text(text@),
            ChatMessageBlock::Completion { code, description, language, path } => {
                BlockModel::Completion(code@, description@, language@, path@)
            },
        }
    }
}

/// What the blocks of a sequence show.
pub open spec fn block_models(v: Seq<ChatMessageBlock>) -> Seq<BlockModel> {
    Seq::new(v.len(), |i: int| v[i]@)
}

/// The name, attach command and kill command of a started session; empty texts
/// where the result holds none.
pub open spec fn session_data(result: ChatToolResult) -> (Seq<char>, Seq<char>, Seq<char>) {
    match result.data {
        Some(ToolData::AsyncBash(data)) => (
            data.session_name@,
            data.attach_command@,
            data.kill_command@,
        ),
        _ => (Seq::empty(), Seq::empty(), Seq::empty()),
    }
}

/// Three lines that say how to reach a session.
pub open spec fn session_lines(
    first: Seq<char>,
    attach: Seq<char>,
    kill: Seq<char>,
) -> Seq<char> {
    first + "\nAttach: "@ + attach + "\nKill: "@ + kill
}

fn session_message(first: String, attach: &str, kill: &str) -> (r: String)
    ensures
        r@ == session_lines(first@, attach@, kill@),
{
    let mut out = first;
    out.append("\nAttach: ");
    out.append(attach);
    out.append("\nKill: ");
    out.append(kill);
    out
}

/// The complete stage of a background command.
pub fn async_bash_complete(request: ChatToolCompleteRequest<'_>) -> (r: ChatToolCompletionResult)
    ensures
        ({
            let (name, attach, kill) = session_data(*request.result);
            &&& r.blocks is Some
            &&& block_models(r.blocks->0@) == seq![
                BlockModel::Text(
                    session_lines("Started tmux session "@ + name + "."@, attach, kill),
                ),
            ]
            &&& r.tool_content is Some
            &&& r.tool_content->0@ == session_lines(
                "Started background bash command in tmux session "@ + name + "."@,
                attach,
                kill,
            )
        }),
{
    let (name, attach, kill) = match &request.result.data {
        Some(ToolData::AsyncBash(data)) => (
            data.session_name.clone(),
            data.attach_command.clone(),
            data.kill_command.clone(),
        ),
        _ => (String::new(), String::new(), String::new()),
    };
    let shown = session_message(
        concat3("Started tmux session ", name.as_str(), "."),
        attach.as_str(),
        kill.as_str(),
    );
    let told = session_message(
        concat3("Started background bash command in tmux session ", name.as_str(), "."),
        attach.as_str(),
        kill.as_str(),
    );
    let ghost want = seq![BlockModel::Text(shown@)];
    let mut blocks: Vec<ChatMessageBlock> = Vec::new();
    blocks.push(ChatMessageBlock::Text { text: shown });
    assert(block_models(blocks@) =~= want);
    ChatToolCompletionResult { blocks: Some(blocks), tool_content: Some(told) }
}

// ---------------------------------------------------------------------------
// Background jobs
// ---------------------------------------------------------------------------

/// A number within bounds.
pub open spec fn clamped(n: int, low: int, high: int) -> int {
    if n < low {
        low
    } else if n > high {
        high
    } else {
        n
    }
}

/// How many log lines are read where `value` were asked for.
pub open spec fn lines_read(value: Option<i64>) -> int {
    match value {
        None => 80,
        Some(n) => clamped(n as int, 1, 400),
    }
}

/// How many milliseconds are waited where `value` were asked for.
pub open spec fn time_waited(value: Option<i64>) -> int {
    match value {
        None => 60_000,
        Some(n) => clamped(n as int, 0, 3_600_000),
    }
}

/// How many log lines to read: a whole number, rounded down, kept within
/// bounds.
pub fn clamp_lines(value: Option<i64>) -> (r: i64)
    ensures
        r == (match value {
            None => 80,
            Some(n) => clamped(n as int, 1, 400),
        }),
        r == lines_read(value),
{
    match value {
        None => 80,
        Some(n) => if n < 1 {
            1
        } else if n > 400 {
            400
        } else {
            n
        },
    }
}

/// How long to wait, in milliseconds: a whole number, rounded down, kept
/// within bounds.
pub fn clamp_timeout_ms(value: Option<i64>) -> (r: i64)
    ensures
        r == (match value {
            None => 60_000,
            Some(n) => clamped(n as int, 0, 3_600_000),
        }),
        r == time_waited(value),
{
    match value {
        None => 60_000,
        Some(n) => if n < 0 {
            0
        } else if n > 3_600_000 {
            3_600_000
        } else {
            n
        },
    }
}

/// What is shown of a log.
pub open spec fn log_preview(output: Seq<char>) -> Seq<char> {
    if text::is_blank(output) {
        "[log file is empty]"@
    } else {
        output
    }
}

/// What is shown of a log: itself, or that it is empty.
pub fn fallback_log_preview(output: &str) -> (r: String)
    ensures
        r@ == log_preview(output@),
{
    if blank(output) {
        "[log file is empty]".to_string()
    } else {
        output.to_string()
    }
}

/// The job that a reference names: a job of that id, else the job of the
/// session of that name, else the reference as it is.
pub open spec fn job_reference(
    reference: Seq<char>,
    is_job: bool,
    session: Option<ChatTmuxSession>,
) -> Seq<char> {
    if is_job {
        reference
    } else {
        match session {
            Some(s) => s.job_id@,
            None => reference,
        }
    }
}

/// The job that a reference names.
pub fn resolve_async_job_reference(
    reference: &str,
    is_job: bool,
    session: Option<ChatTmuxSession>,
) -> (r: String)
    ensures
        r@ == job_reference(reference@, is_job, session),
{
    if is_job {
        return reference.to_string();
    }
    match session {
        Some(s) => s.job_id,
        None => reference.to_string(),
    }
}

/// The name of a job's state.
pub open spec fn status_name(status: ChatAsyncToolJobStatus) -> Seq<char> {
    match status {
        ChatAsyncToolJobStatus::Running => "running"@,
        ChatAsyncToolJobStatus::Failed => "failed"@,
        ChatAsyncToolJobStatus::Completed => "completed"@,
    }
}

pub fn job_status_text(status: ChatAsyncToolJobStatus) -> (r: &'static str)
    ensures
        r@ == status_name(status),
{
    match status {
        ChatAsyncToolJobStatus::Running => "running",
        ChatAsyncToolJobStatus::Failed => "failed",
        ChatAsyncToolJobStatus::Completed => "completed",
    }
}

/// The state of a tool call that follows a job.
pub open spec fn call_status(status: ChatAsyncToolJobStatus) -> ToolCallStatus {
    match status {
        ChatAsyncToolJobStatus::Running => ToolCallStatus::Running,
        ChatAsyncToolJobStatus::Failed => ToolCallStatus::Failed,
        ChatAsyncToolJobStatus::Completed => ToolCallStatus::Completed,
    }
}

pub fn job_status_to_tool_call_status(status: ChatAsyncToolJobStatus) -> (r: ToolCallStatus)
    ensures
        r == call_status(status),
{
    match status {
        ChatAsyncToolJobStatus::Running => ToolCallStatus::Running,
        ChatAsyncToolJobStatus::Failed => ToolCallStatus::Failed,
        ChatAsyncToolJobStatus::Completed => ToolCallStatus::Completed,
    }
}

/// The parts that are not empty.
pub open spec fn present(parts: Seq<Seq<char>>) -> Seq<Seq<char>>
    decreases parts.len(),
{
    if parts.len() == 0 {
        Seq::empty()
    } else if parts.last().len() == 0 {
        present(parts.drop_last())
    } else {
        present(parts.drop_last()).push(parts.last())
    }
}

/// The parts that are not empty, with a blank line between them.
pub fn join_present(parts: Vec<String>) -> (r: String)
    ensures
        r@ == text::joined(present(text::texts(parts@)), "\n\n"@),
{
    let ghost want = text::texts(parts@);
    let mut kept: Vec<String> = Vec::new();
    let mut i: usize = 0;
    assert(text::texts(kept@) =~= present(want.take(0)));
    while i < parts.len()
        invariant
            i <= parts.len(),
            want == text::texts(parts@),
            text::texts(kept@) == present(want.take(i as int)),
        decreases parts.len() - i,
    {
        broadcast use text::lemma_texts_push;

        assert(want.take(i + 1).drop_last() =~= want.take(i as int));
        if parts[i].as_str().unicode_len() > 0 {
            kept.push(parts[i].clone());
        }
        i = i + 1;
    }
    assert(want.take(i as int) =~= want);
    join_texts(&kept, "\n\n")
}

fn job_property() -> (r: ToolProperty)
    ensures
        types::property_model(r) == (
            "jobId"@,
            "{\"description\":\"The async job id returned when the background tool started, or a tmux session name from BASH_ASYNC.\",\"type\":\"string\"}"@,
        ),
{
    ToolProperty {
        name: "jobId".to_string(),
        schema:
            "{\"description\":\"The async job id returned when the background tool started, or a tmux session name from BASH_ASYNC.\",\"type\":\"string\"}".to_string(),
    }
}

/// Whether a schema takes these properties and no others, and needs the job.
pub open spec fn is_job_schema(
    p: ChatToolParameters,
    properties: Seq<(Seq<char>, Seq<char>)>,
) -> bool {
    &&& p.additional_properties == Some(false)
    &&& types::property_models(p.properties@) == properties
    &&& p.required is Some
    &&& text::texts(p.required->0@) == seq!["jobId"@]
    &&& p.tool_type@ == "object"@
}

fn job_schema(properties: Vec<ToolProperty>) -> (r: ChatToolParameters)
    ensures
        is_job_schema(r, types::property_models(properties@)),
{
    let mut required: Vec<String> = Vec::new();
    required.push("jobId".to_string());
    assert(text::texts(required@) =~= seq!["jobId"@]);
    ChatToolParameters {
        additional_properties: Some(false),
        properties,
        required: Some(required),
        tool_type: "object".to_string(),
    }
}

/// Whether a definition is that of `ASYNC_TAIL`.
pub open spec fn is_tail_tool(d: ChatToolDefinition) -> bool {
    &&& d.name@ == "ASYNC_TAIL"@
    &&& d.description@ == "Read the latest lines from an async background tool job log."@
    &&& is_job_schema(
            d.parameters,
            seq![
                (
                    "jobId"@,
                    "{\"description\":\"The async job id returned when the background tool started, or a tmux session name from BASH_ASYNC.\",\"type\":\"string\"}"@,
                ),
                (
                    "lines"@,
                    "{\"description\":\"Optional number of log lines to read from the end of the file. Defaults to 80.\",\"type\":\"number\"}"@,
                ),
            ],
        )
    &&& !d.mutates_workspace
    &&& d.mode == ChatToolMode::Sync
}

/// The tool that reads the end of a job's log.
pub fn async_tail_tool() -> (r: ChatToolDefinition)
    ensures
        is_tail_tool(r),
{
    let mut properties: Vec<ToolProperty> = Vec::new();
    properties.push(job_property());
    properties.push(
        ToolProperty {
            name: "lines".to_string(),
            schema:
                "{\"description\":\"Optional number of log lines to read from the end of the file. Defaults to 80.\",\"type\":\"number\"}".to_string(),
        },
    );
    assert(types::property_models(properties@) =~= seq![
        types::property_model(properties@[0]),
        types::property_model(properties@[1]),
    ]);
    define_sync_tool(
        ChatToolDefinition {
            name: "ASYNC_TAIL".to_string(),
            description: "Read the latest lines from an async background tool job log.".to_string(),
            parameters: job_schema(properties),
            mutates_workspace: false,
            mode: ChatToolMode::Sync,
        },
    )
}

/// The prepare stage of `ASYNC_TAIL`.
pub fn async_tail_prepare(job_id: &str, lines: Option<i64>) -> (r: ChatToolPreparedInput)
    ensures
        r.input matches ToolInput::Tail { job_id: id, lines: n } && {
            &&& id@ == job_id@
            &&& n == (match lines {
                None => 80,
                Some(n) => clamped(n as int, 1, 400),
            })
            &&& r.display_input@ == job_id@ + "\nlines "@ + text::signed_decimal(n as int)
        },
{
    let lines = clamp_lines(lines);
    let shown = format_signed(lines);
    ChatToolPreparedInput {
        display_input: concat3(job_id, "\nlines ", shown.as_str()),
        input: ToolInput::Tail { job_id: job_id.to_string(), lines },
    }
}

/// What is said of a log that was read.
pub open spec fn tail_summary(tail: ChatAsyncToolTailResult) -> Seq<char> {
    "Read "@ + text::signed_decimal(tail.lines as int) + " line(s) from async job "@ + tail.job.id@
        + ". Current status: "@ + status_name(tail.job.status) + "."@
}

/// Whether a result hands on a log that was read.
pub open spec fn reports_tail(tail: ChatAsyncToolTailResult, result: ChatToolResult) -> bool {
    &&& result.async_job is None
    &&& result.data == Some(ToolData::Tail(tail))
    &&& result.error is None
    &&& result.output_text is Some
    &&& result.output_text->0@ == tail_summary(tail)
    &&& result.status is None
}

/// The result that hands on a log that was read.
pub fn async_tail_report(tail: ChatAsyncToolTailResult) -> (r: ChatToolResult)
    ensures
        reports_tail(tail, r),
{
    let lines = format_signed(tail.lines);
    let mut said = concat3("Read ", lines.as_str(), " line(s) from async job ");
    said.append(tail.job.id.as_str());
    said.append(". Current status: ");
    said.append(job_status_text(tail.job.status));
    said.append(".");
    ChatToolResult {
        async_job: None,
        data: Some(ToolData::Tail(tail)),
        error: None,
        output_text: Some(said),
        status: None,
    }
}

/// Whether `id` is the job that the runtimes know a reference by: the reference
/// itself where it is a job, else the job of the session that it names.
pub open spec fn refers_to<J: ChatAsyncToolRuntime, T: ChatTmuxSessionRuntime>(
    services: ChatToolRuntimeServices<J, T>,
    reference: &str,
    id: Seq<char>,
) -> bool {
    exists|job: Option<ChatAsyncToolJob>|
        {
            &&& #[trigger] call_ensures(J::get_job, (&services.async_jobs, reference), job)
            &&& match job {
                Some(_) => id == job_reference(reference@, true, None),
                None => exists|session: Option<ChatTmuxSession>|
                    {
                        &&& #[trigger] call_ensures(
                            T::get_session,
                            (&services.tmux_sessions, reference),
                            session,
                        )
                        &&& id == job_reference(reference@, false, session)
                    },
            }
        }
}

fn referenced_job<J: ChatAsyncToolRuntime, T: ChatTmuxSessionRuntime>(
    reference: &str,
    services: &ChatToolRuntimeServices<J, T>,
) -> (r: String)
    ensures
        refers_to(*services, reference, r@),
{
    let job = services.async_jobs.get_job(reference);
    if job.is_some() {
        return resolve_async_job_reference(reference, true, None);
    }
    let session = services.tmux_sessions.get_session(reference);
    resolve_async_job_reference(reference, false, session)
}

/// Whether a result reports the log that was read, or hands on why it was not.
pub open spec fn tail_handed_on(
    tail: Result<ChatAsyncToolTailResult, String>,
    r: Result<ChatToolResult, String>,
) -> bool {
    match tail {
        Ok(tail) => r matches Ok(result) && reports_tail(tail, result),
        Err(message) => r == Err::<ChatToolResult, String>(message),
    }
}

/// The execute stage of `ASYNC_TAIL`: the log that the jobs hand out is
/// reported, and their error handed on.
pub fn async_tail_execute<J: ChatAsyncToolRuntime, T: ChatTmuxSessionRuntime>(
    job_id: &str,
    lines: i64,
    services: &ChatToolRuntimeServices<J, T>,
) -> (r: Result<ChatToolResult, String>)
    ensures
        exists|id: &str, tail: Result<ChatAsyncToolTailResult, String>|
            {
                &&& refers_to(*services, job_id, id@)
                &&& #[trigger] call_ensures(
                    J::tail_job,
                    (&services.async_jobs, id, Some(lines)),
                    tail,
                )
                &&& tail_handed_on(tail, r)
            },
{
    let id = referenced_job(job_id, services);
    let tail = services.async_jobs.tail_job(id.as_str(), Some(lines));
    let ghost read = tail;
    let r = match tail {
        Ok(tail) => Ok(async_tail_report(tail)),
        Err(message) => Err(message),
    };
    assert(tail_handed_on(read, r));
    r
}

/// The job and the line count that `ASYNC_TAIL` was asked for.
pub open spec fn tail_input(input: ToolInput) -> (Seq<char>, int) {
    match input {
        ToolInput::Tail { job_id, lines } => (job_id@, lines as int),
        _ => (Seq::empty(), 80),
    }
}

/// The output, id, state and log path of the log that was read.
pub open spec fn tail_data(result: ChatToolResult) -> (Seq<char>, Seq<char>, Seq<char>, Seq<char>) {
    match result.data {
        Some(ToolData::Tail(tail)) => (
            tail.output@,
            tail.job.id@,
            status_name(tail.job.status),
            tail.job.log_path@,
        ),
        _ => (Seq::empty(), Seq::empty(), Seq::empty(), Seq::empty()),
    }
}

/// What the model reads of a log: whose it is and how that stands, where the
/// log lies, and its end, where it says anything.
pub open spec fn tail_content(
    id: Seq<char>,
    status: Seq<char>,
    log_path: Seq<char>,
    output: Seq<char>,
) -> Seq<char> {
    text::joined(
        present(
            seq!["Async job "@ + id + " is "@ + status + "."@, "Log file: "@ + log_path, output],
        ),
        "\n\n"@,
    )
}

/// What the model reads of a wait: how it ended, where the log lies, and its
/// end, where it says anything.
pub open spec fn wait_content(
    summary: Seq<char>,
    log_path: Seq<char>,
    output: Seq<char>,
) -> Seq<char> {
    text::joined(present(seq![summary, "Log file: "@ + log_path, output]), "\n\n"@)
}

/// The block that shows the end of a log.
pub open spec fn log_block(
    output: Seq<char>,
    lines: int,
    job_id: Seq<char>,
    log_path: Seq<char>,
) -> BlockModel {
    BlockModel::Completion(
        log_preview(output),
        "Latest "@ + text::signed_decimal(lines) + " line(s) from async job "@ + job_id + "."@,
        "text"@,
        log_path,
    )
}

fn show_log(output: &str, lines: i64, job_id: &str, log_path: &str) -> (r: ChatMessageBlock)
    ensures
        r@ == log_block(output@, lines as int, job_id@, log_path@),
{
    let shown = format_signed(lines);
    let mut description = concat3("Latest ", shown.as_str(), " line(s) from async job ");
    description.append(job_id);
    description.append(".");
    ChatMessageBlock::Completion {
        code: fallback_log_preview(output),
        description,
        language: "text".to_string(),
        path: log_path.to_string(),
    }
}

/// The complete stage of `ASYNC_TAIL`.
pub fn async_tail_complete(request: ChatToolCompleteRequest<'_>) -> (r: ChatToolCompletionResult)
    ensures
        ({
            let (asked, lines) = tail_input(request.prepared.input);
            let (output, id, status, log_path) = tail_data(*request.result);
            &&& r.blocks is Some
            &&& block_models(r.blocks->0@) == seq![log_block(output, lines, asked, log_path)]
            &&& r.tool_content is Some
            &&& r.tool_content->0@ == text::joined(
                present(
                    seq![
                        "Async job "@ + id + " is "@ + status + "."@,
                        "Log file: "@ + log_path,
                        output,
                    ],
                ),
                "\n\n"@,
            )
            &&& r.tool_content->0@ == tail_content(id, status, log_path, output)
        }),
{
    let (asked, lines) = match &request.prepared.input {
        ToolInput::Tail { job_id, lines } => (job_id.clone(), *lines),
        _ => (String::new(), 80i64),
    };
    let (output, id, status, log_path) = match &request.result.data {
        Some(ToolData::Tail(tail)) => (
            tail.output.clone(),
            tail.job.id.clone(),
            job_status_text(tail.job.status).to_string(),
            tail.job.log_path.clone(),
        ),
        _ => (String::new(), String::new(), String::new(), String::new()),
    };
    let block = show_log(output.as_str(), lines, asked.as_str(), log_path.as_str());
    let ghost shown = block@;
    let mut blocks: Vec<ChatMessageBlock> = Vec::new();
    blocks.push(block);
    assert(block_models(blocks@) =~= seq![shown]);
    let mut summary = concat3("Async job ", id.as_str(), " is ");
    summary.append(status.as_str());
    summary.append(".");
    let log_line = concat2("Log file: ", log_path.as_str());
    let ghost want = seq![summary@, log_line@, output@];
    let mut parts: Vec<String> = Vec::new();
    parts.push(summary);
    parts.push(log_line);
    parts.push(output);
    assert(text::texts(parts@) =~= want);
    ChatToolCompletionResult { blocks: Some(blocks), tool_content: Some(join_present(parts)) }
}

/// Whether a definition is that of `ASYNC_WAIT`.
pub open spec fn is_wait_tool(d: ChatToolDefinition) -> bool {
    &&& d.name@ == "ASYNC_WAIT"@
    &&& d.description@
            == "Wait for an async background tool job to finish, optionally timing out while leaving the job running."@
    &&& is_job_schema(
            d.parameters,
            seq![
                (
                    "jobId"@,
                    "{\"description\":\"The async job id returned when the background tool started, or a tmux session name from BASH_ASYNC.\",\"type\":\"string\"}"@,
                ),
                (
                    "tailLines"@,
                    "{\"description\":\"Optional number of trailing log lines to include with the wait result. Defaults to 80.\",\"type\":\"number\"}"@,
                ),
                (
                    "timeoutMs"@,
                    "{\"description\":\"Optional maximum time to wait before returning while the job keeps running. Defaults to 60000.\",\"type\":\"number\"}"@,
                ),
            ],
        )
    &&& !d.mutates_workspace
    &&& d.mode == ChatToolMode::Sync
}

/// The tool that waits for a job.
pub fn async_wait_tool() -> (r: ChatToolDefinition)
    ensures
        is_wait_tool(r),
{
    let mut properties: Vec<ToolProperty> = Vec::new();
    properties.push(job_property());
    properties.push(
        ToolProperty {
            name: "tailLines".to_string(),
            schema:
                "{\"description\":\"Optional number of trailing log lines to include with the wait result. Defaults to 80.\",\"type\":\"number\"}".to_string(),
        },
    );
    properties.push(
        ToolProperty {
            name: "timeoutMs".to_string(),
            schema:
                "{\"description\":\"Optional maximum time to wait before returning while the job keeps running. Defaults to 60000.\",\"type\":\"number\"}".to_string(),
        },
    );
    assert(types::property_models(properties@) =~= seq![
        types::property_model(properties@[0]),
        types::property_model(properties@[1]),
        types::property_model(properties@[2]),
    ]);
    define_sync_tool(
        ChatToolDefinition {
            name: "ASYNC_WAIT".to_string(),
            description:
                "Wait for an async background tool job to finish, optionally timing out while leaving the job running.".to_string(),
            parameters: job_schema(properties),
            mutates_workspace: false,
            mode: ChatToolMode::Sync,
        },
    )
}

/// The prepare stage of `ASYNC_WAIT`.
pub fn async_wait_prepare(
    job_id: &str,
    tail_lines: Option<i64>,
    timeout_ms: Option<i64>,
) -> (r: ChatToolPreparedInput)
    ensures
        r.input matches ToolInput::Wait { job_id: id, tail_lines: n, timeout_ms: t } && {
            &&& id@ == job_id@
            &&& n == (match tail_lines {
                None => 80,
                Some(n) => clamped(n as int, 1, 400),
            })
            &&& t == (match timeout_ms {
                None => 60_000,
                Some(t) => clamped(t as int, 0, 3_600_000),
            })
            &&& r.display_input@ == job_id@ + "\nwait "@ + text::signed_decimal(t as int)
                + "ms\ntail "@ + text::signed_decimal(n as int)
        },
{
    let tail_lines = clamp_lines(tail_lines);
    let timeout_ms = clamp_timeout_ms(timeout_ms);
    let shown_lines = format_signed(tail_lines);
    let shown_timeout = format_signed(timeout_ms);
    let mut shown = concat3(job_id, "\nwait ", shown_timeout.as_str());
    shown.append("ms\ntail ");
    shown.append(shown_lines.as_str());
    ChatToolPreparedInput {
        display_input: shown,
        input: ToolInput::Wait { job_id: job_id.to_string(), tail_lines, timeout_ms },
    }
}

/// What is said of a wait that ended.
pub open spec fn wait_summary(
    job_id: Seq<char>,
    completed: bool,
    status: Seq<char>,
    timeout_ms: int,
) -> Seq<char> {
    if completed {
        "Async job "@ + job_id + " finished with status "@ + status + "."@
    } else {
        "Async job "@ + job_id + " is still running after waiting "@ + text::signed_decimal(
            timeout_ms,
        ) + "ms."@
    }
}

fn summarize_wait(job_id: &str, completed: bool, status: &str, timeout_ms: i64) -> (r: String)
    ensures
        r@ == wait_summary(job_id@, completed, status@, timeout_ms as int),
{
    if completed {
        let mut out = concat3("Async job ", job_id, " finished with status ");
        out.append(status);
        out.append(".");
        out
    } else {
        let shown = format_signed(timeout_ms);
        let mut out = concat3("Async job ", job_id, " is still running after waiting ");
        out.append(shown.as_str());
        out.append("ms.");
        out
    }
}

/// Whether a result hands on a wait that ended and the log's end.
pub open spec fn reports_wait(
    wait: ChatAsyncToolWaitResult,
    tail: ChatAsyncToolTailResult,
    timeout_ms: int,
    result: ChatToolResult,
) -> bool {
    &&& result.async_job is None
    &&& result.data == Some(ToolData::Wait { wait, tail })
    &&& result.error is None
    &&& result.output_text is Some
    &&& result.output_text->0@ == wait_summary(
        wait.job.id@,
        wait.completed,
        status_name(wait.job.status),
        timeout_ms,
    )
    &&& result.status == Some(
        if wait.completed {
            call_status(wait.job.status)
        } else {
            ToolCallStatus::Running
        },
    )
}

/// The result that hands on a wait that ended and the log's end.
pub fn async_wait_report(
    wait: ChatAsyncToolWaitResult,
    tail: ChatAsyncToolTailResult,
    timeout_ms: i64,
) -> (r: ChatToolResult)
    ensures
        reports_wait(wait, tail, timeout_ms as int, r),
{
    let said = summarize_wait(
        wait.job.id.as_str(),
        wait.completed,
        job_status_text(wait.job.status),
        timeout_ms,
    );
    let status = if wait.completed {
        job_status_to_tool_call_status(wait.job.status)
    } else {
        ToolCallStatus::Running
    };
    ChatToolResult {
        async_job: None,
        data: Some(ToolData::Wait { wait, tail }),
        error: None,
        output_text: Some(said),
        status: Some(status),
    }
}

/// Whether a result reports a wait that ended together with the end of the
/// job's log, or hands on the first error of the two.
pub open spec fn wait_handed_on<J: ChatAsyncToolRuntime>(
    jobs: J,
    id: &str,
    waited: Result<ChatAsyncToolWaitResult, String>,
    tail_lines: i64,
    timeout_ms: i64,
    r: Result<ChatToolResult, String>,
) -> bool {
    match waited {
        Ok(wait) => exists|tail: Result<ChatAsyncToolTailResult, String>|
            {
                &&& #[trigger] call_ensures(J::tail_job, (&jobs, id, Some(tail_lines)), tail)
                &&& match tail {
                    Ok(tail) => r matches Ok(result) && reports_wait(
                        wait,
                        tail,
                        timeout_ms as int,
                        result,
                    ),
                    Err(message) => r == Err::<ChatToolResult, String>(message),
                }
            },
        Err(message) => r == Err::<ChatToolResult, String>(message),
    }
}

/// The execute stage of `ASYNC_WAIT`: what the jobs hand out is reported, and
/// their first error handed on.
pub fn async_wait_execute<J: ChatAsyncToolRuntime, T: ChatTmuxSessionRuntime>(
    job_id: &str,
    tail_lines: i64,
    timeout_ms: i64,
    services: &ChatToolRuntimeServices<J, T>,
) -> (r: Result<ChatToolResult, String>)
    ensures
        exists|id: &str, waited: Result<ChatAsyncToolWaitResult, String>|
            {
                &&& refers_to(*services, job_id, id@)
                &&& #[trigger] call_ensures(
                    J::wait_for_job,
                    (&services.async_jobs, id, Some(timeout_ms)),
                    waited,
                )
                &&& wait_handed_on(services.async_jobs, id, waited, tail_lines, timeout_ms, r)
            },
{
    let id = referenced_job(job_id, services);
    let id = id.as_str();
    let waited = services.async_jobs.wait_for_job(id, Some(timeout_ms));
    let ghost ended = waited;
    let r = match waited {
        Ok(wait) => {
            let tail = services.async_jobs.tail_job(id, Some(tail_lines));
            match tail {
                Ok(tail) => Ok(async_wait_report(wait, tail, timeout_ms)),
                Err(message) => Err(message),
            }
        },
        Err(message) => Err(message),
    };
    assert(wait_handed_on(services.async_jobs, id, ended, tail_lines, timeout_ms, r));
    r
}

/// The job, the line count and the time that `ASYNC_WAIT` was asked for.
pub open spec fn wait_input(input: ToolInput) -> (Seq<char>, int, int) {
    match input {
        ToolInput::Wait { job_id, tail_lines, timeout_ms } => (
            job_id@,
            tail_lines as int,
            timeout_ms as int,
        ),
        _ => (Seq::empty(), 80, 60_000),
    }
}

/// Whether the job ended, its state, its log path and the log's end.
pub open spec fn wait_data(result: ChatToolResult) -> (bool, Seq<char>, Seq<char>, Seq<char>) {
    match result.data {
        Some(ToolData::Wait { wait, tail }) => (
            wait.completed,
            status_name(wait.job.status),
            wait.job.log_path@,
            tail.output@,
        ),
        _ => (false, Seq::empty(), Seq::empty(), Seq::empty()),
    }
}

/// The complete stage of `ASYNC_WAIT`.
pub fn async_wait_complete(request: ChatToolCompleteRequest<'_>) -> (r: ChatToolCompletionResult)
    ensures
        ({
            let (asked, lines, timeout_ms) = wait_input(request.prepared.input);
            let (completed, status, log_path, output) = wait_data(*request.result);
            let summary = wait_summary(asked, completed, status, timeout_ms);
            &&& r.blocks is Some
            &&& block_models(r.blocks->0@) == seq![
                BlockModel::Text(summary),
                log_block(output, lines, asked, log_path),
            ]
            &&& r.tool_content is Some
            &&& r.tool_content->0@ == text::joined(
                present(seq![summary, "Log file: "@ + log_path, output]),
                "\n\n"@,
            )
            &&& r.tool_content->0@ == wait_content(summary, log_path, output)
        }),
{
    let (asked, lines, timeout_ms) = match &request.prepared.input {
        ToolInput::Wait { job_id, tail_lines, timeout_ms } => (
            job_id.clone(),
            *tail_lines,
            *timeout_ms,
        ),
        _ => (String::new(), 80i64, 60_000i64),
    };
    let (completed, status, log_path, output) = match &request.result.data {
        Some(ToolData::Wait { wait, tail }) => (
            wait.completed,
            job_status_text(wait.job.status).to_string(),
            wait.job.log_path.clone(),
            tail.output.clone(),
        ),
        _ => (false, String::new(), String::new(), String::new()),
    };
    let summary = summarize_wait(asked.as_str(), completed, status.as_str(), timeout_ms);
    let block = show_log(output.as_str(), lines, asked.as_str(), log_path.as_str());
    let ghost shown = block@;
    let mut blocks: Vec<ChatMessageBlock> = Vec::new();
    blocks.push(ChatMessageBlock::Text { text: summary.clone() });
    blocks.push(block);
    assert(block_models(blocks@) =~= seq![BlockModel::Text(summary@), shown]);
    let log_line = concat2("Log file: ", log_path.as_str());
    let ghost want = seq![summary@, log_line@, output@];
    let mut parts: Vec<String> = Vec::new();
    parts.push(summary);
    parts.push(log_line);
    parts.push(output);
    assert(text::texts(parts@) =~= want);
    ChatToolCompletionResult { blocks: Some(blocks), tool_content: Some(join_present(parts)) }
}

/// The framework's own tools.
pub fn get_framework_tool_definitions() -> (r: Vec<ChatToolDefinition>)
    ensures
        r@.len() == 2,
        is_tail_tool(r@[0]),
        is_wait_tool(r@[1]),
{
    let mut out: Vec<ChatToolDefinition> = Vec::new();
    out.push(async_tail_tool());
    out.push(async_wait_tool());
    out
}

// ---------------------------------------------------------------------------
// The pack
// ---------------------------------------------------------------------------

/// What a built-in tool says of itself.
#[derive(Debug, PartialEq)]
pub struct BuiltinSchema {
    pub description: String,
    pub parameters: ChatToolParameters,
}

/// The tool that starts background commands.
pub fn async_bash_tool(schema: BuiltinSchema) -> (r: ChatToolDefinition)
    ensures
        r.name@ == "BASH_ASYNC"@,
        r.description == schema.description,
        r.parameters == schema.parameters,
        !r.mutates_workspace,
        r.mode == ChatToolMode::Async,
{
    define_async_tool(
        ChatToolDefinition {
            name: "BASH_ASYNC".to_string(),
            description: schema.description,
            parameters: schema.parameters,
            mutates_workspace: false,
            mode: ChatToolMode::Async,
        },
    )
}

fn sync_tool(name: &str, schema: BuiltinSchema, mutates_workspace: bool) -> (r: ChatToolDefinition)
    ensures
        r.name@ == name@,
        r.description == schema.description,
        r.parameters == schema.parameters,
        r.mutates_workspace == mutates_workspace,
        r.mode == ChatToolMode::Sync,
{
    define_sync_tool(
        ChatToolDefinition {
            name: name.to_string(),
            description: schema.description,
            parameters: schema.parameters,
            mutates_workspace,
            mode: ChatToolMode::Sync,
        },
    )
}

/// The position of the one tool that works in the background.
pub open spec fn async_position() -> int {
    4
}

/// The position of the one tool that counts as progress.
pub open spec fn mutating_position() -> int {
    1
}

/// The built-in tools, in the order of their names, from what each says of
/// itself. `BASH_ASYNC` alone works in the background, and `PATCH` alone counts
/// as progress: a `BASH` call does not.
pub fn builtin_tool_pack(schemas: Vec<BuiltinSchema>) -> (r: Vec<ChatToolDefinition>)
    requires
        schemas@.len() == BUILTIN_TOOL_NAMES@.len(),
    ensures
        r@.len() == BUILTIN_TOOL_NAMES@.len(),
        forall|i: int|
            0 <= i < r@.len() ==> {
                &&& (#[trigger] r@[i]).name@ == BUILTIN_TOOL_NAMES@[i]@
                &&& r@[i].description == schemas@[i].description
                &&& r@[i].parameters == schemas@[i].parameters
                &&& r@[i].mutates_workspace == (i == mutating_position())
                &&& r@[i].mode == (if i == async_position() {
                    ChatToolMode::Async
                } else {
                    ChatToolMode::Sync
                })
            },
{
    let mut left = schemas;
    let mut out: Vec<ChatToolDefinition> = Vec::new();
    let mut i: usize = 0;
    while i < BUILTIN_TOOL_NAMES.len()
        invariant
            i <= BUILTIN_TOOL_NAMES@.len(),
            schemas@.len() == BUILTIN_TOOL_NAMES@.len(),
            left@ == schemas@.skip(i as int),
            out@.len() == i,
            BUILTIN_TOOL_NAMES@[4]@ == "BASH_ASYNC"@,
            forall|k: int|
                0 <= k < out@.len() ==> {
                    &&& (#[trigger] out@[k]).name@ == BUILTIN_TOOL_NAMES@[k]@
                    &&& out@[k].description == schemas@[k].description
                    &&& out@[k].parameters == schemas@[k].parameters
                    &&& out@[k].mutates_workspace == (k == mutating_position())
                    &&& out@[k].mode == (if k == async_position() {
                        ChatToolMode::Async
                    } else {
                        ChatToolMode::Sync
                    })
                },
        decreases BUILTIN_TOOL_NAMES.len() - i,
    {
        let schema = left.remove(0);
        assert(left@ =~= schemas@.skip(i + 1));
        if i == 4 {
            out.push(async_bash_tool(schema));
        } else {
            out.push(sync_tool(BUILTIN_TOOL_NAMES[i], schema, i == 1));
        }
        i = i + 1;
    }
    out
}

// ---------------------------------------------------------------------------
// Laws
// ---------------------------------------------------------------------------

/// The sync adapter loses no text: what a tool said is what its message says,
/// and an error that was raised is its text again behind the prefix.
pub proof fn law_the_adapter_preserves_texts(
    text: Seq<char>,
    failed: bool,
)
    ensures
        is_raised(text, failed) ==> ERROR_PREFIX@ + text.skip(ERROR_PREFIX@.len() as int) == text,
{
    if is_raised(text, failed) {
        assert(ERROR_PREFIX@ + text.skip(ERROR_PREFIX@.len() as int) =~= text);
    }
}

/// What is read of a log is bounded on both sides, whatever was asked for.
pub proof fn law_log_reads_are_bounded(lines: int, timeout_ms: int)
    ensures
        1 <= clamped(lines, 1, 400) <= 400,
        0 <= clamped(timeout_ms, 0, 3_600_000) <= 3_600_000,
{
}

/// An error is told from a failed report by its first word alone: a failed text
/// that begins with it is that error, and no other text is one.
pub proof fn law_only_marked_failures_are_errors(message: Seq<char>, text: Seq<char>)
    ensures
        is_raised("ERROR: "@ + message, true),
        ("ERROR: "@ + message).skip(ERROR_PREFIX@.len() as int) == message,
        !is_raised(text, false),
        is_raised(text, true) ==> "ERROR: "@.is_prefix_of(text),
{
    let raised = "ERROR: "@ + message;
    let n = ERROR_PREFIX@.len() as int;
    assert(raised.subrange(0, n) =~= ERROR_PREFIX@);
    assert(raised.skip(n) =~= message);
    if is_raised(text, true) {
        assert(text.subrange(0, n) =~= text.take(n));
    }
}

/// A number within its bounds is taken as it is, one outside is moved to the
/// bound that it passed.
pub proof fn law_a_number_within_bounds_is_taken_as_it_is(n: int, low: int, high: int)
    requires
        low <= high,
    ensures
        low <= n <= high ==> clamped(n, low, high) == n,
        n < low ==> clamped(n, low, high) == low,
        n > high ==> clamped(n, low, high) == high,
{
}

/// The first thing in the way of a background command decides: a directory that
/// cannot be used, then tmux, then a session of the same name. Nothing else
/// holds it up.
pub proof fn law_the_first_obstacle_is_reported(
    input: AsyncBashInput,
    directory: Result<(), String>,
    tmux: Result<(), String>,
    taken: bool,
)
    ensures
        ({
            let obstacle = async_bash_obstacle(input, directory, tmux, taken);
            &&& directory is Err ==> obstacle == Some(directory->Err_0@)
            &&& directory is Ok && tmux is Err ==> obstacle == Some(tmux->Err_0@)
            &&& directory is Ok && tmux is Ok && taken ==> obstacle == Some(
                "tmux session \""@ + input.session_name@
                    + "\" already exists. Choose a different sessionName."@,
            )
            &&& directory is Ok && tmux is Ok && !taken ==> obstacle is None
        }),
{
}

/// How a session is reached and stopped, and what its log begins with: by the
/// session's own name throughout, and with the directory and the command as
/// they were given.
pub proof fn law_a_session_goes_by_its_name(name: Seq<char>, cwd: Seq<char>, brief: Seq<char>)
    ensures
        attach_text(name) == "tmux attach -t "@ + name,
        kill_text(name) == "tmux kill-session -t "@ + name,
        bash_title(name, brief) == "tmux "@ + name + ": "@ + brief,
        log_head(name, cwd, brief).len() == 5,
        log_head(name, cwd, brief)[0] == "[session] "@ + name,
        log_head(name, cwd, brief)[1] == "[attach] "@ + ("tmux attach -t "@ + name),
        log_head(name, cwd, brief)[2] == "[kill] "@ + ("tmux kill-session -t "@ + name),
        log_head(name, cwd, brief)[3] == "[cwd] "@ + cwd,
        log_head(name, cwd, brief)[4] == "[command] "@ + brief,
        session_lines(name, cwd, brief) == name + "\nAttach: "@ + cwd + "\nKill: "@ + brief,
        BASH_TITLE_CHARS == 72,
        BASH_LOG_CHARS == 240,
{
}

/// Only exit code zero is success. Any other code, a session that ended without
/// one, and a session that could not be watched are errors, told in the log
/// behind the code where there is one.
pub proof fn law_only_exit_code_zero_is_success(name: Seq<char>, code: i32, message: String)
    ensures
        code == 0 ==> session_error(name, Ok(Some(code))) is None,
        code != 0 ==> session_error(name, Ok(Some(code))) == Some(
            "tmux session \""@ + name + "\" exited with code "@ + text::signed_decimal(code as int)
                + "."@,
        ),
        session_error(name, Ok(None)) == Some(
            "tmux session \""@ + name + "\" ended before an exit status was available."@,
        ),
        session_error(name, Err(message)) == Some(message@),
        code == 0 ==> session_log_tail(name, Ok(Some(code))) == seq![
            "[tmux-exit] session="@ + name + " exitCode="@ + text::signed_decimal(code as int),
        ],
        code != 0 ==> session_log_tail(name, Ok(Some(code))) == seq![
            "[tmux-exit] session="@ + name + " exitCode="@ + text::signed_decimal(code as int),
            "[tmux-error] "@ + session_error(name, Ok(Some(code)))->0,
        ],
        session_log_tail(name, Ok(None)) == seq![
            "[tmux-error] "@ + session_error(name, Ok(None))->0,
        ],
        session_log_tail(name, Err(message)) == seq!["[tmux-error] "@ + message@],
{
    let failed: Result<Option<i32>, String> = Err(message);
    assert(session_log_tail(name, Ok(Some(code))) =~= if code == 0 {
        seq!["[tmux-exit] session="@ + name + " exitCode="@ + text::signed_decimal(code as int)]
    } else {
        seq![
            "[tmux-exit] session="@ + name + " exitCode="@ + text::signed_decimal(code as int),
            "[tmux-error] "@ + session_error(name, Ok(Some(code)))->0,
        ]
    });
    assert(session_log_tail(name, Ok(None)) =~= seq![
        "[tmux-error] "@ + session_error(name, Ok(None))->0,
    ]);
    assert(session_log_tail(name, failed) =~= seq!["[tmux-error] "@ + message@]);
}

/// What a started command hands on agrees with how it was started: its result
/// names the session, the command and the directory that were asked for, and
/// says that it runs.
pub proof fn law_a_started_command_is_reported_as_it_was_asked_for(
    input: AsyncBashInput,
    job: ChatAsyncToolJob,
    result: ChatToolResult,
)
    requires
        reports_started(input, job, result),
    ensures
        result.status == Some(ToolCallStatus::Running),
        result.async_job == Some(job),
        session_data(result) == (
            input.session_name@,
            "tmux attach -t "@ + input.session_name@,
            "tmux kill-session -t "@ + input.session_name@,
        ),
        result.data->0->AsyncBash_0.command@ == input.command@,
        result.data->0->AsyncBash_0.cwd@ == input.absolute_cwd@,
        result.output_text->0@ == "Started background bash command in tmux session "@
            + input.session_name@ + "."@,
{
}

/// A job's state keeps its name and its meaning for the call: running stays
/// running, failed stays failed, completed stays completed.
pub proof fn law_a_job_state_keeps_its_meaning(status: ChatAsyncToolJobStatus)
    ensures
        status is Running ==> status_name(status) == "running"@ && call_status(status)
            == ToolCallStatus::Running,
        status is Failed ==> status_name(status) == "failed"@ && call_status(status)
            == ToolCallStatus::Failed,
        status is Completed ==> status_name(status) == "completed"@ && call_status(status)
            == ToolCallStatus::Completed,
{
}

/// A reference to a job: a job's own id stands for itself; else the name of a
/// session stands for its job; anything else stands for itself.
pub proof fn law_a_session_name_stands_for_its_job(
    reference: Seq<char>,
    session: ChatTmuxSession,
)
    ensures
        job_reference(reference, true, Some(session)) == reference,
        job_reference(reference, true, None) == reference,
        job_reference(reference, false, Some(session)) == session.job_id@,
        job_reference(reference, false, None) == reference,
{
}

/// A log is shown as it is; one of white space alone is said to be empty.
pub proof fn law_a_log_is_shown_as_it_is(output: Seq<char>, i: int)
    ensures
        0 <= i < output.len() && !text::is_space(output[i]) ==> log_preview(output) == output,
        (forall|k: int| 0 <= k < output.len() ==> text::is_space(#[trigger] output[k]))
            ==> log_preview(output) == "[log file is empty]"@,
{
    text::law_blank_is_all_space(output);
}

/// Of the parts of a message only the empty ones are left out, and the others
/// keep their order.
pub proof fn law_only_empty_parts_are_left_out(parts: Seq<Seq<char>>)
    ensures
        present(parts) == parts.filter(|part: Seq<char>| part.len() > 0),
    decreases parts.len(),
{
    reveal(Seq::filter);
    if parts.len() > 0 {
        law_only_empty_parts_are_left_out(parts.drop_last());
    } else {
        assert(present(parts) =~= parts.filter(|part: Seq<char>| part.len() > 0));
    }
}

/// What is handed on of a log that was read: the log itself, how many lines
/// there are, whose they are, and the job's state now.
pub proof fn law_a_read_log_is_handed_on(tail: ChatAsyncToolTailResult, result: ChatToolResult)
    requires
        reports_tail(tail, result),
    ensures
        result.data == Some(ToolData::Tail(tail)),
        result.output_text->0@ == "Read "@ + text::signed_decimal(tail.lines as int)
            + " line(s) from async job "@ + tail.job.id@ + ". Current status: "@ + status_name(
            tail.job.status,
        ) + "."@,
        tail_data(result) == (
            tail.output@,
            tail.job.id@,
            status_name(tail.job.status),
            tail.job.log_path@,
        ),
{
}

/// A wait tells the truth about its job: only a job that ended is said to be
/// finished, with the state in which it ended; while it did not, the call is
/// said to be running still, and for how long it was awaited.
pub proof fn law_a_wait_tells_whether_the_job_ended(
    wait: ChatAsyncToolWaitResult,
    tail: ChatAsyncToolTailResult,
    timeout_ms: int,
    result: ChatToolResult,
)
    requires
        reports_wait(wait, tail, timeout_ms, result),
    ensures
        result.data == Some(ToolData::Wait { wait, tail }),
        !wait.completed ==> result.status == Some(ToolCallStatus::Running)
            && result.output_text->0@ == "Async job "@ + wait.job.id@
            + " is still running after waiting "@ + text::signed_decimal(timeout_ms) + "ms."@,
        wait.completed ==> result.output_text->0@ == "Async job "@ + wait.job.id@
            + " finished with status "@ + status_name(wait.job.status) + "."@,
        wait.completed && wait.job.status is Completed ==> result.status == Some(
            ToolCallStatus::Completed,
        ),
        wait.completed && wait.job.status is Failed ==> result.status == Some(
            ToolCallStatus::Failed,
        ),
        wait_data(result) == (
            wait.completed,
            status_name(wait.job.status),
            wait.job.log_path@,
            tail.output@,
        ),
{
}

/// The end of a log is shown under how many lines were asked for and of which
/// job, with the path of the log.
pub proof fn law_a_log_is_shown_under_its_job(
    output: Seq<char>,
    lines: int,
    job_id: Seq<char>,
    log_path: Seq<char>,
)
    ensures
        log_block(output, lines, job_id, log_path) matches BlockModel::Completion(
            code,
            says,
            language,
            path,
        ) && code == log_preview(output) && says == "Latest "@ + text::signed_decimal(lines)
            + " line(s) from async job "@ + job_id + "."@ && language == "text"@ && path
            == log_path,
{
}

/// Of the built-in tools only `PATCH` changes the workspace and only
/// `BASH_ASYNC` runs in the background. Plan mode offers `READ`, `GREP` and
/// `DIR`.
pub proof fn law_only_patch_changes_the_workspace(i: int)
    requires
        0 <= i < 9,
    ensures
        BUILTIN_TOOL_NAMES@.len() == 9,
        BUILTIN_TOOL_NAMES@[mutating_position()]@ == "PATCH"@,
        BUILTIN_TOOL_NAMES@[async_position()]@ == "BASH_ASYNC"@,
        BUILTIN_TOOL_NAMES@[i]@ == seq![
            "READ"@,
            "PATCH"@,
            "DIR"@,
            "BASH"@,
            "BASH_ASYNC"@,
            "GREP"@,
            "VERIFY"@,
            "FETCH"@,
            "CHECK"@,
        ][i],
        PLAN_MODE_TOOLS@.len() == 3,
        PLAN_MODE_TOOLS@[0]@ == "READ"@,
        PLAN_MODE_TOOLS@[1]@ == "GREP"@,
        PLAN_MODE_TOOLS@[2]@ == "DIR"@,
{
    assert(i == 0 || i == 1 || i == 2 || i == 3 || i == 4 || i == 5 || i == 6 || i == 7 || i == 8);
}

/// How much of a log is read: eighty lines where nothing was asked for, and
/// else what was asked for, one line at least and four hundred at most.
pub proof fn law_as_many_lines_are_read_as_were_asked_for(n: i64)
    ensures
        lines_read(None) == 80,
        1 <= n <= 400 ==> lines_read(Some(n)) == n,
        n < 1 ==> lines_read(Some(n)) == 1,
        n > 400 ==> lines_read(Some(n)) == 400,
{
}

/// How long a job is awaited: a minute where nothing was asked for, and else
/// what was asked for, an hour at most and not below nothing.
pub proof fn law_a_job_is_awaited_as_long_as_was_asked_for(n: i64)
    ensures
        time_waited(None) == 60_000,
        0 <= n <= 3_600_000 ==> time_waited(Some(n)) == n,
        n < 0 ==> time_waited(Some(n)) == 0,
        n > 3_600_000 ==> time_waited(Some(n)) == 3_600_000,
{
}

/// What a tool was asked for is what it reports on: the job, the lines and the
/// time of its own input.
pub proof fn law_a_tool_reports_on_what_it_was_asked_for(
    job_id: String,
    lines: i64,
    timeout_ms: i64,
    raw: String,
)
    ensures
        tail_input(ToolInput::Tail { job_id, lines }) == (job_id@, lines as int),
        wait_input(ToolInput::Wait { job_id, tail_lines: lines, timeout_ms }) == (
            job_id@,
            lines as int,
            timeout_ms as int,
        ),
        tail_input(ToolInput::Raw(raw)) == (Seq::<char>::empty(), 80int),
        wait_input(ToolInput::Raw(raw)) == (Seq::<char>::empty(), 80int, 60_000int),
{
}

/// A command that runs against a rule is told with the rule and the command.
pub proof fn law_an_allowed_command_is_told_with_its_rule(rule: Seq<char>, command: Seq<char>)
    ensures
        policy_notice(rule, command) == "[policy] allowing destructive command (rule "@ + rule
            + ", --allow-destructive): "@ + command,
{
}

/// An error of the jobs is handed on as it is, and a log that was read is
/// reported: neither is made of the other.
pub proof fn law_an_error_of_the_jobs_is_handed_on(
    tail: ChatAsyncToolTailResult,
    error: String,
    r: Result<ChatToolResult, String>,
)
    ensures
        tail_handed_on(Err(error), r) ==> r == Err::<ChatToolResult, String>(error),
        tail_handed_on(Ok(tail), r) ==> r is Ok && r->Ok_0.data == Some(ToolData::Tail(tail)),
{
}

/// A reference that names a job is that job; else it is the job of the session
/// that it names, or itself.
pub proof fn law_a_reference_is_looked_up_among_jobs_first<
    J: ChatAsyncToolRuntime,
    T: ChatTmuxSessionRuntime,
>(services: ChatToolRuntimeServices<J, T>, reference: &str, id: Seq<char>)
    requires
        refers_to(services, reference, id),
    ensures
        id == reference@ || exists|session: ChatTmuxSession|
            #[trigger] call_ensures(
                T::get_session,
                (&services.tmux_sessions, reference),
                Some(session),
            ) && id == session.job_id@,
        (forall|job: Option<ChatAsyncToolJob>|
            #[trigger] call_ensures(J::get_job, (&services.async_jobs, reference), job)
                ==> job is Some) ==> id == reference@,
{
}

/// What the model reads of a log: a line on the job, a line on the file, and
/// the log itself, with an empty line between them; an empty log is left out.
pub proof fn law_the_model_reads_the_log(
    id: Seq<char>,
    status: Seq<char>,
    path: Seq<char>,
    output: Seq<char>,
    summary: Seq<char>,
)
    requires
        summary.len() > 0,
    ensures
        output.len() > 0 ==> tail_content(id, status, path, output) == "Async job "@ + id + " is "@
            + status + "."@ + "\n\n"@ + ("Log file: "@ + path) + "\n\n"@ + output,
        output.len() == 0 ==> tail_content(id, status, path, output) == "Async job "@ + id
            + " is "@ + status + "."@ + "\n\n"@ + ("Log file: "@ + path),
        output.len() > 0 ==> wait_content(summary, path, output) == summary + "\n\n"@
            + ("Log file: "@ + path) + "\n\n"@ + output,
        output.len() == 0 ==> wait_content(summary, path, output) == summary + "\n\n"@
            + ("Log file: "@ + path),
{
    reveal_strlit("Async job ");
    reveal_strlit("Log file: ");
    let said = "Async job "@ + id + " is "@ + status + "."@;
    assert(said.len() > 0);
    lemma_three_parts(said, "Log file: "@ + path, output);
    lemma_three_parts(summary, "Log file: "@ + path, output);
}

proof fn lemma_three_parts(a: Seq<char>, b: Seq<char>, c: Seq<char>)
    requires
        a.len() > 0,
        b.len() > 0,
    ensures
        text::joined(present(seq![a, b, c]), "\n\n"@) == (if c.len() > 0 {
            a + "\n\n"@ + b + "\n\n"@ + c
        } else {
            a + "\n\n"@ + b
        }),
{
    let one = seq![a];
    let two = seq![a, b];
    let all = seq![a, b, c];
    assert(all.drop_last() =~= two);
    assert(two.drop_last() =~= one);
    assert(one.drop_last() =~= Seq::empty());
    assert(present(Seq::empty()) =~= Seq::<Seq<char>>::empty());
    assert(one.last() == a && two.last() == b && all.last() == c);
    assert(present(one) == present(Seq::empty()).push(a));
    assert(present(one) =~= one);
    assert(present(two) =~= two);
    assert(text::joined(one, "\n\n"@) == a);
    assert(text::joined(two, "\n\n"@) == a + "\n\n"@ + b);
    if c.len() > 0 {
        assert(present(all) =~= all);
        assert(text::joined(all, "\n\n"@) == a + "\n\n"@ + b + "\n\n"@ + c);
    } else {
        assert(present(all) == two);
    }
}

} // verus!
