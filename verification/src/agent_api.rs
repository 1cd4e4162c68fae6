//! The agent protocol: what clients send and what they are sent.

use vstd::prelude::*;

pub mod events;
pub mod laws;
pub mod requests;
pub mod results;
pub mod tools;

verus! {

/// A range of lines, counted from 1, both ends in it.
#[derive(Debug, Clone, Copy, PartialEq, Eq, Structural)]
pub struct LineRange {
    pub start: u32,
    pub end: u32,
}

#[derive(Debug)]
pub struct FileContent {
    pub file_path: String,
    pub content: String,
    pub line_range: Option<LineRange>,
}

#[derive(Debug)]
pub enum AnyFileContent {
    Text(FileContent),
    Binary { file_path: String },
    Unknown,
}

/// A file to be read.
#[derive(Debug)]
pub struct ReadFile {
    pub name: String,
    pub line_ranges: Vec<LineRange>,
}

/// An edit of a file.
#[derive(Debug)]
pub struct FileDiff {
    pub file_path: String,
    pub search: String,
    pub replace: String,
}

#[derive(Debug)]
pub struct NewFile {
    pub file_path: String,
    pub content: String,
}

/// A tool, as clients know it.
#[derive(Debug)]
pub enum ApiTool {
    RunShellCommand { command: String, wait_until_complete: bool },
    ReadFiles { files: Vec<ReadFile> },
    Grep { queries: Vec<String>, path: String },
    ApplyFileDiffs { summary: String, diffs: Vec<FileDiff>, new_files: Vec<NewFile> },
    Server { payload: String },
    Other,
}

#[derive(Debug)]
pub struct ApiToolCall {
    pub tool_call_id: String,
    pub tool: Option<ApiTool>,
}

#[derive(Debug)]
pub enum ShellOutcome {
    CommandFinished { command_id: String, output: String, exit_code: i32 },
    PermissionDenied,
    Other,
}

#[derive(Debug)]
pub struct RunShellCommandResult {
    pub command: String,
    pub output: String,
    pub exit_code: i32,
    pub result: Option<ShellOutcome>,
}

#[derive(Debug)]
pub enum ReadFilesResult {
    TextFilesSuccess(Vec<FileContent>),
    AnyFilesSuccess(Vec<AnyFileContent>),
    Error(String),
    Missing,
}

#[derive(Debug)]
pub struct GrepFileMatch {
    pub file_path: String,
    pub matched_lines: Vec<u32>,
}

#[derive(Debug)]
pub enum GrepResult {
    Success(Vec<GrepFileMatch>),
    Error(String),
    Missing,
}

#[derive(Debug)]
pub enum ApplyFileDiffsResult {
    Success { updated_files: Vec<Option<FileContent>>, deleted_files: Vec<String> },
    Error(String),
    Missing,
}

/// What a tool gave, as clients know it.
#[derive(Debug)]
pub enum ApiToolResult {
    RunShellCommand(RunShellCommandResult),
    ReadFiles(ReadFilesResult),
    Grep(GrepResult),
    ApplyFileDiffs(ApplyFileDiffsResult),
    Server { serialized_result: String },
    Other,
}

#[derive(Debug)]
pub struct ApiToolCallResult {
    pub tool_call_id: String,
    pub result: Option<ApiToolResult>,
}

/// Where the agent is to run.
#[derive(Debug)]
pub enum ExecutionMode {
    Remote { worker_host: String },
    Other,
}

#[derive(Debug)]
pub struct OrchestrationConfig {
    pub model_id: String,
    pub execution_mode: Option<ExecutionMode>,
}

/// A configuration that the user has approved, or not.
#[derive(Debug)]
pub struct OrchestrationChoice {
    pub config: Option<OrchestrationConfig>,
    pub approved: bool,
}

/// The directory that a query was made in.
#[derive(Debug)]
pub struct InputContext {
    pub pwd: Option<String>,
}

#[derive(Debug)]
pub enum MessageBody {
    UserQuery { query: String, context: Option<InputContext> },
    AgentOutput { text: String },
    AgentReasoning { reasoning: String },
    ToolCall(ApiToolCall),
    ToolCallResult(ApiToolCallResult),
    OrchestrationConfigSnapshot(OrchestrationChoice),
    Other,
}

/// A moment, as seconds since 1970 and the nanoseconds in that second.
#[derive(Debug, Clone, Copy, PartialEq, Eq, Structural)]
pub struct Timestamp {
    pub seconds: i64,
    pub nanos: i32,
}

/// A message of a conversation.
#[derive(Debug)]
pub struct Message {
    pub id: String,
    pub task_id: String,
    pub request_id: String,
    pub timestamp: Option<Timestamp>,
    pub message: Option<MessageBody>,
}

#[derive(Debug)]
pub struct Task {
    pub id: String,
    pub description: String,
    pub messages: Vec<Message>,
}

/// One of several things that a request can bring.
#[derive(Debug)]
pub enum UserInput {
    UserQuery { query: String },
    CliAgentUserQuery { user_query: Option<String> },
    ToolCallResult(ApiToolCallResult),
    OrchestrationConfigUpdate(OrchestrationChoice),
    Other,
}

/// What a request asks for.
#[derive(Debug)]
pub enum InputKind {
    UserInputs(Vec<UserInput>),
    QueryWithCannedResponse { query: String },
    AutoCodeDiffQuery { query: String },
    CreateNewProject { query: String },
    CloneRepository { url: String },
    SummarizeConversation { prompt: String },
    CreateEnvironment { repo_paths: Vec<String> },
    StartFromAmbientRunPrompt { runtime_base_prompt: String },
    InvokeSkill { user_query: Option<String> },
    UserQuery { query: String },
    Other,
}

#[derive(Debug)]
pub struct Input {
    pub context: Option<InputContext>,
    pub kind: Option<InputKind>,
}

/// A request to the agent: the conversation so far, and what comes next.
#[derive(Debug)]
pub struct Request {
    pub tasks: Option<Vec<Task>>,
    pub input: Option<Input>,
    pub conversation_id: Option<String>,
}

/// A change that the client makes.
#[derive(Debug)]
pub enum ClientAction {
    CreateTask { id: String, description: String },
    AddMessagesToTask { task_id: String, messages: Vec<Message> },
}

/// What a client is sent on a request.
#[derive(Debug)]
pub enum ResponseEvent {
    Init { conversation_id: String, request_id: String, run_id: String },
    ClientActions(Vec<ClientAction>),
    Finished,
}

} // verus!
