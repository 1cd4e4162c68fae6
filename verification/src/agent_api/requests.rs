//! What a request asks for: its words, its workspace and where it is to run.

use vstd::prelude::*;

use crate::agent_api::results::{api_tool_result_text, result_text};
use crate::agent_api::{
    ApiToolCallResult, ExecutionMode, InputContext, InputKind, Message, MessageBody,
    OrchestrationChoice, OrchestrationConfig, Request, Task, UserInput,
};
use crate::agent_state::{LocalToolResult, ToolResultView};
use crate::ids::{hyphenated, is_random_id, is_random_text, new_id_text};
use crate::text::{
    is_blank, join, joined, line_texts, nonblank, opt_text, split_lines, texts, trim, trim_nonblank,
    trimmed,
};

verus! {

/// The directory that a text names, if it names one.
pub fn path_from_pwd(pwd: &str) -> (path: Option<String>)
    ensures
        opt_text(path) == nonblank(pwd@),
{
    trim_nonblank(pwd)
}

pub open spec fn context_path(context: Option<InputContext>) -> Option<Seq<char>> {
    match context {
        Some(context) => match context.pwd {
            Some(pwd) => nonblank(pwd@),
            None => None,
        },
        None => None,
    }
}

fn workspace_from_input_context(context: &Option<InputContext>) -> (path: Option<String>)
    ensures
        opt_text(path) == context_path(*context),
{
    match context {
        Some(context) => match &context.pwd {
            Some(pwd) => path_from_pwd(pwd.as_str()),
            None => None,
        },
        None => None,
    }
}

/// The directory of the last user query that names one.
pub open spec fn messages_path(messages: Seq<Message>) -> Option<Seq<char>>
    decreases messages.len(),
{
    if messages.len() == 0 {
        None
    } else {
        let path = match messages.last().message {
            Some(MessageBody::UserQuery { query, context }) => context_path(context),
            _ => None,
        };
        match path {
            Some(path) => Some(path),
            None => messages_path(messages.drop_last()),
        }
    }
}

fn workspace_from_messages(messages: &Vec<Message>) -> (path: Option<String>)
    ensures
        opt_text(path) == messages_path(messages@),
{
    let mut i: usize = messages.len();
    assert(messages@.take(i as int) =~= messages@);
    while i > 0
        invariant
            i <= messages.len(),
            messages_path(messages@) == messages_path(messages@.take(i as int)),
        decreases i,
    {
        assert(messages@.take(i as int).drop_last() =~= messages@.take(i - 1));
        i -= 1;
        if let Some(MessageBody::UserQuery { context, .. }) = &messages[i].message {
            let path = workspace_from_input_context(context);
            if path.is_some() {
                return path;
            }
        }
    }
    None
}

/// The directory of the first task that names one.
pub open spec fn tasks_path(tasks: Seq<Task>) -> Option<Seq<char>>
    decreases tasks.len(),
{
    if tasks.len() == 0 {
        None
    } else {
        match messages_path(tasks[0].messages@) {
            Some(path) => Some(path),
            None => tasks_path(tasks.skip(1)),
        }
    }
}

fn workspace_from_tasks(tasks: &Vec<Task>) -> (path: Option<String>)
    ensures
        opt_text(path) == tasks_path(tasks@),
{
    let mut i: usize = 0;
    assert(tasks@.skip(0) =~= tasks@);
    while i < tasks.len()
        invariant
            i <= tasks.len(),
            tasks_path(tasks@) == tasks_path(tasks@.skip(i as int)),
        decreases tasks.len() - i,
    {
        assert(tasks@.skip(i as int).skip(1) =~= tasks@.skip(i + 1));
        let path = workspace_from_messages(&tasks[i].messages);
        if path.is_some() {
            return path;
        }
        i += 1;
    }
    None
}

/// The tasks that a request brings.
pub open spec fn tasks_of(request: Request) -> Seq<Task> {
    match request.tasks {
        Some(tasks) => tasks@,
        None => seq![],
    }
}

/// The directory that a request is to be worked on in.
pub open spec fn workspace_of(request: Request, default: Seq<char>) -> Seq<char> {
    let named = match request.input {
        Some(input) => context_path(input.context),
        None => None,
    };
    match named {
        Some(path) => path,
        None => match tasks_path(tasks_of(request)) {
            Some(path) => path,
            None => default,
        },
    }
}

/// The directory that a request is to be worked on in.
pub fn workspace_for_request(request: &Request, default: &str) -> (path: String)
    ensures
        path@ == workspace_of(*request, default@),
{
    if let Some(input) = &request.input {
        if let Some(path) = workspace_from_input_context(&input.context) {
            return path;
        }
    }
    if let Some(tasks) = &request.tasks {
        if let Some(path) = workspace_from_tasks(tasks) {
            return path;
        }
    }
    default.to_owned()
}

/// The first query among the inputs.
pub open spec fn first_query(inputs: Seq<UserInput>) -> Option<Seq<char>>
    decreases inputs.len(),
{
    if inputs.len() == 0 {
        None
    } else {
        match inputs[0] {
            UserInput::UserQuery { query } => Some(query@),
            UserInput::CliAgentUserQuery { user_query: Some(query) } => Some(query@),
            _ => first_query(inputs.skip(1)),
        }
    }
}

fn first_user_query(inputs: &Vec<UserInput>) -> (query: Option<String>)
    ensures
        opt_text(query) == first_query(inputs@),
{
    let mut i: usize = 0;
    assert(inputs@.skip(0) =~= inputs@);
    while i < inputs.len()
        invariant
            i <= inputs.len(),
            first_query(inputs@) == first_query(inputs@.skip(i as int)),
        decreases inputs.len() - i,
    {
        assert(inputs@.skip(i as int).skip(1) =~= inputs@.skip(i + 1));
        match &inputs[i] {
            UserInput::UserQuery { query } => {
                return Some(query.clone());
            },
            UserInput::CliAgentUserQuery { user_query: Some(query) } => {
                return Some(query.clone());
            },
            _ => {},
        }
        i += 1;
    }
    None
}

/// What the user asks for.
pub open spec fn prompt_of(request: Request) -> Option<Seq<char>> {
    match request.input {
        None => None,
        Some(input) => match input.kind {
            Some(InputKind::UserInputs(inputs)) => first_query(inputs@),
            Some(InputKind::QueryWithCannedResponse { query }) => Some(query@),
            Some(InputKind::AutoCodeDiffQuery { query }) => Some(query@),
            Some(InputKind::CreateNewProject { query }) => Some(query@),
            Some(InputKind::CloneRepository { url }) => Some("Clone repository "@ + url@),
            Some(InputKind::SummarizeConversation { prompt }) => Some(prompt@),
            Some(InputKind::CreateEnvironment { repo_paths }) => Some(
                "Create a development environment for "@ + joined(texts(repo_paths@), ", "@),
            ),
            Some(InputKind::StartFromAmbientRunPrompt { runtime_base_prompt }) => Some(
                runtime_base_prompt@,
            ),
            Some(InputKind::InvokeSkill { user_query: Some(query) }) => Some(query@),
            Some(InputKind::InvokeSkill { user_query: None }) => Some(
                "Invoke the selected skill."@,
            ),
            Some(InputKind::UserQuery { query }) => Some(query@),
            _ => None,
        },
    }
}

/// What the user asks for.
pub fn extract_user_prompt(request: &Request) -> (prompt: Option<String>)
    ensures
        opt_text(prompt) == prompt_of(*request),
{
    let input = match &request.input {
        Some(input) => input,
        None => {
            return None;
        },
    };
    match &input.kind {
        Some(InputKind::UserInputs(inputs)) => first_user_query(inputs),
        Some(InputKind::QueryWithCannedResponse { query }) => Some(query.clone()),
        Some(InputKind::AutoCodeDiffQuery { query }) => Some(query.clone()),
        Some(InputKind::CreateNewProject { query }) => Some(query.clone()),
        Some(InputKind::CloneRepository { url }) => {
            let mut prompt = "Clone repository ".to_owned();
            prompt.append(url.as_str());
            Some(prompt)
        },
        Some(InputKind::SummarizeConversation { prompt }) => Some(prompt.clone()),
        Some(InputKind::CreateEnvironment { repo_paths }) => {
            let mut prompt = "Create a development environment for ".to_owned();
            prompt.append(join(repo_paths, ", ").as_str());
            Some(prompt)
        },
        Some(InputKind::StartFromAmbientRunPrompt { runtime_base_prompt }) => Some(
            runtime_base_prompt.clone(),
        ),
        Some(InputKind::InvokeSkill { user_query: Some(query) }) => Some(query.clone()),
        Some(InputKind::InvokeSkill { user_query: None }) => Some(
            "Invoke the selected skill.".to_owned(),
        ),
        Some(InputKind::UserQuery { query }) => Some(query.clone()),
        _ => None,
    }
}

/// The tool results among the inputs, as the model reads them.
pub open spec fn input_results(inputs: Seq<UserInput>) -> Seq<ToolResultView>
    decreases inputs.len(),
{
    if inputs.len() == 0 {
        seq![]
    } else {
        match inputs.last() {
            UserInput::ToolCallResult(result) => input_results(inputs.drop_last()).push(
                read_result(result),
            ),
            _ => input_results(inputs.drop_last()),
        }
    }
}

/// A tool result as the model reads it.
pub open spec fn read_result(result: ApiToolCallResult) -> ToolResultView {
    ToolResultView {
        tool_call_id: result.tool_call_id@,
        name: "tool"@,
        content: result_text(result),
    }
}

/// A tool result as the model reads it.
pub fn local_result_from_api(result: &ApiToolCallResult) -> (out: LocalToolResult)
    ensures
        out@ == read_result(*result),
{
    LocalToolResult {
        tool_call_id: result.tool_call_id.clone(),
        name: "tool".to_owned(),
        content: api_tool_result_text(result),
    }
}

/// The tool results that a request brings.
pub open spec fn current_results(request: Request) -> Seq<ToolResultView> {
    match request.input {
        Some(input) => match input.kind {
            Some(InputKind::UserInputs(inputs)) => input_results(inputs@),
            _ => seq![],
        },
        None => seq![],
    }
}

pub open spec fn result_views(results: Seq<LocalToolResult>) -> Seq<ToolResultView> {
    results.map_values(|result: LocalToolResult| result@)
}

/// The tool results that a request brings.
pub fn current_tool_results_for_request(request: &Request) -> (results: Vec<LocalToolResult>)
    ensures
        result_views(results@) == current_results(*request),
{
    let mut results: Vec<LocalToolResult> = Vec::new();
    assert(result_views(results@) =~= seq![]);
    if let Some(input) = &request.input {
        if let Some(InputKind::UserInputs(inputs)) = &input.kind {
            let mut i: usize = 0;
            assert(inputs@.take(0) =~= seq![]);
            while i < inputs.len()
                invariant
                    i <= inputs.len(),
                    result_views(results@) == input_results(inputs@.take(i as int)),
                decreases inputs.len() - i,
            {
                let ghost before = result_views(results@);
                assert(inputs@.take(i + 1).drop_last() =~= inputs@.take(i as int));
                if let UserInput::ToolCallResult(result) = &inputs[i] {
                    results.push(local_result_from_api(result));
                    assert(result_views(results@) =~= before.push(read_result(*result)));
                }
                i += 1;
            }
            assert(inputs@.take(inputs@.len() as int) =~= inputs@);
        }
    }
    results
}

/// The last choice among the inputs: `Some` of what it chose, `None` where there is none.
pub open spec fn last_choice(inputs: Seq<UserInput>) -> Option<OrchestrationChoice>
    decreases inputs.len(),
{
    if inputs.len() == 0 {
        None
    } else {
        match inputs.last() {
            UserInput::OrchestrationConfigUpdate(choice) => Some(choice),
            _ => last_choice(inputs.drop_last()),
        }
    }
}

/// The configuration that a choice approves.
pub open spec fn approved(choice: OrchestrationChoice) -> Option<OrchestrationConfig> {
    if choice.approved {
        choice.config
    } else {
        None
    }
}

/// The last configuration that the messages approve.
pub open spec fn last_snapshot(messages: Seq<Message>) -> Option<OrchestrationConfig>
    decreases messages.len(),
{
    if messages.len() == 0 {
        None
    } else {
        let config = match messages.last().message {
            Some(MessageBody::OrchestrationConfigSnapshot(choice)) => approved(choice),
            _ => None,
        };
        match config {
            Some(config) => Some(config),
            None => last_snapshot(messages.drop_last()),
        }
    }
}

/// The last configuration that the tasks approve.
pub open spec fn last_task_snapshot(tasks: Seq<Task>) -> Option<OrchestrationConfig>
    decreases tasks.len(),
{
    if tasks.len() == 0 {
        None
    } else {
        match last_snapshot(tasks.last().messages@) {
            Some(config) => Some(config),
            None => last_task_snapshot(tasks.drop_last()),
        }
    }
}

/// The choice that a request brings itself.
pub open spec fn update_of(request: Request) -> Option<OrchestrationChoice> {
    match request.input {
        Some(input) => match input.kind {
            Some(InputKind::UserInputs(inputs)) => last_choice(inputs@),
            _ => None,
        },
        None => None,
    }
}

/// The configuration that a request is to be run with.
pub open spec fn config_of(request: Request) -> Option<OrchestrationConfig> {
    match update_of(request) {
        Some(choice) => approved(choice),
        None => last_task_snapshot(tasks_of(request)),
    }
}

/// A choice that a request brings decides alone, whatever was approved before.
pub proof fn law_an_update_overrides_snapshots(request: Request, tasks: Option<Vec<Task>>)
    requires
        update_of(request) is Some,
    ensures
        config_of(request) == approved(update_of(request)->0),
        config_of(Request { tasks, ..request }) == config_of(request),
{
}

fn config_update_selection(request: &Request) -> (choice: Option<&OrchestrationChoice>)
    ensures
        match choice {
            Some(choice) => update_of(*request) == Some(*choice),
            None => update_of(*request) is None,
        },
{
    let input = match &request.input {
        Some(input) => input,
        None => {
            return None;
        },
    };
    let inputs = match &input.kind {
        Some(InputKind::UserInputs(inputs)) => inputs,
        _ => {
            return None;
        },
    };
    let mut i: usize = inputs.len();
    assert(inputs@.take(i as int) =~= inputs@);
    while i > 0
        invariant
            i <= inputs.len(),
            update_of(*request) == last_choice(inputs@.take(i as int)),
        decreases i,
    {
        assert(inputs@.take(i as int).drop_last() =~= inputs@.take(i - 1));
        i -= 1;
        if let UserInput::OrchestrationConfigUpdate(choice) = &inputs[i] {
            return Some(choice);
        }
    }
    None
}

fn approved_config(choice: &OrchestrationChoice) -> (config: Option<&OrchestrationConfig>)
    ensures
        match config {
            Some(config) => approved(*choice) == Some(*config),
            None => approved(*choice) is None,
        },
{
    if choice.approved {
        choice.config.as_ref()
    } else {
        None
    }
}

fn message_snapshot(messages: &Vec<Message>) -> (config: Option<&OrchestrationConfig>)
    ensures
        match config {
            Some(config) => last_snapshot(messages@) == Some(*config),
            None => last_snapshot(messages@) is None,
        },
{
    let mut i: usize = messages.len();
    assert(messages@.take(i as int) =~= messages@);
    while i > 0
        invariant
            i <= messages.len(),
            last_snapshot(messages@) == last_snapshot(messages@.take(i as int)),
        decreases i,
    {
        assert(messages@.take(i as int).drop_last() =~= messages@.take(i - 1));
        i -= 1;
        if let Some(MessageBody::OrchestrationConfigSnapshot(choice)) = &messages[i].message {
            let config = approved_config(choice);
            if config.is_some() {
                return config;
            }
        }
    }
    None
}

fn approved_config_snapshot(request: &Request) -> (config: Option<&OrchestrationConfig>)
    ensures
        match config {
            Some(config) => last_task_snapshot(tasks_of(*request)) == Some(*config),
            None => last_task_snapshot(tasks_of(*request)) is None,
        },
{
    let tasks = match &request.tasks {
        Some(tasks) => tasks,
        None => {
            return None;
        },
    };
    let mut i: usize = tasks.len();
    assert(tasks@.take(i as int) =~= tasks@);
    while i > 0
        invariant
            i <= tasks.len(),
            tasks@ == tasks_of(*request),
            last_task_snapshot(tasks@) == last_task_snapshot(tasks@.take(i as int)),
        decreases i,
    {
        assert(tasks@.take(i as int).drop_last() =~= tasks@.take(i - 1));
        i -= 1;
        let config = message_snapshot(&tasks[i].messages);
        if config.is_some() {
            return config;
        }
    }
    None
}

/// The configuration that a request is to be run with.
pub fn approved_remote_orchestration_config(request: &Request) -> (config: Option<
    &OrchestrationConfig,
>)
    ensures
        match config {
            Some(config) => config_of(*request) == Some(*config),
            None => config_of(*request) is None,
        },
{
    match config_update_selection(request) {
        Some(choice) => approved_config(choice),
        None => approved_config_snapshot(request),
    }
}

/// A run that a request asks of a remote worker.
#[derive(Debug)]
pub struct RemoteWorkerRequest {
    pub worker_host: String,
    pub prompt: String,
    pub workspace: String,
    pub model_id: Option<String>,
    pub harness: Option<String>,
}

/// The words to go on with where the user says nothing.
pub open spec fn prompt_or_continue(request: Request) -> Seq<char> {
    match prompt_of(request) {
        Some(prompt) => if is_blank(prompt) {
            "Continue the current Warp agent conversation."@
        } else {
            prompt
        },
        None => "Continue the current Warp agent conversation."@,
    }
}

/// The host that a configuration names.
pub open spec fn remote_host(config: OrchestrationConfig) -> Option<Seq<char>> {
    match config.execution_mode {
        Some(ExecutionMode::Remote { worker_host }) => Some(trimmed(worker_host@)),
        _ => None,
    }
}

/// Whether `remote` is the run that `request` asks of a remote worker.
pub open spec fn is_remote_request(
    remote: RemoteWorkerRequest,
    request: Request,
    default: Seq<char>,
) -> bool {
    &&& config_of(request) matches Some(config)
    &&& remote_host(config) == Some(remote.worker_host@)
    &&& remote.prompt@ == prompt_or_continue(request)
    &&& remote.workspace@ == workspace_of(request, default)
    &&& opt_text(remote.model_id) == nonblank(config.model_id@)
    &&& opt_text(remote.harness) == Some("local-openai"@)
}

/// The run that a request asks of a remote worker, if it asks for one.
pub fn remote_worker_request_from_maa(request: &Request, default: &str) -> (out: Option<
    RemoteWorkerRequest,
>)
    ensures
        match out {
            Some(remote) => is_remote_request(remote, *request, default@),
            None => match config_of(*request) {
                Some(config) => remote_host(config) is None,
                None => true,
            },
        },
{
    let config = match approved_remote_orchestration_config(request) {
        Some(config) => config,
        None => {
            return None;
        },
    };
    let worker_host = match &config.execution_mode {
        Some(ExecutionMode::Remote { worker_host }) => trim(worker_host.as_str()).to_owned(),
        _ => {
            return None;
        },
    };
    let mut prompt = "Continue the current Warp agent conversation.".to_owned();
    if let Some(asked) = extract_user_prompt(request) {
        if !trim(asked.as_str()).is_empty() {
            prompt = asked;
        }
    }
    Some(
        RemoteWorkerRequest {
            worker_host,
            prompt,
            workspace: workspace_for_request(request, default),
            model_id: trim_nonblank(config.model_id.as_str()),
            harness: Some("local-openai".to_owned()),
        },
    )
}

/// The names under which a request is answered.
#[derive(Debug)]
pub struct StreamIds {
    pub conversation_id: String,
    pub request_id: String,
    pub run_id: String,
}

/// The conversation that a request belongs to, if it names one.
pub open spec fn named_conversation(request: Request) -> Option<Seq<char>> {
    match request.conversation_id {
        Some(id) => nonblank(id@),
        None => None,
    }
}

/// The names under which a request is answered, made from two ids and one for a conversation that
/// is not named yet.
pub fn stream_ids_from(
    request: &Request,
    conversation: &str,
    answer: &str,
    run: String,
) -> (ids: StreamIds)
    ensures
        ids.conversation_id@ == match named_conversation(*request) {
            Some(id) => id,
            None => "local-conversation-"@ + conversation@,
        },
        ids.request_id@ == "local-request-"@ + answer@,
        ids.run_id@ == run@,
{
    let named = match &request.conversation_id {
        Some(id) => trim_nonblank(id.as_str()),
        None => None,
    };
    let conversation_id = match named {
        Some(id) => id,
        None => {
            let mut id = "local-conversation-".to_owned();
            id.append(conversation);
            id
        },
    };
    let mut request_id = "local-request-".to_owned();
    request_id.append(answer);
    StreamIds { conversation_id, request_id, run_id: run }
}

/// Whether a text is a prefix and a random id behind it.
pub open spec fn is_local_id(text: Seq<char>, prefix: Seq<char>) -> bool {
    exists|id: u128| is_random_id(id) && text == prefix + #[trigger] hyphenated(id)
}

/// The names under which a request is answered; those that it does not bring are new.
pub fn stream_ids(request: &Request) -> (ids: StreamIds)
    ensures
        match named_conversation(*request) {
            Some(id) => ids.conversation_id@ == id,
            None => is_local_id(ids.conversation_id@, "local-conversation-"@),
        },
        is_local_id(ids.request_id@, "local-request-"@),
        is_random_text(ids.run_id@),
{
    let conversation = new_id_text();
    let answer = new_id_text();
    stream_ids_from(request, conversation.as_str(), answer.as_str(), new_id_text())
}

/// The task that an answer belongs to.
#[derive(Debug)]
pub struct TaskInfo {
    pub id: String,
    pub description: String,
    pub needs_create: bool,
}

/// The description of a new task: the first line of what the user asks for.
pub open spec fn new_description(request: Request) -> Seq<char> {
    match prompt_of(request) {
        Some(prompt) => if line_texts(prompt).len() > 0 && !is_blank(line_texts(prompt)[0]) {
            line_texts(prompt)[0]
        } else {
            "Local sidecar task"@
        },
        None => "Local sidecar task"@,
    }
}

/// The task that the answer to a request belongs to; a new one gets `id` behind its prefix.
pub fn task_info_from(request: &Request, id: &str) -> (info: TaskInfo)
    ensures
        if tasks_of(*request).len() > 0 {
            &&& info.id@ == tasks_of(*request)[0].id@
            &&& info.description@ == tasks_of(*request)[0].description@
            &&& !info.needs_create
        } else {
            &&& info.id@ == "local-task-"@ + id@
            &&& info.description@ == new_description(*request)
            &&& info.needs_create
        },
{
    if let Some(tasks) = &request.tasks {
        if tasks.len() > 0 {
            return TaskInfo {
                id: tasks[0].id.clone(),
                description: tasks[0].description.clone(),
                needs_create: false,
            };
        }
    }
    let mut task_id = "local-task-".to_owned();
    task_id.append(id);
    let mut description = "Local sidecar task".to_owned();
    if let Some(prompt) = extract_user_prompt(request) {
        let lines = split_lines(prompt.as_str());
        if lines.len() > 0 {
            assert(texts(lines@)[0] == lines@[0]@);
            if !trim(lines[0].as_str()).is_empty() {
                description = lines[0].clone();
            }
        }
    }
    TaskInfo { id: task_id, description, needs_create: true }
}

/// The task that the answer to a request belongs to.
pub fn task_info(request: &Request) -> (info: TaskInfo)
    ensures
        if tasks_of(*request).len() > 0 {
            &&& info.id@ == tasks_of(*request)[0].id@
            &&& info.description@ == tasks_of(*request)[0].description@
            &&& !info.needs_create
        } else {
            &&& is_local_id(info.id@, "local-task-"@)
            &&& info.description@ == new_description(*request)
            &&& info.needs_create
        },
{
    let id = new_id_text();
    task_info_from(request, id.as_str())
}

} // verus!
