//! Builder for the request that starts an agent.

use vstd::prelude::*;

verus! {

/// How the agent is to treat the prompt.
#[derive(Debug, Clone, Copy, PartialEq, Eq, Structural)]
pub enum UserQueryMode {
    Normal,
    Plan,
    Orchestrate,
}

/// The agent configuration, in its serialized form.
#[derive(Debug)]
pub struct AgentConfigSnapshot {
    pub json: String,
}

/// A file handed to the agent with the prompt.
#[derive(Debug)]
pub struct AttachmentInput {
    pub file_name: String,
    pub mime_type: String,
    pub data: String,
}

/// Refers to the workspace snapshot that the agent starts from.
#[derive(Debug)]
pub struct InitialSnapshotToken {
    pub token: String,
}

/// A request to start an agent.
#[derive(Debug)]
pub struct SpawnAgentRequest {
    pub prompt: String,
    pub mode: UserQueryMode,
    pub config: Option<AgentConfigSnapshot>,
    pub title: Option<String>,
    pub team: Option<bool>,
    pub agent_identity_uid: Option<String>,
    pub skill: Option<String>,
    pub attachments: Vec<AttachmentInput>,
    pub interactive: Option<bool>,
    pub parent_run_id: Option<String>,
    pub runtime_skills: Vec<String>,
    pub referenced_attachments: Vec<String>,
    pub conversation_id: Option<String>,
    pub workspace: Option<String>,
    pub initial_snapshot_token: Option<InitialSnapshotToken>,
}

/// Builds a [`SpawnAgentRequest`] step by step.
#[derive(Debug)]
pub struct LocalSpawnRequestBuilder {
    request: SpawnAgentRequest,
}

/// Whether a request holds a prompt and a mode and nothing else.
pub open spec fn is_bare(request: SpawnAgentRequest, prompt: String, mode: UserQueryMode) -> bool {
    &&& request.prompt == prompt
    &&& request.mode == mode
    &&& request.config is None
    &&& request.title is None
    &&& request.team is None
    &&& request.agent_identity_uid is None
    &&& request.skill is None
    &&& request.attachments@.len() == 0
    &&& request.interactive is None
    &&& request.parent_run_id is None
    &&& request.runtime_skills@.len() == 0
    &&& request.referenced_attachments@.len() == 0
    &&& request.conversation_id is None
    &&& request.workspace is None
    &&& request.initial_snapshot_token is None
}

impl View for LocalSpawnRequestBuilder {
    type V = SpawnAgentRequest;

    /// The request as built so far.
    closed spec fn view(&self) -> SpawnAgentRequest {
        self.request
    }
}

impl LocalSpawnRequestBuilder {
    /// A request with a prompt and nothing else.
    pub fn new(prompt: String, mode: UserQueryMode) -> (builder: Self)
        ensures
            is_bare(builder@, prompt, mode),
    {
        LocalSpawnRequestBuilder {
            request: SpawnAgentRequest {
                prompt,
                mode,
                config: None,
                title: None,
                team: None,
                agent_identity_uid: None,
                skill: None,
                attachments: Vec::new(),
                interactive: None,
                parent_run_id: None,
                runtime_skills: Vec::new(),
                referenced_attachments: Vec::new(),
                conversation_id: None,
                workspace: None,
                initial_snapshot_token: None,
            },
        }
    }

    /// A request that goes on with a forked conversation.
    pub fn from_handoff(
        prompt: String,
        attachments: Vec<AttachmentInput>,
        forked_conversation_id: String,
        initial_snapshot_token: Option<InitialSnapshotToken>,
    ) -> (builder: Self)
        ensures
            builder@.attachments == attachments,
            builder@.conversation_id == Some(forked_conversation_id),
            builder@.initial_snapshot_token == initial_snapshot_token,
            exists|bare: SpawnAgentRequest| #[trigger]
                is_bare(bare, prompt, UserQueryMode::Normal) && builder@ == (SpawnAgentRequest {
                    attachments,
                    conversation_id: Some(forked_conversation_id),
                    initial_snapshot_token,
                    ..bare
                }),
    {
        let builder = Self::new(prompt, UserQueryMode::Normal);
        let ghost bare = builder@;
        LocalSpawnRequestBuilder {
            request: SpawnAgentRequest {
                attachments,
                conversation_id: Some(forked_conversation_id),
                initial_snapshot_token,
                ..builder.request
            },
        }
    }

    pub fn with_config(self, config: AgentConfigSnapshot) -> (builder: Self)
        ensures
            builder@ == (SpawnAgentRequest { config: Some(config), ..self@ }),
    {
        let mut builder = self;
        builder.request.config = Some(config);
        builder
    }

    pub fn with_title(self, title: String) -> (builder: Self)
        ensures
            builder@ == (SpawnAgentRequest { title: Some(title), ..self@ }),
    {
        let mut builder = self;
        builder.request.title = Some(title);
        builder
    }

    pub fn with_workspace(self, path: String) -> (builder: Self)
        ensures
            builder@ == (SpawnAgentRequest { workspace: Some(path), ..self@ }),
    {
        let mut builder = self;
        builder.request.workspace = Some(path);
        builder
    }

    pub fn with_agent_identity_uid(self, uid: String) -> (builder: Self)
        ensures
            builder@ == (SpawnAgentRequest { agent_identity_uid: Some(uid), ..self@ }),
    {
        let mut builder = self;
        builder.request.agent_identity_uid = Some(uid);
        builder
    }

    pub fn with_skill(self, skill: String) -> (builder: Self)
        ensures
            builder@ == (SpawnAgentRequest { skill: Some(skill), ..self@ }),
    {
        let mut builder = self;
        builder.request.skill = Some(skill);
        builder
    }

    pub fn with_team(self, team: bool) -> (builder: Self)
        ensures
            builder@ == (SpawnAgentRequest { team: Some(team), ..self@ }),
    {
        let mut builder = self;
        builder.request.team = Some(team);
        builder
    }

    pub fn with_interactive(self, interactive: bool) -> (builder: Self)
        ensures
            builder@ == (SpawnAgentRequest { interactive: Some(interactive), ..self@ }),
    {
        let mut builder = self;
        builder.request.interactive = Some(interactive);
        builder
    }

    pub fn with_parent_run_id(self, run_id: String) -> (builder: Self)
        ensures
            builder@ == (SpawnAgentRequest { parent_run_id: Some(run_id), ..self@ }),
    {
        let mut builder = self;
        builder.request.parent_run_id = Some(run_id);
        builder
    }

    pub fn with_runtime_skills(self, skills: Vec<String>) -> (builder: Self)
        ensures
            builder@ == (SpawnAgentRequest { runtime_skills: skills, ..self@ }),
    {
        let mut builder = self;
        builder.request.runtime_skills = skills;
        builder
    }

    pub fn with_referenced_attachments(self, attachments: Vec<String>) -> (builder: Self)
        ensures
            builder@ == (SpawnAgentRequest { referenced_attachments: attachments, ..self@ }),
    {
        let mut builder = self;
        builder.request.referenced_attachments = attachments;
        builder
    }

    pub fn with_conversation_id(self, id: String) -> (builder: Self)
        ensures
            builder@ == (SpawnAgentRequest { conversation_id: Some(id), ..self@ }),
    {
        let mut builder = self;
        builder.request.conversation_id = Some(id);
        builder
    }

    pub fn with_initial_snapshot_token(self, token: InitialSnapshotToken) -> (builder: Self)
        ensures
            builder@ == (SpawnAgentRequest { initial_snapshot_token: Some(token), ..self@ }),
    {
        let mut builder = self;
        builder.request.initial_snapshot_token = Some(token);
        builder
    }

    /// The finished request.
    pub fn build(self) -> (request: SpawnAgentRequest)
        ensures
            request == self@,
    {
        self.request
    }
}

} // verus!
