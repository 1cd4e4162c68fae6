//! The answers to clients' questions about the user, the models and the machines.

use vstd::prelude::*;

pub mod laws;

use crate::account::{AccountView, LocalAccount, LocalAgentWorkerConfig, worker_auth};
use crate::chat::provider::{thinking_enabled, thinks};
use crate::clock::now_rfc3339;
use crate::discovery::workers::{
    DiscoveredWorker, WorkerStore, WorkerView, hash_text, is_synthetic, is_synthetic_environment_id,
    stable_hash64, synthetic_environment_id_for_worker, synthetic_id, worker_views,
};
use crate::json::{
    Json, JsonView, jlist, jobject, json_text, jtext, lemma_list_view, list_view, number_of, settled,
};
use crate::llm_config::{
    LocalLlmConfig, ModelView, ResolvedLocalLlm, model_views, pair_texts, provider_label,
    resolved_all, style_label,
};
use crate::text::{same, texts};

verus! {

/// What answers say of the server.
pub open spec fn response_context_json() -> JsonView {
    jobject()
    .with("serverVersion"@, jtext("oss-loopback"@))
}

/// What answers say of the server.
pub fn response_context() -> (out: Json)
    ensures
        out@ == response_context_json(),
{
    Json::object()
    .with("serverVersion", Json::text("oss-loopback"))
}

pub open spec fn anonymous_user_json(account: AccountView) -> JsonView {
    jobject().with(
        "data"@,
        jobject().with(
            "createAnonymousUser"@,
            jobject()
            .with("__typename"@, jtext("CreateAnonymousUserOutput"@))
            .with("expiresAt"@, JsonView::Null)
            .with("anonymousUserType"@, jtext("NATIVE_CLIENT_ANONYMOUS_USER_FEATURE_GATED"@))
            .with("firebaseUid"@, jtext(account.user_id))
            .with("idToken"@, jtext(account.custom_token))
            .with("isInviteValid"@, JsonView::Bool(true))
            .with("responseContext"@, response_context_json()),
        ),
    )
}

/// The answer to the wish for an account.
pub fn create_anonymous_user_response(account: &LocalAccount) -> (out: Json)
    ensures
        out@ == anonymous_user_json(account@),
{
    Json::object().with(
        "data",
        Json::object().with(
            "createAnonymousUser",
            Json::object()
            .with("__typename", Json::text("CreateAnonymousUserOutput"))
            .with("expiresAt", Json::Null)
            .with("anonymousUserType", Json::text("NATIVE_CLIENT_ANONYMOUS_USER_FEATURE_GATED"))
            .with("firebaseUid", Json::text(account.user_id.as_str()))
            .with("idToken", Json::text(account.custom_token.as_str()))
            .with("isInviteValid", Json::Bool(true))
            .with("responseContext", response_context()),
        ),
    )
}

pub open spec fn user_json(account: AccountView, llms: JsonView) -> JsonView {
    jobject().with(
        "data"@,
        jobject().with(
            "user"@,
            jobject()
            .with("__typename"@, jtext("UserOutput"@))
            .with("apiKeyOwnerType"@, JsonView::Null)
            .with("principalType"@, jtext("USER"@)).with(
                "user"@,
                jobject()
                .with("anonymousUserInfo"@, JsonView::Null)
                .with("experiments"@, jlist())
                .with("isOnboarded"@, JsonView::Bool(true))
                .with("isOnWorkDomain"@, JsonView::Bool(false)).with(
                    "profile"@,
                    jobject()
                    .with("displayName"@, jtext(account.display_name))
                    .with("email"@, jtext(""@))
                    .with("needsSsoLink"@, JsonView::Bool(false))
                    .with("photoUrl"@, JsonView::Null)
                    .with("uid"@, jtext(account.user_id)),
                )
                .with("llms"@, llms),
            ),
        ),
    )
}

/// Who the user is, and which models there are.
pub fn get_user_response(account: &LocalAccount, llms: Json) -> (out: Json)
    ensures
        out@ == user_json(account@, llms@),
{
    Json::object().with(
        "data",
        Json::object().with(
            "user",
            Json::object()
            .with("__typename", Json::text("UserOutput"))
            .with("apiKeyOwnerType", Json::Null)
            .with("principalType", Json::text("USER")).with(
                "user",
                Json::object()
                .with("anonymousUserInfo", Json::Null)
                .with("experiments", Json::list())
                .with("isOnboarded", Json::Bool(true))
                .with("isOnWorkDomain", Json::Bool(false)).with(
                    "profile",
                    Json::object()
                    .with("displayName", Json::text(account.display_name.as_str()))
                    .with("email", Json::text(""))
                    .with("needsSsoLink", Json::Bool(false))
                    .with("photoUrl", Json::Null)
                    .with("uid", Json::text(account.user_id.as_str())),
                )
                .with("llms", llms),
            ),
        ),
    )
}

pub open spec fn user_settings_json() -> JsonView {
    jobject().with(
        "data"@,
        jobject().with(
            "user"@,
            jobject()
            .with("__typename"@, jtext("UserOutput"@)).with(
                "user"@,
                jobject().with(
                    "settings"@,
                    jobject()
                    .with("isCloudConversationStorageEnabled"@, JsonView::Bool(false))
                    .with("isCrashReportingEnabled"@, JsonView::Bool(false))
                    .with("isTelemetryEnabled"@, JsonView::Bool(false)),
                ),
            ),
        ),
    )
}

/// What is collected of the user: nothing.
pub fn get_user_settings_response() -> (out: Json)
    ensures
        out@ == user_settings_json(),
{
    Json::object().with(
        "data",
        Json::object().with(
            "user",
            Json::object()
            .with("__typename", Json::text("UserOutput")).with(
                "user",
                Json::object().with(
                    "settings",
                    Json::object()
                    .with("isCloudConversationStorageEnabled", Json::Bool(false))
                    .with("isCrashReportingEnabled", Json::Bool(false))
                    .with("isTelemetryEnabled", Json::Bool(false)),
                ),
            ),
        ),
    )
}

pub open spec fn feature_model_choices_json(llms: JsonView) -> JsonView {
    jobject().with(
        "data"@,
        jobject().with(
            "user"@,
            jobject()
            .with("__typename"@, jtext("UserOutput"@)).with(
                "user"@,
                jobject().with(
                    "workspaces"@,
                    jlist().and(
                        jobject()
                        .with("featureModelChoice"@, llms),
                    ),
                ),
            ),
        ),
    )
}

/// Which models there are.
pub fn get_feature_model_choices_response(llms: Json) -> (out: Json)
    ensures
        out@ == feature_model_choices_json(llms@),
{
    Json::object().with(
        "data",
        Json::object().with(
            "user",
            Json::object()
            .with("__typename", Json::text("UserOutput")).with(
                "user",
                Json::object().with(
                    "workspaces",
                    Json::list().and(
                        Json::object()
                        .with("featureModelChoice", llms),
                    ),
                ),
            ),
        ),
    )
}

pub open spec fn onboarded_json() -> JsonView {
    jobject().with(
        "data"@,
        jobject().with(
            "setUserIsOnboarded"@,
            jobject()
            .with("__typename"@, jtext("SetUserIsOnboardedOutput"@))
            .with("responseContext"@, response_context_json()),
        ),
    )
}

pub fn set_user_is_onboarded_response() -> (out: Json)
    ensures
        out@ == onboarded_json(),
{
    Json::object().with(
        "data",
        Json::object().with(
            "setUserIsOnboarded",
            Json::object()
            .with("__typename", Json::text("SetUserIsOnboardedOutput"))
            .with("responseContext", response_context()),
        ),
    )
}

pub open spec fn request_limits_json() -> JsonView {
    jobject().with(
        "data"@,
        jobject().with(
            "user"@,
            jobject()
            .with("__typename"@, jtext("UserOutput"@)).with(
                "user"@,
                jobject()
                .with("workspaces"@, jlist()).with(
                    "requestLimitInfo"@,
                    jobject()
                    .with("isUnlimited"@, JsonView::Bool(true))
                    .with("requestsUsedSinceLastRefresh"@, JsonView::Number(number_of(0)))
                    .with("requestLimit"@, JsonView::Number(number_of(1000000)))
                    .with("nextRefreshTime"@, jtext("2099-01-01T00:00:00Z"@))
                    .with("requestLimitRefreshDuration"@, jtext("MONTHLY"@))
                    .with("isUnlimitedVoice"@, JsonView::Bool(true))
                    .with("voiceRequestLimit"@, JsonView::Number(number_of(1000000)))
                    .with("voiceRequestsUsedSinceLastRefresh"@, JsonView::Number(number_of(0)))
                    .with("isUnlimitedCodebaseIndices"@, JsonView::Bool(true))
                    .with("maxCodebaseIndices"@, JsonView::Number(number_of(1000000)))
                    .with("maxFilesPerRepo"@, JsonView::Number(number_of(1000000)))
                    .with("embeddingGenerationBatchSize"@, JsonView::Number(number_of(100))),
                )
                .with("bonusGrants"@, jlist()),
            ),
        ),
    )
}

/// How much the user may ask for: as much as they like.
pub fn get_request_limit_info_response() -> (out: Json)
    ensures
        out@ == request_limits_json(),
{
    Json::object().with(
        "data",
        Json::object().with(
            "user",
            Json::object()
            .with("__typename", Json::text("UserOutput")).with(
                "user",
                Json::object()
                .with("workspaces", Json::list()).with(
                    "requestLimitInfo",
                    Json::object()
                    .with("isUnlimited", Json::Bool(true))
                    .with("requestsUsedSinceLastRefresh", Json::unsigned(0))
                    .with("requestLimit", Json::unsigned(1000000))
                    .with("nextRefreshTime", Json::text("2099-01-01T00:00:00Z"))
                    .with("requestLimitRefreshDuration", Json::text("MONTHLY"))
                    .with("isUnlimitedVoice", Json::Bool(true))
                    .with("voiceRequestLimit", Json::unsigned(1000000))
                    .with("voiceRequestsUsedSinceLastRefresh", Json::unsigned(0))
                    .with("isUnlimitedCodebaseIndices", Json::Bool(true))
                    .with("maxCodebaseIndices", Json::unsigned(1000000))
                    .with("maxFilesPerRepo", Json::unsigned(1000000))
                    .with("embeddingGenerationBatchSize", Json::unsigned(100)),
                )
                .with("bonusGrants", Json::list()),
            ),
        ),
    )
}

pub open spec fn conversations_json() -> JsonView {
    jobject().with(
        "data"@,
        jobject().with(
            "listAIConversations"@,
            jobject()
            .with("__typename"@, jtext("ListAIConversationsOutput"@))
            .with("conversations"@, jlist())
            .with("responseContext"@, response_context_json()),
        ),
    )
}

pub fn list_ai_conversations_response() -> (out: Json)
    ensures
        out@ == conversations_json(),
{
    Json::object().with(
        "data",
        Json::object().with(
            "listAIConversations",
            Json::object()
            .with("__typename", Json::text("ListAIConversationsOutput"))
            .with("conversations", Json::list())
            .with("responseContext", response_context()),
        ),
    )
}

pub open spec fn agent_task_json() -> JsonView {
    jobject().with(
        "data"@,
        jobject().with(
            "updateAgentTask"@,
            jobject()
            .with("__typename"@, jtext("UpdateAgentTaskOutput"@))
            .with("responseContext"@, response_context_json()),
        ),
    )
}

pub fn update_agent_task_response() -> (out: Json)
    ensures
        out@ == agent_task_json(),
{
    Json::object().with(
        "data",
        Json::object().with(
            "updateAgentTask",
            Json::object()
            .with("__typename", Json::text("UpdateAgentTaskOutput"))
            .with("responseContext", response_context()),
        ),
    )
}

pub open spec fn workspaces_json() -> JsonView {
    jobject().with(
        "data"@,
        jobject().with(
            "user"@,
            jobject()
            .with("__typename"@, jtext("UserOutput"@)).with(
                "user"@,
                jobject()
                .with("workspaces"@, jlist())
                .with("experiments"@, jlist())
                .with("discoverableTeams"@, jlist()),
            ),
        ).with(
            "pricingInfo"@,
            jobject()
            .with("__typename"@, jtext("PricingInfoOutput"@)).with(
                "pricingInfo"@,
                jobject()
                .with("plans"@, jlist()).with(
                    "overages"@,
                    jobject()
                    .with("pricePerRequestUsdCents"@, JsonView::Number(number_of(0))),
                )
                .with("addonCreditsOptions"@, jlist()),
            ),
        ),
    )
}

pub fn get_workspaces_metadata_for_user_response() -> (out: Json)
    ensures
        out@ == workspaces_json(),
{
    Json::object().with(
        "data",
        Json::object().with(
            "user",
            Json::object()
            .with("__typename", Json::text("UserOutput")).with(
                "user",
                Json::object()
                .with("workspaces", Json::list())
                .with("experiments", Json::list())
                .with("discoverableTeams", Json::list()),
            ),
        ).with(
            "pricingInfo",
            Json::object()
            .with("__typename", Json::text("PricingInfoOutput")).with(
                "pricingInfo",
                Json::object()
                .with("plans", Json::list()).with(
                    "overages",
                    Json::object()
                    .with("pricePerRequestUsdCents", Json::unsigned(0)),
                )
                .with("addonCreditsOptions", Json::list()),
            ),
        ),
    )
}

pub open spec fn token_json(account: AccountView) -> JsonView {
    jobject()
    .with("expiresIn"@, jtext("3600"@))
    .with("idToken"@, jtext(account.id_token))
    .with("refreshToken"@, jtext(account.refresh_token))
}

/// The tokens of the account.
pub fn firebase_token_response(account: &LocalAccount) -> (out: Json)
    ensures
        out@ == token_json(account@),
{
    Json::object()
    .with("expiresIn", Json::text("3600"))
    .with("idToken", Json::text(account.id_token.as_str()))
    .with("refreshToken", Json::text(account.refresh_token.as_str()))
}

pub open spec fn healthz_json(account: AccountView) -> JsonView {
    jobject()
    .with("ok"@, JsonView::Bool(true))
    .with("userId"@, jtext(account.user_id))
    .with("deviceId"@, jtext(account.device_id))
}

pub fn healthz(account: &LocalAccount) -> (out: Json)
    ensures
        out@ == healthz_json(account@),
{
    Json::object()
    .with("ok", Json::Bool(true))
    .with("userId", Json::text(account.user_id.as_str()))
    .with("deviceId", Json::text(account.device_id.as_str()))
}

pub open spec fn worker_health_json(account: AccountView) -> JsonView {
    jobject()
    .with("ok"@, JsonView::Bool(true))
    .with("app"@, jtext("WarpSOLO"@))
    .with("version"@, JsonView::Number(number_of(1)))
    .with("deviceId"@, jtext(account.device_id))
    .with("userId"@, jtext(account.user_id))
    .with("displayName"@, jtext(account.display_name))
}

/// Whether this machine can work for others.
pub fn worker_health(account: &LocalAccount) -> (out: Json)
    ensures
        out@ == worker_health_json(account@),
{
    Json::object()
    .with("ok", Json::Bool(true))
    .with("app", Json::text("WarpSOLO"))
    .with("version", Json::unsigned(1))
    .with("deviceId", Json::text(account.device_id.as_str()))
    .with("userId", Json::text(account.user_id.as_str()))
    .with("displayName", Json::text(account.display_name.as_str()))
}

pub open spec fn worker_capabilities_json(account: AccountView, auth: Seq<char>) -> JsonView {
    jobject()
    .with("version"@, JsonView::Number(number_of(1)))
    .with("deviceId"@, jtext(account.device_id))
    .with("displayName"@, jtext(account.display_name)).with(
        "capabilities"@,
        jlist().and(
            jtext("agent"@),
        ).and(
            jtext("terminal"@),
        ).and(
            jtext("workspace"@),
        ),
    )
    .with("auth"@, jtext(auth))
}

/// What this machine can do for others.
pub fn worker_capabilities(account: &LocalAccount, config: &LocalAgentWorkerConfig) -> (out: Json)
    ensures
        out@ == worker_capabilities_json(
            account@,
            if config.token() is Some { "pairing-token-v1"@ } else { "none"@ },
        ),
{
    Json::object()
    .with("version", Json::unsigned(1))
    .with("deviceId", Json::text(account.device_id.as_str()))
    .with("displayName", Json::text(account.display_name.as_str())).with(
        "capabilities",
        Json::list().and(
            Json::text("agent"),
        ).and(
            Json::text("terminal"),
        ).and(
            Json::text("workspace"),
        ),
    )
    .with("auth", Json::text(worker_auth(config)))
}

fn peer_description(worker: &DiscoveredWorker) -> (out: String)
    ensures
        out@ == "WarpSOLO peer at "@ + worker@.url,
{
    let mut out = "WarpSOLO peer at ".to_owned();
    out.append(worker.url.as_str());
    out
}

/// What a machine is as an environment.
pub open spec fn peer_model_json(worker: WorkerView) -> JsonView {
    jobject()
    .with("name"@, jtext(worker.display_name))
    .with("description"@, jtext("WarpSOLO peer at "@ + worker.url))
    .with("github_repos"@, jlist())
    .with("docker_image"@, jtext("warpsolo/peer"@))
    .with("setup_commands"@, jlist())
}

fn synthetic_peer_environment_model(worker: &DiscoveredWorker) -> (out: Json)
    ensures
        out@ == peer_model_json(worker@),
{
    Json::object()
    .with("name", Json::text(worker.display_name.as_str()))
    .with("description", Json::text(peer_description(worker).as_str()))
    .with("github_repos", Json::list())
    .with("docker_image", Json::text("warpsolo/peer"))
    .with("setup_commands", Json::list())
}

/// A machine as an object that clients keep.
pub open spec fn peer_object_json(owner: Seq<char>, worker: WorkerView, now: Seq<char>) -> JsonView {
    jobject()
    .with("__typename"@, jtext("GenericStringObject"@))
    .with("format"@, jtext("JsonCloudEnvironment"@)).with(
        "metadata"@,
        jobject()
        .with("__typename"@, jtext("ObjectMetadata"@))
        .with("creatorUid"@, JsonView::Null)
        .with("currentEditorUid"@, JsonView::Null)
        .with("isWelcomeObject"@, JsonView::Bool(false))
        .with("lastEditorUid"@, JsonView::Null)
        .with("metadataLastUpdatedTs"@, jtext(now)).with(
            "parent"@,
            jobject()
            .with("__typename"@, jtext("Space"@))
            .with("uid"@, jtext(owner))
            .with("type"@, jtext("User"@)),
        )
        .with("revisionTs"@, jtext(now))
        .with("trashedTs"@, JsonView::Null)
        .with("uid"@, jtext(synthetic_id(worker.device_id))),
    ).with(
        "permissions"@,
        jobject()
        .with("__typename"@, jtext("ObjectPermissions"@))
        .with("guests"@, jlist())
        .with("lastUpdatedTs"@, jtext(now))
        .with("anyoneLinkSharing"@, JsonView::Null).with(
            "space"@,
            jobject()
            .with("__typename"@, jtext("Space"@))
            .with("uid"@, jtext(owner))
            .with("type"@, jtext("User"@)),
        ),
    )
    .with("serializedModel"@, jtext(json_text(settled(peer_model_json(worker)))))
}

fn peer_object(owner: &String, worker: &DiscoveredWorker, now: &str) -> (out: Json)
    ensures
        out@ == peer_object_json(owner@, worker@, now@),
{
    Json::object()
    .with("__typename", Json::text("GenericStringObject"))
    .with("format", Json::text("JsonCloudEnvironment")).with(
        "metadata",
        Json::object()
        .with("__typename", Json::text("ObjectMetadata"))
        .with("creatorUid", Json::Null)
        .with("currentEditorUid", Json::Null)
        .with("isWelcomeObject", Json::Bool(false))
        .with("lastEditorUid", Json::Null)
        .with("metadataLastUpdatedTs", Json::text(now)).with(
            "parent",
            Json::object()
            .with("__typename", Json::text("Space"))
            .with("uid", Json::text(owner.as_str()))
            .with("type", Json::text("User")),
        )
        .with("revisionTs", Json::text(now))
        .with("trashedTs", Json::Null).with(
            "uid",
            Json::text(synthetic_environment_id_for_worker(worker).as_str()),
        ),
    ).with(
        "permissions",
        Json::object()
        .with("__typename", Json::text("ObjectPermissions"))
        .with("guests", Json::list())
        .with("lastUpdatedTs", Json::text(now))
        .with("anyoneLinkSharing", Json::Null).with(
            "space",
            Json::object()
            .with("__typename", Json::text("Space"))
            .with("uid", Json::text(owner.as_str()))
            .with("type", Json::text("User")),
        ),
    ).with(
        "serializedModel",
        Json::text(synthetic_peer_environment_model(worker).print().as_str()),
    )
}

/// A machine as an environment that runs can be done in.
pub open spec fn peer_environment_json(owner: Seq<char>, worker: WorkerView, now: Seq<char>) -> JsonView {
    jobject()
    .with("__typename"@, jtext("CloudEnvironment"@))
    .with("uid"@, jtext(synthetic_id(worker.device_id))).with(
        "config"@,
        jobject()
        .with("__typename"@, jtext("CloudEnvironmentConfig"@))
        .with("name"@, jtext(worker.display_name))
        .with("description"@, jtext("WarpSOLO peer at "@ + worker.url))
        .with("githubRepos"@, jlist())
        .with("dockerImage"@, jtext("warpsolo/peer"@))
        .with("setupCommands"@, jlist())
        .with("providers"@, JsonView::Null),
    )
    .with("creator"@, JsonView::Null)
    .with("lastEditor"@, JsonView::Null)
    .with("lastTaskCreated"@, JsonView::Null)
    .with("lastTaskRunTimestamp"@, JsonView::Null)
    .with("lastUpdated"@, jtext(now)).with(
        "scope"@,
        jobject()
        .with("__typename"@, jtext("Space"@))
        .with("uid"@, jtext(owner))
        .with("type"@, jtext("User"@)),
    )
    .with("setupFailed"@, JsonView::Bool(false))
}

fn peer_environment(owner: &String, worker: &DiscoveredWorker, now: &str) -> (out: Json)
    ensures
        out@ == peer_environment_json(owner@, worker@, now@),
{
    Json::object()
    .with("__typename", Json::text("CloudEnvironment")).with(
        "uid",
        Json::text(synthetic_environment_id_for_worker(worker).as_str()),
    ).with(
        "config",
        Json::object()
        .with("__typename", Json::text("CloudEnvironmentConfig"))
        .with("name", Json::text(worker.display_name.as_str()))
        .with("description", Json::text(peer_description(worker).as_str()))
        .with("githubRepos", Json::list())
        .with("dockerImage", Json::text("warpsolo/peer"))
        .with("setupCommands", Json::list())
        .with("providers", Json::Null),
    )
    .with("creator", Json::Null)
    .with("lastEditor", Json::Null)
    .with("lastTaskCreated", Json::Null)
    .with("lastTaskRunTimestamp", Json::Null)
    .with("lastUpdated", Json::text(now)).with(
        "scope",
        Json::object()
        .with("__typename", Json::text("Space"))
        .with("uid", Json::text(owner.as_str()))
        .with("type", Json::text("User")),
    )
    .with("setupFailed", Json::Bool(false))
}

/// What a model is, in words.
pub open spec fn description_of(model: ModelView) -> Seq<char> {
    match model.description {
        Some(description) => description,
        None => "Local "@ + style_label(model.api_style),
    }
}

/// A model as clients know it.
pub open spec fn llm_json(model: ModelView) -> JsonView {
    jobject()
    .with("displayName"@, jtext(model.display_name))
    .with("baseModelName"@, jtext(model.base_model_name))
    .with("id"@, jtext(model.id)).with(
        "reasoningLevel"@,
        if thinks(model.thinking) { jtext(model.thinking) } else { JsonView::Null },
    ).with(
        "usageMetadata"@,
        jobject()
        .with("creditMultiplier"@, JsonView::Null)
        .with("requestMultiplier"@, JsonView::Number(number_of(0))),
    )
    .with("description"@, jtext(description_of(model))).with(
        "disableReason"@,
        if model.token_configured { JsonView::Null } else { jtext("Configure an API token in llm.toml"@) },
    )
    .with("visionSupported"@, JsonView::Bool(false))
    .with("spec"@, JsonView::Null)
    .with("provider"@, jtext(provider_label(model.api_style))).with(
        "hostConfigs"@,
        jlist().and(
            jobject()
            .with("enabled"@, JsonView::Bool(model.token_configured))
            .with("modelRoutingHost"@, jtext("DIRECT_API"@)),
        ),
    ).with(
        "pricing"@,
        jobject()
        .with("discountPercentage"@, JsonView::Null),
    ).with(
        "contextWindow"@,
        jobject()
        .with("isConfigurable"@, JsonView::Bool(true))
        .with("min"@, JsonView::Number(number_of(1024)))
        .with("max"@, JsonView::Number(number_of(200000)))
        .with("default"@, JsonView::Number(number_of(32000))),
    )
}

/// A model as clients know it.
pub fn llm_info(model: &ResolvedLocalLlm) -> (out: Json)
    ensures
        out@ == llm_json(model@),
{
    let reasoning = if thinking_enabled(model.thinking.as_str()) {
        Json::text(model.thinking.as_str())
    } else {
        Json::Null
    };
    let disabled = if model.token_configured {
        Json::Null
    } else {
        Json::text("Configure an API token in llm.toml")
    };
    Json::object()
    .with("displayName", Json::text(model.display_name.as_str()))
    .with("baseModelName", Json::text(model.base_model_name.as_str()))
    .with("id", Json::text(model.id.as_str()))
    .with("reasoningLevel", reasoning).with(
        "usageMetadata",
        Json::object()
        .with("creditMultiplier", Json::Null)
        .with("requestMultiplier", Json::unsigned(0)),
    )
    .with("description", Json::text(model.description().as_str()))
    .with("disableReason", disabled)
    .with("visionSupported", Json::Bool(false))
    .with("spec", Json::Null)
    .with("provider", Json::text(model.provider())).with(
        "hostConfigs",
        Json::list().and(
            Json::object()
            .with("enabled", Json::Bool(model.token_configured))
            .with("modelRoutingHost", Json::text("DIRECT_API")),
        ),
    ).with(
        "pricing",
        Json::object()
        .with("discountPercentage", Json::Null),
    ).with(
        "contextWindow",
        Json::object()
        .with("isConfigurable", Json::Bool(true))
        .with("min", Json::unsigned(1024))
        .with("max", Json::unsigned(200000))
        .with("default", Json::unsigned(32000)),
    )
}

/// The only choice where no model can be used, and why.
pub open spec fn no_llms_json(why: Seq<char>) -> JsonView {
    jobject()
    .with("defaultId"@, jtext("local-config-required"@))
    .with("preferredCodexModelId"@, JsonView::Null).with(
        "choices"@,
        jlist().and(
            jobject()
            .with("displayName"@, jtext("Local Config Required"@))
            .with("baseModelName"@, jtext("local-config-required"@))
            .with("id"@, jtext("local-config-required"@))
            .with("reasoningLevel"@, JsonView::Null).with(
                "usageMetadata"@,
                jobject()
                .with("creditMultiplier"@, JsonView::Null)
                .with("requestMultiplier"@, JsonView::Number(number_of(0))),
            )
            .with("description"@, jtext("Local sidecar model configuration"@))
            .with("disableReason"@, jtext(why))
            .with("visionSupported"@, JsonView::Bool(false))
            .with("spec"@, JsonView::Null)
            .with("provider"@, jtext("UNKNOWN"@)).with(
                "hostConfigs"@,
                jlist().and(
                    jobject()
                    .with("enabled"@, JsonView::Bool(false))
                    .with("modelRoutingHost"@, jtext("DIRECT_API"@)),
                ),
            ).with(
                "pricing"@,
                jobject()
                .with("discountPercentage"@, JsonView::Null),
            ).with(
                "contextWindow"@,
                jobject()
                .with("isConfigurable"@, JsonView::Bool(true))
                .with("min"@, JsonView::Number(number_of(1024)))
                .with("max"@, JsonView::Number(number_of(200000)))
                .with("default"@, JsonView::Number(number_of(32000))),
            ),
        ),
    )
}

/// The only choice where no model can be used.
pub fn unavailable_llms(why: &str) -> (out: Json)
    ensures
        out@ == no_llms_json(why@),
{
    Json::object()
    .with("defaultId", Json::text("local-config-required"))
    .with("preferredCodexModelId", Json::Null).with(
        "choices",
        Json::list().and(
            Json::object()
            .with("displayName", Json::text("Local Config Required"))
            .with("baseModelName", Json::text("local-config-required"))
            .with("id", Json::text("local-config-required"))
            .with("reasoningLevel", Json::Null).with(
                "usageMetadata",
                Json::object()
                .with("creditMultiplier", Json::Null)
                .with("requestMultiplier", Json::unsigned(0)),
            )
            .with("description", Json::text("Local sidecar model configuration"))
            .with("disableReason", Json::text(why))
            .with("visionSupported", Json::Bool(false))
            .with("spec", Json::Null)
            .with("provider", Json::text("UNKNOWN")).with(
                "hostConfigs",
                Json::list().and(
                    Json::object()
                    .with("enabled", Json::Bool(false))
                    .with("modelRoutingHost", Json::text("DIRECT_API")),
                ),
            ).with(
                "pricing",
                Json::object()
                .with("discountPercentage", Json::Null),
            ).with(
                "contextWindow",
                Json::object()
                .with("isConfigurable", Json::Bool(true))
                .with("min", Json::unsigned(1024))
                .with("max", Json::unsigned(200000))
                .with("default", Json::unsigned(32000)),
            ),
        ),
    )
}

/// A name for what belongs to a server, 22 characters long: a prefix and the hash of a text.
pub open spec fn server_id(prefix: Seq<char>, value: Seq<char>) -> Seq<char> {
    let id = prefix + hash_text(value);
    if id.len() >= 22 {
        id.take(22)
    } else {
        id + Seq::new((22 - id.len()) as nat, |i: int| '0')
    }
}

/// A name for what belongs to a server.
pub fn stable_server_id(prefix: &str, value: &str) -> (id: String)
    requires
        forall|i: int| 0 <= i < prefix@.len() ==> (#[trigger] prefix@[i]) as int <= 0x7f,
    ensures
        id@ == server_id(prefix@, value@),
        id@.len() == 22,
{
    let mut id = prefix.to_owned();
    id.append(crate::discovery::workers::hex_text(stable_hash64(value), 16).as_str());
    let ghost whole = id@;
    let len: usize = id.as_str().unicode_len();
    if len >= 22 {
        let cut = id.as_str().substring_char(0, 22).to_owned();
        assert(cut@ =~= whole.take(22));
        return cut;
    }
    let mut n: usize = len;
    assert(id@ =~= whole + Seq::new((n - len) as nat, |i: int| '0'));
    while n < 22
        invariant
            len <= n <= 22,
            whole.len() == len,
            id@ == whole + Seq::new((n - len) as nat, |i: int| '0'),
        decreases 22 - n,
    {
        id.push('0');
        assert(id@ =~= whole + Seq::new((n + 1 - len) as nat, |i: int| '0'));
        n += 1;
    }
    id
}

/// Names for what belongs to a server are 22 characters long.
pub proof fn law_server_ids_have_one_length(prefix: Seq<char>, value: Seq<char>)
    ensures
        server_id(prefix, value).len() == 22,
{
}

pub open spec fn owner_of(account: AccountView) -> Seq<char> {
    server_id("wuser-"@, account.user_id)
}

fn owner_uid(account: &LocalAccount) -> (id: String)
    ensures
        id@ == owner_of(account@),
{
    proof {
        reveal_strlit("wuser-");
    }
    stable_server_id("wuser-", account.user_id.as_str())
}

/// The environments that machines stand for.
pub open spec fn environments_json(account: AccountView, workers: Seq<WorkerView>, now: Seq<char>) -> JsonView {
    let environments = JsonView::List(
        workers.map_values(
            |worker: WorkerView| peer_environment_json(owner_of(account), worker, now),
        ),
    );
    jobject().with(
        "data"@,
        jobject().with(
            "getCloudEnvironments"@,
            jobject().with("__typename"@, jtext("GetCloudEnvironmentsOutput"@)).with(
                "cloudEnvironments"@,
                environments,
            ).with("responseContext"@, response_context_json()),
        ),
    )
}

/// The environments that machines stand for, told at a time.
pub fn get_cloud_environments_response_for_workers(
    account: &LocalAccount,
    workers: &Vec<DiscoveredWorker>,
    now: &str,
) -> (out: Json)
    ensures
        out@ == environments_json(account@, worker_views(workers@), now@),
{
    let owner = owner_uid(account);
    let mut list: Vec<Json> = Vec::new();
    let mut i: usize = 0;
    while i < workers.len()
        invariant
            i <= workers.len(),
            owner@ == owner_of(account@),
            list.len() == i,
            forall|j: int|
                0 <= j < i ==> (#[trigger] list@[j])@ == peer_environment_json(
                    owner_of(account@),
                    workers@[j]@,
                    now@,
                ),
        decreases workers.len() - i,
    {
        list.push(peer_environment(&owner, &workers[i], now));
        i += 1;
    }
    proof {
        lemma_list_view(list@);
        assert(list_view(list@) =~= worker_views(workers@).map_values(
            |worker: WorkerView| peer_environment_json(owner_of(account@), worker, now@),
        ));
    }
    Json::object().with(
        "data",
        Json::object().with(
            "getCloudEnvironments",
            Json::object().with("__typename", Json::text("GetCloudEnvironmentsOutput")).with(
                "cloudEnvironments",
                Json::List(list),
            ).with("responseContext", response_context()),
        ),
    )
}

/// The environments that the machines that were found stand for.
pub fn get_cloud_environments_response(account: &LocalAccount, store: &WorkerStore) -> (out: Json)
    ensures
        exists|workers: Seq<DiscoveredWorker>, now: Seq<char>|
            crate::discovery::workers::lists(workers, store@) && out@
                == #[trigger] environments_json(account@, worker_views(workers), now),
{
    let workers = store.discovered_workers();
    let now = now_rfc3339();
    get_cloud_environments_response_for_workers(account, &workers, now.as_str())
}

/// The environments among `asked` that stand for no machine any more.
pub open spec fn gone(asked: Seq<Seq<char>>, workers: Seq<WorkerView>) -> Seq<Seq<char>>
    decreases asked.len(),
{
    if asked.len() == 0 {
        seq![]
    } else {
        let before = gone(asked.drop_last(), workers);
        if is_synthetic(asked.last()) && !stands_for_one(asked.last(), workers) {
            before.push(asked.last())
        } else {
            before
        }
    }
}

/// Whether an environment stands for one of the machines.
pub open spec fn stands_for_one(id: Seq<char>, workers: Seq<WorkerView>) -> bool {
    exists|i: int| 0 <= i < workers.len() && synthetic_id((#[trigger] workers[i]).device_id) == id
}

fn is_of_worker(id: &str, workers: &Vec<DiscoveredWorker>) -> (yes: bool)
    ensures
        yes == stands_for_one(id@, worker_views(workers@)),
{
    let ghost views = worker_views(workers@);
    let mut i: usize = 0;
    while i < workers.len()
        invariant
            i <= workers.len(),
            views == worker_views(workers@),
            forall|j: int|
                0 <= j < i ==> synthetic_id((#[trigger] views[j]).device_id) != id@,
        decreases workers.len() - i,
    {
        assert(views[i as int] == workers@[i as int]@);
        if same(synthetic_environment_id_for_worker(&workers[i]).as_str(), id) {
            return true;
        }
        i += 1;
    }
    false
}

/// The environments among `asked` that stand for no machine any more.
fn gone_environments(asked: &Vec<String>, workers: &Vec<DiscoveredWorker>) -> (out: Vec<String>)
    ensures
        texts(out@) == gone(texts(asked@), worker_views(workers@)),
{
    let ghost all = texts(asked@);
    let mut out: Vec<String> = Vec::new();
    let mut i: usize = 0;
    assert(all.take(0) =~= seq![]);
    assert(texts(out@) =~= seq![]);
    while i < asked.len()
        invariant
            i <= asked.len(),
            all == texts(asked@),
            texts(out@) == gone(all.take(i as int), worker_views(workers@)),
        decreases asked.len() - i,
    {
        assert(all.take(i + 1).drop_last() =~= all.take(i as int));
        assert(all.take(i + 1).last() == asked@[i as int]@);
        let id = asked[i].as_str();
        if is_synthetic_environment_id(id) && !is_of_worker(id, workers) {
            let ghost before = texts(out@);
            let kept = asked[i].clone();
            out.push(kept);
            assert(texts(out@) =~= before.push(kept@));
        }
        i += 1;
    }
    assert(all.take(all.len() as int) =~= all);
    out
}

pub open spec fn texts_json(list: Seq<Seq<char>>) -> JsonView {
    JsonView::List(list.map_values(|text: Seq<char>| jtext(text)))
}

fn text_list(list: &Vec<String>) -> (out: Json)
    ensures
        out@ == texts_json(texts(list@)),
{
    let mut items: Vec<Json> = Vec::new();
    let mut i: usize = 0;
    while i < list.len()
        invariant
            i <= list.len(),
            items.len() == i,
            forall|j: int| 0 <= j < i ==> (#[trigger] items@[j])@ == jtext(list@[j]@),
        decreases list.len() - i,
    {
        items.push(Json::text(list[i].as_str()));
        i += 1;
    }
    proof {
        lemma_list_view(items@);
        assert(list_view(items@) =~= texts(list@).map_values(|text: Seq<char>| jtext(text)));
    }
    Json::List(items)
}

/// The objects that clients keep for machines, and those that they are to give up.
pub open spec fn objects_json(
    account: AccountView,
    workers: Seq<WorkerView>,
    asked: Seq<Seq<char>>,
    now: Seq<char>,
) -> JsonView {
    let objects = JsonView::List(
        workers.map_values(
            |worker: WorkerView| peer_object_json(owner_of(account), worker, now),
        ),
    );
    let deleted = jobject().with("folderUids"@, jlist()).with(
        "genericStringObjectUids"@,
        texts_json(gone(asked, workers)),
    ).with("notebookUids"@, jlist()).with("workflowUids"@, jlist());
    jobject().with(
        "data"@,
        jobject().with(
            "updatedCloudObjects"@,
            jobject().with("__typename"@, jtext("UpdatedCloudObjectsOutput"@)).with(
                "actionHistories"@,
                jlist(),
            ).with("deletedObjectUids"@, deleted).with("folders"@, jlist()).with(
                "genericStringObjects"@,
                objects,
            ).with("mcpGallery"@, jlist()).with("notebooks"@, jlist()).with(
                "responseContext"@,
                response_context_json(),
            ).with("userProfiles"@, jlist()).with("workflows"@, jlist()),
        ),
    )
}

/// The objects that clients keep for machines, and those that they are to give up, told at a time.
pub fn get_updated_cloud_objects_response_for_workers(
    account: &LocalAccount,
    workers: &Vec<DiscoveredWorker>,
    asked: &Vec<String>,
    now: &str,
) -> (out: Json)
    ensures
        out@ == objects_json(account@, worker_views(workers@), texts(asked@), now@),
{
    let owner = owner_uid(account);
    let mut list: Vec<Json> = Vec::new();
    let mut i: usize = 0;
    while i < workers.len()
        invariant
            i <= workers.len(),
            owner@ == owner_of(account@),
            list.len() == i,
            forall|j: int|
                0 <= j < i ==> (#[trigger] list@[j])@ == peer_object_json(
                    owner_of(account@),
                    workers@[j]@,
                    now@,
                ),
        decreases workers.len() - i,
    {
        list.push(peer_object(&owner, &workers[i], now));
        i += 1;
    }
    proof {
        lemma_list_view(list@);
        assert(list_view(list@) =~= worker_views(workers@).map_values(
            |worker: WorkerView| peer_object_json(owner_of(account@), worker, now@),
        ));
    }
    let deleted = Json::object().with("folderUids", Json::list()).with(
        "genericStringObjectUids",
        text_list(&gone_environments(asked, workers)),
    ).with("notebookUids", Json::list()).with("workflowUids", Json::list());
    Json::object().with(
        "data",
        Json::object().with(
            "updatedCloudObjects",
            Json::object().with("__typename", Json::text("UpdatedCloudObjectsOutput")).with(
                "actionHistories",
                Json::list(),
            ).with("deletedObjectUids", deleted).with("folders", Json::list()).with(
                "genericStringObjects",
                Json::List(list),
            ).with("mcpGallery", Json::list()).with("notebooks", Json::list()).with(
                "responseContext",
                response_context(),
            ).with("userProfiles", Json::list()).with("workflows", Json::list()),
        ),
    )
}

/// The objects that clients keep for the machines that were found, and those that they are to give
/// up.
pub fn get_updated_cloud_objects_response(account: &LocalAccount, store: &WorkerStore, body: &Json) -> (out:
    Json)
    ensures
        exists|workers: Seq<DiscoveredWorker>, now: Seq<char>|
            crate::discovery::workers::lists(workers, store@) && out@
                == #[trigger] objects_json(
                account@,
                worker_views(workers),
                asked_uids(body@),
                now,
            ),
{
    let workers = store.discovered_workers();
    let asked = requested_generic_string_object_uids(body);
    let now = now_rfc3339();
    get_updated_cloud_objects_response_for_workers(account, &workers, &asked, now.as_str())
}

/// What a member of a member is.
pub open spec fn inner(value: Option<JsonView>, key: Seq<char>) -> Option<JsonView> {
    match value {
        Some(value) => value.get(key),
        None => None,
    }
}

/// The objects that a request lists.
pub open spec fn listed_objects(body: JsonView) -> Option<JsonView> {
    let named = inner(
        inner(body.get("variables"@), "input"@),
        "genericStringObjects"@,
    );
    match named {
        Some(list) => Some(list),
        None => inner(body.get("input"@), "genericStringObjects"@),
    }
}

/// The names of the objects that have one.
pub open spec fn uids(objects: Seq<JsonView>) -> Seq<Seq<char>>
    decreases objects.len(),
{
    if objects.len() == 0 {
        seq![]
    } else {
        match objects.last().get_text("uid"@) {
            Some(uid) => uids(objects.drop_last()).push(uid),
            None => uids(objects.drop_last()),
        }
    }
}

/// The names of the objects that a request lists.
pub open spec fn asked_uids(body: JsonView) -> Seq<Seq<char>> {
    match listed_objects(body) {
        Some(JsonView::List(objects)) => uids(objects),
        _ => seq![],
    }
}

fn inner_value<'a>(value: Option<&'a Json>, key: &str) -> (out: Option<&'a Json>)
    ensures
        json_opt(out) == inner(json_opt(value), key@),
{
    match value {
        Some(value) => value.get(key),
        None => None,
    }
}

pub open spec fn json_opt(value: Option<&Json>) -> Option<JsonView> {
    match value {
        Some(value) => Some(value@),
        None => None,
    }
}

/// The names of the objects that a request lists.
pub fn requested_generic_string_object_uids(body: &Json) -> (out: Vec<String>)
    ensures
        texts(out@) == asked_uids(body@),
{
    let named = inner_value(
        inner_value(body.get("variables"), "input"),
        "genericStringObjects",
    );
    let listed = match named {
        Some(list) => Some(list),
        None => inner_value(body.get("input"), "genericStringObjects"),
    };
    let mut out: Vec<String> = Vec::new();
    assert(texts(out@) =~= seq![]);
    let list = match listed {
        Some(list) => list,
        None => {
            return out;
        },
    };
    let objects = match list.as_list() {
        Some(objects) => objects,
        None => {
            return out;
        },
    };
    let ghost views = list_view(objects@);
    let mut i: usize = 0;
    proof {
        lemma_list_view(objects@);
        assert(views.take(0) =~= seq![]);
    }
    while i < objects.len()
        invariant
            i <= objects.len(),
            views.len() == objects@.len(),
            forall|j: int| 0 <= j < objects@.len() ==> (#[trigger] views[j]) == objects@[j]@,
            texts(out@) == uids(views.take(i as int)),
        decreases objects.len() - i,
    {
        assert(views.take(i + 1).drop_last() =~= views.take(i as int));
        assert(views.take(i + 1).last() == objects@[i as int]@);
        if let Some(uid) = objects[i].get_text("uid") {
            let ghost before = texts(out@);
            out.push(uid.to_owned());
            assert(texts(out@) =~= before.push(uid@));
        }
        i += 1;
    }
    assert(views.take(views.len() as int) =~= views);
    out
}

proof fn lemma_gone(asked: Seq<Seq<char>>, workers: Seq<WorkerView>)
    ensures
        forall|id: Seq<char>| #[trigger]
            gone(asked, workers).contains(id) <==> asked.contains(id) && is_synthetic(id)
                && !stands_for_one(id, workers),
    decreases asked.len(),
{
    if asked.len() > 0 {
        let before = gone(asked.drop_last(), workers);
        let after = gone(asked, workers);
        lemma_gone(asked.drop_last(), workers);
        assert forall|id: Seq<char>| #[trigger] after.contains(id) <==> asked.contains(id)
            && is_synthetic(id) && !stands_for_one(id, workers) by {
            if after.contains(id) {
                let i = choose|i: int| 0 <= i < after.len() && after[i] == id;
                if i < before.len() {
                    assert(before[i] == id);
                    assert(before.contains(id));
                    let j = choose|j: int|
                        0 <= j < asked.drop_last().len() && asked.drop_last()[j] == id;
                    assert(asked[j] == id);
                } else {
                    assert(asked[asked.len() - 1] == id);
                }
            }
            if asked.contains(id) && is_synthetic(id) && !stands_for_one(id, workers) {
                let j = choose|j: int| 0 <= j < asked.len() && asked[j] == id;
                if j < asked.len() - 1 {
                    assert(asked.drop_last()[j] == id);
                    assert(before.contains(id));
                    let i = choose|i: int| 0 <= i < before.len() && before[i] == id;
                    assert(after[i] == id);
                } else {
                    assert(after[after.len() - 1] == id);
                }
            }
        }
    }
}

/// Clients give up exactly those of the objects they ask for that stand for a machine that is gone:
/// objects of another kind stay, and so do those of machines that are there.
pub proof fn law_only_lost_machines_are_given_up(
    asked: Seq<Seq<char>>,
    workers: Seq<WorkerView>,
    id: Seq<char>,
)
    ensures
        gone(asked, workers).contains(id) <==> asked.contains(id) && is_synthetic(id)
            && !stands_for_one(id, workers),
{
    lemma_gone(asked, workers);
}

/// Which model is used unless another is chosen.
pub open spec fn default_model(models: Seq<ModelView>, active: Seq<char>) -> Seq<char>
    decreases models.len(),
{
    match first_named(models, active) {
        Some(id) => id,
        None => if models.len() > 0 {
            models[0].id
        } else {
            "local"@
        },
    }
}

/// The first model that goes by a name.
pub open spec fn first_named(models: Seq<ModelView>, name: Seq<char>) -> Option<Seq<char>>
    decreases models.len(),
{
    if models.len() == 0 {
        None
    } else if models[0].id == name || models[0].base_model_name == name {
        Some(models[0].id)
    } else {
        first_named(models.skip(1), name)
    }
}

/// The models as clients know them.
pub open spec fn llms_json(models: Seq<ModelView>, active: Seq<char>) -> JsonView {
    jobject().with("defaultId"@, jtext(default_model(models, active))).with(
        "preferredCodexModelId"@,
        JsonView::Null,
    ).with("choices"@, JsonView::List(models.map_values(|model: ModelView| llm_json(model))))
}

/// The models as clients know them.
pub fn available_llms(models: &Vec<ResolvedLocalLlm>, active: &str) -> (out: Json)
    ensures
        out@ == llms_json(model_views(models@), active@),
{
    let ghost views = model_views(models@);
    let mut choices: Vec<Json> = Vec::new();
    let mut i: usize = 0;
    while i < models.len()
        invariant
            i <= models.len(),
            choices.len() == i,
            forall|j: int| 0 <= j < i ==> (#[trigger] choices@[j])@ == llm_json(models@[j]@),
        decreases models.len() - i,
    {
        choices.push(llm_info(&models[i]));
        i += 1;
    }
    proof {
        lemma_list_view(choices@);
        assert(list_view(choices@) =~= views.map_values(|model: ModelView| llm_json(model)));
    }
    let mut default_id = "local".to_owned();
    if models.len() > 0 {
        assert(views[0] == models@[0]@);
        default_id = models[0].id.clone();
    }
    let mut i: usize = 0;
    let mut found = false;
    assert(views.skip(0) =~= views);
    while i < models.len() && !found
        invariant
            i <= models.len(),
            views == model_views(models@),
            !found ==> first_named(views, active@) == first_named(views.skip(i as int), active@),
            !found ==> default_id@ == if views.len() > 0 {
                views[0].id
            } else {
                "local"@
            },
            found ==> first_named(views, active@) == Some(default_id@),
        decreases models.len() - i,
    {
        assert(views.skip(i as int)[0] == models@[i as int]@);
        assert(views.skip(i as int).skip(1) =~= views.skip(i + 1));
        if same(models[i].id.as_str(), active) || same(models[i].base_model_name.as_str(), active) {
            default_id = models[i].id.clone();
            found = true;
        }
        i += 1;
    }
    Json::object().with("defaultId", Json::text(default_id.as_str())).with(
        "preferredCodexModelId",
        Json::Null,
    ).with("choices", Json::List(choices))
}

/// The models of a configuration as clients know them, or why there are none.
pub open spec fn local_llms(
    config: Option<LocalLlmConfig>,
    env: Seq<(Seq<char>, Seq<char>)>,
    file: Result<String, String>,
) -> JsonView {
    match config {
        None => no_llms_json("Create ~/.warp-oss/llm.toml to enable local models"@),
        Some(config) => match resolved_all(config, config.models@, env, file) {
            Err(_) => no_llms_json("The local LLM config is invalid"@),
            Ok(models) => if models.len() == 0 {
                no_llms_json("No models are configured in llm.toml"@)
            } else {
                llms_json(models, config.active_model@)
            },
        },
    }
}

/// The models for each use, which are the same.
pub open spec fn choice_json(llms: JsonView) -> JsonView {
    jobject().with("agentMode"@, llms).with("planning"@, llms).with("coding"@, llms).with(
        "cliAgent"@,
        llms,
    ).with("computerUseAgent"@, llms)
}

/// The models for each use.
pub fn feature_model_choice(
    config: Option<&LocalLlmConfig>,
    env: &Vec<(String, String)>,
    file: &Result<String, String>,
) -> (out: Json)
    ensures
        out@ == choice_json(
            local_llms(
                match config {
                    Some(config) => Some(*config),
                    None => None,
                },
                pair_texts(env@),
                *file,
            ),
        ),
{
    let local = match config {
        None => unavailable_llms("Create ~/.warp-oss/llm.toml to enable local models"),
        Some(config) => match config.models(env, file) {
            Err(_) => unavailable_llms("The local LLM config is invalid"),
            Ok(models) => {
                assert(model_views(models@).len() == models@.len());
                if models.len() == 0 {
                    unavailable_llms("No models are configured in llm.toml")
                } else {
                    available_llms(&models, config.active_model.as_str())
                }
            },
        },
    };
    Json::object().with("agentMode", local.clone()).with("planning", local.clone()).with(
        "coding",
        local.clone(),
    ).with("cliAgent", local.clone()).with("computerUseAgent", local)
}

/// What a request asks for.
#[derive(Debug, Clone, Copy, PartialEq, Eq, Structural)]
pub enum Operation {
    CreateAnonymousUser,
    GetUser,
    GetUserSettings,
    GetFeatureModelChoices,
    SetUserIsOnboarded,
    GetRequestLimitInfo,
    ListAIConversations,
    UpdateAgentTask,
    GetCloudEnvironments,
    GetUpdatedCloudObjects,
    GetWorkspacesMetadataForUser,
}

/// What a name asks for.
pub open spec fn operation_named(name: Seq<char>) -> Option<Operation> {
    if name == "CreateAnonymousUser"@ || name == "createAnonymousUser"@ {
        Some(Operation::CreateAnonymousUser)
    } else if name == "GetUser"@ || name == "getUser"@ {
        Some(Operation::GetUser)
    } else if name == "GetUserSettings"@ || name == "getUserSettings"@ {
        Some(Operation::GetUserSettings)
    } else if name == "GetFeatureModelChoices"@ || name == "getFeatureModelChoices"@ {
        Some(Operation::GetFeatureModelChoices)
    } else if name == "SetUserIsOnboarded"@ || name == "setUserIsOnboarded"@ {
        Some(Operation::SetUserIsOnboarded)
    } else if name == "GetRequestLimitInfo"@ || name == "getRequestLimitInfo"@ {
        Some(Operation::GetRequestLimitInfo)
    } else if name == "ListAIConversationMetadata"@ || name == "listAIConversationMetadata"@ || name
        == "ListAIConversations"@ || name == "listAIConversations"@ {
        Some(Operation::ListAIConversations)
    } else if name == "UpdateAgentTask"@ || name == "updateAgentTask"@ {
        Some(Operation::UpdateAgentTask)
    } else if name == "GetCloudEnvironments"@ || name == "getCloudEnvironments"@ {
        Some(Operation::GetCloudEnvironments)
    } else if name == "GetUpdatedCloudObjects"@ || name == "getUpdatedCloudObjects"@ {
        Some(Operation::GetUpdatedCloudObjects)
    } else if name == "GetWorkspacesMetadataForUser"@ || name == "getWorkspacesMetadataForUser"@ {
        Some(Operation::GetWorkspacesMetadataForUser)
    } else {
        None
    }
}

/// What a name asks for.
pub fn operation_from_name(name: &str) -> (operation: Option<Operation>)
    ensures
        operation == operation_named(name@),
{
    if same(name, "CreateAnonymousUser") || same(name, "createAnonymousUser") {
        Some(Operation::CreateAnonymousUser)
    } else if same(name, "GetUser") || same(name, "getUser") {
        Some(Operation::GetUser)
    } else if same(name, "GetUserSettings") || same(name, "getUserSettings") {
        Some(Operation::GetUserSettings)
    } else if same(name, "GetFeatureModelChoices") || same(name, "getFeatureModelChoices") {
        Some(Operation::GetFeatureModelChoices)
    } else if same(name, "SetUserIsOnboarded") || same(name, "setUserIsOnboarded") {
        Some(Operation::SetUserIsOnboarded)
    } else if same(name, "GetRequestLimitInfo") || same(name, "getRequestLimitInfo") {
        Some(Operation::GetRequestLimitInfo)
    } else if same(name, "ListAIConversationMetadata") || same(name, "listAIConversationMetadata")
        || same(name, "ListAIConversations") || same(name, "listAIConversations") {
        Some(Operation::ListAIConversations)
    } else if same(name, "UpdateAgentTask") || same(name, "updateAgentTask") {
        Some(Operation::UpdateAgentTask)
    } else if same(name, "GetCloudEnvironments") || same(name, "getCloudEnvironments") {
        Some(Operation::GetCloudEnvironments)
    } else if same(name, "GetUpdatedCloudObjects") || same(name, "getUpdatedCloudObjects") {
        Some(Operation::GetUpdatedCloudObjects)
    } else if same(name, "GetWorkspacesMetadataForUser") || same(
        name,
        "getWorkspacesMetadataForUser",
    ) {
        Some(Operation::GetWorkspacesMetadataForUser)
    } else {
        None
    }
}

/// The name of what a request asks for: from its address, or else from its body.
pub open spec fn asked_name(op: Option<Seq<char>>, body: JsonView) -> Seq<char> {
    match op {
        Some(op) if op.len() > 0 => op,
        _ => match body.get_text("operationName"@) {
            Some(name) => name,
            None => seq![],
        },
    }
}

/// The name of what a request asks for.
pub fn operation_name(op: Option<&str>, body: &Json) -> (name: String)
    ensures
        name@ == asked_name(crate::account::opt_str(op), body@),
{
    if let Some(op) = op {
        if !op.is_empty() {
            return op.to_owned();
        }
    }
    match body.get_text("operationName") {
        Some(name) => name.to_owned(),
        None => String::new(),
    }
}

/// A list of one complaint.
pub open spec fn errors_json(message: Seq<char>) -> JsonView {
    jobject().with("errors"@, jlist().and(jobject().with("message"@, jtext(message))))
}

/// A list of one complaint.
pub fn errors_response(message: &str) -> (out: Json)
    ensures
        out@ == errors_json(message@),
{
    Json::object().with(
        "errors",
        Json::list().and(Json::object().with("message", Json::text(message))),
    )
}

/// The answer to a request, with its status.
pub open spec fn answer_json(
    name: Seq<char>,
    account: AccountView,
    workers: Seq<WorkerView>,
    llms: JsonView,
    asked: Seq<Seq<char>>,
    now: Seq<char>,
) -> (u16, JsonView) {
    match operation_named(name) {
        Some(Operation::CreateAnonymousUser) => (200, anonymous_user_json(account)),
        Some(Operation::GetUser) => (200, user_json(account, llms)),
        Some(Operation::GetUserSettings) => (200, user_settings_json()),
        Some(Operation::GetFeatureModelChoices) => (200, feature_model_choices_json(llms)),
        Some(Operation::SetUserIsOnboarded) => (200, onboarded_json()),
        Some(Operation::GetRequestLimitInfo) => (200, request_limits_json()),
        Some(Operation::ListAIConversations) => (200, conversations_json()),
        Some(Operation::UpdateAgentTask) => (200, agent_task_json()),
        Some(Operation::GetCloudEnvironments) => (200, environments_json(account, workers, now)),
        Some(Operation::GetUpdatedCloudObjects) => (
            200,
            objects_json(account, workers, asked, now),
        ),
        Some(Operation::GetWorkspacesMetadataForUser) => (200, workspaces_json()),
        None => (404, errors_json("unsupported local GraphQL operation: "@ + name)),
    }
}

/// The answer to a request at a time, with its status. `op` is the name in the request's address.
pub fn answer_at(
    op: Option<&str>,
    body: &Json,
    account: &LocalAccount,
    workers: &Vec<DiscoveredWorker>,
    llms: Json,
    now: &str,
) -> (out: (u16, Json))
    ensures
        (out.0, out.1@) == answer_json(
            asked_name(crate::account::opt_str(op), body@),
            account@,
            worker_views(workers@),
            llms@,
            asked_uids(body@),
            now@,
        ),
{
    let name = operation_name(op, body);
    match operation_from_name(name.as_str()) {
        Some(Operation::CreateAnonymousUser) => (200, create_anonymous_user_response(account)),
        Some(Operation::GetUser) => (200, get_user_response(account, llms)),
        Some(Operation::GetUserSettings) => (200, get_user_settings_response()),
        Some(Operation::GetFeatureModelChoices) => (200, get_feature_model_choices_response(llms)),
        Some(Operation::SetUserIsOnboarded) => (200, set_user_is_onboarded_response()),
        Some(Operation::GetRequestLimitInfo) => (200, get_request_limit_info_response()),
        Some(Operation::ListAIConversations) => (200, list_ai_conversations_response()),
        Some(Operation::UpdateAgentTask) => (200, update_agent_task_response()),
        Some(Operation::GetCloudEnvironments) => (
            200,
            get_cloud_environments_response_for_workers(account, workers, now),
        ),
        Some(Operation::GetUpdatedCloudObjects) => (
            200,
            get_updated_cloud_objects_response_for_workers(
                account,
                workers,
                &requested_generic_string_object_uids(body),
                now,
            ),
        ),
        Some(Operation::GetWorkspacesMetadataForUser) => (
            200,
            get_workspaces_metadata_for_user_response(),
        ),
        None => {
            let mut message = "unsupported local GraphQL operation: ".to_owned();
            message.append(name.as_str());
            (404, errors_response(message.as_str()))
        },
    }
}

/// The answer to a request, with its status.
pub fn graphql_v2(
    op: Option<&str>,
    body: &Json,
    account: &LocalAccount,
    store: &WorkerStore,
    llms: Json,
) -> (out: (u16, Json))
    ensures
        exists|workers: Seq<DiscoveredWorker>, now: Seq<char>|
            crate::discovery::workers::lists(workers, store@) && (out.0, out.1@)
                == #[trigger] answer_json(
                asked_name(crate::account::opt_str(op), body@),
                account@,
                worker_views(workers),
                llms@,
                asked_uids(body@),
                now,
            ),
{
    let workers = store.discovered_workers();
    let now = now_rfc3339();
    answer_at(op, body, account, &workers, llms, now.as_str())
}

/// A machine that was found, as others are told of it.
pub open spec fn found_worker_json(worker: WorkerView) -> JsonView {
    jobject().with("sourceId"@, jtext(worker.source_id)).with(
        "deviceId"@,
        jtext(worker.device_id),
    ).with("userId"@, jtext(worker.user_id)).with("displayName"@, jtext(worker.display_name)).with(
        "hostname"@,
        jtext(worker.hostname),
    ).with("url"@, jtext(worker.url)).with("capabilities"@, texts_json(worker.capabilities)).with(
        "auth"@,
        jtext(worker.auth),
    ).with(
        "lastSeenEpochMillis"@,
        JsonView::Number(number_of(worker.last_seen_epoch_millis)),
    )
}

fn found_worker(worker: &DiscoveredWorker) -> (out: Json)
    ensures
        out@ == found_worker_json(worker@),
{
    Json::object().with("sourceId", Json::text(worker.source_id.as_str())).with(
        "deviceId",
        Json::text(worker.device_id.as_str()),
    ).with("userId", Json::text(worker.user_id.as_str())).with(
        "displayName",
        Json::text(worker.display_name.as_str()),
    ).with("hostname", Json::text(worker.hostname.as_str())).with(
        "url",
        Json::text(worker.url.as_str()),
    ).with("capabilities", text_list(&worker.capabilities)).with(
        "auth",
        Json::text(worker.auth.as_str()),
    ).with("lastSeenEpochMillis", Json::unsigned(worker.last_seen_epoch_millis))
}

/// All machines that were found, as others are told of them.
pub fn discovered_workers_response(workers: &Vec<DiscoveredWorker>) -> (out: Json)
    ensures
        out@ == jobject().with(
            "workers"@,
            JsonView::List(
                worker_views(workers@).map_values(|worker: WorkerView| found_worker_json(worker)),
            ),
        ),
{
    let mut list: Vec<Json> = Vec::new();
    let mut i: usize = 0;
    while i < workers.len()
        invariant
            i <= workers.len(),
            list.len() == i,
            forall|j: int|
                0 <= j < i ==> (#[trigger] list@[j])@ == found_worker_json(workers@[j]@),
        decreases workers.len() - i,
    {
        list.push(found_worker(&workers[i]));
        i += 1;
    }
    proof {
        lemma_list_view(list@);
        assert(list_view(list@) =~= worker_views(workers@).map_values(
            |worker: WorkerView| found_worker_json(worker),
        ));
    }
    Json::object().with("workers", Json::List(list))
}

} // verus!
