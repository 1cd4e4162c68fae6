//! What clients are told.

use vstd::prelude::*;

use crate::account::AccountView;
use crate::discovery::workers::{WorkerView, synthetic_id};
use crate::graphql::{
    anonymous_user_json, answer_json, asked_name, choice_json, conversations_json, default_model,
    environments_json, errors_json, feature_model_choices_json, first_named, found_worker_json,
    gone, healthz_json, llm_json, llms_json, local_llms, no_llms_json, objects_json, onboarded_json,
    owner_of, agent_task_json, peer_environment_json, peer_model_json, peer_object_json,
    request_limits_json, token_json, uids, user_json, user_settings_json, worker_capabilities_json,
    worker_health_json, workspaces_json,
};
use crate::json::{JsonView, json_text, number_of, settled, shows};
use crate::llm_config::{LocalLlmConfig, ModelView, provider_label, resolved_all, style_label};

verus! {

/// Whether a value is found in an object, under one name and then another.
pub open spec fn told2(value: JsonView, a: Seq<char>, b: Seq<char>, told: JsonView) -> bool {
    exists|member: JsonView| #[trigger] shows(value, a, member) && shows(member, b, told)
}

/// Whether a value is found in an object, under one name after the other.
pub open spec fn told3(
    value: JsonView,
    a: Seq<char>,
    b: Seq<char>,
    c: Seq<char>,
    told: JsonView,
) -> bool {
    exists|member: JsonView| #[trigger] shows(value, a, member) && told2(member, b, c, told)
}

/// Whether a value is found in an object, under one name after the other.
pub open spec fn told4(
    value: JsonView,
    a: Seq<char>,
    b: Seq<char>,
    c: Seq<char>,
    d: Seq<char>,
    told: JsonView,
) -> bool {
    exists|member: JsonView| #[trigger] shows(value, a, member) && told3(member, b, c, d, told)
}

/// Whether a value is found in an object, under one name after the other.
pub open spec fn told5(
    value: JsonView,
    a: Seq<char>,
    b: Seq<char>,
    c: Seq<char>,
    d: Seq<char>,
    e: Seq<char>,
    told: JsonView,
) -> bool {
    exists|member: JsonView| #[trigger] shows(value, a, member) && told4(member, b, c, d, e, told)
}

/// Whoever signs up is the user of this machine.
pub proof fn law_new_users_are_the_local_one(account: AccountView)
    ensures
        told3(
            anonymous_user_json(account),
            "data"@,
            "createAnonymousUser"@,
            "firebaseUid"@,
            JsonView::Text(account.user_id),
        ),
        told3(
            anonymous_user_json(account),
            "data"@,
            "createAnonymousUser"@,
            "idToken"@,
            JsonView::Text(account.custom_token),
        ),
        told3(
            anonymous_user_json(account),
            "data"@,
            "createAnonymousUser"@,
            "isInviteValid"@,
            JsonView::Bool(true),
        ),
        told3(
            anonymous_user_json(account),
            "data"@,
            "createAnonymousUser"@,
            "expiresAt"@,
            JsonView::Null,
        ),
{
    let root = anonymous_user_json(account);
    let at_0 = root->Object_0[0].1;
    assert(root->Object_0[0] == ("data"@, at_0));
    assert(shows(root, "data"@, at_0));
    let at_0_0 = at_0->Object_0[0].1;
    assert(at_0->Object_0[0] == ("createAnonymousUser"@, at_0_0));
    assert(shows(at_0, "createAnonymousUser"@, at_0_0));
    let at_0_0_3 = at_0_0->Object_0[3].1;
    assert(at_0_0->Object_0[3] == ("firebaseUid"@, at_0_0_3));
    assert(shows(at_0_0, "firebaseUid"@, at_0_0_3));
    let at_0_0_4 = at_0_0->Object_0[4].1;
    assert(at_0_0->Object_0[4] == ("idToken"@, at_0_0_4));
    assert(shows(at_0_0, "idToken"@, at_0_0_4));
    let at_0_0_5 = at_0_0->Object_0[5].1;
    assert(at_0_0->Object_0[5] == ("isInviteValid"@, at_0_0_5));
    assert(shows(at_0_0, "isInviteValid"@, at_0_0_5));
    let at_0_0_1 = at_0_0->Object_0[1].1;
    assert(at_0_0->Object_0[1] == ("expiresAt"@, at_0_0_1));
    assert(shows(at_0_0, "expiresAt"@, at_0_0_1));
    assert(shows(at_0_0, "firebaseUid"@, JsonView::Text(account.user_id)));
    assert(told2(at_0, "createAnonymousUser"@, "firebaseUid"@, JsonView::Text(account.user_id)));
    assert(told3(root, "data"@, "createAnonymousUser"@, "firebaseUid"@, JsonView::Text(account.user_id)));
    assert(shows(at_0_0, "idToken"@, JsonView::Text(account.custom_token)));
    assert(told2(at_0, "createAnonymousUser"@, "idToken"@, JsonView::Text(account.custom_token)));
    assert(told3(root, "data"@, "createAnonymousUser"@, "idToken"@, JsonView::Text(account.custom_token)));
    assert(shows(at_0_0, "isInviteValid"@, JsonView::Bool(true)));
    assert(told2(at_0, "createAnonymousUser"@, "isInviteValid"@, JsonView::Bool(true)));
    assert(told3(root, "data"@, "createAnonymousUser"@, "isInviteValid"@, JsonView::Bool(true)));
    assert(shows(at_0_0, "expiresAt"@, JsonView::Null));
    assert(told2(at_0, "createAnonymousUser"@, "expiresAt"@, JsonView::Null));
    assert(told3(root, "data"@, "createAnonymousUser"@, "expiresAt"@, JsonView::Null));
}

/// The user is told by name and id, with the models that can be chosen.
pub proof fn law_users_are_told(account: AccountView, llms: JsonView)
    ensures
        told5(
            user_json(account, llms),
            "data"@,
            "user"@,
            "user"@,
            "profile"@,
            "uid"@,
            JsonView::Text(account.user_id),
        ),
        told5(
            user_json(account, llms),
            "data"@,
            "user"@,
            "user"@,
            "profile"@,
            "displayName"@,
            JsonView::Text(account.display_name),
        ),
        told4(user_json(account, llms), "data"@, "user"@, "user"@, "llms"@, llms),
        told4(
            user_json(account, llms),
            "data"@,
            "user"@,
            "user"@,
            "isOnboarded"@,
            JsonView::Bool(true),
        ),
        told4(
            user_json(account, llms),
            "data"@,
            "user"@,
            "user"@,
            "anonymousUserInfo"@,
            JsonView::Null,
        ),
{
    let root = user_json(account, llms);
    let at_0 = root->Object_0[0].1;
    assert(root->Object_0[0] == ("data"@, at_0));
    assert(shows(root, "data"@, at_0));
    let at_0_0 = at_0->Object_0[0].1;
    assert(at_0->Object_0[0] == ("user"@, at_0_0));
    assert(shows(at_0, "user"@, at_0_0));
    let at_0_0_3 = at_0_0->Object_0[3].1;
    assert(at_0_0->Object_0[3] == ("user"@, at_0_0_3));
    assert(shows(at_0_0, "user"@, at_0_0_3));
    let at_0_0_3_4 = at_0_0_3->Object_0[4].1;
    assert(at_0_0_3->Object_0[4] == ("profile"@, at_0_0_3_4));
    assert(shows(at_0_0_3, "profile"@, at_0_0_3_4));
    let at_0_0_3_4_4 = at_0_0_3_4->Object_0[4].1;
    assert(at_0_0_3_4->Object_0[4] == ("uid"@, at_0_0_3_4_4));
    assert(shows(at_0_0_3_4, "uid"@, at_0_0_3_4_4));
    let at_0_0_3_4_0 = at_0_0_3_4->Object_0[0].1;
    assert(at_0_0_3_4->Object_0[0] == ("displayName"@, at_0_0_3_4_0));
    assert(shows(at_0_0_3_4, "displayName"@, at_0_0_3_4_0));
    let at_0_0_3_5 = at_0_0_3->Object_0[5].1;
    assert(at_0_0_3->Object_0[5] == ("llms"@, at_0_0_3_5));
    assert(shows(at_0_0_3, "llms"@, at_0_0_3_5));
    let at_0_0_3_2 = at_0_0_3->Object_0[2].1;
    assert(at_0_0_3->Object_0[2] == ("isOnboarded"@, at_0_0_3_2));
    assert(shows(at_0_0_3, "isOnboarded"@, at_0_0_3_2));
    let at_0_0_3_0 = at_0_0_3->Object_0[0].1;
    assert(at_0_0_3->Object_0[0] == ("anonymousUserInfo"@, at_0_0_3_0));
    assert(shows(at_0_0_3, "anonymousUserInfo"@, at_0_0_3_0));
    assert(shows(at_0_0_3_4, "uid"@, JsonView::Text(account.user_id)));
    assert(told2(at_0_0_3, "profile"@, "uid"@, JsonView::Text(account.user_id)));
    assert(told3(at_0_0, "user"@, "profile"@, "uid"@, JsonView::Text(account.user_id)));
    assert(told4(at_0, "user"@, "user"@, "profile"@, "uid"@, JsonView::Text(account.user_id)));
    assert(told5(root, "data"@, "user"@, "user"@, "profile"@, "uid"@, JsonView::Text(account.user_id)));
    assert(shows(at_0_0_3_4, "displayName"@, JsonView::Text(account.display_name)));
    assert(told2(at_0_0_3, "profile"@, "displayName"@, JsonView::Text(account.display_name)));
    assert(told3(at_0_0, "user"@, "profile"@, "displayName"@, JsonView::Text(account.display_name)));
    assert(told4(at_0, "user"@, "user"@, "profile"@, "displayName"@, JsonView::Text(account.display_name)));
    assert(told5(
        root,
        "data"@,
        "user"@,
        "user"@,
        "profile"@,
        "displayName"@,
        JsonView::Text(account.display_name),
    ));
    assert(shows(at_0_0_3, "llms"@, llms));
    assert(told2(at_0_0, "user"@, "llms"@, llms));
    assert(told3(at_0, "user"@, "user"@, "llms"@, llms));
    assert(told4(root, "data"@, "user"@, "user"@, "llms"@, llms));
    assert(shows(at_0_0_3, "isOnboarded"@, JsonView::Bool(true)));
    assert(told2(at_0_0, "user"@, "isOnboarded"@, JsonView::Bool(true)));
    assert(told3(at_0, "user"@, "user"@, "isOnboarded"@, JsonView::Bool(true)));
    assert(told4(root, "data"@, "user"@, "user"@, "isOnboarded"@, JsonView::Bool(true)));
    assert(shows(at_0_0_3, "anonymousUserInfo"@, JsonView::Null));
    assert(told2(at_0_0, "user"@, "anonymousUserInfo"@, JsonView::Null));
    assert(told3(at_0, "user"@, "user"@, "anonymousUserInfo"@, JsonView::Null));
    assert(told4(root, "data"@, "user"@, "user"@, "anonymousUserInfo"@, JsonView::Null));
}

/// Nothing is stored elsewhere, no crash is reported and no use is measured.
pub proof fn law_nothing_is_sent_home()
    ensures
        told5(
            user_settings_json(),
            "data"@,
            "user"@,
            "user"@,
            "settings"@,
            "isCloudConversationStorageEnabled"@,
            JsonView::Bool(false),
        ),
        told5(
            user_settings_json(),
            "data"@,
            "user"@,
            "user"@,
            "settings"@,
            "isCrashReportingEnabled"@,
            JsonView::Bool(false),
        ),
        told5(
            user_settings_json(),
            "data"@,
            "user"@,
            "user"@,
            "settings"@,
            "isTelemetryEnabled"@,
            JsonView::Bool(false),
        ),
{
    let root = user_settings_json();
    let at_0 = root->Object_0[0].1;
    assert(root->Object_0[0] == ("data"@, at_0));
    assert(shows(root, "data"@, at_0));
    let at_0_0 = at_0->Object_0[0].1;
    assert(at_0->Object_0[0] == ("user"@, at_0_0));
    assert(shows(at_0, "user"@, at_0_0));
    let at_0_0_1 = at_0_0->Object_0[1].1;
    assert(at_0_0->Object_0[1] == ("user"@, at_0_0_1));
    assert(shows(at_0_0, "user"@, at_0_0_1));
    let at_0_0_1_0 = at_0_0_1->Object_0[0].1;
    assert(at_0_0_1->Object_0[0] == ("settings"@, at_0_0_1_0));
    assert(shows(at_0_0_1, "settings"@, at_0_0_1_0));
    let at_0_0_1_0_0 = at_0_0_1_0->Object_0[0].1;
    assert(at_0_0_1_0->Object_0[0] == ("isCloudConversationStorageEnabled"@, at_0_0_1_0_0));
    assert(shows(at_0_0_1_0, "isCloudConversationStorageEnabled"@, at_0_0_1_0_0));
    let at_0_0_1_0_1 = at_0_0_1_0->Object_0[1].1;
    assert(at_0_0_1_0->Object_0[1] == ("isCrashReportingEnabled"@, at_0_0_1_0_1));
    assert(shows(at_0_0_1_0, "isCrashReportingEnabled"@, at_0_0_1_0_1));
    let at_0_0_1_0_2 = at_0_0_1_0->Object_0[2].1;
    assert(at_0_0_1_0->Object_0[2] == ("isTelemetryEnabled"@, at_0_0_1_0_2));
    assert(shows(at_0_0_1_0, "isTelemetryEnabled"@, at_0_0_1_0_2));
    assert(shows(at_0_0_1_0, "isCloudConversationStorageEnabled"@, JsonView::Bool(false)));
    assert(told2(at_0_0_1, "settings"@, "isCloudConversationStorageEnabled"@, JsonView::Bool(false)));
    assert(told3(at_0_0, "user"@, "settings"@, "isCloudConversationStorageEnabled"@, JsonView::Bool(false)));
    assert(told4(
        at_0,
        "user"@,
        "user"@,
        "settings"@,
        "isCloudConversationStorageEnabled"@,
        JsonView::Bool(false),
    ));
    assert(told5(
        root,
        "data"@,
        "user"@,
        "user"@,
        "settings"@,
        "isCloudConversationStorageEnabled"@,
        JsonView::Bool(false),
    ));
    assert(shows(at_0_0_1_0, "isCrashReportingEnabled"@, JsonView::Bool(false)));
    assert(told2(at_0_0_1, "settings"@, "isCrashReportingEnabled"@, JsonView::Bool(false)));
    assert(told3(at_0_0, "user"@, "settings"@, "isCrashReportingEnabled"@, JsonView::Bool(false)));
    assert(told4(at_0, "user"@, "user"@, "settings"@, "isCrashReportingEnabled"@, JsonView::Bool(false)));
    assert(told5(
        root,
        "data"@,
        "user"@,
        "user"@,
        "settings"@,
        "isCrashReportingEnabled"@,
        JsonView::Bool(false),
    ));
    assert(shows(at_0_0_1_0, "isTelemetryEnabled"@, JsonView::Bool(false)));
    assert(told2(at_0_0_1, "settings"@, "isTelemetryEnabled"@, JsonView::Bool(false)));
    assert(told3(at_0_0, "user"@, "settings"@, "isTelemetryEnabled"@, JsonView::Bool(false)));
    assert(told4(at_0, "user"@, "user"@, "settings"@, "isTelemetryEnabled"@, JsonView::Bool(false)));
    assert(told5(
        root,
        "data"@,
        "user"@,
        "user"@,
        "settings"@,
        "isTelemetryEnabled"@,
        JsonView::Bool(false),
    ));
}

/// There is no limit on requests, and none was used up.
pub proof fn law_requests_are_not_limited()
    ensures
        told5(
            request_limits_json(),
            "data"@,
            "user"@,
            "user"@,
            "requestLimitInfo"@,
            "isUnlimited"@,
            JsonView::Bool(true),
        ),
        told5(
            request_limits_json(),
            "data"@,
            "user"@,
            "user"@,
            "requestLimitInfo"@,
            "requestsUsedSinceLastRefresh"@,
            JsonView::Number(number_of(0)),
        ),
        told5(
            request_limits_json(),
            "data"@,
            "user"@,
            "user"@,
            "requestLimitInfo"@,
            "requestLimit"@,
            JsonView::Number(number_of(1000000)),
        ),
        told5(
            request_limits_json(),
            "data"@,
            "user"@,
            "user"@,
            "requestLimitInfo"@,
            "isUnlimitedVoice"@,
            JsonView::Bool(true),
        ),
        told5(
            request_limits_json(),
            "data"@,
            "user"@,
            "user"@,
            "requestLimitInfo"@,
            "voiceRequestsUsedSinceLastRefresh"@,
            JsonView::Number(number_of(0)),
        ),
        told5(
            request_limits_json(),
            "data"@,
            "user"@,
            "user"@,
            "requestLimitInfo"@,
            "isUnlimitedCodebaseIndices"@,
            JsonView::Bool(true),
        ),
{
    let root = request_limits_json();
    let at_0 = root->Object_0[0].1;
    assert(root->Object_0[0] == ("data"@, at_0));
    assert(shows(root, "data"@, at_0));
    let at_0_0 = at_0->Object_0[0].1;
    assert(at_0->Object_0[0] == ("user"@, at_0_0));
    assert(shows(at_0, "user"@, at_0_0));
    let at_0_0_1 = at_0_0->Object_0[1].1;
    assert(at_0_0->Object_0[1] == ("user"@, at_0_0_1));
    assert(shows(at_0_0, "user"@, at_0_0_1));
    let at_0_0_1_1 = at_0_0_1->Object_0[1].1;
    assert(at_0_0_1->Object_0[1] == ("requestLimitInfo"@, at_0_0_1_1));
    assert(shows(at_0_0_1, "requestLimitInfo"@, at_0_0_1_1));
    let at_0_0_1_1_0 = at_0_0_1_1->Object_0[0].1;
    assert(at_0_0_1_1->Object_0[0] == ("isUnlimited"@, at_0_0_1_1_0));
    assert(shows(at_0_0_1_1, "isUnlimited"@, at_0_0_1_1_0));
    let at_0_0_1_1_1 = at_0_0_1_1->Object_0[1].1;
    assert(at_0_0_1_1->Object_0[1] == ("requestsUsedSinceLastRefresh"@, at_0_0_1_1_1));
    assert(shows(at_0_0_1_1, "requestsUsedSinceLastRefresh"@, at_0_0_1_1_1));
    let at_0_0_1_1_2 = at_0_0_1_1->Object_0[2].1;
    assert(at_0_0_1_1->Object_0[2] == ("requestLimit"@, at_0_0_1_1_2));
    assert(shows(at_0_0_1_1, "requestLimit"@, at_0_0_1_1_2));
    let at_0_0_1_1_5 = at_0_0_1_1->Object_0[5].1;
    assert(at_0_0_1_1->Object_0[5] == ("isUnlimitedVoice"@, at_0_0_1_1_5));
    assert(shows(at_0_0_1_1, "isUnlimitedVoice"@, at_0_0_1_1_5));
    let at_0_0_1_1_7 = at_0_0_1_1->Object_0[7].1;
    assert(at_0_0_1_1->Object_0[7] == ("voiceRequestsUsedSinceLastRefresh"@, at_0_0_1_1_7));
    assert(shows(at_0_0_1_1, "voiceRequestsUsedSinceLastRefresh"@, at_0_0_1_1_7));
    let at_0_0_1_1_8 = at_0_0_1_1->Object_0[8].1;
    assert(at_0_0_1_1->Object_0[8] == ("isUnlimitedCodebaseIndices"@, at_0_0_1_1_8));
    assert(shows(at_0_0_1_1, "isUnlimitedCodebaseIndices"@, at_0_0_1_1_8));
    assert(shows(at_0_0_1_1, "isUnlimited"@, JsonView::Bool(true)));
    assert(told2(at_0_0_1, "requestLimitInfo"@, "isUnlimited"@, JsonView::Bool(true)));
    assert(told3(at_0_0, "user"@, "requestLimitInfo"@, "isUnlimited"@, JsonView::Bool(true)));
    assert(told4(at_0, "user"@, "user"@, "requestLimitInfo"@, "isUnlimited"@, JsonView::Bool(true)));
    assert(told5(
        root,
        "data"@,
        "user"@,
        "user"@,
        "requestLimitInfo"@,
        "isUnlimited"@,
        JsonView::Bool(true),
    ));
    assert(shows(at_0_0_1_1, "requestsUsedSinceLastRefresh"@, JsonView::Number(number_of(0))));
    assert(told2(
        at_0_0_1,
        "requestLimitInfo"@,
        "requestsUsedSinceLastRefresh"@,
        JsonView::Number(number_of(0)),
    ));
    assert(told3(
        at_0_0,
        "user"@,
        "requestLimitInfo"@,
        "requestsUsedSinceLastRefresh"@,
        JsonView::Number(number_of(0)),
    ));
    assert(told4(
        at_0,
        "user"@,
        "user"@,
        "requestLimitInfo"@,
        "requestsUsedSinceLastRefresh"@,
        JsonView::Number(number_of(0)),
    ));
    assert(told5(
        root,
        "data"@,
        "user"@,
        "user"@,
        "requestLimitInfo"@,
        "requestsUsedSinceLastRefresh"@,
        JsonView::Number(number_of(0)),
    ));
    assert(shows(at_0_0_1_1, "requestLimit"@, JsonView::Number(number_of(1000000))));
    assert(told2(at_0_0_1, "requestLimitInfo"@, "requestLimit"@, JsonView::Number(number_of(1000000))));
    assert(told3(
        at_0_0,
        "user"@,
        "requestLimitInfo"@,
        "requestLimit"@,
        JsonView::Number(number_of(1000000)),
    ));
    assert(told4(
        at_0,
        "user"@,
        "user"@,
        "requestLimitInfo"@,
        "requestLimit"@,
        JsonView::Number(number_of(1000000)),
    ));
    assert(told5(
        root,
        "data"@,
        "user"@,
        "user"@,
        "requestLimitInfo"@,
        "requestLimit"@,
        JsonView::Number(number_of(1000000)),
    ));
    assert(shows(at_0_0_1_1, "isUnlimitedVoice"@, JsonView::Bool(true)));
    assert(told2(at_0_0_1, "requestLimitInfo"@, "isUnlimitedVoice"@, JsonView::Bool(true)));
    assert(told3(at_0_0, "user"@, "requestLimitInfo"@, "isUnlimitedVoice"@, JsonView::Bool(true)));
    assert(told4(at_0, "user"@, "user"@, "requestLimitInfo"@, "isUnlimitedVoice"@, JsonView::Bool(true)));
    assert(told5(
        root,
        "data"@,
        "user"@,
        "user"@,
        "requestLimitInfo"@,
        "isUnlimitedVoice"@,
        JsonView::Bool(true),
    ));
    assert(shows(at_0_0_1_1, "voiceRequestsUsedSinceLastRefresh"@, JsonView::Number(number_of(0))));
    assert(told2(
        at_0_0_1,
        "requestLimitInfo"@,
        "voiceRequestsUsedSinceLastRefresh"@,
        JsonView::Number(number_of(0)),
    ));
    assert(told3(
        at_0_0,
        "user"@,
        "requestLimitInfo"@,
        "voiceRequestsUsedSinceLastRefresh"@,
        JsonView::Number(number_of(0)),
    ));
    assert(told4(
        at_0,
        "user"@,
        "user"@,
        "requestLimitInfo"@,
        "voiceRequestsUsedSinceLastRefresh"@,
        JsonView::Number(number_of(0)),
    ));
    assert(told5(
        root,
        "data"@,
        "user"@,
        "user"@,
        "requestLimitInfo"@,
        "voiceRequestsUsedSinceLastRefresh"@,
        JsonView::Number(number_of(0)),
    ));
    assert(shows(at_0_0_1_1, "isUnlimitedCodebaseIndices"@, JsonView::Bool(true)));
    assert(told2(at_0_0_1, "requestLimitInfo"@, "isUnlimitedCodebaseIndices"@, JsonView::Bool(true)));
    assert(told3(at_0_0, "user"@, "requestLimitInfo"@, "isUnlimitedCodebaseIndices"@, JsonView::Bool(true)));
    assert(told4(
        at_0,
        "user"@,
        "user"@,
        "requestLimitInfo"@,
        "isUnlimitedCodebaseIndices"@,
        JsonView::Bool(true),
    ));
    assert(told5(
        root,
        "data"@,
        "user"@,
        "user"@,
        "requestLimitInfo"@,
        "isUnlimitedCodebaseIndices"@,
        JsonView::Bool(true),
    ));
}

/// No conversation is kept for other machines.
pub proof fn law_conversations_are_not_kept()
    ensures
        told3(
            conversations_json(),
            "data"@,
            "listAIConversations"@,
            "conversations"@,
            JsonView::List(Seq::empty()),
        ),
{
    let root = conversations_json();
    let at_0 = root->Object_0[0].1;
    assert(root->Object_0[0] == ("data"@, at_0));
    assert(shows(root, "data"@, at_0));
    let at_0_0 = at_0->Object_0[0].1;
    assert(at_0->Object_0[0] == ("listAIConversations"@, at_0_0));
    assert(shows(at_0, "listAIConversations"@, at_0_0));
    let at_0_0_1 = at_0_0->Object_0[1].1;
    assert(at_0_0->Object_0[1] == ("conversations"@, at_0_0_1));
    assert(shows(at_0_0, "conversations"@, at_0_0_1));
    assert(shows(at_0_0, "conversations"@, JsonView::List(Seq::empty())));
    assert(told2(at_0, "listAIConversations"@, "conversations"@, JsonView::List(Seq::empty())));
    assert(told3(root, "data"@, "listAIConversations"@, "conversations"@, JsonView::List(Seq::empty())));
}

/// A machine that was found is shown as an environment: under the name it is known by, with where it
/// is reached, and as the property of this user.
pub proof fn law_machines_are_environments(owner: Seq<char>, worker: WorkerView, now: Seq<char>)
    ensures
        shows(
            peer_environment_json(owner, worker, now),
            "uid"@,
            JsonView::Text(synthetic_id(worker.device_id)),
        ),
        told2(
            peer_environment_json(owner, worker, now),
            "config"@,
            "name"@,
            JsonView::Text(worker.display_name),
        ),
        told2(
            peer_environment_json(owner, worker, now),
            "config"@,
            "description"@,
            JsonView::Text("WarpSOLO peer at "@ + worker.url),
        ),
        shows(peer_environment_json(owner, worker, now), "lastUpdated"@, JsonView::Text(now)),
        told2(peer_environment_json(owner, worker, now), "scope"@, "uid"@, JsonView::Text(owner)),
        shows(peer_environment_json(owner, worker, now), "setupFailed"@, JsonView::Bool(false)),
{
    let root = peer_environment_json(owner, worker, now);
    let at_1 = root->Object_0[1].1;
    assert(root->Object_0[1] == ("uid"@, at_1));
    assert(shows(root, "uid"@, at_1));
    let at_2 = root->Object_0[2].1;
    assert(root->Object_0[2] == ("config"@, at_2));
    assert(shows(root, "config"@, at_2));
    let at_2_1 = at_2->Object_0[1].1;
    assert(at_2->Object_0[1] == ("name"@, at_2_1));
    assert(shows(at_2, "name"@, at_2_1));
    let at_2_2 = at_2->Object_0[2].1;
    assert(at_2->Object_0[2] == ("description"@, at_2_2));
    assert(shows(at_2, "description"@, at_2_2));
    let at_7 = root->Object_0[7].1;
    assert(root->Object_0[7] == ("lastUpdated"@, at_7));
    assert(shows(root, "lastUpdated"@, at_7));
    let at_8 = root->Object_0[8].1;
    assert(root->Object_0[8] == ("scope"@, at_8));
    assert(shows(root, "scope"@, at_8));
    let at_8_1 = at_8->Object_0[1].1;
    assert(at_8->Object_0[1] == ("uid"@, at_8_1));
    assert(shows(at_8, "uid"@, at_8_1));
    let at_9 = root->Object_0[9].1;
    assert(root->Object_0[9] == ("setupFailed"@, at_9));
    assert(shows(root, "setupFailed"@, at_9));
    assert(shows(root, "uid"@, JsonView::Text(synthetic_id(worker.device_id))));
    assert(shows(at_2, "name"@, JsonView::Text(worker.display_name)));
    assert(told2(root, "config"@, "name"@, JsonView::Text(worker.display_name)));
    assert(shows(at_2, "description"@, JsonView::Text("WarpSOLO peer at "@ + worker.url)));
    assert(told2(root, "config"@, "description"@, JsonView::Text("WarpSOLO peer at "@ + worker.url)));
    assert(shows(root, "lastUpdated"@, JsonView::Text(now)));
    assert(shows(at_8, "uid"@, JsonView::Text(owner)));
    assert(told2(root, "scope"@, "uid"@, JsonView::Text(owner)));
    assert(shows(root, "setupFailed"@, JsonView::Bool(false)));
}

/// A machine that was found is an object that this user owns, under the same name.
pub proof fn law_machines_are_objects(owner: Seq<char>, worker: WorkerView, now: Seq<char>)
    ensures
        shows(
            peer_object_json(owner, worker, now),
            "format"@,
            JsonView::Text("JsonCloudEnvironment"@),
        ),
        told2(
            peer_object_json(owner, worker, now),
            "metadata"@,
            "uid"@,
            JsonView::Text(synthetic_id(worker.device_id)),
        ),
        told3(
            peer_object_json(owner, worker, now),
            "metadata"@,
            "parent"@,
            "uid"@,
            JsonView::Text(owner),
        ),
        told2(peer_object_json(owner, worker, now), "metadata"@, "trashedTs"@, JsonView::Null),
        told3(
            peer_object_json(owner, worker, now),
            "permissions"@,
            "space"@,
            "uid"@,
            JsonView::Text(owner),
        ),
        shows(
            peer_object_json(owner, worker, now),
            "serializedModel"@,
            JsonView::Text(json_text(settled(peer_model_json(worker)))),
        ),
{
    let root = peer_object_json(owner, worker, now);
    let at_1 = root->Object_0[1].1;
    assert(root->Object_0[1] == ("format"@, at_1));
    assert(shows(root, "format"@, at_1));
    let at_2 = root->Object_0[2].1;
    assert(root->Object_0[2] == ("metadata"@, at_2));
    assert(shows(root, "metadata"@, at_2));
    let at_2_9 = at_2->Object_0[9].1;
    assert(at_2->Object_0[9] == ("uid"@, at_2_9));
    assert(shows(at_2, "uid"@, at_2_9));
    let at_2_6 = at_2->Object_0[6].1;
    assert(at_2->Object_0[6] == ("parent"@, at_2_6));
    assert(shows(at_2, "parent"@, at_2_6));
    let at_2_6_1 = at_2_6->Object_0[1].1;
    assert(at_2_6->Object_0[1] == ("uid"@, at_2_6_1));
    assert(shows(at_2_6, "uid"@, at_2_6_1));
    let at_2_8 = at_2->Object_0[8].1;
    assert(at_2->Object_0[8] == ("trashedTs"@, at_2_8));
    assert(shows(at_2, "trashedTs"@, at_2_8));
    let at_3 = root->Object_0[3].1;
    assert(root->Object_0[3] == ("permissions"@, at_3));
    assert(shows(root, "permissions"@, at_3));
    let at_3_4 = at_3->Object_0[4].1;
    assert(at_3->Object_0[4] == ("space"@, at_3_4));
    assert(shows(at_3, "space"@, at_3_4));
    let at_3_4_1 = at_3_4->Object_0[1].1;
    assert(at_3_4->Object_0[1] == ("uid"@, at_3_4_1));
    assert(shows(at_3_4, "uid"@, at_3_4_1));
    let at_4 = root->Object_0[4].1;
    assert(root->Object_0[4] == ("serializedModel"@, at_4));
    assert(shows(root, "serializedModel"@, at_4));
    assert(shows(root, "format"@, JsonView::Text("JsonCloudEnvironment"@)));
    assert(shows(at_2, "uid"@, JsonView::Text(synthetic_id(worker.device_id))));
    assert(told2(root, "metadata"@, "uid"@, JsonView::Text(synthetic_id(worker.device_id))));
    assert(shows(at_2_6, "uid"@, JsonView::Text(owner)));
    assert(told2(at_2, "parent"@, "uid"@, JsonView::Text(owner)));
    assert(told3(root, "metadata"@, "parent"@, "uid"@, JsonView::Text(owner)));
    assert(shows(at_2, "trashedTs"@, JsonView::Null));
    assert(told2(root, "metadata"@, "trashedTs"@, JsonView::Null));
    assert(shows(at_3_4, "uid"@, JsonView::Text(owner)));
    assert(told2(at_3, "space"@, "uid"@, JsonView::Text(owner)));
    assert(told3(root, "permissions"@, "space"@, "uid"@, JsonView::Text(owner)));
    assert(shows(root, "serializedModel"@, JsonView::Text(json_text(settled(peer_model_json(worker))))));
}

/// What an object says of its machine: its name and where it is reached.
pub proof fn law_machines_are_described(worker: WorkerView)
    ensures
        shows(peer_model_json(worker), "name"@, JsonView::Text(worker.display_name)),
        shows(
            peer_model_json(worker),
            "description"@,
            JsonView::Text("WarpSOLO peer at "@ + worker.url),
        ),
{
    let root = peer_model_json(worker);
    let at_0 = root->Object_0[0].1;
    assert(root->Object_0[0] == ("name"@, at_0));
    assert(shows(root, "name"@, at_0));
    let at_1 = root->Object_0[1].1;
    assert(root->Object_0[1] == ("description"@, at_1));
    assert(shows(root, "description"@, at_1));
    assert(shows(root, "name"@, JsonView::Text(worker.display_name)));
    assert(shows(root, "description"@, JsonView::Text("WarpSOLO peer at "@ + worker.url)));
}

/// A model is shown by its names. One without a key is shown as disabled, with what to do about it.
pub proof fn law_models_are_shown(model: ModelView)
    ensures
        shows(llm_json(model), "displayName"@, JsonView::Text(model.display_name)),
        shows(llm_json(model), "baseModelName"@, JsonView::Text(model.base_model_name)),
        shows(llm_json(model), "id"@, JsonView::Text(model.id)),
        shows(llm_json(model), "disableReason"@, if model.token_configured {
                JsonView::Null
            } else {
                JsonView::Text("Configure an API token in llm.toml"@)
            }),
        shows(llm_json(model), "description"@, JsonView::Text(
                match model.description {
                    Some(description) => description,
                    None => "Local "@ + style_label(model.api_style),
                },
            )),
        shows(llm_json(model), "provider"@, JsonView::Text(provider_label(model.api_style))),
        told2(llm_json(model), "contextWindow"@, "min"@, JsonView::Number(number_of(1024))),
        told2(llm_json(model), "contextWindow"@, "max"@, JsonView::Number(number_of(200000))),
        told2(llm_json(model), "contextWindow"@, "default"@, JsonView::Number(number_of(32000))),
{
    let root = llm_json(model);
    let at_0 = root->Object_0[0].1;
    assert(root->Object_0[0] == ("displayName"@, at_0));
    assert(shows(root, "displayName"@, at_0));
    let at_1 = root->Object_0[1].1;
    assert(root->Object_0[1] == ("baseModelName"@, at_1));
    assert(shows(root, "baseModelName"@, at_1));
    let at_2 = root->Object_0[2].1;
    assert(root->Object_0[2] == ("id"@, at_2));
    assert(shows(root, "id"@, at_2));
    let at_6 = root->Object_0[6].1;
    assert(root->Object_0[6] == ("disableReason"@, at_6));
    assert(shows(root, "disableReason"@, at_6));
    let at_5 = root->Object_0[5].1;
    assert(root->Object_0[5] == ("description"@, at_5));
    assert(shows(root, "description"@, at_5));
    let at_9 = root->Object_0[9].1;
    assert(root->Object_0[9] == ("provider"@, at_9));
    assert(shows(root, "provider"@, at_9));
    let at_12 = root->Object_0[12].1;
    assert(root->Object_0[12] == ("contextWindow"@, at_12));
    assert(shows(root, "contextWindow"@, at_12));
    let at_12_1 = at_12->Object_0[1].1;
    assert(at_12->Object_0[1] == ("min"@, at_12_1));
    assert(shows(at_12, "min"@, at_12_1));
    let at_12_2 = at_12->Object_0[2].1;
    assert(at_12->Object_0[2] == ("max"@, at_12_2));
    assert(shows(at_12, "max"@, at_12_2));
    let at_12_3 = at_12->Object_0[3].1;
    assert(at_12->Object_0[3] == ("default"@, at_12_3));
    assert(shows(at_12, "default"@, at_12_3));
    assert(shows(root, "displayName"@, JsonView::Text(model.display_name)));
    assert(shows(root, "baseModelName"@, JsonView::Text(model.base_model_name)));
    assert(shows(root, "id"@, JsonView::Text(model.id)));
    assert(shows(root, "disableReason"@, if model.token_configured {
                JsonView::Null
            } else {
                JsonView::Text("Configure an API token in llm.toml"@)
            }));
    assert(shows(root, "description"@, JsonView::Text(
                match model.description {
                    Some(description) => description,
                    None => "Local "@ + style_label(model.api_style),
                },
            )));
    assert(shows(root, "provider"@, JsonView::Text(provider_label(model.api_style))));
    assert(shows(at_12, "min"@, JsonView::Number(number_of(1024))));
    assert(told2(root, "contextWindow"@, "min"@, JsonView::Number(number_of(1024))));
    assert(shows(at_12, "max"@, JsonView::Number(number_of(200000))));
    assert(told2(root, "contextWindow"@, "max"@, JsonView::Number(number_of(200000))));
    assert(shows(at_12, "default"@, JsonView::Number(number_of(32000))));
    assert(told2(root, "contextWindow"@, "default"@, JsonView::Number(number_of(32000))));
}

/// The tokens of the account are handed out.
pub proof fn law_tokens_are_the_account(account: AccountView)
    ensures
        shows(token_json(account), "idToken"@, JsonView::Text(account.id_token)),
        shows(token_json(account), "refreshToken"@, JsonView::Text(account.refresh_token)),
        shows(token_json(account), "expiresIn"@, JsonView::Text("3600"@)),
{
    let root = token_json(account);
    let at_1 = root->Object_0[1].1;
    assert(root->Object_0[1] == ("idToken"@, at_1));
    assert(shows(root, "idToken"@, at_1));
    let at_2 = root->Object_0[2].1;
    assert(root->Object_0[2] == ("refreshToken"@, at_2));
    assert(shows(root, "refreshToken"@, at_2));
    let at_0 = root->Object_0[0].1;
    assert(root->Object_0[0] == ("expiresIn"@, at_0));
    assert(shows(root, "expiresIn"@, at_0));
    assert(shows(root, "idToken"@, JsonView::Text(account.id_token)));
    assert(shows(root, "refreshToken"@, JsonView::Text(account.refresh_token)));
    assert(shows(root, "expiresIn"@, JsonView::Text("3600"@)));
}

/// A machine that is asked says that it is well, and who it is.
pub proof fn law_health_is_told(account: AccountView)
    ensures
        shows(healthz_json(account), "ok"@, JsonView::Bool(true)),
        shows(healthz_json(account), "userId"@, JsonView::Text(account.user_id)),
        shows(healthz_json(account), "deviceId"@, JsonView::Text(account.device_id)),
{
    let root = healthz_json(account);
    let at_0 = root->Object_0[0].1;
    assert(root->Object_0[0] == ("ok"@, at_0));
    assert(shows(root, "ok"@, at_0));
    let at_1 = root->Object_0[1].1;
    assert(root->Object_0[1] == ("userId"@, at_1));
    assert(shows(root, "userId"@, at_1));
    let at_2 = root->Object_0[2].1;
    assert(root->Object_0[2] == ("deviceId"@, at_2));
    assert(shows(root, "deviceId"@, at_2));
    assert(shows(root, "ok"@, JsonView::Bool(true)));
    assert(shows(root, "userId"@, JsonView::Text(account.user_id)));
    assert(shows(root, "deviceId"@, JsonView::Text(account.device_id)));
}

/// A worker says what it is, and of which machine and user.
pub proof fn law_workers_say_who_they_are(account: AccountView)
    ensures
        shows(worker_health_json(account), "ok"@, JsonView::Bool(true)),
        shows(worker_health_json(account), "app"@, JsonView::Text("WarpSOLO"@)),
        shows(worker_health_json(account), "deviceId"@, JsonView::Text(account.device_id)),
        shows(worker_health_json(account), "userId"@, JsonView::Text(account.user_id)),
        shows(worker_health_json(account), "displayName"@, JsonView::Text(account.display_name)),
{
    let root = worker_health_json(account);
    let at_0 = root->Object_0[0].1;
    assert(root->Object_0[0] == ("ok"@, at_0));
    assert(shows(root, "ok"@, at_0));
    let at_1 = root->Object_0[1].1;
    assert(root->Object_0[1] == ("app"@, at_1));
    assert(shows(root, "app"@, at_1));
    let at_3 = root->Object_0[3].1;
    assert(root->Object_0[3] == ("deviceId"@, at_3));
    assert(shows(root, "deviceId"@, at_3));
    let at_4 = root->Object_0[4].1;
    assert(root->Object_0[4] == ("userId"@, at_4));
    assert(shows(root, "userId"@, at_4));
    let at_5 = root->Object_0[5].1;
    assert(root->Object_0[5] == ("displayName"@, at_5));
    assert(shows(root, "displayName"@, at_5));
    assert(shows(root, "ok"@, JsonView::Bool(true)));
    assert(shows(root, "app"@, JsonView::Text("WarpSOLO"@)));
    assert(shows(root, "deviceId"@, JsonView::Text(account.device_id)));
    assert(shows(root, "userId"@, JsonView::Text(account.user_id)));
    assert(shows(root, "displayName"@, JsonView::Text(account.display_name)));
}

/// A worker says what it can do, and whether it asks for a token.
pub proof fn law_workers_say_what_they_can_do(account: AccountView, auth: Seq<char>)
    ensures
        shows(
            worker_capabilities_json(account, auth),
            "deviceId"@,
            JsonView::Text(account.device_id),
        ),
        shows(
            worker_capabilities_json(account, auth),
            "displayName"@,
            JsonView::Text(account.display_name),
        ),
        shows(worker_capabilities_json(account, auth), "capabilities"@, JsonView::List(
                seq![JsonView::Text("agent"@), JsonView::Text("terminal"@), JsonView::Text("workspace"@)],
            )),
        shows(worker_capabilities_json(account, auth), "auth"@, JsonView::Text(auth)),
{
    let root = worker_capabilities_json(account, auth);
    let at_1 = root->Object_0[1].1;
    assert(root->Object_0[1] == ("deviceId"@, at_1));
    assert(shows(root, "deviceId"@, at_1));
    let at_2 = root->Object_0[2].1;
    assert(root->Object_0[2] == ("displayName"@, at_2));
    assert(shows(root, "displayName"@, at_2));
    let at_3 = root->Object_0[3].1;
    assert(root->Object_0[3] == ("capabilities"@, at_3));
    assert(shows(root, "capabilities"@, at_3));
    let at_4 = root->Object_0[4].1;
    assert(root->Object_0[4] == ("auth"@, at_4));
    assert(shows(root, "auth"@, at_4));
    assert(shows(root, "deviceId"@, JsonView::Text(account.device_id)));
    assert(shows(root, "displayName"@, JsonView::Text(account.display_name)));
    assert(at_3->List_0 =~= seq![
        JsonView::Text("agent"@),
        JsonView::Text("terminal"@),
        JsonView::Text("workspace"@),
    ]);
    assert(shows(root, "capabilities"@, JsonView::List(
                seq![JsonView::Text("agent"@), JsonView::Text("terminal"@), JsonView::Text("workspace"@)],
            )));
    assert(shows(root, "auth"@, JsonView::Text(auth)));
}

/// A machine that was found is shown with all that is known of it.
pub proof fn law_found_machines_are_shown(worker: WorkerView)
    ensures
        shows(found_worker_json(worker), "sourceId"@, JsonView::Text(worker.source_id)),
        shows(found_worker_json(worker), "deviceId"@, JsonView::Text(worker.device_id)),
        shows(found_worker_json(worker), "userId"@, JsonView::Text(worker.user_id)),
        shows(found_worker_json(worker), "displayName"@, JsonView::Text(worker.display_name)),
        shows(found_worker_json(worker), "hostname"@, JsonView::Text(worker.hostname)),
        shows(found_worker_json(worker), "url"@, JsonView::Text(worker.url)),
        shows(found_worker_json(worker), "auth"@, JsonView::Text(worker.auth)),
        shows(
            found_worker_json(worker),
            "lastSeenEpochMillis"@,
            JsonView::Number(number_of(worker.last_seen_epoch_millis)),
        ),
{
    let root = found_worker_json(worker);
    let at_0 = root->Object_0[0].1;
    assert(root->Object_0[0] == ("sourceId"@, at_0));
    assert(shows(root, "sourceId"@, at_0));
    let at_1 = root->Object_0[1].1;
    assert(root->Object_0[1] == ("deviceId"@, at_1));
    assert(shows(root, "deviceId"@, at_1));
    let at_2 = root->Object_0[2].1;
    assert(root->Object_0[2] == ("userId"@, at_2));
    assert(shows(root, "userId"@, at_2));
    let at_3 = root->Object_0[3].1;
    assert(root->Object_0[3] == ("displayName"@, at_3));
    assert(shows(root, "displayName"@, at_3));
    let at_4 = root->Object_0[4].1;
    assert(root->Object_0[4] == ("hostname"@, at_4));
    assert(shows(root, "hostname"@, at_4));
    let at_5 = root->Object_0[5].1;
    assert(root->Object_0[5] == ("url"@, at_5));
    assert(shows(root, "url"@, at_5));
    let at_7 = root->Object_0[7].1;
    assert(root->Object_0[7] == ("auth"@, at_7));
    assert(shows(root, "auth"@, at_7));
    let at_8 = root->Object_0[8].1;
    assert(root->Object_0[8] == ("lastSeenEpochMillis"@, at_8));
    assert(shows(root, "lastSeenEpochMillis"@, at_8));
    assert(shows(root, "sourceId"@, JsonView::Text(worker.source_id)));
    assert(shows(root, "deviceId"@, JsonView::Text(worker.device_id)));
    assert(shows(root, "userId"@, JsonView::Text(worker.user_id)));
    assert(shows(root, "displayName"@, JsonView::Text(worker.display_name)));
    assert(shows(root, "hostname"@, JsonView::Text(worker.hostname)));
    assert(shows(root, "url"@, JsonView::Text(worker.url)));
    assert(shows(root, "auth"@, JsonView::Text(worker.auth)));
    assert(shows(root, "lastSeenEpochMillis"@, JsonView::Number(number_of(worker.last_seen_epoch_millis))));
}

/// Whatever a model is chosen for, the same models are offered.
pub proof fn law_one_choice_serves_all(llms: JsonView)
    ensures
        shows(choice_json(llms), "agentMode"@, llms),
        shows(choice_json(llms), "planning"@, llms),
        shows(choice_json(llms), "coding"@, llms),
        shows(choice_json(llms), "cliAgent"@, llms),
        shows(choice_json(llms), "computerUseAgent"@, llms),
{
    let root = choice_json(llms);
    let at_0 = root->Object_0[0].1;
    assert(root->Object_0[0] == ("agentMode"@, at_0));
    assert(shows(root, "agentMode"@, at_0));
    let at_1 = root->Object_0[1].1;
    assert(root->Object_0[1] == ("planning"@, at_1));
    assert(shows(root, "planning"@, at_1));
    let at_2 = root->Object_0[2].1;
    assert(root->Object_0[2] == ("coding"@, at_2));
    assert(shows(root, "coding"@, at_2));
    let at_3 = root->Object_0[3].1;
    assert(root->Object_0[3] == ("cliAgent"@, at_3));
    assert(shows(root, "cliAgent"@, at_3));
    let at_4 = root->Object_0[4].1;
    assert(root->Object_0[4] == ("computerUseAgent"@, at_4));
    assert(shows(root, "computerUseAgent"@, at_4));
    assert(shows(root, "agentMode"@, llms));
    assert(shows(root, "planning"@, llms));
    assert(shows(root, "coding"@, llms));
    assert(shows(root, "cliAgent"@, llms));
    assert(shows(root, "computerUseAgent"@, llms));
}

/// The models are offered for a feature as they are for everything else.
pub proof fn law_features_offer_the_models(llms: JsonView)
    ensures
        exists|workspace: JsonView|
            shows(workspace, "featureModelChoice"@, llms) && #[trigger] told4(
                feature_model_choices_json(llms),
                "data"@,
                "user"@,
                "user"@,
                "workspaces"@,
                JsonView::List(seq![workspace]),
            ),
{
    let root = feature_model_choices_json(llms);
    let data = root->Object_0[0].1;
    assert(root->Object_0[0] == ("data"@, data));
    let user = data->Object_0[0].1;
    assert(data->Object_0[0] == ("user"@, user));
    let inner = user->Object_0[1].1;
    assert(user->Object_0[1] == ("user"@, inner));
    let list = inner->Object_0[0].1;
    assert(inner->Object_0[0] == ("workspaces"@, list));
    let workspace = list->List_0[0];
    assert(list->List_0 =~= seq![workspace]);
    assert(workspace->Object_0[0] == ("featureModelChoice"@, llms));
    assert(shows(workspace, "featureModelChoice"@, llms));
    assert(shows(inner, "workspaces"@, JsonView::List(seq![workspace])));
    assert(shows(user, "user"@, inner));
    assert(told2(user, "user"@, "workspaces"@, JsonView::List(seq![workspace])));
    assert(shows(data, "user"@, user));
    assert(told3(data, "user"@, "user"@, "workspaces"@, JsonView::List(seq![workspace])));
    assert(shows(root, "data"@, data));
    assert(told4(
        root,
        "data"@,
        "user"@,
        "user"@,
        "workspaces"@,
        JsonView::List(seq![workspace]),
    ));
}

/// Every machine that was found is an environment, in its order, and no other is.
pub proof fn law_all_machines_are_environments(
    account: AccountView,
    workers: Seq<WorkerView>,
    now: Seq<char>,
)
    ensures
        exists|list: Seq<JsonView>|
            {
                &&& #[trigger] list.len() == workers.len()
                &&& forall|i: int|
                    0 <= i < workers.len() ==> #[trigger] list[i] == peer_environment_json(
                        owner_of(account),
                        workers[i],
                        now,
                    )
                &&& told3(
                    environments_json(account, workers, now),
                    "data"@,
                    "getCloudEnvironments"@,
                    "cloudEnvironments"@,
                    JsonView::List(list),
                )
            },
{
    let root = environments_json(account, workers, now);
    let data = root->Object_0[0].1;
    assert(root->Object_0[0] == ("data"@, data));
    let answer = data->Object_0[0].1;
    assert(data->Object_0[0] == ("getCloudEnvironments"@, answer));
    let list = answer->Object_0[1].1->List_0;
    assert(answer->Object_0[1] == ("cloudEnvironments"@, JsonView::List(list)));
    assert(shows(answer, "cloudEnvironments"@, JsonView::List(list)));
    assert(shows(data, "getCloudEnvironments"@, answer));
    assert(told2(data, "getCloudEnvironments"@, "cloudEnvironments"@, JsonView::List(list)));
    assert(shows(root, "data"@, data));
    assert(list.len() == workers.len());
}

/// Every machine that was found is an object, in its order, and the objects that stand for machines
/// that are gone are named.
pub proof fn law_all_machines_are_objects(
    account: AccountView,
    workers: Seq<WorkerView>,
    asked: Seq<Seq<char>>,
    now: Seq<char>,
)
    ensures
        exists|list: Seq<JsonView>|
            {
                &&& #[trigger] list.len() == workers.len()
                &&& forall|i: int|
                    0 <= i < workers.len() ==> #[trigger] list[i] == peer_object_json(
                        owner_of(account),
                        workers[i],
                        now,
                    )
                &&& told3(
                    objects_json(account, workers, asked, now),
                    "data"@,
                    "updatedCloudObjects"@,
                    "genericStringObjects"@,
                    JsonView::List(list),
                )
            },
        exists|list: Seq<JsonView>|
            {
                &&& #[trigger] list.len() == gone(asked, workers).len()
                &&& forall|i: int|
                    0 <= i < list.len() ==> #[trigger] list[i] == JsonView::Text(
                        gone(asked, workers)[i],
                    )
                &&& told4(
                    objects_json(account, workers, asked, now),
                    "data"@,
                    "updatedCloudObjects"@,
                    "deletedObjectUids"@,
                    "genericStringObjectUids"@,
                    JsonView::List(list),
                )
            },
{
    let root = objects_json(account, workers, asked, now);
    let data = root->Object_0[0].1;
    assert(root->Object_0[0] == ("data"@, data));
    let answer = data->Object_0[0].1;
    assert(data->Object_0[0] == ("updatedCloudObjects"@, answer));
    let list = answer->Object_0[4].1->List_0;
    assert(answer->Object_0[4] == ("genericStringObjects"@, JsonView::List(list)));
    assert(shows(answer, "genericStringObjects"@, JsonView::List(list)));
    assert(shows(data, "updatedCloudObjects"@, answer));
    assert(told2(data, "updatedCloudObjects"@, "genericStringObjects"@, JsonView::List(list)));
    assert(shows(root, "data"@, data));
    assert(list.len() == workers.len());
    let deleted = answer->Object_0[2].1;
    assert(answer->Object_0[2] == ("deletedObjectUids"@, deleted));
    let names = deleted->Object_0[1].1->List_0;
    assert(deleted->Object_0[1] == ("genericStringObjectUids"@, JsonView::List(names)));
    assert(shows(deleted, "genericStringObjectUids"@, JsonView::List(names)));
    assert(shows(answer, "deletedObjectUids"@, deleted));
    assert(told2(answer, "deletedObjectUids"@, "genericStringObjectUids"@, JsonView::List(names)));
    assert(told3(
        data,
        "updatedCloudObjects"@,
        "deletedObjectUids"@,
        "genericStringObjectUids"@,
        JsonView::List(names),
    ));
    assert(names.len() == gone(asked, workers).len());
}

/// The model that is used unless another is chosen is the one that the configuration names, by its
/// id or by its own name, and else the first. All models are offered, in their order.
pub proof fn law_the_named_model_is_offered_first(
    models: Seq<ModelView>,
    active: Seq<char>,
    at: int,
)
    requires
        models.len() > 0,
    ensures
        0 <= at < models.len() && (models[at].id == active || models[at].base_model_name == active)
            && (forall|i: int|
            0 <= i < at ==> (#[trigger] models[i]).id != active && models[i].base_model_name
                != active) ==> default_model(models, active) == models[at].id,
        (forall|i: int|
            0 <= i < models.len() ==> (#[trigger] models[i]).id != active
                && models[i].base_model_name != active) ==> default_model(models, active)
            == models[0].id,
        shows(
            llms_json(models, active),
            "defaultId"@,
            JsonView::Text(default_model(models, active)),
        ),
        exists|list: Seq<JsonView>|
            {
                &&& #[trigger] list.len() == models.len()
                &&& forall|i: int|
                    0 <= i < models.len() ==> #[trigger] list[i] == llm_json(models[i])
                &&& shows(llms_json(models, active), "choices"@, JsonView::List(list))
            },
{
    if 0 <= at < models.len() && (models[at].id == active || models[at].base_model_name == active)
        && (forall|i: int|
        0 <= i < at ==> (#[trigger] models[i]).id != active && models[i].base_model_name
            != active) {
        lemma_first_named(models, active, at);
    }
    if forall|i: int|
        0 <= i < models.len() ==> (#[trigger] models[i]).id != active && models[i].base_model_name
            != active {
        lemma_none_named(models, active);
    }
    let members = llms_json(models, active)->Object_0;
    assert(members[0] == ("defaultId"@, JsonView::Text(default_model(models, active))));
    let list = members[2].1->List_0;
    assert(members[2] == ("choices"@, JsonView::List(list)));
    assert(list.len() == models.len());
}

proof fn lemma_first_named(models: Seq<ModelView>, name: Seq<char>, at: int)
    requires
        0 <= at < models.len(),
        models[at].id == name || models[at].base_model_name == name,
        forall|i: int|
            0 <= i < at ==> (#[trigger] models[i]).id != name && models[i].base_model_name != name,
    ensures
        first_named(models, name) == Some(models[at].id),
    decreases at,
{
    if at > 0 {
        assert(models[0].id != name);
        assert forall|i: int| 0 <= i < at - 1 implies (#[trigger] models.skip(1)[i]).id != name
            && models.skip(1)[i].base_model_name != name by {
            assert(models.skip(1)[i] == models[i + 1]);
        }
        lemma_first_named(models.skip(1), name, at - 1);
    }
}

proof fn lemma_none_named(models: Seq<ModelView>, name: Seq<char>)
    requires
        forall|i: int|
            0 <= i < models.len() ==> (#[trigger] models[i]).id != name
                && models[i].base_model_name != name,
    ensures
        first_named(models, name) is None,
    decreases models.len(),
{
    if models.len() > 0 {
        assert(models[0].id != name);
        assert forall|i: int| 0 <= i < models.skip(1).len() implies (
        #[trigger] models.skip(1)[i]).id != name && models.skip(1)[i].base_model_name != name by {
            assert(models.skip(1)[i] == models[i + 1]);
        }
        lemma_none_named(models.skip(1), name);
    }
}

/// The models of the configuration are offered. Where there is no configuration, or one that cannot
/// be used, a client is told what is wrong.
pub proof fn law_configured_models_are_offered(
    config: LocalLlmConfig,
    env: Seq<(Seq<char>, Seq<char>)>,
    file: Result<String, String>,
    why: Seq<char>,
)
    ensures
        resolved_all(config, config.models@, env, file) matches Ok(models) ==> (models.len() > 0
            ==> local_llms(Some(config), env, file) == llms_json(models, config.active_model@)),
        resolved_all(config, config.models@, env, file) is Err ==> local_llms(
            Some(config),
            env,
            file,
        ) == no_llms_json("The local LLM config is invalid"@),
        config.models@.len() == 0 ==> local_llms(Some(config), env, file) == no_llms_json(
            "No models are configured in llm.toml"@,
        ),
        local_llms(None, env, file) == no_llms_json(
            "Create ~/.warp-oss/llm.toml to enable local models"@,
        ),
        exists|choice: JsonView|
            shows(choice, "disableReason"@, JsonView::Text(why)) && #[trigger] shows(
                no_llms_json(why),
                "choices"@,
                JsonView::List(seq![choice]),
            ),
{
    let members = no_llms_json(why)->Object_0;
    let list = members[2].1->List_0;
    assert(members[2] == ("choices"@, JsonView::List(list)));
    let choice = list[0];
    assert(list =~= seq![choice]);
    assert(choice->Object_0[6] == ("disableReason"@, JsonView::Text(why)));
    assert(shows(choice, "disableReason"@, JsonView::Text(why)));
    assert(shows(no_llms_json(why), "choices"@, JsonView::List(seq![choice])));
}

/// The objects that a client asks for are those that it names by their ids, in order.
pub proof fn law_asked_objects_are_read(objects: Seq<JsonView>, object: JsonView, uid: Seq<char>)
    ensures
        object.get_text("uid"@) == Some(uid) ==> uids(objects.push(object)) == uids(objects).push(
            uid,
        ),
        object.get_text("uid"@) is None ==> uids(objects.push(object)) == uids(objects),
        uids(seq![]).len() == 0,
{
    assert(objects.push(object).drop_last() =~= objects);
}

/// An operation is named beside the request, and else in it.
pub proof fn law_operations_are_named(op: Seq<char>, body: JsonView, name: Seq<char>)
    ensures
        op.len() > 0 ==> asked_name(Some(op), body) == op,
        body.get_text("operationName"@) == Some(name) ==> asked_name(None, body) == name,
        body.get_text("operationName"@) is None ==> asked_name(None, body).len() == 0,
{
}

/// Whether a name is another one, its first letter large or small.
pub open spec fn is_named(name: Seq<char>, large: Seq<char>, small: Seq<char>) -> bool {
    name == large || name == small
}

/// Each operation has its own answer, whatever the case of its first letter, and an operation that
/// is not known is refused by name.
pub proof fn law_operations_are_answered(
    name: Seq<char>,
    account: AccountView,
    workers: Seq<WorkerView>,
    llms: JsonView,
    asked: Seq<Seq<char>>,
    now: Seq<char>,
)
    ensures
        ({
            let answer = answer_json(name, account, workers, llms, asked, now);
            let signs_up = is_named(name, "CreateAnonymousUser"@, "createAnonymousUser"@);
            let user = is_named(name, "GetUser"@, "getUser"@);
            let settings = is_named(name, "GetUserSettings"@, "getUserSettings"@);
            let choices = is_named(name, "GetFeatureModelChoices"@, "getFeatureModelChoices"@);
            let onboarded = is_named(name, "SetUserIsOnboarded"@, "setUserIsOnboarded"@);
            let limits = is_named(name, "GetRequestLimitInfo"@, "getRequestLimitInfo"@);
            let talks = is_named(
                name,
                "ListAIConversationMetadata"@,
                "listAIConversationMetadata"@,
            ) || is_named(name, "ListAIConversations"@, "listAIConversations"@);
            let task = is_named(name, "UpdateAgentTask"@, "updateAgentTask"@);
            let environments = is_named(name, "GetCloudEnvironments"@, "getCloudEnvironments"@);
            let objects = is_named(name, "GetUpdatedCloudObjects"@, "getUpdatedCloudObjects"@);
            let workspaces = is_named(
                name,
                "GetWorkspacesMetadataForUser"@,
                "getWorkspacesMetadataForUser"@,
            );
            &&& signs_up ==> answer == (200u16, anonymous_user_json(account))
            &&& user ==> answer == (200u16, user_json(account, llms))
            &&& settings ==> answer == (200u16, user_settings_json())
            &&& choices ==> answer == (200u16, feature_model_choices_json(llms))
            &&& onboarded ==> answer == (200u16, onboarded_json())
            &&& limits ==> answer == (200u16, request_limits_json())
            &&& talks ==> answer == (200u16, conversations_json())
            &&& task ==> answer == (200u16, agent_task_json())
            &&& environments ==> answer == (200u16, environments_json(account, workers, now))
            &&& objects ==> answer == (200u16, objects_json(account, workers, asked, now))
            &&& workspaces ==> answer == (200u16, workspaces_json())
            &&& !signs_up && !user && !settings && !choices && !onboarded && !limits && !talks
                && !task && !environments && !objects && !workspaces ==> {
                &&& answer.0 == 404
                &&& answer.1 == errors_json("unsupported local GraphQL operation: "@ + name)
            }
        }),
{
    reveal_strlit("CreateAnonymousUser");
    reveal_strlit("createAnonymousUser");
    reveal_strlit("GetUser");
    reveal_strlit("getUser");
    reveal_strlit("GetUserSettings");
    reveal_strlit("getUserSettings");
    reveal_strlit("GetFeatureModelChoices");
    reveal_strlit("getFeatureModelChoices");
    reveal_strlit("SetUserIsOnboarded");
    reveal_strlit("setUserIsOnboarded");
    reveal_strlit("GetRequestLimitInfo");
    reveal_strlit("getRequestLimitInfo");
    reveal_strlit("ListAIConversationMetadata");
    reveal_strlit("listAIConversationMetadata");
    reveal_strlit("ListAIConversations");
    reveal_strlit("listAIConversations");
    reveal_strlit("UpdateAgentTask");
    reveal_strlit("updateAgentTask");
    reveal_strlit("GetCloudEnvironments");
    reveal_strlit("getCloudEnvironments");
    reveal_strlit("GetUpdatedCloudObjects");
    reveal_strlit("getUpdatedCloudObjects");
    reveal_strlit("GetWorkspacesMetadataForUser");
    reveal_strlit("getWorkspacesMetadataForUser");
    assert("CreateAnonymousUser"@[0] == 'C' && "createAnonymousUser"@[0] == 'c');
    assert("GetRequestLimitInfo"@[0] == 'G' && "getRequestLimitInfo"@[0] == 'g');
    assert("ListAIConversations"@[0] == 'L' && "listAIConversations"@[0] == 'l');
    assert("UpdateAgentTask"@[0] == 'U' && "updateAgentTask"@[0] == 'u');
    assert("GetUserSettings"@[0] == 'G' && "getUserSettings"@[0] == 'g');
    assert("GetFeatureModelChoices"@[3] == 'F' && "getFeatureModelChoices"@[3] == 'F');
    assert("GetUpdatedCloudObjects"@[3] == 'U' && "getUpdatedCloudObjects"@[3] == 'U');
}

} // verus!
