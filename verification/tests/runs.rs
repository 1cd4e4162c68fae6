use warpsolo::account::{LocalAccount, LocalAgentPeerConfig, LocalAgentWorkerConfig};
use warpsolo::discovery::bonjour::{
    discovered_worker_from_service, handle_service_event, worker_announcement, ResolvedService,
    ServiceAddress, ServiceEvent,
};
use warpsolo::discovery::probe::{
    dedupe_candidates, dedupe_subnets, dotted_text, is_contiguous_ipv4_mask, probe_candidates_for_ipv4_subnet,
    should_scan_ipv4, tailscale_peer_candidates_from_status, worker_from_probe,
    CapabilitiesReply, LocalIpv4Subnet, PeerAddress, ProbeCandidate, TailscalePeer,
    WorkerHealth,
};
use warpsolo::discovery::workers::{
    is_synthetic_environment_id, stable_hash64, static_worker_from_config,
    synthetic_environment_id_for_device_id, synthetic_environment_id_for_worker, DiscoveredWorker,
    WorkerStore,
};
use warpsolo::graphql::{
    discovered_workers_response, get_cloud_environments_response,
    get_cloud_environments_response_for_workers, get_updated_cloud_objects_response, get_request_limit_info_response,
    get_updated_cloud_objects_response_for_workers, graphql_v2, list_ai_conversations_response,
    stable_server_id, update_agent_task_response,
};
use warpsolo::json::Json;
use warpsolo::runs::cloud::{
    agent_run_json, join_worker_url, truncate_status_message, worker_host_from_config,
    worker_run_url, worker_url_for_run, CloudAgentRunRecord, CloudAgentRunState,
};
use warpsolo::runs::events::{parse_worker_sse_frame, WorkerRunEvent};

const NOW: &str = "2025-01-01T00:00:00+00:00";

fn text(s: &str) -> String {
    s.to_string()
}

fn test_account() -> LocalAccount {
    LocalAccount {
        user_id: text("local-user-test"),
        device_id: text("local-device-test"),
        display_name: text("test@localhost"),
        id_token: text("id-token"),
        refresh_token: text("refresh-token"),
        custom_token: text("custom-token"),
    }
}

fn test_worker(device_id: &str) -> DiscoveredWorker {
    DiscoveredWorker {
        source_id: format!("test:{device_id}"),
        device_id: text(device_id),
        user_id: text("local-user-peer"),
        display_name: text("peer@example.local"),
        hostname: text("example.local."),
        url: text("http://192.168.1.10:9109"),
        capabilities: vec![text("agent")],
        auth: text("none"),
        last_seen_epoch_millis: 1,
    }
}

fn at<'a>(value: &'a Json, path: &[&str]) -> &'a Json {
    let mut value = value;
    for key in path {
        value = value.get(key).unwrap_or(&Json::Null);
    }
    value
}

fn text_at<'a>(value: &'a Json, path: &[&str]) -> &'a str {
    at(value, path).as_text().unwrap()
}

fn ipv4(a: u8, b: u8, c: u8, d: u8) -> u32 {
    u32::from_be_bytes([a, b, c, d])
}

#[test]
fn local_graphql_agent_stubs_return_success_payloads() {
    assert_eq!(
        text_at(&update_agent_task_response(), &["data", "updateAgentTask", "__typename"]),
        "UpdateAgentTaskOutput"
    );
    assert_eq!(
        at(
            &list_ai_conversations_response(),
            &["data", "listAIConversations", "conversations"]
        )
        .as_list()
        .unwrap()
        .len(),
        0
    );
    assert!(matches!(
        at(
            &get_request_limit_info_response(),
            &["data", "user", "user", "requestLimitInfo", "isUnlimited"]
        ),
        Json::Bool(true)
    ));
    let objects = get_updated_cloud_objects_response_for_workers(
        &test_account(),
        &Vec::new(),
        &Vec::new(),
        NOW,
    );
    assert_eq!(
        at(&objects, &["data", "updatedCloudObjects", "deletedObjectUids", "notebookUids"])
            .as_list()
            .unwrap()
            .len(),
        0
    );
}

#[test]
fn synthetic_peer_environments_parse_as_cloud_objects() {
    let account = test_account();
    let workers = vec![test_worker("local-device-peer")];
    let response =
        get_updated_cloud_objects_response_for_workers(&account, &workers, &Vec::new(), NOW);

    let env =
        &at(&response, &["data", "updatedCloudObjects", "genericStringObjects"]).as_list().unwrap()
            [0];
    assert_eq!(text_at(env, &["format"]), "JsonCloudEnvironment");
    assert_eq!(text_at(env, &["metadata", "uid"]).len(), 22);
    assert!(text_at(env, &["serializedModel"]).contains("peer@example.local"));
}

#[test]
fn synthetic_peer_environments_parse_as_cloud_environments() {
    let account = test_account();
    let workers = vec![test_worker("local-device-peer")];
    let response = get_cloud_environments_response_for_workers(&account, &workers, NOW);

    let env = &at(&response, &["data", "getCloudEnvironments", "cloudEnvironments"])
        .as_list()
        .unwrap()[0];
    assert_eq!(text_at(env, &["__typename"]), "CloudEnvironment");
    assert_eq!(text_at(env, &["config", "name"]), "peer@example.local");
    assert_eq!(text_at(env, &["config", "dockerImage"]), "warpsolo/peer");
}

#[test]
fn stale_synthetic_peer_environments_are_deleted() {
    let account = test_account();
    let stale_uid = synthetic_environment_id_for_worker(&test_worker("stale-peer"));
    let response = get_updated_cloud_objects_response_for_workers(
        &account,
        &Vec::new(),
        &vec![stale_uid.clone(), text("non-warpsolo-object")],
        NOW,
    );

    let deleted = at(
        &response,
        &["data", "updatedCloudObjects", "deletedObjectUids", "genericStringObjectUids"],
    )
    .as_list()
    .unwrap();
    assert_eq!(deleted.len(), 1);
    assert_eq!(deleted[0].as_text(), Some(stale_uid.as_str()));
}

#[test]
fn worker_host_defaults_to_warp() {
    assert_eq!(worker_host_from_config(None), "warp");
    assert_eq!(worker_host_from_config(Some(&Json::object())), "warp");
}

#[test]
fn worker_host_reads_config_value() {
    let config = Json::object().with("worker_host", Json::text("local-device-devbox"));
    assert_eq!(worker_host_from_config(Some(&config)), "local-device-devbox");
}

#[test]
fn api_task_state_uses_warp_variant_names() {
    let run = CloudAgentRunRecord {
        run_id: text("550e8400-e29b-41d4-a716-446655440000"),
        worker_url: text("http://127.0.0.1:9109"),
        worker_run_id: text("550e8400-e29b-41d4-a716-446655440000"),
        worker_host: text("warp"),
        prompt: text("hello"),
        title: text("WarpSOLO agent"),
        workspace: text("/tmp"),
        config: None,
        state: CloudAgentRunState::InProgress,
        status_message: Some(text("Running")),
        final_output: None,
        created_at: text(NOW),
        started_at: Some(text(NOW)),
        updated_at: text(NOW),
    };

    let value = agent_run_json(&run);
    assert_eq!(text_at(&value, &["state"]), "InProgress");
    assert!(matches!(value.get("session_id"), Some(Json::Null)));
    assert_eq!(text_at(&value, &["status_message", "message"]), "Running");
}

#[test]
fn parses_worker_event_frame() {
    let event =
        parse_worker_sse_frame("data: {\"type\":\"state\",\"state\":\"running\"}\n\n", true)
            .unwrap()
            .unwrap();
    assert!(matches!(event, WorkerRunEvent::State { state } if state == "running"));
}

#[test]
fn parses_worker_sse_data_frame() {
    let event = parse_worker_sse_frame(
        "event: message\ndata: {\"type\":\"output_delta\",\"text\":\"done\"}\n",
        false,
    )
    .unwrap()
    .unwrap();
    assert!(matches!(event, WorkerRunEvent::OutputDelta { text } if text == "done"));
}

#[test]
fn extracts_online_tailscale_peer_candidates() {
    let peers = vec![
        TailscalePeer {
            host_name: Some(text("mars")),
            dns_name: Some(text("mars.tail.example.ts.net.")),
            tailscale_ips: vec![
                PeerAddress { text: text("fd7a:115c:a1e0::1"), is_v4: false },
                PeerAddress { text: text("100.84.248.34"), is_v4: true },
            ],
            online: Some(true),
        },
        TailscalePeer {
            host_name: Some(text("offline")),
            dns_name: None,
            tailscale_ips: vec![PeerAddress { text: text("100.1.2.3"), is_v4: true }],
            online: Some(false),
        },
    ];

    let candidates = tailscale_peer_candidates_from_status(&peers, 9109);

    assert_eq!(candidates.len(), 1);
    assert_eq!(candidates[0].source_id, "probe:tailscale:mars.tail.example.ts.net");
    assert_eq!(candidates[0].hostname, "mars.tail.example.ts.net");
    assert_eq!(candidates[0].url, "http://100.84.248.34:9109");
}

#[test]
fn local_subnet_probe_candidates_are_bounded_to_24() {
    let subnet = LocalIpv4Subnet { addr: ipv4(10, 10, 4, 20), mask: ipv4(255, 255, 0, 0) };

    let candidates = probe_candidates_for_ipv4_subnet(subnet, 9109);

    assert_eq!(candidates.len(), 253);
    assert!(candidates.iter().any(|candidate| candidate.url == "http://10.10.4.1:9109"));
    assert!(!candidates.iter().any(|candidate| candidate.url == "http://10.10.4.20:9109"));
    assert!(candidates.iter().any(|candidate| candidate.url == "http://10.10.4.254:9109"));
    assert!(!candidates.iter().any(|candidate| candidate.url == "http://10.10.5.1:9109"));
}

#[test]
fn static_worker_uses_configured_peer_identity() {
    let account = LocalAccount {
        user_id: text("local-user-me"),
        device_id: text("local-device-me.local"),
        display_name: text("me@host.local"),
        id_token: text("id-token"),
        refresh_token: text("refresh-token"),
        custom_token: text("custom-token"),
    };
    let peer = LocalAgentPeerConfig {
        name: Some(text("td@mars.local")),
        device_id: Some(text("local-device-mars.local")),
        user_id: Some(text("local-user-td")),
        hostname: Some(text("mars.local")),
        url: text("http://100.84.248.34:9109/"),
    };

    let worker = static_worker_from_config(&account, &peer, 5).expect("static worker");

    assert_eq!(worker.device_id, "local-device-mars.local");
    assert_eq!(worker.source_id, "static:local-device-mars.local");
    assert_eq!(worker.display_name, "td@mars.local");
    assert_eq!(worker.hostname, "mars.local");
    assert_eq!(worker.url, "http://100.84.248.34:9109");
}

#[test]
fn hashes_are_fnv() {
    assert_eq!(stable_hash64(""), 0xcbf2_9ce4_8422_2325);
    assert_eq!(stable_hash64("a"), 0xaf63_dc4c_8601_ec8c);
}

#[test]
fn synthetic_environments_are_known_by_their_ids() {
    let id = synthetic_environment_id_for_device_id("local-device-mars");
    assert_eq!(id.len(), 22);
    assert!(is_synthetic_environment_id(&id));
    assert!(!is_synthetic_environment_id("non-warpsolo-object"));
    assert_eq!(stable_server_id("wsuser", "me").len(), 22);
}

#[test]
fn machines_do_not_find_themselves() {
    let account = test_account();
    let peer = LocalAgentPeerConfig {
        name: None,
        device_id: Some(account.device_id.clone()),
        user_id: None,
        hostname: None,
        url: text("http://10.0.0.1:9109"),
    };
    assert!(static_worker_from_config(&account, &peer, 5).is_none());
}

#[test]
fn workers_are_found_by_their_names() {
    let mut store = WorkerStore::new();
    store.insert(test_worker("local-device-peer"));
    assert_eq!(store.len(), 1);
    assert_eq!(store.find_worker("local-device-peer").unwrap().url(), "http://192.168.1.10:9109");
    assert!(store.find_worker(" EXAMPLE.LOCAL. ").is_some());
    assert!(store.find_worker("warp").is_none());
    assert!(store.find_worker(" Warp ").is_none());
    assert!(store.find_worker("").is_none());
    assert!(store.find_worker("elsewhere").is_none());
    let id = synthetic_environment_id_for_device_id("local-device-peer");
    assert_eq!(
        store.find_worker_by_synthetic_environment_id(&id).unwrap().device_id,
        "local-device-peer"
    );
    store.drop_source("test:local-device-peer");
    assert_eq!(store.len(), 0);
}

#[test]
fn lost_probes_are_dropped() {
    let mut store = WorkerStore::new();
    let mut probed = test_worker("a");
    probed.source_id = text("probe:local:a");
    store.insert(probed);
    store.insert(test_worker("b"));
    store.take_probes("me", Vec::new());
    assert_eq!(store.discovered_workers().len(), 1);
    assert_eq!(store.discovered_workers()[0].device_id, "b");
}

#[test]
fn addresses_are_written_with_dots() {
    assert_eq!(dotted_text(ipv4(192, 168, 1, 10)), "192.168.1.10");
    assert!(should_scan_ipv4(ipv4(192, 168, 1, 10)));
    assert!(!should_scan_ipv4(ipv4(127, 0, 0, 1)));
    assert!(is_contiguous_ipv4_mask(ipv4(255, 255, 255, 0)));
    assert!(!is_contiguous_ipv4_mask(ipv4(255, 0, 255, 0)));
}

#[test]
fn networks_are_scanned_once() {
    let a = LocalIpv4Subnet { addr: ipv4(10, 10, 4, 20), mask: ipv4(255, 255, 255, 0) };
    let subnets = dedupe_subnets(&vec![a, a]);
    assert_eq!(subnets, vec![a]);
}

#[test]
fn probes_take_what_workers_tell() {
    let candidate = ProbeCandidate {
        source_id: text("probe:local:10.0.0.2"),
        hostname: text("10.0.0.2"),
        url: text("http://10.0.0.2:9109"),
    };
    let health = WorkerHealth {
        ok: true,
        app: text("warpsolo"),
        user_id: text("local-user-peer"),
        device_id: text("local-device-peer"),
        display_name: text("peer@example.local"),
    };
    let worker = worker_from_probe(candidate, health, CapabilitiesReply::Missing, 9);
    match worker {
        Some(worker) => {
            assert_eq!(worker.device_id, "local-device-peer");
            assert_eq!(worker.last_seen_epoch_millis, 9);
        }
        None => panic!("a healthy worker"),
    }
}

#[test]
fn announced_services_are_workers() {
    let service = ResolvedService {
        fullname: text("mars._warpsolo._tcp.local."),
        hostname: text("mars.local."),
        port: 9109,
        addresses: vec![ServiceAddress {
            address: PeerAddress { text: text("192.168.1.7"), is_v4: true },
            is_loopback: false,
            is_unspecified: false,
        }],
        device_id: Some(text("local-device-mars")),
        user_id: Some(text("local-user-td")),
        display_name: None,
        capabilities: Some(text("agent, shell")),
        auth: None,
    };
    let worker = discovered_worker_from_service(&test_account(), &service, 3).unwrap();
    assert_eq!(worker.url, "http://192.168.1.7:9109");
    assert_eq!(worker.capabilities, vec![text("agent"), text("shell")]);

    let mut store = WorkerStore::new();
    handle_service_event(&test_account(), &mut store, &ServiceEvent::Resolved(service), 3);
    assert_eq!(store.len(), 1);
    let gone = ServiceEvent::Removed { fullname: text("mars._warpsolo._tcp.local.") };
    handle_service_event(&test_account(), &mut store, &gone, 4);
    assert_eq!(store.len(), 0);
}

#[test]
fn loopback_workers_are_not_announced() {
    let config = LocalAgentWorkerConfig { enabled: true, ..LocalAgentWorkerConfig::default() };
    assert!(worker_announcement(&test_account(), &config, "mars", true).is_none());
    let announced = worker_announcement(&test_account(), &config, "mars", false).unwrap();
    assert_eq!(announced.instance_name, "local-device-test");
    assert_eq!(announced.host_name, "mars.local.");
    assert!(announced.properties.contains(&(text("auth"), text("none"))));
    let off = LocalAgentWorkerConfig::default();
    assert!(worker_announcement(&test_account(), &off, "mars", false).is_none());
}

#[test]
fn unknown_operations_are_refused() {
    let store = WorkerStore::new();
    let (status, answer) = graphql_v2(
        Some("Dance"),
        &Json::object(),
        &test_account(),
        &store,
        Json::object(),
    );
    assert_eq!(status, 404);
    assert!(answer.get("errors").is_some());
    let (status, answer) = graphql_v2(
        Some("UpdateAgentTask"),
        &Json::object(),
        &test_account(),
        &store,
        Json::object(),
    );
    assert_eq!(status, 200);
    assert_eq!(
        text_at(&answer, &["data", "updateAgentTask", "__typename"]),
        "UpdateAgentTaskOutput"
    );
}

#[test]
fn worker_urls_have_one_slash_between() {
    assert_eq!(join_worker_url("http://a:1/", "/x"), "http://a:1/x");
    assert_eq!(join_worker_url("http://a:1", "x"), "http://a:1/x");
    assert!(worker_run_url("http://a:1", "run", "events").ends_with("/run/events"));
    assert_eq!(truncate_status_message("short"), "short");
}

#[test]
fn found_machines_are_told() {
    let mut store = WorkerStore::new();
    store.insert(test_worker("local-device-peer"));
    let told = discovered_workers_response(&store.discovered_workers());
    let worker = &told.get("workers").unwrap().as_list().unwrap()[0];
    assert_eq!(worker.get_text("deviceId"), Some("local-device-peer"));
    assert_eq!(worker.get("lastSeenEpochMillis").unwrap().as_u64(), Some(1));
    assert_eq!(worker.get("capabilities").unwrap().as_list().unwrap().len(), 1);

    let environments = get_cloud_environments_response(&test_account(), &store);
    let list = at(&environments, &["data", "getCloudEnvironments", "cloudEnvironments"]);
    assert_eq!(list.as_list().unwrap().len(), 1);
    let objects = get_updated_cloud_objects_response(&test_account(), &store, &Json::object());
    let list = at(&objects, &["data", "updatedCloudObjects", "genericStringObjects"]);
    assert_eq!(list.as_list().unwrap().len(), 1);
}

#[test]
fn addresses_are_probed_once() {
    let candidate = |source: &str| ProbeCandidate {
        source_id: text(source),
        hostname: text("10.0.0.2"),
        url: text("http://10.0.0.2:9109"),
    };
    let candidates = dedupe_candidates(vec![candidate("a"), candidate("b")]);
    assert_eq!(candidates.len(), 1);
    assert_eq!(candidates[0].source_id, "a");
}

#[test]
fn worker_states_are_known() {
    for state in ["pending", "running", "succeeded", "failed", "cancelled"] {
        assert!(CloudAgentRunState::from_worker_state(state).is_some());
    }
    assert!(CloudAgentRunState::from_worker_state("asleep").is_none());
    assert!(CloudAgentRunState::Cancelled.is_terminal());
    assert_eq!(CloudAgentRunState::Cancelled.as_api_str(), "Cancelled");
}

#[test]
fn status_messages_are_bounded() {
    let long = truncate_status_message(&"\u{e9}".repeat(400));
    assert_eq!(long, "\u{e9}".repeat(250) + "...");
}

#[test]
fn runs_are_done_where_they_are_asked_for() {
    let mut store = WorkerStore::new();
    store.insert(test_worker("local-device-peer"));
    let own = Some("http://127.0.0.1:9109");
    assert_eq!(worker_url_for_run(&store, "warp", own).unwrap(), "http://127.0.0.1:9109");
    assert_eq!(worker_url_for_run(&store, " ", own).unwrap(), "http://127.0.0.1:9109");
    assert_eq!(
        worker_url_for_run(&store, "local-device-peer", own).unwrap(),
        "http://192.168.1.10:9109"
    );
    let refusal = worker_url_for_run(&store, "warp", None).unwrap_err();
    assert_eq!(refusal.status, 503);
    assert_eq!(refusal.message, "no WarpSOLO worker is available for host 'warp'");
    assert_eq!(worker_url_for_run(&store, "mars", own).unwrap_err().status, 503);
}

#[test]
fn unsound_machines_are_not_asked_on() {
    let health = |ok: bool, app: &str| WorkerHealth {
        ok,
        app: text(app),
        device_id: text("d"),
        user_id: text("u"),
        display_name: text("n"),
    };
    assert!(health(true, "warpsolo").is_sound());
    assert!(!health(false, "WarpSOLO").is_sound());
    assert!(!health(true, "other").is_sound());
}
