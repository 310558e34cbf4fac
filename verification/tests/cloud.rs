use trust_runtime::cloud::address::{
    runtime_cloud_probe_endpoint, runtime_cloud_target_control_url,
    runtime_cloud_target_web_base_url, runtime_cloud_url_host, select_preferred_peer_address,
    PeerAddress,
};
use trust_runtime::cloud::errors::{runtime_cloud_map_control_error, runtime_cloud_map_remote_http_status};
use trust_runtime::cloud::model::{
    ReasonCode, RuntimeCloudActionPreflight, RuntimeCloudActionRequest, RuntimeCloudProfile,
    RuntimeCloudTargetDecision, RuntimeCloudTargetStatus, RuntimeCloudWanAllowRule, WebAuthMode,
};
use trust_runtime::cloud::policy::runtime_cloud_apply_profile_policy;
use trust_runtime::cloud::status::{
    runtime_cloud_is_stale, runtime_cloud_needs_liveness_probe, runtime_cloud_target_status_map,
    DiscoveryPeer, TargetStatusMap, RUNTIME_CLOUD_STALE_TIMEOUT_NS,
};

fn action_fixture(action_type: &str, targets: Vec<&str>) -> RuntimeCloudActionRequest {
    RuntimeCloudActionRequest {
        api_version: "1.0".to_string(),
        request_id: "req-policy-1".to_string(),
        connected_via: "runtime-a".to_string(),
        target_runtimes: targets.into_iter().map(str::to_string).collect(),
        actor: "spiffe://trust/default-site/operator-1".to_string(),
        action_type: action_type.to_string(),
        query_budget_ms: None,
        dry_run: true,
    }
}

fn preflight_fixture(targets: Vec<&str>) -> RuntimeCloudActionPreflight {
    RuntimeCloudActionPreflight {
        api_version: "1.0".to_string(),
        request_id: "req-policy-1".to_string(),
        connected_via: "runtime-a".to_string(),
        acting_on: targets.iter().map(|target| target.to_string()).collect(),
        allowed: true,
        denial_code: None,
        denial_reason: None,
        decisions: targets
            .into_iter()
            .map(|target| RuntimeCloudTargetDecision {
                runtime_id: target.to_string(),
                allowed: true,
                denial_code: None,
                denial_reason: None,
            })
            .collect(),
    }
}

fn targets_fixture(runtime_id: &str, supports_secure_transport: bool) -> TargetStatusMap {
    let mut map = TargetStatusMap::new();
    map.insert(
        runtime_id.to_string(),
        RuntimeCloudTargetStatus { reachable: true, stale: false, supports_secure_transport },
    );
    map
}

fn wan() -> RuntimeCloudProfile {
    RuntimeCloudProfile { name: "wan".to_string(), requires_secure_transport: true, is_wan: true }
}

fn dev() -> RuntimeCloudProfile {
    RuntimeCloudProfile { name: "dev".to_string(), requires_secure_transport: false, is_wan: false }
}

#[test]
fn wan_profile_denies_write_without_matching_rule() {
    let action = action_fixture("cfg_apply", vec!["runtime-b"]);
    let preflight = preflight_fixture(vec!["runtime-b"]);
    let targets = targets_fixture("runtime-b", true);

    let report = runtime_cloud_apply_profile_policy(
        preflight,
        &action,
        &targets,
        &wan(),
        &[],
        WebAuthMode::Token,
        true,
    );
    assert!(!report.allowed);
    assert_eq!(report.denial_code, Some(ReasonCode::PermissionDenied));
}

#[test]
fn allowlist_supports_prefix_and_suffix_patterns() {
    let action = action_fixture("cfg_apply", vec!["site-b/runtime-b"]);
    let targets = targets_fixture("site-b/runtime-b", true);
    let prefix_rules = vec![RuntimeCloudWanAllowRule {
        action: "cfg_apply".to_string(),
        target: "site-b/*".to_string(),
    }];
    let prefix_report = runtime_cloud_apply_profile_policy(
        preflight_fixture(vec!["site-b/runtime-b"]),
        &action,
        &targets,
        &wan(),
        &prefix_rules,
        WebAuthMode::Token,
        true,
    );
    assert!(prefix_report.allowed);

    let suffix_rules = vec![RuntimeCloudWanAllowRule {
        action: "cfg_apply".to_string(),
        target: "*/runtime-b".to_string(),
    }];
    let suffix_report = runtime_cloud_apply_profile_policy(
        preflight_fixture(vec!["site-b/runtime-b"]),
        &action,
        &targets,
        &wan(),
        &suffix_rules,
        WebAuthMode::Token,
        true,
    );
    assert!(suffix_report.allowed);
}

#[test]
fn secure_profile_needs_token_auth() {
    let action = action_fixture("status_read", vec!["runtime-b"]);
    let report = runtime_cloud_apply_profile_policy(
        preflight_fixture(vec!["runtime-b"]),
        &action,
        &targets_fixture("runtime-b", true),
        &wan(),
        &[],
        WebAuthMode::Local,
        true,
    );
    assert!(!report.allowed);
    assert_eq!(report.denial_code, Some(ReasonCode::NotConfigured));
    assert_eq!(
        report.denial_reason.as_deref(),
        Some("runtime cloud profile 'wan' requires runtime.web.auth='token'")
    );
    assert!(report.decisions.iter().all(|d| !d.allowed));
}

#[test]
fn connected_runtime_is_never_refused() {
    let action = action_fixture("cfg_apply", vec!["runtime-a"]);
    let report = runtime_cloud_apply_profile_policy(
        preflight_fixture(vec!["runtime-a"]),
        &action,
        &TargetStatusMap::new(),
        &wan(),
        &[],
        WebAuthMode::Token,
        true,
    );
    assert!(report.allowed);
}

#[test]
fn cross_site_write_needs_rule_even_on_dev() {
    let action = action_fixture("cfg_apply", vec!["site-b/runtime-b"]);
    let report = runtime_cloud_apply_profile_policy(
        preflight_fixture(vec!["site-b/runtime-b"]),
        &action,
        &targets_fixture("site-b/runtime-b", false),
        &dev(),
        &[],
        WebAuthMode::Local,
        false,
    );
    assert!(!report.allowed);
    assert_eq!(report.denial_code, Some(ReasonCode::PermissionDenied));
}

#[test]
fn dev_profile_allows_same_site_write() {
    let action = action_fixture("cfg_apply", vec!["runtime-b"]);
    let report = runtime_cloud_apply_profile_policy(
        preflight_fixture(vec!["runtime-b"]),
        &action,
        &targets_fixture("runtime-b", false),
        &dev(),
        &[],
        WebAuthMode::Local,
        false,
    );
    assert!(report.allowed);
    assert_eq!(report.denial_code, None);
}

#[test]
fn runtime_cloud_url_host_wraps_ipv6() {
    let host = runtime_cloud_url_host(PeerAddress::V6(0, 0, 0, 0, 0, 0, 0, 1));
    assert_eq!(host, "[::1]");
}

#[test]
fn url_host_follows_rfc_5952() {
    let cases = [
        (PeerAddress::V6(0x2001, 0xdb8, 0, 0, 1, 2, 3, 4), "[2001:db8::1:2:3:4]"),
        (PeerAddress::V6(0, 0, 0, 0, 0, 0, 0, 0), "[::]"),
        (PeerAddress::V6(0, 0, 0, 0, 0, 0xffff, 0xc00a, 0x2ff), "[::ffff:192.10.2.255]"),
        (PeerAddress::V6(1, 0, 0, 2, 0, 0, 0, 3), "[1:0:0:2::3]"),
        (PeerAddress::V6(1, 0, 2, 0, 3, 0, 4, 0), "[1:0:2:0:3:0:4:0]"),
        (PeerAddress::V6(0xfe80, 0, 0, 0, 0xabcd, 0, 0, 0), "[fe80::abcd:0:0:0]"),
    ];
    for (address, expected) in cases {
        assert_eq!(runtime_cloud_url_host(address), expected);
    }
    assert_eq!(runtime_cloud_url_host(PeerAddress::V4(192, 168, 0, 10)), "192.168.0.10");
}

#[test]
fn runtime_cloud_select_preferred_peer_address_prefers_ipv4_loopback() {
    let addresses = vec![
        PeerAddress::V6(0xfe80, 0, 0, 0, 1, 2, 3, 4),
        PeerAddress::V4(127, 0, 0, 1),
        PeerAddress::V4(172, 18, 0, 1),
    ];
    let selected = select_preferred_peer_address(&addresses).expect("selected");
    assert_eq!(selected, PeerAddress::V4(127, 0, 0, 1));
}

#[test]
fn runtime_cloud_select_preferred_peer_address_prefers_non_link_local_ipv6() {
    let addresses = vec![
        PeerAddress::V6(0xfe80, 0, 0, 0, 1, 2, 3, 4),
        PeerAddress::V6(0x2001, 0xdb8, 0, 0, 1, 2, 3, 4),
    ];
    let selected = select_preferred_peer_address(&addresses).expect("selected");
    assert_eq!(selected, PeerAddress::V6(0x2001, 0xdb8, 0, 0, 1, 2, 3, 4));
}

#[test]
fn unspecified_addresses_are_never_selected() {
    let addresses = vec![PeerAddress::V4(0, 0, 0, 0), PeerAddress::V6(0, 0, 0, 0, 0, 0, 0, 0)];
    assert_eq!(select_preferred_peer_address(&addresses), None);
    let link_local_only = vec![PeerAddress::V6(0xfe80, 0, 0, 0, 1, 2, 3, 4)];
    assert_eq!(
        select_preferred_peer_address(&link_local_only),
        Some(PeerAddress::V6(0xfe80, 0, 0, 0, 1, 2, 3, 4))
    );
}

fn peer_b(addresses: Vec<PeerAddress>, web_port: Option<u16>, last_seen_ns: u64) -> DiscoveryPeer {
    DiscoveryPeer {
        id: "runtime-b-1".to_string(),
        name: "runtime-b".to_string(),
        addresses,
        web_port,
        web_tls: false,
        mesh_port: Some(5202),
        last_seen_ns,
    }
}

#[test]
fn runtime_cloud_target_status_revalidates_stale_peer_with_live_socket() {
    let peers = vec![peer_b(vec![PeerAddress::V4(127, 0, 0, 1)], Some(8080), 1)];
    let now = RUNTIME_CLOUD_STALE_TIMEOUT_NS + 2;
    assert!(runtime_cloud_needs_liveness_probe(&peers[0], now));
    let targets = runtime_cloud_target_status_map(&peers, &[true], "runtime-a", false, now);
    let status = targets.get("runtime-b").expect("runtime-b status");
    assert!(status.reachable);
    assert!(!status.stale);
    let local = targets.get("runtime-a").expect("local status");
    assert!(local.reachable);
}

#[test]
fn stale_peer_without_live_socket_is_unreachable() {
    let peers = vec![peer_b(vec![PeerAddress::V4(127, 0, 0, 1)], Some(8080), 1)];
    let now = RUNTIME_CLOUD_STALE_TIMEOUT_NS + 2;
    let targets = runtime_cloud_target_status_map(&peers, &[false], "runtime-a", false, now);
    let status = targets.get("runtime-b-1").expect("runtime-b id status");
    assert!(!status.reachable);
    assert!(status.stale);
}

#[test]
fn staleness_rules() {
    assert!(runtime_cloud_is_stale(0, 10, true));
    assert!(runtime_cloud_is_stale(20, 10, false));
    assert!(!runtime_cloud_is_stale(10, 10 + RUNTIME_CLOUD_STALE_TIMEOUT_NS - 1, false));
    assert!(runtime_cloud_is_stale(10, 10 + RUNTIME_CLOUD_STALE_TIMEOUT_NS, false));
}

#[test]
fn web_base_url_of_discovered_peer() {
    let peers = vec![peer_b(vec![PeerAddress::V6(0, 0, 0, 0, 0, 0, 0, 1)], Some(8443), 1)];
    assert_eq!(
        runtime_cloud_target_web_base_url(&peers, "runtime-b", true).as_deref(),
        Some("https://[::1]:8443")
    );
    assert_eq!(
        runtime_cloud_target_control_url(&peers, "runtime-b-1", false).as_deref(),
        Some("http://[::1]:8443/api/control")
    );
    assert_eq!(runtime_cloud_target_web_base_url(&peers, "runtime-c", false), None);
    let portless = vec![peer_b(vec![PeerAddress::V4(10, 0, 0, 2)], None, 1)];
    assert_eq!(runtime_cloud_target_web_base_url(&portless, "runtime-b", false), None);
    assert_eq!(runtime_cloud_probe_endpoint(&portless[0].addresses, None), None);
    assert_eq!(
        runtime_cloud_probe_endpoint(&portless[0].addresses, Some(80)),
        Some((PeerAddress::V4(10, 0, 0, 2), 80))
    );
}

#[test]
fn control_errors_map_to_reason_codes() {
    assert_eq!(runtime_cloud_map_control_error("Forbidden by ACL", "cfg_apply"), ReasonCode::AclDeniedCfgWrite);
    assert_eq!(runtime_cloud_map_control_error("forbidden", "status_read"), ReasonCode::PermissionDenied);
    assert_eq!(runtime_cloud_map_control_error("etag mismatch", "cfg_apply"), ReasonCode::RevisionConflict);
    assert_eq!(runtime_cloud_map_control_error("schema drift", "cfg_apply"), ReasonCode::SchemaMismatch);
    assert_eq!(runtime_cloud_map_control_error("invalid params", "cfg_apply"), ReasonCode::ContractViolation);
    assert_eq!(runtime_cloud_map_control_error("socket closed", "cfg_apply"), ReasonCode::TransportFailure);
    assert_eq!(runtime_cloud_map_remote_http_status(403, "cfg_apply"), ReasonCode::AclDeniedCfgWrite);
    assert_eq!(runtime_cloud_map_remote_http_status(401, "status_read"), ReasonCode::PermissionDenied);
    assert_eq!(runtime_cloud_map_remote_http_status(408, "status_read"), ReasonCode::Timeout);
    assert_eq!(runtime_cloud_map_remote_http_status(500, "status_read"), ReasonCode::TransportFailure);
}
