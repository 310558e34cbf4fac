use trust_runtime::pairing::PairingStore;
use trust_runtime::security::{constant_time_eq, resolve_tls_path, AccessRole};
use trust_runtime::web::auth::{auth_error_status, check_auth_with_role, resolve_web_role};
use trust_runtime::web::config_ui::{
    host_groups_from_workspace, normalize_host_group, resolve_runtime_by_id, resolve_runtime_target, normalize_live_target, normalize_proxy_target, normalize_runtime_id,
    normalize_st_relative_path, render_new_runtime_toml, text_revision, project_revision, ConfigError, RuntimePlacement, RuntimeSources,
};
use trust_runtime::web::live_targets::LiveTargets;
use trust_runtime::web::config_routes::{
    config_ui_authorize, config_ui_route_access, config_write_error_reply, expected_revision_check, ConfigUiDecision, ConfigUiRoute,
    ConfigWriteError, HttpMethod,
};
use trust_runtime::web::proxy::{http_status_error, normalize_proxy_response, ProxyBasicAuth, ProxyReply};
use trust_runtime::web::post_policy::{
    check_body_size, json_body_error_parts, api_post_policy_check, JsonBodyError,
};
use trust_runtime::web::server::WebServerMode;
use trust_runtime::web::route_gates::{aux_route_gate, AuxRoute, ide_route_gate, ide_session_gate, ide_session_role, ops_route_gate, IdeRoute, OpsRoute, RouteGate};
use trust_runtime::ide::model::IdeRole;

fn err_text(e: ConfigError) -> String {
    match e {
        ConfigError::InvalidConfig(m) => m,
    }
}

#[test]
fn server_mode_names() {
    assert_eq!(WebServerMode::Runtime.as_str(), "runtime");
    assert_eq!(WebServerMode::StandaloneIde.as_str(), "standalone-ide");
}

#[test]
fn post_policy_checks() {
    assert!(api_post_policy_check(Some("application/json"), None, None, false, true).is_ok());
    let d = api_post_policy_check(Some("text/plain"), None, None, false, true).unwrap_err();
    assert_eq!((d.status, d.denial_code), (415, "contract_violation"));
    assert!(api_post_policy_check(Some("Application/JSON; charset=utf-8"), None, None, false, true).is_ok());
    assert!(api_post_policy_check(None, Some("http://example.com/"), Some("Example.com"), false, false).is_ok());
    assert!(api_post_policy_check(None, Some("https://example.com"), Some("example.com"), true, false).is_ok());
    let wrong = api_post_policy_check(None, Some("http://evil.com"), Some("example.com"), false, false).unwrap_err();
    assert_eq!(wrong.status, 403);
    assert_eq!(wrong.error, "origin 'http://evil.com' is not allowed");
    let null = api_post_policy_check(None, Some(" NULL "), Some("example.com"), false, false).unwrap_err();
    assert_eq!(null.error, "origin is not allowed");
    let nohost = api_post_policy_check(None, Some("http://a"), None, false, false).unwrap_err();
    assert_eq!((nohost.status, nohost.error.as_str()), (400, "missing Host header"));
}

#[test]
fn body_errors() {
    assert_eq!(json_body_error_parts(JsonBodyError::TooLarge), (413, "contract_violation", "request body exceeds maximum size"));
    assert_eq!(json_body_error_parts(JsonBodyError::InvalidJson).2, "invalid json");
    assert_eq!(check_body_size(11, 10), Err(JsonBodyError::TooLarge));
    assert_eq!(check_body_size(10, 10), Ok(()));
}

#[test]
fn auth_decisions() {
    assert_eq!(resolve_web_role(true, None, None, None, 0), Some((AccessRole::Admin, None)));
    assert_eq!(
        resolve_web_role(false, Some("s3cret"), Some("s3cret"), None, 0),
        Some((AccessRole::Admin, Some("s3cret".to_string())))
    );
    assert_eq!(resolve_web_role(false, Some("s3cret"), None, None, 0), None);
    assert_eq!(check_auth_with_role(false, None, None, None, 0, AccessRole::Viewer), Err("unauthorized"));
    let mut store = PairingStore::with_clock(Vec::new(), 10);
    let code = store.start_pairing(10);
    let token = store.claim(&code.code, Some(AccessRole::Viewer), 10).unwrap();
    assert_eq!(
        check_auth_with_role(false, Some("other"), Some(&token), Some(&mut store), 10, AccessRole::Operator),
        Err("forbidden")
    );
    assert_eq!(
        check_auth_with_role(false, None, Some(&token), Some(&mut store), 10, AccessRole::Viewer),
        Ok((AccessRole::Viewer, Some(token.clone())))
    );
    assert_eq!(auth_error_status("forbidden"), 403);
    assert_eq!(auth_error_status("unauthorized"), 401);
    assert!(constant_time_eq("abc", "abc"));
    assert!(!constant_time_eq("abc", "abd"));
}

#[test]
fn config_ui_inputs() {
    assert_eq!(normalize_runtime_id("  Runtime_A-1 ").unwrap(), "runtime_a-1");
    assert_eq!(err_text(normalize_runtime_id("  ").unwrap_err()), "runtime_id is required");
    assert_eq!(err_text(normalize_runtime_id("a b").unwrap_err()), "runtime_id may only contain [a-zA-Z0-9-_]");
    assert_eq!(normalize_host_group(Some(" Line 1/Cell#2 ")), Some("line-1-cell-2".to_string()));
    assert_eq!(normalize_host_group(Some("---")), None);
    assert_eq!(normalize_host_group(None), None);
    assert_eq!(normalize_live_target("example.com:8080/").unwrap(), "http://example.com:8080");
    assert_eq!(normalize_proxy_target("https://x/").unwrap(), "https://x");
    assert_eq!(err_text(normalize_live_target("https://").unwrap_err()), "target must include host");
    assert_eq!(err_text(normalize_live_target("").unwrap_err()), "target is required");
    assert_eq!(normalize_st_relative_path(" lib/Main.ST ").unwrap(), "lib/Main.ST");
    assert_eq!(err_text(normalize_st_relative_path("/abs.st").unwrap_err()), "path must be relative to src/");
    assert_eq!(err_text(normalize_st_relative_path("a/../b.st").unwrap_err()), "path must stay under src/");
    assert_eq!(err_text(normalize_st_relative_path("notes.txt").unwrap_err()), "path must reference a .st file");
    assert_eq!(err_text(normalize_st_relative_path(".st").unwrap_err()), "path must reference a .st file");
    assert_eq!(err_text(normalize_st_relative_path("").unwrap_err()), "path is required");
}

#[test]
fn new_runtime_template() {
    let toml = render_new_runtime_toml("plc-7", Some("  "));
    assert!(toml.starts_with("[bundle]\nversion = 1\n\n[resource]\nname = \"plc-7\"\n"));
    assert!(toml.contains("endpoint = \"unix:///tmp/plc-7.sock\""));
    assert!(toml.contains("service_name = \"plc-7\""));
    assert!(toml.contains("host_group = \"default-host\""));
    assert!(toml.contains("subscribe = {}"));
    assert!(toml.ends_with("transports = []\n"));
    assert!(render_new_runtime_toml("x", Some(" cell ")).contains("host_group = \"cell\""));
}

#[test]
fn text_revision_is_sha256_hex() {
    assert_eq!(
        text_revision(""),
        "e3b0c44298fc1c149afbf4c8996fb92427ae41e4649b934ca495991b7852b855"
    );
    assert_eq!(
        text_revision("abc"),
        "ba7816bf8f01cfea414140de5dae2223b00361a396177a9cb410ff61f20015ad"
    );
}

#[test]
fn tls_paths() {
    assert_eq!(resolve_tls_path("/etc/cert.pem", None).unwrap(), "/etc/cert.pem");
    assert_eq!(resolve_tls_path("cert.pem", Some("/proj")).unwrap(), "/proj/cert.pem");
    assert_eq!(resolve_tls_path("cert.pem", Some("/proj/")).unwrap(), "/proj/cert.pem");
    assert_eq!(resolve_tls_path("cert.pem", None).unwrap_err(), "relative tls path requires project root");
}

fn placement(id: &str, group: Option<&str>) -> RuntimePlacement {
    RuntimePlacement { runtime_id: id.to_string(), host_group: group.map(|g| g.to_string()) }
}

#[test]
fn host_groups_sorted_by_group_then_id() {
    let runtimes = vec![
        placement("plc-b", Some("line-1")),
        placement("solo", None),
        placement("plc-a", Some("line-1")),
        placement("blank", Some("   ")),
        placement("edge", Some("cell-0")),
    ];
    let groups = host_groups_from_workspace(&runtimes);
    let expected: Vec<Vec<String>> = vec![
        vec!["edge".to_string()],
        vec!["blank".to_string()],
        vec!["solo".to_string()],
        vec!["plc-a".to_string(), "plc-b".to_string()],
    ];
    assert_eq!(groups, expected);
    assert!(host_groups_from_workspace(&[]).is_empty());
}

#[test]
fn runtime_target_resolution() {
    let runtimes = vec![placement("plc-a", None), placement("plc-b", Some("line"))];
    assert_eq!(resolve_runtime_by_id(&runtimes, "plc-b").unwrap(), 1);
    assert_eq!(err_text(resolve_runtime_by_id(&runtimes, "nope").unwrap_err()), "unknown runtime_id 'nope'");
    assert_eq!(resolve_runtime_target(&runtimes, Some(" plc-b "), "plc-a").unwrap(), 1);
    assert_eq!(resolve_runtime_target(&runtimes, Some("  "), "plc-b").unwrap(), 1);
    assert_eq!(resolve_runtime_target(&runtimes, None, "gone").unwrap(), 0);
    assert_eq!(resolve_runtime_target(&runtimes, None, "").unwrap(), 0);
    assert!(resolve_runtime_target(&runtimes, Some("gone"), "plc-a").is_err());
    assert_eq!(err_text(resolve_runtime_target(&[], None, "").unwrap_err()), "workspace has no runtimes");
}

#[test]
fn live_targets_save_connect_and_forget() {
    let mut live = LiveTargets::new();
    assert_eq!(live.upsert_target("plc-b:8080/", Some("  "), 5).unwrap(), "http://plc-b:8080");
    assert_eq!(live.upsert_target("https://plc-a", Some("Line A"), 6).unwrap(), "https://plc-a");
    assert!(live.upsert_target("   ", None, 7).is_err());
    assert_eq!(live.updated_at_ns(), 6);
    assert_eq!(
        live.profiles(),
        vec![
            ("http://plc-b:8080".to_string(), "http://plc-b:8080".to_string()),
            ("https://plc-a".to_string(), "Line A".to_string()),
        ]
    );
    assert_eq!(live.begin_connect(None, None, 8).unwrap(), None);
    assert!(!live.connected());
    let chosen = live.begin_connect(Some("plc-c"), Some(" tok "), 9).unwrap().unwrap();
    assert_eq!(chosen, "http://plc-c");
    assert_eq!(live.active_token(), Some("tok".to_string()));
    assert_eq!(live.profiles().len(), 3);
    live.record_fetch(&chosen, Ok("{}".to_string()), 10);
    assert!(live.connected());
    assert_eq!(live.last_runtime_cloud(), Some("{}".to_string()));
    assert_eq!(live.choose_target(None).unwrap(), Some("http://plc-c".to_string()));
    live.record_fetch(&chosen, Err("timeout".to_string()), 11);
    assert!(!live.connected());
    assert_eq!(live.last_error(), Some("timeout".to_string()));
    assert_eq!(live.last_runtime_cloud(), None);
    assert_eq!(live.remove_target("plc-c", 12).unwrap(), "http://plc-c");
    assert_eq!(live.active_target(), None);
    assert_eq!(live.active_token(), None);
    assert_eq!(live.last_error(), None);
    assert_eq!(live.profiles().len(), 2);
}

#[test]
fn project_revision_hashes_every_runtime_in_order() {
    let one = RuntimeSources {
        runtime_id: "a".to_string(),
        runtime_toml: "b".to_string(),
        io_toml: String::new(),
        st_files: vec!["c".to_string()],
    };
    assert_eq!(
        project_revision(&[one]),
        "ba7816bf8f01cfea414140de5dae2223b00361a396177a9cb410ff61f20015ad"
    );
    assert_eq!(project_revision(&[]), text_revision(""));
}

#[test]
fn proxied_requests_and_answers() {
    let auth = ProxyBasicAuth { username: " user ".to_string(), password: "pass".to_string() };
    assert_eq!(auth.authorization_header(), Some("Basic dXNlcjpwYXNz".to_string()));
    let anonymous = ProxyBasicAuth { username: "  ".to_string(), password: "pass".to_string() };
    assert_eq!(anonymous.authorization_header(), None);
    assert_eq!(normalize_proxy_response(200, true, true, false), ProxyReply::Unchanged);
    assert_eq!(normalize_proxy_response(204, true, false, false), ProxyReply::WrapAsResult);
    assert_eq!(normalize_proxy_response(200, false, false, false), ProxyReply::WrapAsResult);
    assert_eq!(normalize_proxy_response(502, true, true, true), ProxyReply::MarkFailed { add_status_error: false });
    assert_eq!(normalize_proxy_response(404, true, false, false), ProxyReply::MarkFailed { add_status_error: true });
    assert_eq!(normalize_proxy_response(500, false, false, false), ProxyReply::Failed);
    assert_eq!(http_status_error(503), "http status 503");
}

#[test]
fn config_ui_routes_need_their_roles() {
    let ide = WebServerMode::StandaloneIde;
    assert_eq!(
        config_ui_route_access(ide, HttpMethod::Get, "/api/config-ui/st/files?runtime=a"),
        Some((ConfigUiRoute::SourceList, AccessRole::Viewer))
    );
    assert_eq!(
        config_ui_route_access(ide, HttpMethod::Get, "/api/config-ui/st/file?path=main.st"),
        Some((ConfigUiRoute::SourceRead, AccessRole::Viewer))
    );
    assert_eq!(
        config_ui_route_access(ide, HttpMethod::Post, "/api/config-ui/st/file"),
        Some((ConfigUiRoute::SourceWrite, AccessRole::Engineer))
    );
    assert_eq!(
        config_ui_route_access(ide, HttpMethod::Post, "/api/config-ui/runtime/config"),
        Some((ConfigUiRoute::RuntimeConfigWrite, AccessRole::Engineer))
    );
    assert_eq!(config_ui_route_access(ide, HttpMethod::Post, "/api/config-ui/st/files"), None);
    assert_eq!(config_ui_route_access(ide, HttpMethod::Other, "/api/io/config"), None);
    assert_eq!(config_ui_route_access(WebServerMode::Runtime, HttpMethod::Get, "/api/io/config"), None);

    assert!(matches!(
        config_ui_authorize(WebServerMode::Runtime, HttpMethod::Get, "/api/io/config", true, None, None, None, 0),
        ConfigUiDecision::NotHandled
    ));
    assert!(matches!(
        config_ui_authorize(ide, HttpMethod::Post, "/api/io/config", false, Some("s"), None, None, 0),
        ConfigUiDecision::Refused(401)
    ));
    let mut store = PairingStore::with_clock(Vec::new(), 10);
    let code = store.start_pairing(10);
    let token = store.claim(&code.code, Some(AccessRole::Viewer), 10).unwrap();
    assert!(matches!(
        config_ui_authorize(ide, HttpMethod::Post, "/api/io/config", false, None, Some(&token), Some(&mut store), 10),
        ConfigUiDecision::Refused(403)
    ));
    match config_ui_authorize(ide, HttpMethod::Get, "/api/io/config", false, None, Some(&token), Some(&mut store), 10) {
        ConfigUiDecision::Proceed(route, role, tok) => {
            assert_eq!(route, ConfigUiRoute::IoConfigRead);
            assert_eq!(role, AccessRole::Viewer);
            assert_eq!(tok, Some(token.clone()));
        }
        _ => panic!("viewer may read the I/O configuration"),
    }
}

#[test]
fn stale_configuration_writes_conflict() {
    let current = text_revision("a = 1\n");
    assert!(expected_revision_check(None, "a = 1\n", true).is_ok());
    assert!(expected_revision_check(Some(&format!(" {current} ")), "a = 1\n", false).is_ok());
    assert!(expected_revision_check(Some("  "), "a = 1\n", true).is_ok());
    assert_eq!(expected_revision_check(Some("  "), "a = 1\n", false), Err(current.clone()));
    assert_eq!(expected_revision_check(Some("abc"), "a = 1\n", true), Err(current.clone()));

    let conflict = config_write_error_reply(ConfigWriteError::Conflict(current.clone()), "st_write_failed", true);
    assert_eq!(conflict.status, 409);
    assert_eq!(conflict.code, "conflict");
    assert_eq!(conflict.message, "stale write conflict");
    assert_eq!(conflict.field, Some(("expected_revision", "refresh and retry")));
    assert_eq!(conflict.current_revision, Some(current));
    let failed = config_write_error_reply(ConfigWriteError::Failed("path is required".to_string()), "st_write_failed", true);
    assert_eq!(failed.status, 400);
    assert_eq!(failed.code, "st_write_failed");
    assert_eq!(failed.field, Some(("path", "Path must stay under src/ and end with .st")));
    let plain = config_write_error_reply(ConfigWriteError::Failed("bad".to_string()), "runtime_write_failed", false);
    assert_eq!(plain.field, None);
    assert_eq!(plain.current_revision, None);
}

#[test]
fn ide_and_ops_routes_gate_their_requests() {
    assert_eq!(ide_route_gate(HttpMethod::Get, "/api/program"), Some((IdeRoute::Program, RouteGate::Open)));
    assert_eq!(ide_route_gate(HttpMethod::Get, "/api/source?file=main.st"), Some((IdeRoute::Source, RouteGate::Open)));
    assert_eq!(
        ide_route_gate(HttpMethod::Post, "/api/ide/session"),
        Some((IdeRoute::CreateSession, RouteGate::WebRole(AccessRole::Viewer)))
    );
    assert_eq!(ide_route_gate(HttpMethod::Get, "/api/ide/files"), Some((IdeRoute::ListFiles, RouteGate::IdeSession)));
    assert_eq!(ide_route_gate(HttpMethod::Get, "/api/ide/file?path=a.st"), Some((IdeRoute::ReadFile, RouteGate::IdeSession)));
    assert_eq!(ide_route_gate(HttpMethod::Post, "/api/ide/fs/move"), Some((IdeRoute::RenameEntry, RouteGate::IdeSession)));
    assert_eq!(ide_route_gate(HttpMethod::Post, "/api/ide/files"), None);
    assert_eq!(ops_route_gate(HttpMethod::Post, "/api/pair/claim"), Some((OpsRoute::ClaimPairing, RouteGate::Open)));
    assert_eq!(
        ops_route_gate(HttpMethod::Post, "/api/deploy"),
        Some((OpsRoute::Deploy, RouteGate::WebRole(AccessRole::Admin)))
    );
    assert_eq!(
        ops_route_gate(HttpMethod::Get, "/api/events?limit=5"),
        Some((OpsRoute::Events, RouteGate::WebRole(AccessRole::Viewer)))
    );
    assert_eq!(ops_route_gate(HttpMethod::Get, "/api/deploy"), None);

    assert_eq!(ide_session_gate(None), Err((401, "missing X-Trust-Ide-Session")));
    assert_eq!(ide_session_gate(Some("abc")), Ok("abc".to_string()));
    assert_eq!(ide_session_role(None, AccessRole::Viewer), Ok(IdeRole::Viewer));
    assert_eq!(ide_session_role(Some("nonsense"), AccessRole::Viewer), Ok(IdeRole::Viewer));
    assert_eq!(ide_session_role(Some("editor"), AccessRole::Engineer), Ok(IdeRole::Editor));
    assert_eq!(
        ide_session_role(Some("authoring"), AccessRole::Operator),
        Err((403, "editor session requires engineer/admin web role"))
    );
}

#[test]
fn aux_and_language_routes_gate_their_requests() {
    assert_eq!(aux_route_gate(HttpMethod::Get, "/api/ui/mode", None), Some((AuxRoute::UiMode, RouteGate::Open)));
    assert_eq!(
        aux_route_gate(HttpMethod::Post, "/api/deploy/proxy", None),
        Some((AuxRoute::DeployProxy, RouteGate::WebRole(AccessRole::Admin)))
    );
    assert_eq!(
        aux_route_gate(HttpMethod::Post, "/api/setup/apply", None),
        Some((AuxRoute::SetupApply, RouteGate::WebRole(AccessRole::Engineer)))
    );
    assert_eq!(
        aux_route_gate(HttpMethod::Post, "/api/io/config", None),
        Some((AuxRoute::IoConfigWrite, RouteGate::WebRole(AccessRole::Engineer)))
    );
    assert_eq!(aux_route_gate(HttpMethod::Get, "/api/io/config", None), Some((AuxRoute::IoConfigRead, RouteGate::Open)));
    assert_eq!(
        aux_route_gate(HttpMethod::Post, "/api/io/modbus-test", None),
        Some((AuxRoute::ModbusTest, RouteGate::WebRole(AccessRole::Viewer)))
    );
    assert_eq!(aux_route_gate(HttpMethod::Get, "/api/probe?url=http://x", None), Some((AuxRoute::Probe, RouteGate::Open)));
    assert_eq!(aux_route_gate(HttpMethod::Get, "/metrics", None), None);
    assert_eq!(
        aux_route_gate(HttpMethod::Get, "/metrics", Some("/metrics")),
        Some((AuxRoute::Metrics, RouteGate::WebRole(AccessRole::Viewer)))
    );
    for (method, url) in [
        (HttpMethod::Post, "/api/ide/diagnostics"),
        (HttpMethod::Post, "/api/ide/hover"),
        (HttpMethod::Post, "/api/ide/completion"),
        (HttpMethod::Post, "/api/ide/rename"),
        (HttpMethod::Get, "/api/ide/search?q=x"),
        (HttpMethod::Get, "/api/ide/symbols"),
        (HttpMethod::Post, "/api/ide/format"),
        (HttpMethod::Get, "/api/ide/health"),
        (HttpMethod::Post, "/api/ide/build"),
        (HttpMethod::Get, "/api/ide/task/7"),
    ] {
        assert!(matches!(ide_route_gate(method, url), Some((_, RouteGate::IdeSession))));
    }
    assert_eq!(ide_route_gate(HttpMethod::Get, "/api/ide/search"), Some((IdeRoute::Search, RouteGate::IdeSession)));
}
