use trust_runtime::ide::format::format_structured_text_document;
use trust_runtime::ide::model::{IdeError, IdeErrorKind, IdePosition, IdeRole, WebIdeFrontendTelemetry, WebIdeLimits};
use trust_runtime::ide::edits::{apply_text_edits, TextEdit};
use trust_runtime::ide::workspace::{check_write_allowed, fs_change_target, IdeWorkspace};
use trust_runtime::ide::telemetry::{total_telemetry, TelemetryBySession};
use trust_runtime::ide::paths::{check_browse_path, check_source_size, normalize_source_path, normalize_workspace_path, path_is_under, remap_path};
use trust_runtime::ide::analysis_refresh::{analysis_refresh, next_refresh_at, refresh_due, FileRefresh, Fingerprint};
use trust_runtime::ide::search::{workspace_search, SearchFile};
use trust_runtime::ide::browse::{browse_listing, BrowseItem};
use trust_runtime::ide::symbols::{extract_symbol_hits, FileSymbol, SymbolFile};
use trust_runtime::ide::positions::{position_to_text_size, text_offset_to_position, text_range_to_ide_range};

#[test]
fn format_structured_text_document_indents_common_blocks() {
    let input = "PROGRAM Main\nVAR\nCounter:INT;\nEND_VAR\nIF Counter > 0 THEN\nCounter:=Counter+1;\nELSE\nCounter:=0;\nEND_IF\nEND_PROGRAM\n";
    let formatted = format_structured_text_document(input);
    assert_eq!(
        formatted,
        "PROGRAM Main\n  VAR\n    Counter:INT;\n  END_VAR\n  IF Counter > 0 THEN\n    Counter:=Counter+1;\n  ELSE\n    Counter:=0;\n  END_IF\nEND_PROGRAM\n"
    );
}

#[test]
fn format_source_indents_var_block() {
    let formatted = format_structured_text_document("PROGRAM Main\nVAR\nA:INT;\nEND_VAR\nEND_PROGRAM\n");
    assert!(formatted.contains("  VAR"));
    assert!(formatted.contains("    A:INT;"));
}

#[test]
fn ide_role_parses_aliases() {
    assert_eq!(IdeRole::parse(" Viewer "), Some(IdeRole::Viewer));
    assert_eq!(IdeRole::parse("read_only"), Some(IdeRole::Viewer));
    assert_eq!(IdeRole::parse("AUTHORING"), Some(IdeRole::Editor));
    assert_eq!(IdeRole::parse("admin"), None);
    assert_eq!(IdeRole::Editor.as_str(), "editor");
}

#[test]
fn ide_error_status_codes() {
    assert_eq!(IdeError::new(IdeErrorKind::Unauthorized, "x".to_string()).status_code(), 401);
    assert_eq!(IdeError::new(IdeErrorKind::Forbidden, "x".to_string()).status_code(), 403);
    assert_eq!(IdeError::new(IdeErrorKind::NotFound, "x".to_string()).status_code(), 404);
    assert_eq!(IdeError::new(IdeErrorKind::InvalidInput, "x".to_string()).status_code(), 400);
    assert_eq!(IdeError::new(IdeErrorKind::TooLarge, "x".to_string()).status_code(), 413);
    assert_eq!(IdeError::new(IdeErrorKind::LimitExceeded, "x".to_string()).status_code(), 429);
    assert_eq!(IdeError::new(IdeErrorKind::Internal, "x".to_string()).status_code(), 500);
    let conflict = IdeError::conflict(7);
    assert_eq!(conflict.status_code(), 409);
    assert_eq!(conflict.kind(), IdeErrorKind::Conflict);
    assert_eq!(conflict.current_version(), Some(7));
}

#[test]
fn workspace_paths_stay_inside_project() {
    assert!(normalize_workspace_path("../etc/passwd", false).is_err());
    assert!(normalize_workspace_path("/abs/path.st", false).is_err());
    assert_eq!(normalize_workspace_path("src/./main.st", false).unwrap(), "src/main.st");
    assert!(normalize_source_path("main.st").is_ok());
}

use trust_runtime::ide::analysis::{
    apply_completion_relevance_contract, completion_prefix, completion_rank,
    extract_in_scope_symbols, is_identifier, CompletionItem,
};

fn item(label: &str, kind: &str, priority: u32) -> CompletionItem {
    CompletionItem {
        label: label.to_string(),
        kind: kind.to_string(),
        detail: None,
        documentation: None,
        insert_text: None,
        sort_priority: priority,
    }
}

#[test]
fn identifiers() {
    assert!(is_identifier("_Motor1"));
    assert!(!is_identifier("1abc"));
    assert!(!is_identifier(""));
    assert!(!is_identifier("a-b"));
}

#[test]
fn prefix_is_word_before_cursor() {
    let text = "PROGRAM Main\nVAR\nCounter : INT;\nEND_VAR\n\nCoun\nEND_PROGRAM\n";
    assert_eq!(completion_prefix(text, 5, 4), "Coun");
    assert_eq!(completion_prefix(text, 5, 2), "Co");
    assert_eq!(completion_prefix(text, 2, 99), "");
    assert_eq!(completion_prefix("x := Mot", 0, 8), "Mot");
    assert_eq!(completion_prefix("a", 7, 1), "");
}

#[test]
fn in_scope_symbols_are_sorted_and_unique() {
    let text = "PROGRAM Main\nVAR\nb, a : INT;\nCounter : INT;\n// x : INT;\nEND_VAR\nFUNCTION_BLOCK Motor\nEND_FUNCTION_BLOCK\nEND_PROGRAM\n";
    let symbols = extract_in_scope_symbols(text);
    assert_eq!(symbols, vec!["Counter", "Main", "Motor", "_BLOCK", "a", "b"]);
}

#[test]
fn rank_prefers_matching_symbols() {
    assert_eq!(completion_rank(&item("Counter", "variable", 0), "coun"), 0);
    assert_eq!(completion_rank(&item("COUNT_UP", "Keyword", 0), "coun"), 1);
    assert_eq!(completion_rank(&item("Main", "program", 0), "coun"), 2);
}

#[test]
fn relevance_contract_puts_in_scope_symbol_first() {
    let text = "PROGRAM Main\nVAR\nCounter : INT;\nEND_VAR\n\nCoun\nEND_PROGRAM\n";
    let mut items = vec![item("CONCAT", "function", 5), item("COUNT_UP", "keyword", 1), item("Main", "program", 0)];
    apply_completion_relevance_contract(&mut items, text, 5, 4, Some(3));
    let labels: Vec<&str> = items.iter().map(|i| i.label.as_str()).collect();
    assert_eq!(labels, vec!["Counter", "COUNT_UP", "Main"]);
    assert_eq!(items[0].kind, "symbol");
    assert_eq!(items[0].detail.as_deref(), Some("in-scope symbol"));
}

#[test]
fn relevance_contract_dedupes_labels_ignoring_case() {
    let text = "Co";
    let mut items = vec![item("count", "variable", 2), item("COUNT", "variable", 1), item("Cat", "variable", 0)];
    apply_completion_relevance_contract(&mut items, text, 0, 2, None);
    let labels: Vec<&str> = items.iter().map(|i| i.label.as_str()).collect();
    assert_eq!(labels, vec!["COUNT", "Cat"]);
}

#[test]
fn relevance_contract_without_prefix_only_truncates() {
    let mut items = vec![item("b", "x", 9), item("a", "x", 0), item("c", "x", 0)];
    apply_completion_relevance_contract(&mut items, "  ", 0, 2, Some(2));
    let labels: Vec<&str> = items.iter().map(|i| i.label.as_str()).collect();
    assert_eq!(labels, vec!["b", "a"]);
}

use trust_runtime::ide::model::{MAX_SESSIONS, SESSION_TTL_SECS};
use trust_runtime::ide::sessions::IdeSessions;

#[test]
fn auth_and_session_lifecycle_contract() {
    let mut sessions = IdeSessions::new();
    let err = sessions.ensure_session("missing", 10_000, SESSION_TTL_SECS).unwrap_err();
    assert_eq!(err.kind(), IdeErrorKind::Unauthorized);
    let session = sessions.create_session(IdeRole::Viewer, 10_000, SESSION_TTL_SECS, MAX_SESSIONS).expect("create viewer session");
    assert_eq!(session.role, "viewer");
    assert_eq!(session.expires_at, 10_000 + SESSION_TTL_SECS);
    assert_eq!(sessions.ensure_session(&session.token, 10_000, SESSION_TTL_SECS).unwrap(), IdeRole::Viewer);
    let expired_err = sessions
        .ensure_session(&session.token, 10_000 + SESSION_TTL_SECS + 1, SESSION_TTL_SECS)
        .expect_err("session should be expired");
    assert_eq!(expired_err.kind(), IdeErrorKind::Unauthorized);
    assert_eq!(sessions.len(), 0);
}

#[test]
fn session_activity_renews_ttl_and_idle_expiry_still_applies() {
    let mut sessions = IdeSessions::new();
    let session = sessions.create_session(IdeRole::Viewer, 20_000, SESSION_TTL_SECS, MAX_SESSIONS).unwrap();
    assert!(sessions.ensure_session(&session.token, 20_000 + SESSION_TTL_SECS / 2, SESSION_TTL_SECS).is_ok());
    assert!(sessions.ensure_session(&session.token, 20_000 + SESSION_TTL_SECS + 5, SESSION_TTL_SECS).is_ok());
    let expired = sessions
        .ensure_session(&session.token, 20_000 + 2 * SESSION_TTL_SECS + 10, SESSION_TTL_SECS)
        .expect_err("idle session should expire");
    assert_eq!(expired.kind(), IdeErrorKind::Unauthorized);
}

#[test]
fn session_limit_evicts_oldest_inactive_session() {
    let mut sessions = IdeSessions::new();
    let mut tokens = Vec::new();
    for _ in 0..MAX_SESSIONS {
        tokens.push(sessions.create_session(IdeRole::Viewer, 30_000, SESSION_TTL_SECS, MAX_SESSIONS).unwrap().token);
    }
    let keep_alive = tokens.last().unwrap().clone();
    sessions.ensure_session(&keep_alive, 30_100, SESSION_TTL_SECS).unwrap();
    let replacement = sessions.create_session(IdeRole::Viewer, 30_100, SESSION_TTL_SECS, MAX_SESSIONS).unwrap();
    assert!(sessions.ensure_session(&replacement.token, 30_100, SESSION_TTL_SECS).is_ok());
    assert!(sessions.ensure_session(&keep_alive, 30_100, SESSION_TTL_SECS).is_ok());
    let evicted = tokens
        .iter()
        .filter(|t| **t != keep_alive)
        .filter(|t| sessions.ensure_session(t, 30_100, SESSION_TTL_SECS).is_err())
        .count();
    assert_eq!(evicted, 1);
    assert_eq!(sessions.len(), MAX_SESSIONS);
}

#[test]
fn viewer_sessions_cannot_edit() {
    let mut sessions = IdeSessions::new();
    let viewer = sessions.create_session(IdeRole::Viewer, 1, 100, 4).unwrap();
    let editor = sessions.create_session(IdeRole::Editor, 1, 100, 4).unwrap();
    assert_eq!(sessions.ensure_editor_session(&viewer.token, 2, 100).unwrap_err().kind(), IdeErrorKind::Forbidden);
    assert!(sessions.ensure_editor_session(&editor.token, 2, 100).is_ok());
    sessions.remove_session(&editor.token);
    assert_eq!(sessions.ensure_editor_session(&editor.token, 2, 100).unwrap_err().kind(), IdeErrorKind::Unauthorized);
}

#[test]
fn no_room_refuses_session() {
    let mut sessions = IdeSessions::new();
    let err = sessions.create_session(IdeRole::Viewer, 1, 100, 0).unwrap_err();
    assert_eq!(err.kind(), IdeErrorKind::LimitExceeded);
    assert_eq!(err.status_code(), 429);
}

use trust_runtime::ide::audit::{recent_audit_events, record_fs_audit_event};
use trust_runtime::ide::documents::IdeDocuments;
use trust_runtime::ide::model::MAX_FS_AUDIT_EVENTS;

#[test]
fn collaborative_conflict_detected_with_expected_version() {
    let original = "PROGRAM Main\nEND_PROGRAM\n";
    let mut docs = IdeDocuments::new();
    docs.upsert_tracked_document("s1", "main.st", original);
    docs.upsert_tracked_document("s2", "main.st", original);
    assert_eq!(docs.version("main.st"), Some(1));
    let first = "PROGRAM Main\nVAR\nA : INT;\nEND_VAR\nEND_PROGRAM\n";
    docs.check_write("main.st", original, 1).expect("apply first edit");
    assert_eq!(docs.commit_write("s1", "main.st", first), 2);
    let stale = docs.check_write("main.st", first, 1).expect_err("stale write must conflict");
    assert_eq!(stale.kind(), IdeErrorKind::Conflict);
    assert_eq!(stale.current_version(), Some(2));
}

#[test]
fn external_change_bumps_version() {
    let mut docs = IdeDocuments::new();
    docs.upsert_tracked_document("s1", "a.st", "x");
    docs.upsert_tracked_document("s1", "a.st", "y");
    assert_eq!(docs.version("a.st"), Some(2));
    assert_eq!(docs.version("b.st"), None);
    assert!(docs.check_write("a.st", "z", 2).is_err());
    assert!(docs.check_write("a.st", "z", 3).is_ok());
    docs.clear();
    assert_eq!(docs.version("a.st"), None);
}

#[test]
fn fs_audit_log_tracks_mutating_operations() {
    let mut log = Vec::new();
    record_fs_audit_event(&mut log, "abcdefghijkl", "create", "folder_a", 20);
    record_fs_audit_event(&mut log, "abc", "rename", "folder_a/extra.st", 21);
    assert_eq!(log.len(), 2);
    assert_eq!(log[0].session, "abcdefgh");
    assert_eq!(log[1].session, "abc");
    let recent = recent_audit_events(&log, 0);
    assert_eq!(recent.len(), 1);
    assert_eq!(recent[0].action, "rename");
    let all = recent_audit_events(&log, 500);
    assert_eq!(all.iter().map(|e| e.ts_secs).collect::<Vec<_>>(), vec![21, 20]);
}

#[test]
fn fs_audit_log_is_bounded() {
    let mut log = Vec::new();
    for i in 0..(MAX_FS_AUDIT_EVENTS as u64 + 5) {
        record_fs_audit_event(&mut log, "tok", "write", "main.st", i);
    }
    assert_eq!(log.len(), MAX_FS_AUDIT_EVENTS);
    assert_eq!(log[0].ts_secs, 5);
    assert_eq!(log.last().unwrap().ts_secs, MAX_FS_AUDIT_EVENTS as u64 + 4);
}

#[test]
fn positions_map_to_utf8_byte_offsets() {
    let text = "a\nbé\nc";
    let pos = |line: u32, character: u32| IdePosition { line, character };
    assert_eq!(position_to_text_size(text, &pos(0, 0)), 0);
    assert_eq!(position_to_text_size(text, &pos(1, 2)), 5);
    assert_eq!(position_to_text_size(text, &pos(1, 10)), 5);
    assert_eq!(position_to_text_size(text, &pos(2, 0)), 6);
    assert_eq!(position_to_text_size(text, &pos(5, 0)), 7);
    assert_eq!(position_to_text_size("", &pos(0, 5)), 0);
}

#[test]
fn byte_offsets_map_to_positions() {
    let text = "a\nbé\nc";
    assert_eq!(text_offset_to_position(text, 0), IdePosition { line: 0, character: 0 });
    assert_eq!(text_offset_to_position(text, 2), IdePosition { line: 1, character: 0 });
    assert_eq!(text_offset_to_position(text, 5), IdePosition { line: 1, character: 2 });
    assert_eq!(text_offset_to_position(text, 7), IdePosition { line: 2, character: 1 });
    assert_eq!(text_offset_to_position(text, 100), IdePosition { line: 2, character: 1 });
    let range = text_range_to_ide_range(text, 2, 5);
    assert_eq!(range.start, IdePosition { line: 1, character: 0 });
    assert_eq!(range.end, IdePosition { line: 1, character: 2 });
    for offset in [0u32, 1, 2, 3, 5, 6, 7] {
        let p = text_offset_to_position(text, offset);
        assert_eq!(position_to_text_size(text, &p), offset);
    }
}

fn edit(start: u32, end: u32, new_text: &str) -> TextEdit {
    TextEdit { start, end, new_text: new_text.to_string() }
}

#[test]
fn rename_edits_apply_against_original_offsets() {
    let text = "let a := a + 1;";
    let edits = vec![edit(4, 5, "count"), edit(9, 10, "count")];
    assert_eq!(apply_text_edits(text, &edits).unwrap(), "let count := count + 1;");
    let reversed = vec![edit(9, 10, "count"), edit(4, 5, "count")];
    assert_eq!(apply_text_edits(text, &reversed).unwrap(), "let count := count + 1;");
    assert_eq!(apply_text_edits("é := é;", &[edit(0, 2, "x"), edit(6, 8, "y")]).unwrap(), "x := y;");
    assert_eq!(apply_text_edits(text, &[]).unwrap(), text);
    let err = apply_text_edits(text, &[edit(3, 40, "x")]).unwrap_err();
    assert_eq!(err.kind(), IdeErrorKind::InvalidInput);
    assert_eq!(err.message(), "rename edit range out of bounds");
    assert!(apply_text_edits(text, &[edit(5, 4, "x")]).is_err());
}

#[test]
fn source_size_limit() {
    assert!(check_source_size(10, 10).is_ok());
    let err = check_source_size(11, 10).unwrap_err();
    assert_eq!(err.kind(), IdeErrorKind::TooLarge);
    assert_eq!(err.status_code(), 413);
    assert_eq!(err.message(), "source file exceeds limit (11 > 10 bytes)");
}

fn report(b: u64, t: u64, w: u64, a: u64) -> WebIdeFrontendTelemetry {
    WebIdeFrontendTelemetry { bootstrap_failures: b, analysis_timeouts: t, worker_restarts: w, autosave_failures: a }
}

#[test]
fn frontend_telemetry_totals_latest_report_per_session() {
    let mut by_session = TelemetryBySession::new();
    assert_eq!(by_session.record("s1", report(1, 2, 3, 4)), report(1, 2, 3, 4));
    assert_eq!(by_session.record("s2", report(10, 0, 0, 1)), report(11, 2, 3, 5));
    assert_eq!(by_session.record("s1", report(0, 0, 1, 0)), report(10, 0, 1, 1));
    assert_eq!(by_session.record("s3", report(u64::MAX, 0, 0, 0)).bootstrap_failures, u64::MAX);
    assert_eq!(total_telemetry(&[]), report(0, 0, 0, 0));
}

#[test]
fn renamed_paths_follow_their_directory() {
    assert!(path_is_under("src/a/b.st", "src/a"));
    assert!(path_is_under("src/a", "src/a"));
    assert!(!path_is_under("src/ab", "src/a"));
    assert_eq!(remap_path("src/a/b.st", "src/a", "lib/x"), Some("lib/x/b.st".to_string()));
    assert_eq!(remap_path("src/a", "src/a", "lib/x"), Some("lib/x".to_string()));
    assert_eq!(remap_path("src/ab", "src/a", "lib/x"), None);
    let moved = remap_path("src/a/deep/c.st", "src/a", "lib").unwrap();
    assert_eq!(remap_path(&moved, "lib", "src/a"), Some("src/a/deep/c.st".to_string()));
}

#[test]
fn browsing_system_directories_is_refused() {
    assert!(check_browse_path("/home/user/projects").is_ok());
    let err = check_browse_path("/proc/1").unwrap_err();
    assert_eq!(err.kind(), IdeErrorKind::Forbidden);
    assert_eq!(err.message(), "browsing /proc is not allowed");
    assert_eq!(check_browse_path("/device").unwrap_err().message(), "browsing /dev is not allowed");
}

#[test]
fn workspace_open_write_and_audit_flow() {
    let limits = WebIdeLimits { session_ttl_secs: 60, max_sessions: 4, max_file_bytes: 64 };
    let mut ws = IdeWorkspace::new(limits);
    let editor = ws.sessions.create_session(IdeRole::Editor, 100, 60, 4).unwrap().token;
    let viewer = ws.sessions.create_session(IdeRole::Viewer, 100, 60, 4).unwrap().token;

    let snap = ws.open_source(&editor, "src/main.st", "PROGRAM Main\n", 101).unwrap();
    assert_eq!(snap.version, 1);
    assert!(!snap.read_only);
    assert!(ws.open_source(&viewer, "src/main.st", "PROGRAM Main\n", 101).unwrap().read_only);

    assert!(ws.begin_write(&editor, "src/main.st", "PROGRAM Main\n", 1, 102).is_ok());
    let written = ws.finish_write(&editor, "src/main.st", "PROGRAM Main2\n", 102);
    assert_eq!(written.version, 2);
    let again = ws.open_source(&editor, "src/main.st", "PROGRAM Main2\n", 103).unwrap();
    assert_eq!(again.version, 2);
    assert_eq!(again.content, "PROGRAM Main2\n");

    let stale = ws.begin_write(&editor, "src/main.st", "PROGRAM Main2\n", 1, 104).unwrap_err();
    assert_eq!(stale.kind(), IdeErrorKind::Conflict);
    assert_eq!(stale.current_version(), Some(2));
    assert_eq!(ws.begin_write(&viewer, "src/main.st", "PROGRAM Main2\n", 2, 104).unwrap_err().kind(), IdeErrorKind::Forbidden);
    assert_eq!(ws.open_source("nope", "src/main.st", "x", 104).unwrap_err().kind(), IdeErrorKind::Unauthorized);
    let big = "x".repeat(65);
    assert_eq!(ws.open_source(&editor, "src/main.st", &big, 104).unwrap_err().kind(), IdeErrorKind::TooLarge);

    let events = ws.fs_audit(&editor, 10, 105).unwrap();
    assert_eq!(events.len(), 1);
    assert_eq!(events[0].action, "write_file");
    assert_eq!(events[0].path, "src/main.st");
    assert!(ws.require_editor_session(&editor, 105).is_ok());
    assert!(ws.require_editor_session(&viewer, 105).is_err());

    assert_eq!(check_write_allowed(false, 1, 10).unwrap_err().kind(), IdeErrorKind::Forbidden);
    let too_big = check_write_allowed(true, 11, 10).unwrap_err();
    assert_eq!(too_big.message(), "payload exceeds limit (11 > 10 bytes)");
    assert!(check_write_allowed(true, 10, 10).is_ok());
}

fn symbol(name: &str, kind: &str, start: u32) -> FileSymbol {
    FileSymbol { name: name.to_string(), kind: kind.to_string(), start }
}

fn symbol_files() -> Vec<SymbolFile> {
    vec![
        SymbolFile {
            path: "a.st".to_string(),
            source: "PROGRAM Main\nVAR\n  Counter : INT;\nEND_VAR\n".to_string(),
            symbols: vec![symbol("Main", "program", 8), symbol("Counter", "variable", 19), symbol("", "variable", 0)],
        },
        SymbolFile {
            path: "b.st".to_string(),
            source: "FUNCTION_BLOCK Motor\n".to_string(),
            symbols: vec![symbol("Motor", "function_block", 15)],
        },
    ]
}

#[test]
fn symbol_search_matches_case_insensitively_with_positions() {
    let hits = extract_symbol_hits(&symbol_files(), None, "  COUNT ", 10);
    assert_eq!(hits.len(), 1);
    assert_eq!(hits[0].path, "a.st");
    assert_eq!(hits[0].name, "Counter");
    assert_eq!(hits[0].kind, "variable");
    assert_eq!((hits[0].line, hits[0].character), (2, 2));
}

#[test]
fn symbol_search_with_empty_query_lists_named_symbols_in_file_order() {
    let hits = extract_symbol_hits(&symbol_files(), None, "", 10);
    let names: Vec<&str> = hits.iter().map(|h| h.name.as_str()).collect();
    assert_eq!(names, vec!["Main", "Counter", "Motor"]);
    assert_eq!((hits[2].line, hits[2].character), (0, 15));
}

#[test]
fn symbol_search_respects_filter_and_limit() {
    let only_b = extract_symbol_hits(&symbol_files(), Some("b.st"), "", 10);
    assert_eq!(only_b.len(), 1);
    assert_eq!(only_b[0].name, "Motor");
    assert_eq!(extract_symbol_hits(&symbol_files(), None, "", 2).len(), 2);
    let zero = extract_symbol_hits(&symbol_files(), None, "", 0);
    assert_eq!(zero.len(), 1);
    assert_eq!(zero[0].name, "Main");
    assert!(extract_symbol_hits(&symbol_files(), Some("c.st"), "", 10).is_empty());
}

#[test]
fn documents_follow_renames_and_deletions() {
    let limits = WebIdeLimits { session_ttl_secs: 60, max_sessions: 4, max_file_bytes: 64 };
    let mut ws = IdeWorkspace::new(limits);
    let editor = ws.sessions.create_session(IdeRole::Editor, 100, 60, 4).unwrap().token;
    ws.open_source(&editor, "src/a.st", "A", 101).unwrap();
    ws.open_source(&editor, "src/sub/b.st", "B", 101).unwrap();
    ws.open_source(&editor, "srcx/e.st", "E", 101).unwrap();
    ws.open_source(&editor, "lib/c.st", "C", 101).unwrap();

    let moved = ws.finish_rename(&editor, "src", "app", true, 102);
    assert_eq!(moved.path, "app");
    assert_eq!(moved.kind, "directory");
    assert_eq!(moved.version, None);
    assert_eq!(ws.documents.version("src/a.st"), None);
    assert_eq!(ws.documents.version("src/sub/b.st"), None);
    assert_eq!(ws.documents.version("app/a.st"), Some(2));
    assert_eq!(ws.documents.version("app/sub/b.st"), Some(2));
    assert_eq!(ws.documents.version("srcx/e.st"), Some(1));
    assert_eq!(ws.documents.version("lib/c.st"), Some(1));
    let reopened = ws.open_source(&editor, "app/a.st", "A", 103).unwrap();
    assert_eq!(reopened.version, 2);
    assert_eq!(reopened.content, "A");

    let file = ws.finish_rename(&editor, "lib/c.st", "lib/d.st", false, 104);
    assert_eq!(file.kind, "file");
    assert_eq!(ws.documents.version("lib/c.st"), None);
    assert_eq!(ws.documents.version("lib/d.st"), Some(2));

    let gone = ws.finish_delete(&editor, "app", true, 105);
    assert_eq!(gone.path, "app");
    assert_eq!(gone.kind, "directory");
    assert_eq!(ws.documents.version("app/a.st"), None);
    assert_eq!(ws.documents.version("app/sub/b.st"), None);
    assert_eq!(ws.documents.version("lib/d.st"), Some(2));
    ws.finish_delete(&editor, "lib/d.st", false, 106);
    assert_eq!(ws.documents.version("lib/d.st"), None);
    assert_eq!(ws.documents.version("srcx/e.st"), Some(1));

    let events = ws.fs_audit(&editor, 10, 107).unwrap();
    let actions: Vec<&str> = events.iter().map(|e| e.action.as_str()).collect();
    assert_eq!(actions, vec!["delete_path", "delete_path", "rename_path", "rename_path"]);
    assert_eq!(events[2].path, "lib/c.st -> lib/d.st");
}

#[test]
fn renaming_onto_a_tracked_path_replaces_that_document() {
    let limits = WebIdeLimits { session_ttl_secs: 60, max_sessions: 4, max_file_bytes: 64 };
    let mut ws = IdeWorkspace::new(limits);
    let editor = ws.sessions.create_session(IdeRole::Editor, 100, 60, 4).unwrap().token;
    ws.open_source(&editor, "a.st", "A", 101).unwrap();
    ws.open_source(&editor, "b.st", "B", 101).unwrap();
    ws.open_source(&editor, "b.st", "B2", 101).unwrap();
    assert_eq!(ws.documents.version("b.st"), Some(2));
    ws.finish_rename(&editor, "a.st", "b.st", false, 102);
    assert_eq!(ws.documents.version("a.st"), None);
    assert_eq!(ws.documents.version("b.st"), Some(2));
    let snap = ws.open_source(&editor, "b.st", "A", 103).unwrap();
    assert_eq!(snap.version, 2);
    ws.finish_rename(&editor, "missing.st", "other.st", false, 104);
    assert_eq!(ws.documents.version("other.st"), None);
}

#[test]
fn creating_entries_checks_the_session_and_tracks_files() {
    let limits = WebIdeLimits { session_ttl_secs: 60, max_sessions: 4, max_file_bytes: 8 };
    let mut ws = IdeWorkspace::new(limits);
    let editor = ws.sessions.create_session(IdeRole::Editor, 100, 60, 4).unwrap().token;
    let viewer = ws.sessions.create_session(IdeRole::Viewer, 100, 60, 4).unwrap().token;

    assert_eq!(fs_change_target(false, "src/x.st").unwrap_err().kind(), IdeErrorKind::Forbidden);
    assert_eq!(fs_change_target(true, "/etc/x").unwrap_err().kind(), IdeErrorKind::Forbidden);
    assert_eq!(fs_change_target(true, "").unwrap_err().kind(), IdeErrorKind::InvalidInput);
    assert_eq!(fs_change_target(true, " src/x.st ").unwrap(), "src/x.st");

    assert!(ws.begin_create(&editor, false, 8, 101).is_ok());
    assert!(ws.begin_create(&editor, true, 100, 101).is_ok());
    let big = ws.begin_create(&editor, false, 9, 101).unwrap_err();
    assert_eq!(big.kind(), IdeErrorKind::TooLarge);
    assert_eq!(big.message(), "payload exceeds limit (9 > 8 bytes)");
    assert_eq!(ws.begin_create(&viewer, true, 0, 101).unwrap_err().kind(), IdeErrorKind::Forbidden);
    assert_eq!(ws.begin_create("nope", true, 0, 101).unwrap_err().kind(), IdeErrorKind::Unauthorized);

    let dir = ws.finish_create(&editor, "src/new", true, "", 102);
    assert_eq!(dir.kind, "directory");
    assert_eq!(dir.version, None);
    let file = ws.finish_create(&editor, "src/new/x.st", false, "X", 103);
    assert_eq!(file.kind, "file");
    assert_eq!(file.version, Some(1));
    let snap = ws.open_source(&viewer, "src/new/x.st", "X", 104).unwrap();
    assert_eq!(snap.version, 1);
    assert_eq!(snap.content, "X");

    let events = ws.fs_audit(&editor, 10, 105).unwrap();
    assert_eq!(events[0].action, "create_file");
    assert_eq!(events[1].action, "create_directory");
    assert_eq!(events[1].path, "src/new");
}

fn browse_item(name: &str, is_dir: bool) -> BrowseItem {
    BrowseItem {
        name: name.to_string(),
        path: format!("/w/{name}"),
        is_dir,
        size: 3,
        st_count: if is_dir { Some(1) } else { None },
    }
}

#[test]
fn browse_listing_puts_directories_first_sorted_without_case() {
    let items = vec![
        browse_item("zeta.st", false),
        browse_item("Beta", true),
        browse_item(".git", true),
        browse_item("alpha", true),
        browse_item("Main.st", false),
        browse_item(".hidden.st", false),
        browse_item("BETA", true),
    ];
    let listed = browse_listing(&items);
    let names: Vec<&str> = listed.iter().map(|e| e.name.as_str()).collect();
    assert_eq!(names, vec!["alpha", "Beta", "BETA", "Main.st", "zeta.st"]);
    assert_eq!(listed[0].kind, "directory");
    assert_eq!(listed[0].st_count, Some(1));
    assert_eq!(listed[3].kind, "file");
    assert_eq!(listed[3].path, "/w/Main.st");
    assert_eq!(listed[3].st_count, None);
    assert!(browse_listing(&Vec::new()).is_empty());
}

#[test]
fn formatting_twice_changes_nothing() {
    let sources = [
        "PROGRAM Main\nVAR\nCounter:INT;\nEND_VAR\nIF Counter > 0 THEN\nCounter:=Counter+1;\nELSE\nCounter:=0;\nEND_IF\nEND_PROGRAM\n",
        "  END_IF\n\t\n// note  \r\nREPEAT\nx := 1;\nUNTIL x > 0\nEND_REPEAT",
        "",
        "\n\n",
    ];
    for s in sources {
        let once = format_structured_text_document(s);
        assert_eq!(format_structured_text_document(&once), once);
        assert!(once.is_empty() || once.ends_with('\n'));
        if !once.is_empty() {
            assert_eq!(once.lines().count(), s.lines().count());
        }
    }
    // A line that keeps a carriage return after the first pass loses it in the second.
    let once = format_structured_text_document("x\r\r\n");
    assert_eq!(once, "x\r\n");
    assert_eq!(format_structured_text_document(&once), "x\n");
}

fn search_fixture() -> Vec<SearchFile> {
    vec![
        SearchFile { path: "main.st".to_string(), source: "PROGRAM Main\nEND_PROGRAM\n".to_string() },
        SearchFile {
            path: "types.st".to_string(),
            source: "TYPE\nMyType : STRUCT\nvalue : INT;\nEND_STRUCT;\nEND_TYPE\n".to_string(),
        },
    ]
}

#[test]
fn workspace_search_respects_include_and_exclude_globs() {
    let files = search_fixture();
    let scoped = workspace_search(&files, "MyType", Some("types.st"), None, 50).expect("search with include glob");
    assert!(!scoped.is_empty());
    assert!(scoped.iter().all(|hit| hit.path == "types.st"));

    let excluded = workspace_search(&files, "MyType", None, Some("types.st"), 50).expect("search with exclude glob");
    assert!(excluded.iter().all(|hit| hit.path != "types.st"));

    let invalid = workspace_search(&files, "Main", Some("["), None, 10).expect_err("invalid include glob should fail");
    assert_eq!(invalid.kind(), IdeErrorKind::InvalidInput);
}

#[test]
fn workspace_search_reports_line_byte_offset_and_preview() {
    let files = vec![SearchFile { path: "a.st".to_string(), source: "x\n  Ä := myTYPE;  \r\nmytype\n".to_string() }];
    let hits = workspace_search(&files, " MYTYPE ", None, None, 10).unwrap();
    assert_eq!(hits.len(), 2);
    assert_eq!((hits[0].line, hits[0].character), (1, 8));
    assert_eq!(hits[0].preview, "Ä := myTYPE;");
    assert_eq!((hits[1].line, hits[1].character), (2, 0));
    assert_eq!(workspace_search(&files, "mytype", None, None, 0).unwrap().len(), 1);
    assert!(workspace_search(&files, "   ", Some("["), None, 10).unwrap().is_empty());
}

#[test]
fn analysis_cache_refresh_plan() {
    let fp = |size: u64, ms: u128| Fingerprint { size_bytes: size, modified_ms: ms };
    assert!(refresh_due(false, 0, 100, true));
    assert!(refresh_due(true, 100, 100, true));
    assert!(refresh_due(true, 5, 100, false));
    assert!(!refresh_due(true, 5, 100, true));
    assert_eq!(next_refresh_at(10), 12);
    assert_eq!(next_refresh_at(u64::MAX - 1), u64::MAX);

    let cached = vec![
        ("a.st".to_string(), fp(10, 1)),
        ("b.st".to_string(), fp(20, 2)),
        ("gone.st".to_string(), fp(5, 5)),
    ];
    let current = vec![
        ("a.st".to_string(), Some(fp(10, 1))),
        ("b.st".to_string(), Some(fp(21, 3))),
        ("c.st".to_string(), Some(fp(1, 1))),
        ("d.st".to_string(), None),
    ];
    let (acts, stale) = analysis_refresh(&cached, &current, "a.st").unwrap();
    assert_eq!(
        acts,
        vec![FileRefresh::Keep, FileRefresh::Reload(fp(21, 3)), FileRefresh::Reload(fp(1, 1)), FileRefresh::Forget]
    );
    assert_eq!(stale, vec!["gone.st".to_string()]);
    let err = analysis_refresh(&cached, &current, "d.st").unwrap_err();
    assert_eq!(err.kind(), IdeErrorKind::NotFound);
    assert_eq!(err.message(), "source file not found");
}

use trust_runtime::ide::model::MAX_FILE_BYTES;

fn default_limits() -> WebIdeLimits {
    WebIdeLimits { session_ttl_secs: SESSION_TTL_SECS, max_sessions: MAX_SESSIONS, max_file_bytes: MAX_FILE_BYTES }
}

#[test]
fn health_snapshot_reports_active_state() {
    let mut ws = IdeWorkspace::new(default_limits());
    let viewer = ws.sessions.create_session(IdeRole::Viewer, 1_000, SESSION_TTL_SECS, MAX_SESSIONS).expect("create viewer session");
    let editor = ws.sessions.create_session(IdeRole::Editor, 1_000, SESSION_TTL_SECS, MAX_SESSIONS).expect("create editor session");
    let _ = ws.open_source(&editor.token, "main.st", "PROGRAM Main\nEND_PROGRAM\n", 1_001).expect("open source");

    let telemetry = TelemetryBySession::new();
    let health = ws.health(&viewer.token, &telemetry, 1_002).expect("health");
    assert_eq!(health.active_sessions, 2);
    assert_eq!(health.editor_sessions, 1);
    assert_eq!(health.tracked_documents, 1);
    assert_eq!(health.open_document_handles, 1);
    assert_eq!(health.frontend_telemetry.bootstrap_failures, 0);
    assert_eq!(health.frontend_telemetry.analysis_timeouts, 0);
}

#[test]
fn frontend_telemetry_is_aggregated_in_health_snapshot() {
    let mut ws = IdeWorkspace::new(default_limits());
    let s1 = ws.sessions.create_session(IdeRole::Editor, 1_000, SESSION_TTL_SECS, MAX_SESSIONS).expect("create editor session");
    let s2 = ws.sessions.create_session(IdeRole::Viewer, 1_000, SESSION_TTL_SECS, MAX_SESSIONS).expect("create viewer session");

    let mut telemetry = TelemetryBySession::new();
    ws.sessions.ensure_session(&s1.token, 1_001, SESSION_TTL_SECS).expect("record telemetry session 1");
    telemetry.record(
        &s1.token,
        WebIdeFrontendTelemetry { bootstrap_failures: 1, analysis_timeouts: 2, worker_restarts: 0, autosave_failures: 3 },
    );
    ws.sessions.ensure_session(&s2.token, 1_001, SESSION_TTL_SECS).expect("record telemetry session 2");
    telemetry.record(
        &s2.token,
        WebIdeFrontendTelemetry { bootstrap_failures: 4, analysis_timeouts: 1, worker_restarts: 2, autosave_failures: 0 },
    );

    let health = ws.health(&s1.token, &telemetry, 1_002).expect("health");
    assert_eq!(health.frontend_telemetry.bootstrap_failures, 5);
    assert_eq!(health.frontend_telemetry.analysis_timeouts, 3);
    assert_eq!(health.frontend_telemetry.worker_restarts, 2);
    assert_eq!(health.frontend_telemetry.autosave_failures, 3);
}

#[test]
fn health_refuses_unknown_sessions_and_counts_dropped_ones_out() {
    let mut ws = IdeWorkspace::new(WebIdeLimits { session_ttl_secs: 10, max_sessions: 4, max_file_bytes: 64 });
    let old = ws.sessions.create_session(IdeRole::Editor, 100, 10, 4).unwrap();
    let fresh = ws.sessions.create_session(IdeRole::Viewer, 105, 10, 4).unwrap();
    let telemetry = TelemetryBySession::new();
    let err = ws.health("nope", &telemetry, 106).unwrap_err();
    assert_eq!(err.kind(), IdeErrorKind::Unauthorized);
    // At 111 the first session has expired and is no longer counted.
    let health = ws.health(&fresh.token, &telemetry, 111).unwrap();
    assert_eq!(health.active_sessions, 1);
    assert_eq!(health.editor_sessions, 0);
    assert_eq!(health.fs_mutation_events, 0);
    assert_eq!(health.limits.session_ttl_secs, 10);
    assert!(ws.health(&old.token, &telemetry, 111).is_err());
}
