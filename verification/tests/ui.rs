use std::collections::VecDeque;
use trust_runtime::ui::actions::{
    access_code_line, access_command, breakpoint_line, control_command, control_success,
    focus_from_args, layout_from_args, layout_text, linking_command, log_command, publish_with,
    reload_payload, set_config_response, simple_response, subscribe_with, token_line,
    AccessCommand, ConfigReply, ControlCommand, LinkingCommand, LogCommand,
};
use trust_runtime::ui::alerts::{push_alert, push_cycle_sample, update_event_alerts, EventSnapshot};
use trust_runtime::ui::catalog::{command_catalog, command_suggestions, is_beginner_command, suggestion_lines};
use trust_runtime::ui::command::{
    is_yes, menu_choice, menu_select, route_command, suggestion_filter, watch_add, watch_remove,
    CommandKind, MenuSelection,
};
use trust_runtime::ui::io_nav::{
    io_action_label, io_command, io_entries_for_action, io_list_lines, io_read, io_select,
    io_select_lines, io_value_lines, io_value_select, is_bool_value, IoCommand, IoEntry,
    IoSelectOutcome, IoValueOutcome,
};
use trust_runtime::ui::keys::{
    confirmed_message, handle_key, BEGINNER_BLOCKED_NOTICE, READ_ONLY_NOTICE, handle_prompt_confirm, handle_prompt_key, handle_prompt_submit,
    ConfirmOutcome, DebugAction, EscTarget, Key, KeyAction, KeyPress, PromptKeyAction, SubmitTarget,
};
use trust_runtime::ui::labels::LabelSet;
use trust_runtime::ui::console::{apply_command, press_key, press_prompt_key, show_control_reply, CommandStep, ConsoleState};
use trust_runtime::ui::menu::{menu_entries, menu_lines, menu_title, next_panel_page, wrap_selection, MenuKind};
use trust_runtime::ui::model::{ConfirmAction, EventKind, IoActionKind, PanelKind, PromptMode, SettingKey};
use trust_runtime::ui::prompt::PromptState;
use trust_runtime::ui::settings::{
    edit_prompt_lines, format_setting_key, normalize_setting_input, settings_select, settings_value_input, SettingsSelectOutcome, parse_bool_value, parse_toml_value, plan_setting, setting_outcome,
    settings_menu_lines, settings_menu_rows, FileOutcome, SettingValue, SettingsSnapshot, TomlScalar,
};
use trust_runtime::ui::status::{format_uptime, status_chip};
use trust_runtime::ui::status_panel::{status_panel_lines, DriverStatus, StatusPanelData};
use trust_runtime::ui::style::{Color, Style};

fn text(line: &trust_runtime::ui::style::PromptLine) -> String {
    line.segments.iter().map(|(t, _)| t.as_str()).collect()
}

#[test]
fn menus_end_with_a_way_back() {
    for kind in [MenuKind::Io, MenuKind::Control, MenuKind::Access, MenuKind::Linking, MenuKind::Log, MenuKind::Restart] {
        let entries = menu_entries(kind);
        assert!(!entries.is_empty());
        assert_eq!(entries.last().unwrap().command, "");
    }
    assert_eq!(menu_entries(MenuKind::Io).len(), 7);
    assert_eq!(menu_entries(MenuKind::Control).len(), 11);
    assert_eq!(menu_entries(MenuKind::Restart)[1].command, "/control restart cold");
    assert_eq!(menu_title(MenuKind::Linking), "PLC Linking Menu");
}

#[test]
fn menu_lines_highlight_selected_row() {
    let lines = menu_lines(MenuKind::Access, 1);
    assert_eq!(lines.len(), 1 + 5 + 1);
    assert_eq!(text(&lines[0]), "Access Menu");
    assert_eq!(lines[0].segments[0].1, Style { fg: Some(Color::Yellow), bg: None, bold: true });
    assert_eq!(text(&lines[2]), "Claim access code /access claim");
    assert_eq!(lines[2].segments.len(), 1);
    assert_eq!(lines[2].segments[0].1.bg, Some(Color::Teal));
    assert_eq!(lines[1].segments.len(), 3);
    assert_eq!(lines[1].segments[2].1.fg, Some(Color::Cyan));
    assert_eq!(text(&lines[5]), "Back");
    assert_eq!(text(&lines[6]), "Use ↑/↓ and Enter. Esc to go back.");
    let restart = menu_lines(MenuKind::Restart, 0);
    assert_eq!(text(&restart[1]), "Saved. Restart required.");
}

#[test]
fn selection_wraps_both_ways() {
    assert_eq!(wrap_selection(0, -1, 5), 4);
    assert_eq!(wrap_selection(4, 1, 5), 0);
    assert_eq!(wrap_selection(2, 1, 5), 3);
    assert_eq!(next_panel_page(2, 3), 0);
    assert_eq!(next_panel_page(0, 0), 0);
}

#[test]
fn beginner_catalog_is_the_first_seven() {
    let all = command_catalog(false);
    assert_eq!(all.len(), 17);
    let beginner = command_catalog(true);
    assert_eq!(beginner.len(), 7);
    assert!(beginner.iter().all(|c| c.beginner));
    assert_eq!(beginner[6].cmd, "exit");
    assert!(is_beginner_command("settings"));
    assert!(!is_beginner_command("log"));
}

#[test]
fn suggestions_filter_by_prefix() {
    let s = command_suggestions(false, Some("st"));
    assert_eq!(s.len(), 1);
    assert_eq!(s[0].cmd, "status");
    let l = command_suggestions(false, Some("l"));
    assert_eq!(l.iter().map(|c| c.cmd).collect::<Vec<_>>(), vec!["linking", "log", "layout"]);
    assert!(command_suggestions(true, Some("log")).is_empty());
    let lines = suggestion_lines(&s, Some(0));
    assert_eq!(text(&lines[0]), "Commands:");
    assert_eq!(lines[1].segments[0].0, "/status  ");
    assert_eq!(lines[1].segments[0].1.bg, Some(Color::Teal));
    let none = suggestion_lines(&[], None);
    assert_eq!(text(&none[1]), "No matches.");
}

#[test]
fn history_navigation_round_trip() {
    let mut p = PromptState::new();
    p.push_history("/status".to_string());
    p.push_history("   ".to_string());
    p.push_history("/help".to_string());
    assert_eq!(p.history.len(), 2);
    p.history_prev();
    assert_eq!(p.input, "/help");
    assert_eq!(p.cursor, 5);
    p.history_prev();
    assert_eq!(p.input, "/status");
    p.history_prev();
    assert_eq!(p.input, "/status");
    p.history_next();
    assert_eq!(p.input, "/help");
    p.history_next();
    assert_eq!(p.input, "");
    assert_eq!(p.history_index, None);
}

#[test]
fn prompt_activation_and_suggestions() {
    let mut p = PromptState::new();
    p.activate_with("/é");
    assert!(p.active);
    assert_eq!(p.cursor, 3);
    p.set_suggestions_list(command_catalog(true));
    assert!(p.showing_suggestions);
    assert_eq!(p.selected_suggestion().unwrap().cmd, "help");
    p.move_suggestion(-1);
    assert_eq!(p.suggestion_index, 6);
    assert_eq!(p.selected_suggestion().unwrap().cmd, "exit");
    p.clear_suggestions();
    assert!(p.output.is_empty());
    assert!(p.selected_suggestion().is_none());
    p.deactivate();
    assert!(!p.active);
    assert_eq!(p.mode, PromptMode::Normal);
}

#[test]
fn command_routing() {
    assert_eq!(route_command("   ", false).kind, CommandKind::Ignore);
    assert_eq!(route_command("/", false).kind, CommandKind::ShowAllSuggestions);
    assert_eq!(route_command("/settings", true).kind, CommandKind::Settings);
    assert_eq!(route_command("/log", true).kind, CommandKind::BeginnerBlocked);
    assert_eq!(route_command("p", true).kind, CommandKind::Pause);
    assert_eq!(route_command("/exit", false).kind, CommandKind::Quit);
    assert_eq!(route_command("bogus", false).kind, CommandKind::Unknown);
    let io = route_command("/io  set  QX0.0 TRUE", false);
    assert_eq!(io.kind, CommandKind::Io);
    assert_eq!(io.args, vec!["set".to_string(), "QX0.0".to_string(), "TRUE".to_string()]);
}

#[test]
fn menu_answers() {
    assert_eq!(menu_choice("", 3, 7), Some(3));
    assert_eq!(menu_choice("0", 3, 7), Some(6));
    assert_eq!(menu_choice(" 2 ", 3, 7), Some(1));
    assert_eq!(menu_choice("+2", 3, 7), Some(1));
    assert_eq!(menu_choice("x", 3, 7), None);
    assert!(matches!(menu_select("1", MenuKind::Io, 0), MenuSelection::OpenIoSelect(IoActionKind::Read)));
    assert!(matches!(menu_select("2", MenuKind::Io, 0), MenuSelection::OpenIoSelect(IoActionKind::SetValue)));
    assert!(matches!(menu_select("0", MenuKind::Io, 0), MenuSelection::Back));
    assert!(matches!(menu_select("99", MenuKind::Io, 0), MenuSelection::Invalid));
    match menu_select("", MenuKind::Access, 1) {
        MenuSelection::Prefill(t) => assert_eq!(t, "/access claim "),
        _ => panic!("expected prefill"),
    }
    match menu_select("5", MenuKind::Io, 0) {
        MenuSelection::Execute(t) => assert_eq!(t, "/io list"),
        _ => panic!("expected execute"),
    }
    assert!(is_yes(" YES "));
    assert!(is_yes("y"));
    assert!(!is_yes("no"));
}

#[test]
fn watch_list_has_no_duplicates() {
    let mut list = Vec::new();
    watch_add(&mut list, "A");
    watch_add(&mut list, "B");
    watch_add(&mut list, "A");
    assert_eq!(list, vec!["A".to_string(), "B".to_string()]);
    watch_remove(&mut list, "A");
    assert_eq!(list, vec!["B".to_string()]);
}

#[test]
fn suggestion_filters_from_partial_input() {
    assert_eq!(suggestion_filter("//st"), Some(Some("st".to_string())));
    assert_eq!(suggestion_filter(" / "), Some(None));
    assert_eq!(suggestion_filter("/io set"), None);
    assert_eq!(suggestion_filter("status"), None);
}

#[test]
fn setting_values() {
    assert_eq!(parse_bool_value(" On "), Some(true));
    assert_eq!(parse_bool_value("disabled"), Some(false));
    assert_eq!(parse_bool_value("maybe"), None);
    assert_eq!(normalize_setting_input(SettingKey::CycleInterval, "20 ms"), "20");
    assert_eq!(normalize_setting_input(SettingKey::MeshEnabled, "Enabled"), "true");
    assert_eq!(normalize_setting_input(SettingKey::WebAuth, "token"), "token");
    assert_eq!(format_setting_key(SettingKey::MeshEnabled), "PLC Linking enabled");
}

#[test]
fn setting_plans_and_outcomes() {
    let p = plan_setting(SettingKey::CycleInterval, " 50 ").unwrap();
    assert_eq!(p.file_key, "resource.cycle_interval_ms");
    assert_eq!(p.file_value, "50");
    assert!(p.file_required && p.restart_required && p.request.is_none());
    assert_eq!(plan_setting(SettingKey::CycleInterval, "fast").err(), Some("Invalid number."));
    assert_eq!(plan_setting(SettingKey::MeshEnabled, "perhaps").err(), Some("Use true/false."));
    let m = plan_setting(SettingKey::DiscoveryEnabled, "yes").unwrap();
    assert!(matches!(m.request, Some(("discovery.enabled", SettingValue::Flag(true)))));
    assert_eq!(m.file_value, "true");
    let log = plan_setting(SettingKey::LogLevel, "debug").unwrap();
    assert!(!log.restart_required);
    let r = setting_outcome(&log, FileOutcome::NoProject);
    assert!(r.ok && !r.restart_required);
    assert_eq!(r.message, "Saved.");
    let name = plan_setting(SettingKey::PlcName, "plc-1").unwrap();
    assert_eq!(setting_outcome(&name, FileOutcome::NoProject).message, "Project path required.");
    assert_eq!(setting_outcome(&name, FileOutcome::Failed("disk full".to_string())).message, "Failed: disk full");
    let w = setting_outcome(&name, FileOutcome::Written);
    assert!(w.ok && w.restart_required);
}

#[test]
fn settings_menu_rows_and_lines() {
    let s = SettingsSnapshot {
        cycle_interval_ms: None,
        log_level: "info".to_string(),
        watchdog_enabled: false,
        watchdog_timeout_ms: 0,
        watchdog_action: String::new(),
        fault_policy: String::new(),
        retain_mode: String::new(),
        retain_save_interval_ms: None,
        web_listen: "127.0.0.1:8080".to_string(),
        web_auth: "local".to_string(),
        discovery_enabled: true,
        mesh_enabled: false,
        mesh_publish: Vec::new(),
        mesh_subscribe: Vec::new(),
        control_mode: "debug".to_string(),
        simulation_enabled: false,
        simulation_time_scale: 1,
        simulation_mode: String::new(),
        simulation_warning: String::new(),
    };
    let rows = settings_menu_rows("plc", &s, Some(20));
    assert_eq!(rows.len(), 9);
    assert_eq!(rows[1].value, "20 ms");
    assert_eq!(rows[6].value, "enabled");
    assert_eq!(rows[7].value, "disabled");
    assert!(rows[8].key.is_none());
    let none = settings_menu_rows("plc", &s, None);
    assert_eq!(none[1].value, "--");
    let lines = settings_menu_lines(&rows, 0);
    assert_eq!(text(&lines[0]), "Settings");
    assert_eq!(text(&lines[1]), "PLC name         plc");
    assert_eq!(lines[2].segments[0].0, "Cycle interval   ");
    assert!(matches!(settings_select("2", 0, &rows), SettingsSelectOutcome::Edit(SettingKey::CycleInterval, v) if v == "20"));
    assert!(matches!(settings_select("", 6, &rows), SettingsSelectOutcome::Edit(SettingKey::DiscoveryEnabled, v) if v == "true"));
    assert!(matches!(settings_select("0", 0, &rows), SettingsSelectOutcome::Back));
    assert!(matches!(settings_select("12", 0, &rows), SettingsSelectOutcome::Invalid));
    assert!(matches!(settings_select("two", 0, &rows), SettingsSelectOutcome::Invalid));
    let edit = edit_prompt_lines(SettingKey::LogLevel, "info");
    assert_eq!(edit[0].segments[0].0, "Log level");
    assert_eq!(edit[1].segments[1].0, "info");
    assert_eq!(settings_value_input("  warn "), Ok("warn".to_string()));
    assert_eq!(settings_value_input("   "), Err("Value required."));
}

#[test]
fn uptime_and_chip() {
    assert_eq!(format_uptime(0), "00:00:00");
    assert_eq!(format_uptime(3_723_000), "01:02:03");
    assert_eq!(format_uptime(360_000_000), "100:00:00");
    let (t, style) = status_chip(" running ");
    assert_eq!(t, "[RUNNING]");
    assert_eq!(style, Style { fg: Some(Color::White), bg: Some(Color::Teal), bold: true });
    let (t2, style2) = status_chip("paused");
    assert_eq!(t2, "[PAUSED]");
    assert_eq!(style2.bg, Some(Color::Amber));
    assert_eq!(status_chip("weird").1.bg, Some(Color::DarkGray));
}

#[test]
fn panels_parse_by_name() {
    assert_eq!(PanelKind::parse(" IO "), Some(PanelKind::Io));
    assert_eq!(PanelKind::parse("nope"), None);
    assert_eq!(PanelKind::Cycle.title(), "Cycle Time");
}

fn io_point(name: &str, address: &str, value: &str, direction: &str) -> IoEntry {
    IoEntry {
        name: name.to_string(),
        address: address.to_string(),
        value: value.to_string(),
        direction: direction.to_string(),
    }
}

fn io_points() -> Vec<IoEntry> {
    vec![
        io_point("start", "%IX0.0", "TRUE", "IN"),
        io_point("lamp", "%QX0.0", "FALSE", "out"),
        io_point("speed", "%QW1", "42", "OUT"),
    ]
}

#[test]
fn io_actions_touch_outputs_only() {
    let points = io_points();
    assert_eq!(io_entries_for_action(&points, IoActionKind::Read), vec![0, 1, 2]);
    assert_eq!(io_entries_for_action(&points, IoActionKind::SetValue), vec![1, 2]);
    assert_eq!(io_entries_for_action(&points, IoActionKind::Unforce), vec![1, 2]);
    assert_eq!(io_action_label(IoActionKind::Force), "Force I/O value");
    assert!(is_bool_value(" true "));
    assert!(is_bool_value("Some(Bool(false))"));
    assert!(!is_bool_value("42"));
}

#[test]
fn io_select_picks_rows_from_one() {
    let points = io_points();
    assert!(matches!(io_select("", IoActionKind::Read, 0, &points), IoSelectOutcome::Read(a) if a == "%IX0.0"));
    assert!(matches!(io_select("1", IoActionKind::SetValue, 0, &points), IoSelectOutcome::ChooseValue(a) if a == "%QX0.0"));
    assert!(matches!(io_select("2", IoActionKind::Force, 0, &points), IoSelectOutcome::EnterValue(c) if c == "/io force %QW1 "));
    assert!(matches!(io_select("2", IoActionKind::SetValue, 0, &points), IoSelectOutcome::EnterValue(c) if c == "/io set %QW1 "));
    assert!(matches!(io_select("2", IoActionKind::Unforce, 0, &points), IoSelectOutcome::Release(a) if a == "%QW1"));
    assert!(matches!(io_select("0", IoActionKind::Read, 0, &points), IoSelectOutcome::Invalid));
    assert!(matches!(io_select("3", IoActionKind::SetValue, 0, &points), IoSelectOutcome::Invalid));
    assert!(matches!(io_select("x", IoActionKind::Read, 0, &points), IoSelectOutcome::Invalid));
    let inputs_only = vec![io_point("a", "%IX1", "1", "IN")];
    assert!(matches!(io_select("1", IoActionKind::Force, 0, &inputs_only), IoSelectOutcome::Close));
}

#[test]
fn io_value_select_rows() {
    assert_eq!(io_value_select("", 1, true), IoValueOutcome::Value(false));
    assert_eq!(io_value_select("1", 2, true), IoValueOutcome::Value(true));
    assert_eq!(io_value_select("0", 0, true), IoValueOutcome::Back);
    assert_eq!(io_value_select("3", 0, true), IoValueOutcome::Back);
    assert_eq!(io_value_select("no", 0, true), IoValueOutcome::Invalid);
    assert_eq!(io_value_select("1", 0, false), IoValueOutcome::Close);
}

#[test]
fn io_commands_parse() {
    let words = |s: &str| s.split_whitespace().map(|w| w.to_string()).collect::<Vec<_>>();
    assert!(matches!(io_command(&words("")), IoCommand::OpenMenu));
    assert!(matches!(io_command(&words("list")), IoCommand::List));
    assert!(matches!(io_command(&words("read")), IoCommand::SelectFor(IoActionKind::Read)));
    assert!(matches!(io_command(&words("read %QW1")), IoCommand::Read(a) if a == "%QW1"));
    assert!(matches!(io_command(&words("set %QW1")), IoCommand::SelectFor(IoActionKind::SetValue)));
    assert!(matches!(io_command(&words("set %QW1 7")), IoCommand::Write(a, v) if a == "%QW1" && v == "7"));
    assert!(matches!(io_command(&words("force %QX0.0 true")), IoCommand::Force(a, v) if a == "%QX0.0" && v == "true"));
    assert!(matches!(io_command(&words("unforce all")), IoCommand::ReleaseAll));
    assert!(matches!(io_command(&words("unforce %QW1")), IoCommand::Release(a) if a == "%QW1"));
    assert!(matches!(io_command(&words("forced")), IoCommand::ShowForced));
    assert!(matches!(io_command(&words("blink")), IoCommand::Unknown));
}

#[test]
fn io_read_and_list() {
    let points = io_points();
    assert_eq!(io_read(&points, "%QW1"), Some("%QW1 = 42".to_string()));
    assert_eq!(io_read(&points, "%QW9"), None);
    assert_eq!(
        io_list_lines(&points),
        vec!["IN start%IX0.0 TRUE".to_string(), "out lamp%QX0.0 FALSE".to_string(), "OUT speed%QW1 42".to_string()]
    );
}

#[test]
fn label_set_tracks_insert_and_remove() {
    let mut forced = LabelSet::new();
    assert!(forced.is_empty());
    forced.insert("%QX0.0");
    forced.insert("%QW1");
    forced.insert("%QX0.0");
    assert_eq!(forced.len(), 2);
    assert_eq!(forced.items(), vec!["%QX0.0".to_string(), "%QW1".to_string()]);
    assert!(forced.contains("%QW1"));
    forced.remove("%QW1");
    assert!(!forced.contains("%QW1"));
    assert!(forced.contains("%QX0.0"));
    forced.clear();
    assert!(forced.is_empty());
    assert_eq!(forced.len(), 0);
}

#[test]
fn io_lists_are_drawn() {
    let points = io_points();
    let mut forced = LabelSet::new();
    forced.insert("%QW1");
    let lines = io_select_lines(&points, &forced, IoActionKind::SetValue, 1);
    assert_eq!(lines.len(), 5);
    assert_eq!(lines[0].segments[0].0, "Set I/O value");
    assert_eq!(lines[2].segments[0].0, "out ");
    assert_eq!(lines[2].segments[1].0, "%QX0.0  ");
    assert_eq!(lines[2].segments[4].0, "");
    assert_eq!(lines[3].segments[0].0, "OUT %QW1    speed      42 *");
    assert_eq!(lines[4].segments[0].0, "Use ↑/↓ and Enter. Esc to back.");
    let empty = io_select_lines(&[], &forced, IoActionKind::Read, 0);
    assert_eq!(empty[2].segments[0].0, "No matching I/O.");
    let values = io_value_lines(Some("%QX0.0"), Some(IoActionKind::Force), 0);
    assert_eq!(values[0].segments[0].0, "Force I/O value — %QX0.0");
    assert_eq!(values[2].segments[0].0, "TRUE");
    assert_eq!(values[4].segments[0].0, "Back");
    let fallback = io_value_lines(None, None, 2);
    assert_eq!(fallback[0].segments[0].0, "I/O — <io>");
}

fn event(label: &str, kind: EventKind, message: &str) -> EventSnapshot {
    EventSnapshot { label: label.to_string(), kind, timestamp: None, message: message.to_string() }
}

#[test]
fn alerts_keep_the_last_five() {
    let mut alerts = VecDeque::new();
    let style = Style { fg: Some(Color::Info), bg: None, bold: false };
    for i in 0..7 {
        push_alert(&mut alerts, &format!("alert {i}"), style);
    }
    assert_eq!(alerts.len(), 5);
    assert_eq!(alerts[0].segments[0].0, "alert 2");
    assert_eq!(alerts[4].segments[0].0, "alert 6");
}

#[test]
fn events_raise_alerts_once() {
    let mut alerts = VecDeque::new();
    let mut seen = LabelSet::new();
    let events = vec![
        event("e1", EventKind::Fault, "watchdog"),
        event("e2", EventKind::Info, "started"),
        event("e3", EventKind::Warn, "overrun"),
        event("e1", EventKind::Fault, "watchdog"),
    ];
    update_event_alerts(&mut alerts, &mut seen, &events);
    assert_eq!(alerts.len(), 2);
    assert_eq!(alerts[0].segments[0].0, "[FAULT] watchdog");
    assert_eq!(alerts[0].segments[0].1.fg, Some(Color::Red));
    assert_eq!(alerts[1].segments[0].0, "[WARN] overrun");
    assert_eq!(alerts[1].segments[0].1.fg, Some(Color::Amber));
    assert_eq!(seen.len(), 3);
    update_event_alerts(&mut alerts, &mut seen, &events);
    assert_eq!(alerts.len(), 2);
}

#[test]
fn event_memory_starts_over_past_four_hundred() {
    let mut alerts = VecDeque::new();
    let mut seen = LabelSet::new();
    let events: Vec<EventSnapshot> = (0..401).map(|i| event(&format!("e{i}"), EventKind::Info, "x")).collect();
    update_event_alerts(&mut alerts, &mut seen, &events);
    assert_eq!(seen.len(), 0);
    assert!(alerts.is_empty());
}

#[test]
fn cycle_history_is_bounded_and_positive() {
    let mut history = VecDeque::new();
    push_cycle_sample(&mut history, 0);
    assert_eq!(history[0], 1);
    for v in 0..200u64 {
        push_cycle_sample(&mut history, v + 5);
    }
    assert_eq!(history.len(), 120);
    assert_eq!(*history.back().unwrap(), 204);
    assert_eq!(history[0], 85);
}

fn press(c: char) -> KeyPress {
    KeyPress { key: Key::Char(c), control: false }
}

#[test]
fn keys_outside_the_prompt() {
    assert_eq!(handle_key(press('q'), true, true, None, true), KeyAction::Quit);
    assert_eq!(handle_key(press('x'), false, true, None, true), KeyAction::Prompt);
    assert_eq!(handle_key(press('/'), true, false, None, true), KeyAction::ReadOnlyNotice);
    assert_eq!(handle_key(press('p'), true, false, None, true), KeyAction::Nothing);
    assert_eq!(handle_key(press('Y'), false, false, Some(ConfirmAction::Shutdown), true), KeyAction::Confirmed(ConfirmAction::Shutdown));
    assert_eq!(handle_key(press('y'), false, false, Some(ConfirmAction::ExitConsole), true), KeyAction::Quit);
    assert_eq!(handle_key(press('n'), false, false, Some(ConfirmAction::RestartWarm), true), KeyAction::Dismissed);
    assert_eq!(handle_key(press('/'), false, false, None, true), KeyAction::OpenCommandPrompt);
    assert_eq!(handle_key(KeyPress { key: Key::Tab, control: false }, false, false, None, true), KeyAction::NextPanelPage);
    assert_eq!(handle_key(press('S'), false, false, None, true), KeyAction::Debug(DebugAction::StepIn));
    assert_eq!(handle_key(press('o'), false, false, None, false), KeyAction::DebugDisabled);
    assert_eq!(handle_key(press('w'), false, false, None, false), KeyAction::AskConfirm(ConfirmAction::RestartWarm));
    assert_eq!(handle_key(press('C'), false, false, None, false), KeyAction::AskConfirm(ConfirmAction::RestartCold));
    assert_eq!(handle_key(press('x'), false, false, None, false), KeyAction::AskConfirm(ConfirmAction::Shutdown));
    assert_eq!(handle_key(press('Q'), false, false, None, false), KeyAction::Quit);
    assert_eq!(handle_key(press('z'), false, false, None, false), KeyAction::Nothing);
}

#[test]
fn keys_inside_the_prompt() {
    let esc = KeyPress { key: Key::Esc, control: false };
    assert_eq!(handle_prompt_key(esc, PromptMode::IoSelect(IoActionKind::Read), false, "", false, None), PromptKeyAction::Escape(EscTarget::IoMenu));
    assert_eq!(handle_prompt_key(esc, PromptMode::IoValueSelect, false, "", false, Some(IoActionKind::Force)), PromptKeyAction::Escape(EscTarget::IoSelect(IoActionKind::Force)));
    assert_eq!(handle_prompt_key(esc, PromptMode::Normal, false, "", false, None), PromptKeyAction::Escape(EscTarget::Close));
    assert_eq!(handle_prompt_key(KeyPress { key: Key::Char('c'), control: true }, PromptMode::Normal, false, "", false, None), PromptKeyAction::Abort);
    assert_eq!(handle_prompt_key(KeyPress { key: Key::Char('d'), control: true }, PromptMode::Normal, false, "", false, None), PromptKeyAction::AskExit);
    assert_eq!(handle_prompt_key(press('d'), PromptMode::Normal, false, "", false, None), PromptKeyAction::Insert('d'));
    let enter = KeyPress { key: Key::Enter, control: false };
    assert_eq!(handle_prompt_key(enter, PromptMode::Normal, true, "/st", true, None), PromptKeyAction::RunSuggestion);
    assert_eq!(handle_prompt_key(enter, PromptMode::Normal, true, "/io read", true, None), PromptKeyAction::Submit);
    assert_eq!(handle_prompt_key(enter, PromptMode::SettingsSelect, true, "2", true, None), PromptKeyAction::Submit);
    let up = KeyPress { key: Key::Up, control: false };
    let down = KeyPress { key: Key::Down, control: false };
    assert_eq!(handle_prompt_key(up, PromptMode::Normal, true, "", false, None), PromptKeyAction::MoveSuggestion(-1));
    assert_eq!(handle_prompt_key(down, PromptMode::Menu(MenuKind::Io), false, "", false, None), PromptKeyAction::MoveMenu(MenuKind::Io, 1));
    assert_eq!(handle_prompt_key(down, PromptMode::IoValueSelect, false, "", false, None), PromptKeyAction::MoveIoValue(1));
    assert_eq!(handle_prompt_key(up, PromptMode::Normal, false, "", false, None), PromptKeyAction::HistoryPrev);
    assert_eq!(handle_prompt_key(down, PromptMode::Normal, false, "", false, None), PromptKeyAction::HistoryNext);
}

#[test]
fn submitted_lines_and_confirmations() {
    assert_eq!(handle_prompt_submit("  ", PromptMode::Normal), SubmitTarget::Ignore);
    assert_eq!(handle_prompt_submit("/status", PromptMode::Normal), SubmitTarget::Command);
    assert_eq!(handle_prompt_submit("", PromptMode::IoValueSelect), SubmitTarget::IoValueSelect);
    assert_eq!(handle_prompt_confirm(" YES ", ConfirmAction::RestartCold), ConfirmOutcome::Carry(ConfirmAction::RestartCold));
    assert_eq!(handle_prompt_confirm("y", ConfirmAction::ExitConsole), ConfirmOutcome::Quit);
    assert_eq!(handle_prompt_confirm("nope", ConfirmAction::Shutdown), ConfirmOutcome::Cancelled);
    assert_eq!(confirmed_message(ConfirmAction::RestartWarm), "Restarting (warm)...");
}

fn args(s: &str) -> Vec<String> {
    s.split_whitespace().map(|w| w.to_string()).collect()
}

#[test]
fn control_commands_parse() {
    assert!(matches!(control_command(&args("")), ControlCommand::OpenMenu));
    assert!(matches!(control_command(&args("step-over")), ControlCommand::StepOver));
    assert!(matches!(control_command(&args("restart")), ControlCommand::RestartMenu));
    assert!(matches!(control_command(&args("restart cold")), ControlCommand::Restart(m) if m == "cold"));
    assert!(matches!(control_command(&args("shutdown")), ControlCommand::AskShutdown));
    assert!(matches!(control_command(&args("break main.st:12")), ControlCommand::SetBreakpoint(f, 12) if f == "main.st"));
    assert!(matches!(control_command(&args("break main.st:x")), ControlCommand::SetBreakpoint(f, 1) if f == "main.st"));
    assert!(matches!(control_command(&args("break main.st")), ControlCommand::Nothing));
    assert!(matches!(control_command(&args("delete all")), ControlCommand::ClearAllBreakpoints));
    assert!(matches!(control_command(&args("delete 3")), ControlCommand::ClearBreakpoint(3)));
    assert!(matches!(control_command(&args("delete x")), ControlCommand::Nothing));
    assert!(matches!(control_command(&args("jump")), ControlCommand::Unknown));
    assert_eq!(control_success(&ControlCommand::Pause), "Paused.");
    assert_eq!(control_success(&ControlCommand::ClearBreakpoint(3)), "Breakpoint cleared.");
    assert_eq!(breakpoint_line(2, 140), "file 2 @ 140");
}

#[test]
fn access_linking_and_log_commands_parse() {
    assert!(matches!(access_command(&args("start")), AccessCommand::Start));
    assert!(matches!(access_command(&args("claim")), AccessCommand::Nothing));
    assert!(matches!(access_command(&args("claim 123456")), AccessCommand::Claim(c) if c == "123456"));
    assert!(matches!(access_command(&args("revoke")), AccessCommand::RevokeUsage));
    assert!(matches!(access_command(&args("revoke all")), AccessCommand::Revoke(c) if c == "all"));
    assert_eq!(access_code_line("123456"), "Access code: 123456 (valid 5 min)");
    assert_eq!(token_line("abc"), "Token: abc");
    assert!(matches!(linking_command(&args("enable")), LinkingCommand::SetEnabled(true)));
    assert!(matches!(linking_command(&args("disable")), LinkingCommand::SetEnabled(false)));
    assert!(matches!(linking_command(&args("subscribe a")), LinkingCommand::Nothing));
    assert!(matches!(linking_command(&args("subscribe a plc2:b")), LinkingCommand::Subscribe(k, v) if k == "a" && v == "plc2:b"));
    assert!(matches!(log_command(&args("tail")), LogCommand::Tail(10)));
    assert!(matches!(log_command(&args("tail 25")), LogCommand::Tail(25)));
    assert!(matches!(log_command(&args("tail x")), LogCommand::Tail(10)));
    assert!(matches!(log_command(&args("debug")), LogCommand::SetLevel(l) if l == "debug"));
}

#[test]
fn linking_lists_update() {
    let current = vec!["a".to_string(), "b".to_string()];
    assert_eq!(publish_with(&current, "b"), current);
    assert_eq!(publish_with(&current, "c"), vec!["a".to_string(), "b".to_string(), "c".to_string()]);
    let pair = |k: &str, v: &str| (k.to_string(), v.to_string());
    let subs = vec![pair("zeta", "p1:z"), pair("alpha", "p1:a"), pair("zeta", "p2:z")];
    assert_eq!(
        subscribe_with(&subs, "beta", "p3:b"),
        vec![pair("alpha", "p1:a"), pair("beta", "p3:b"), pair("zeta", "p2:z")]
    );
    assert_eq!(subscribe_with(&subs, "alpha", "p9:a"), vec![pair("alpha", "p9:a"), pair("zeta", "p2:z")]);
}

#[test]
fn layout_and_focus() {
    let layout = layout_from_args(&args("io io cycle bogus watch")).unwrap();
    assert_eq!(layout, vec![PanelKind::Io, PanelKind::Cycle, PanelKind::Status, PanelKind::Status]);
    assert_eq!(layout_from_args(&args("bogus nope")), None);
    assert_eq!(layout_text(&[PanelKind::Cycle, PanelKind::Io, PanelKind::Status]), "Current: cycle io status");
    assert_eq!(layout_text(&[]), "Current: ");
    assert_eq!(focus_from_args(&args("Events")), Some((PanelKind::Events, "Focused Events.".to_string())));
    assert_eq!(focus_from_args(&args("nope")), None);
}

#[test]
fn answers_become_lines() {
    assert_eq!(simple_response(&Ok(None), "Saved."), ("Saved.".to_string(), Color::Green));
    assert_eq!(simple_response(&Ok(Some("denied".to_string())), "Saved."), ("denied".to_string(), Color::Red));
    assert_eq!(simple_response(&Err("timeout".to_string()), "Saved."), ("Error: timeout".to_string(), Color::Red));
    assert!(matches!(set_config_response(false, false, None, "Saved."), ConfigReply::Show(t, Color::Red) if t == "error"));
    assert!(matches!(set_config_response(true, true, None, "Saved."), ConfigReply::RestartMenu));
    assert!(matches!(set_config_response(true, false, None, "Saved."), ConfigReply::Show(t, Color::Green) if t == "Saved."));
    assert_eq!(reload_payload(b"hi!?"), "aGkhPw==");
    assert_eq!(reload_payload(b""), "");
}

#[test]
fn typed_values_become_toml_scalars() {
    assert!(matches!(parse_toml_value(" TRUE "), TomlScalar::Boolean(true)));
    assert!(matches!(parse_toml_value("false"), TomlScalar::Boolean(false)));
    assert!(matches!(parse_toml_value("-42"), TomlScalar::Integer(-42)));
    assert!(matches!(parse_toml_value("+7"), TomlScalar::Integer(7)));
    assert!(matches!(parse_toml_value("-9223372036854775808"), TomlScalar::Integer(i64::MIN)));
    assert!(matches!(parse_toml_value("9223372036854775808"), TomlScalar::Text(t) if t == "9223372036854775808"));
    assert!(matches!(parse_toml_value("-+1"), TomlScalar::Text(t) if t == "-+1"));
    assert!(matches!(parse_toml_value("  info "), TomlScalar::Text(t) if t == "info"));
}

#[test]
fn input_navigation_handles_prompt_and_read_only_mode() {
    let mut prompt = PromptState::new();
    let mut pending = None;
    assert_eq!(press_key(&mut prompt, &mut pending, press('/'), false, true, false), KeyAction::OpenCommandPrompt);
    assert!(prompt.active);
    assert!(prompt.showing_suggestions);
    assert_eq!(prompt.input, "/");
    assert_eq!(prompt.cursor, 1);

    prompt.showing_suggestions = false;
    prompt.history = vec!["status".to_string(), "help".to_string()];
    prompt.input.clear();
    prompt.cursor = 0;
    let up = KeyPress { key: Key::Up, control: false };
    let down = KeyPress { key: Key::Down, control: false };
    assert_eq!(press_key(&mut prompt, &mut pending, up, false, true, false), KeyAction::Prompt);
    assert_eq!(press_prompt_key(&mut prompt, up, None), PromptKeyAction::HistoryPrev);
    assert_eq!(prompt.input, "help");
    assert_eq!(press_prompt_key(&mut prompt, up, None), PromptKeyAction::HistoryPrev);
    assert_eq!(prompt.input, "status");
    assert_eq!(press_prompt_key(&mut prompt, down, None), PromptKeyAction::HistoryNext);
    assert_eq!(prompt.input, "help");

    let mut readonly = PromptState::new();
    assert_eq!(press_key(&mut readonly, &mut pending, press('/'), true, true, false), KeyAction::ReadOnlyNotice);
    assert!(!readonly.active);
    assert_eq!(readonly.output.len(), 1);
    assert_eq!(readonly.output[0].segments[0].0, "Read-only mode.");
    assert_eq!(press_key(&mut readonly, &mut pending, press('q'), true, true, false), KeyAction::Quit);
    assert!(READ_ONLY_NOTICE.contains("Read-only mode."));
}

#[test]
fn console_keys_ask_and_use_up_confirmations() {
    let mut prompt = PromptState::new();
    let mut pending = None;
    assert_eq!(
        press_key(&mut prompt, &mut pending, press('w'), false, true, false),
        KeyAction::AskConfirm(ConfirmAction::RestartWarm)
    );
    assert_eq!(pending, Some(ConfirmAction::RestartWarm));
    assert_eq!(
        press_key(&mut prompt, &mut pending, press('y'), false, true, false),
        KeyAction::Confirmed(ConfirmAction::RestartWarm)
    );
    assert_eq!(pending, None);
    press_key(&mut prompt, &mut pending, press('x'), false, true, false);
    assert_eq!(press_key(&mut prompt, &mut pending, press('n'), false, true, false), KeyAction::Dismissed);
    assert_eq!(pending, None);
    assert_eq!(press_key(&mut prompt, &mut pending, press('p'), false, false, false), KeyAction::DebugDisabled);
    assert_eq!(prompt.output[0].segments[0].0, "Debug controls disabled.");
    let mut beginner = PromptState::new();
    press_key(&mut beginner, &mut pending, press('/'), false, true, true);
    assert_eq!(beginner.suggestions.len(), command_suggestions(true, None).len());
    let down = KeyPress { key: Key::Down, control: false };
    assert!(matches!(press_prompt_key(&mut beginner, down, None), PromptKeyAction::MoveSuggestion(1)));
    assert_eq!(beginner.suggestion_index, 1);
}

#[test]
fn command_routing_covers_settings_beginner_guard_and_pause() {
    let rows = settings_menu_rows("plc", &panel_settings(), None);
    let mut state = sample_console(false);
    let step = apply_command(&mut state, &route_command("/settings", false), &rows);
    assert!(matches!(step, CommandStep::Done));
    assert_eq!(state.prompt.mode, PromptMode::SettingsSelect);
    assert!(state.prompt.active);
    assert_eq!(state.settings_index, 0);
    assert_eq!(state.prompt.output[0].segments[0].0, "Settings");

    let mut beginner = sample_console(true);
    apply_command(&mut beginner, &route_command("/log", true), &rows);
    assert!(beginner.prompt.output[0].segments[0].0.contains("Beginner mode"));
    assert!(BEGINNER_BLOCKED_NOTICE.contains("Beginner mode"));

    let mut state = sample_console(false);
    match apply_command(&mut state, &route_command("/p", false), &rows) {
        CommandStep::Control(c) => {
            assert!(matches!(c, ControlCommand::Pause));
            show_control_reply(&mut state.prompt, &c, &Ok(None));
        }
        _ => panic!("/p asks to pause"),
    }
    assert!(state.prompt.output[0].segments[0].0.contains("Paused."));
    assert_eq!(control_success(&ControlCommand::Pause), "Paused.");
}

fn sample_console(beginner_mode: bool) -> ConsoleState {
    ConsoleState {
        prompt: PromptState::new(),
        beginner_mode,
        settings_index: 3,
        watch_list: Vec::new(),
        watch_values: Vec::new(),
        focus: None,
        alerts: VecDeque::new(),
    }
}

#[test]
fn console_commands_change_watches_focus_and_output() {
    let rows = Vec::new();
    let mut state = sample_console(false);
    assert!(matches!(apply_command(&mut state, &route_command("/exit", false), &rows), CommandStep::Quit));
    assert!(matches!(apply_command(&mut state, &route_command("q", false), &rows), CommandStep::Quit));
    apply_command(&mut state, &route_command("/watch Counter", false), &rows);
    apply_command(&mut state, &route_command("/watch Counter", false), &rows);
    assert_eq!(state.watch_list, vec!["Counter".to_string()]);
    assert_eq!(state.prompt.output[0].segments[0].0, "Watching Counter.");
    apply_command(&mut state, &route_command("/watch Speed", false), &rows);
    apply_command(&mut state, &route_command("/unwatch Counter", false), &rows);
    assert_eq!(state.watch_list, vec!["Speed".to_string()]);
    assert_eq!(state.prompt.output[0].segments[0].0, "Stopped watching Counter.");
    state.watch_values.push(("Speed".to_string(), "3".to_string()));
    apply_command(&mut state, &route_command("/unwatch all", false), &rows);
    assert!(state.watch_list.is_empty() && state.watch_values.is_empty());
    apply_command(&mut state, &route_command("/unwatch", false), &rows);
    assert_eq!(state.prompt.output[0].segments[0].0, "Usage: /unwatch <name|all>");
    state.focus = Some(PanelKind::Io);
    apply_command(&mut state, &route_command("/unfocus", false), &rows);
    assert_eq!(state.focus, None);
    apply_command(&mut state, &route_command("/bogus", false), &rows);
    assert_eq!(state.prompt.output[0].segments[0].0, "Unknown command. Type /help.");
    push_alert(&mut state.alerts, "x", Style { fg: None, bg: None, bold: false });
    apply_command(&mut state, &route_command("/clear", false), &rows);
    assert!(state.alerts.is_empty() && state.prompt.output.is_empty());
    assert!(matches!(apply_command(&mut state, &route_command("/status", false), &rows), CommandStep::Dispatch(CommandKind::Status)));
    apply_command(&mut state, &route_command("/", false), &rows);
    assert!(state.prompt.showing_suggestions);
    let mut failed = sample_console(false);
    show_control_reply(&mut failed.prompt, &ControlCommand::Resume, &Err("offline".to_string()));
    assert_eq!(failed.prompt.output[0].segments[0].0, "Error: offline");
    assert_eq!(failed.prompt.output[0].segments[0].1.fg, Some(Color::Red));
}

fn panel_text(lines: &[trust_runtime::ui::style::PromptLine]) -> Vec<String> {
    lines.iter().map(|l| l.segments.iter().map(|s| s.0.as_str()).collect::<String>()).collect()
}

fn panel_settings() -> SettingsSnapshot {
    SettingsSnapshot {
        cycle_interval_ms: None,
        log_level: "info".to_string(),
        watchdog_enabled: true,
        watchdog_timeout_ms: -5,
        watchdog_action: "halt".to_string(),
        fault_policy: String::new(),
        retain_mode: "file".to_string(),
        retain_save_interval_ms: Some(1000),
        web_listen: String::new(),
        web_auth: "local".to_string(),
        discovery_enabled: true,
        mesh_enabled: false,
        mesh_publish: Vec::new(),
        mesh_subscribe: Vec::new(),
        control_mode: "debug".to_string(),
        simulation_enabled: true,
        simulation_time_scale: 4,
        simulation_mode: String::new(),
        simulation_warning: "not for production".to_string(),
    }
}

#[test]
fn status_panel_lists_runtime_facts() {
    let st = StatusPanelData {
        state: "running".to_string(),
        fault: "none".to_string(),
        resource: "RES".to_string(),
        uptime_ms: 3_723_000,
        overruns: 2,
        faults: 0,
        driver: Some(DriverStatus { name: "modbus".to_string(), status: "ok".to_string(), error: Some("timeout".to_string()) }),
        debug_enabled: true,
        control_mode: "debug".to_string(),
        simulation_mode: String::new(),
        simulation_time_scale: 0,
        simulation_warning: String::new(),
    };
    let lines = status_panel_lines(&st, &panel_settings());
    assert_eq!(
        panel_text(&lines),
        vec![
            "[RUNNING] RES",
            "Uptime       01:02:03",
            "I/O          modbus (ok)",
            "I/O error    timeout",
            "Control      debug (debug on)",
            "Mode         simulation (x4)",
            "Warning      not for production",
            "Web          disabled",
            "Overruns     2",
            "Watchdog     Watchdog: -5 ms (halt)",
            "Fault policy unknown",
            "Retain       Retain: file (1000 ms)",
        ]
    );
    assert_eq!(lines[3].segments[2].1, Style { fg: Some(Color::Red), bg: None, bold: false });
    assert_eq!(lines[1].segments[0].1, Style { fg: Some(Color::Cyan), bg: None, bold: false });
}

#[test]
fn status_panel_without_driver_or_simulation() {
    let mut se = panel_settings();
    se.simulation_enabled = false;
    se.watchdog_enabled = false;
    se.retain_mode = String::new();
    se.retain_save_interval_ms = None;
    se.web_listen = "0.0.0.0:8080".to_string();
    let st = StatusPanelData {
        state: "faulted".to_string(),
        fault: "divide by zero".to_string(),
        resource: "R".to_string(),
        uptime_ms: 0,
        overruns: 0,
        faults: 3,
        driver: None,
        debug_enabled: false,
        control_mode: "production".to_string(),
        simulation_mode: String::new(),
        simulation_time_scale: 0,
        simulation_warning: String::new(),
    };
    let text = panel_text(&status_panel_lines(&st, &se));
    assert_eq!(
        text,
        vec![
            "[FAULTED] R",
            "Uptime       00:00:00",
            "I/O          unknown",
            "Control      production (debug off)",
            "Mode         production (x4)",
            "Web          http://0.0.0.0:8080",
            "Fault        divide by zero",
            "Faults       3",
            "Watchdog     Watchdog: disabled",
            "Fault policy unknown",
            "Retain       Retain: none",
        ]
    );
}
