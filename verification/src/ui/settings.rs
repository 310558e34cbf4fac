//! The settings menu: its rows, how they are drawn, how a typed value is read,
//! and what changing a setting writes.
use vstd::prelude::*;

use crate::text::{
    chars_eq_str, chars_of, lower, lower_chars, parse_unsigned, parse_unsigned_chars, push_str,
    split_words, string_of, trim, trim_chars, words, decimal, decimal_chars, push_chars,
};
use crate::ui::catalog::pad_right;
use crate::ui::command::{menu_choice, menu_choice_spec};
use crate::ui::model::SettingKey;
use crate::ui::style::{
    fg, fg_spec, header_spec, header_style, label_style, line_view, lines_view, selected_spec,
    selected_style, value_style, Color, PromptLine, Style,
};

verus! {

pub open spec fn setting_title_spec(key: SettingKey) -> Seq<char> {
    match key {
        SettingKey::PlcName => "PLC name"@,
        SettingKey::CycleInterval => "Cycle interval (ms)"@,
        SettingKey::LogLevel => "Log level"@,
        SettingKey::ControlMode => "Control mode"@,
        SettingKey::WebListen => "Web listen"@,
        SettingKey::WebAuth => "Web auth"@,
        SettingKey::DiscoveryEnabled => "Discovery enabled"@,
        SettingKey::MeshEnabled => "PLC Linking enabled"@,
    }
}

/// The heading shown when a setting is being edited.
pub fn format_setting_key(key: SettingKey) -> (r: &'static str)
    ensures
        r@ == setting_title_spec(key),
{
    match key {
        SettingKey::PlcName => "PLC name",
        SettingKey::CycleInterval => "Cycle interval (ms)",
        SettingKey::LogLevel => "Log level",
        SettingKey::ControlMode => "Control mode",
        SettingKey::WebListen => "Web listen",
        SettingKey::WebAuth => "Web auth",
        SettingKey::DiscoveryEnabled => "Discovery enabled",
        SettingKey::MeshEnabled => "PLC Linking enabled",
    }
}

/// The on/off words the console understands, after trimming and ASCII case
/// folding.
pub open spec fn parse_bool_spec(value: Seq<char>) -> Option<bool> {
    let t = lower(trim(value));
    if t == "true"@ || t == "1"@ || t == "yes"@ || t == "on"@ || t == "enable"@ || t == "enabled"@ {
        Some(true)
    } else if t == "false"@ || t == "0"@ || t == "no"@ || t == "off"@ || t == "disable"@ || t
        == "disabled"@ {
        Some(false)
    } else {
        None
    }
}

pub fn parse_bool_value(value: &str) -> (r: Option<bool>)
    ensures
        r == parse_bool_spec(value@),
{
    let raw = chars_of(value);
    let t0 = trim_chars(raw.as_slice());
    let t = lower_chars(t0.as_slice());
    let k = t.as_slice();
    if chars_eq_str(k, "true") || chars_eq_str(k, "1") || chars_eq_str(k, "yes") || chars_eq_str(k, "on")
        || chars_eq_str(k, "enable") || chars_eq_str(k, "enabled") {
        Some(true)
    } else if chars_eq_str(k, "false") || chars_eq_str(k, "0") || chars_eq_str(k, "no")
        || chars_eq_str(k, "off") || chars_eq_str(k, "disable") || chars_eq_str(k, "disabled") {
        Some(false)
    } else {
        None
    }
}

/// The value offered for editing: the number alone for the cycle interval,
/// `true`/`false` for the on/off settings shown as enabled/disabled.
pub open spec fn normalize_setting_spec(key: SettingKey, value: Seq<char>) -> Seq<char> {
    match key {
        SettingKey::CycleInterval => {
            let w = words(value);
            if w.len() > 0 { w[0] } else { Seq::empty() }
        },
        SettingKey::DiscoveryEnabled | SettingKey::MeshEnabled => {
            if lower(value) == "enabled"@ {
                "true"@
            } else if lower(value) == "disabled"@ {
                "false"@
            } else {
                value
            }
        },
        _ => value,
    }
}

pub fn normalize_setting_input(key: SettingKey, value: &str) -> (r: String)
    ensures
        r@ == normalize_setting_spec(key, value@),
{
    let v = chars_of(value);
    match key {
        SettingKey::CycleInterval => {
            let ws = split_words(v.as_slice());
            if ws.len() > 0 {
                string_of(ws[0].as_slice())
            } else {
                String::new()
            }
        },
        SettingKey::DiscoveryEnabled | SettingKey::MeshEnabled => {
            let l = lower_chars(v.as_slice());
            if chars_eq_str(l.as_slice(), "enabled") {
                "true".to_owned()
            } else if chars_eq_str(l.as_slice(), "disabled") {
                "false".to_owned()
            } else {
                value.to_owned()
            }
        },
        _ => value.to_owned(),
    }
}

/// The runtime settings the console shows.
#[derive(Debug, Clone)]
pub struct SettingsSnapshot {
    pub cycle_interval_ms: Option<u64>,
    pub log_level: String,
    pub watchdog_enabled: bool,
    pub watchdog_timeout_ms: i64,
    pub watchdog_action: String,
    pub fault_policy: String,
    pub retain_mode: String,
    pub retain_save_interval_ms: Option<i64>,
    pub web_listen: String,
    pub web_auth: String,
    pub discovery_enabled: bool,
    pub mesh_enabled: bool,
    pub mesh_publish: Vec<String>,
    pub mesh_subscribe: Vec<(String, String)>,
    pub control_mode: String,
    pub simulation_enabled: bool,
    pub simulation_time_scale: u32,
    pub simulation_mode: String,
    pub simulation_warning: String,
}

/// A settings menu row: the setting it edits (none for "Back"), its label and the
/// current value shown.
#[derive(Debug)]
pub struct SettingsRow {
    pub key: Option<SettingKey>,
    pub label: &'static str,
    pub value: String,
}

pub open spec fn row_view(r: SettingsRow) -> (Option<SettingKey>, Seq<char>, Seq<char>) {
    (r.key, r.label@, r.value@)
}

pub open spec fn rows_view(rs: Seq<SettingsRow>) -> Seq<(Option<SettingKey>, Seq<char>, Seq<char>)> {
    rs.map_values(|r: SettingsRow| row_view(r))
}

pub open spec fn on_off(b: bool) -> Seq<char> {
    if b { "enabled"@ } else { "disabled"@ }
}

/// The cycle interval as shown: the configured one, else the one read from the
/// project file, as `N ms`; `--` when neither is known.
pub open spec fn cycle_cell(configured: Option<u64>, from_file: Option<u64>) -> Seq<char> {
    match configured {
        Some(ms) => decimal(ms as nat) + " ms"@,
        None => match from_file {
            Some(ms) => decimal(ms as nat) + " ms"@,
            None => "--"@,
        },
    }
}

/// The rows of the settings menu for PLC `name`, the settings `s`, and the cycle
/// interval read from the project file when the runtime did not report one.
pub open spec fn settings_rows_spec(name: Seq<char>, s: SettingsSnapshot, from_file: Option<u64>) -> Seq<(Option<SettingKey>, Seq<char>, Seq<char>)> {
    seq![
        (Some(SettingKey::PlcName), "PLC name"@, name),
        (Some(SettingKey::CycleInterval), "Cycle interval"@, cycle_cell(s.cycle_interval_ms, from_file)),
        (Some(SettingKey::LogLevel), "Log level"@, s.log_level@),
        (Some(SettingKey::ControlMode), "Control mode"@, s.control_mode@),
        (Some(SettingKey::WebListen), "Web listen"@, s.web_listen@),
        (Some(SettingKey::WebAuth), "Web auth"@, s.web_auth@),
        (Some(SettingKey::DiscoveryEnabled), "Discovery"@, on_off(s.discovery_enabled)),
        (Some(SettingKey::MeshEnabled), "PLC Linking"@, on_off(s.mesh_enabled)),
        (None, "Back"@, Seq::empty()),
    ]
}

fn on_off_exec(b: bool) -> (r: String)
    ensures
        r@ == on_off(b),
{
    if b { "enabled".to_owned() } else { "disabled".to_owned() }
}

fn cycle_cell_exec(configured: Option<u64>, from_file: Option<u64>) -> (r: String)
    ensures
        r@ == cycle_cell(configured, from_file),
{
    let ms = match configured {
        Some(ms) => ms,
        None => match from_file {
            Some(ms) => ms,
            None => return "--".to_owned(),
        },
    };
    let mut r = String::new();
    let d = decimal_chars(ms);
    push_chars(&mut r, d.as_slice());
    push_str(&mut r, " ms");
    r
}

fn row(key: Option<SettingKey>, label: &'static str, value: String) -> (r: SettingsRow)
    ensures
        row_view(r) == (key, label@, value@),
{
    SettingsRow { key, label, value }
}

/// The rows of the settings menu.
pub fn settings_menu_rows(name: &str, s: &SettingsSnapshot, from_file: Option<u64>) -> (r: Vec<SettingsRow>)
    ensures
        rows_view(r@) == settings_rows_spec(name@, *s, from_file),
{
    let r = vec![
        row(Some(SettingKey::PlcName), "PLC name", name.to_owned()),
        row(Some(SettingKey::CycleInterval), "Cycle interval", cycle_cell_exec(s.cycle_interval_ms, from_file)),
        row(Some(SettingKey::LogLevel), "Log level", s.log_level.clone()),
        row(Some(SettingKey::ControlMode), "Control mode", s.control_mode.clone()),
        row(Some(SettingKey::WebListen), "Web listen", s.web_listen.clone()),
        row(Some(SettingKey::WebAuth), "Web auth", s.web_auth.clone()),
        row(Some(SettingKey::DiscoveryEnabled), "Discovery", on_off_exec(s.discovery_enabled)),
        row(Some(SettingKey::MeshEnabled), "PLC Linking", on_off_exec(s.mesh_enabled)),
        row(None, "Back", String::new()),
    ];
    assert(rows_view(r@) =~= settings_rows_spec(name@, *s, from_file));
    r
}

/// How a settings row is drawn.
pub open spec fn settings_row_line(r: (Option<SettingKey>, Seq<char>, Seq<char>), is_selected: bool) -> Seq<(Seq<char>, Style)> {
    if is_selected {
        if r.0 is Some {
            seq![(pad_right(r.1, 16) + seq![' '] + r.2, selected_spec())]
        } else {
            seq![(r.1, selected_spec())]
        }
    } else if r.0 is Some {
        seq![(pad_right(r.1, 16) + seq![' '], fg_spec(Color::Cyan)), (r.2, fg_spec(Color::White))]
    } else {
        seq![(r.1, fg_spec(Color::Cyan))]
    }
}

/// The lines that show the settings rows with row `selected` highlighted.
pub open spec fn settings_lines_spec(rows: Seq<(Option<SettingKey>, Seq<char>, Seq<char>)>, selected: int) -> Seq<Seq<(Seq<char>, Style)>> {
    (seq![seq![("Settings"@, header_spec())]] + Seq::new(
        rows.len(),
        |i: int| settings_row_line(rows[i], i == selected),
    )).push(seq![("Use ↑/↓ and Enter. Esc to go back."@, fg_spec(Color::Info))])
}

fn padded_label(label: &str) -> (r: String)
    ensures
        r@ == pad_right(label@, 16) + seq![' '],
{
    let mut r = label.to_owned();
    let n = chars_of(label).len();
    let mut k: usize = n;
    while k < 16
        invariant
            n == label@.len(),
            n <= k <= 16 || (n > 16 && k == n),
            r@ == label@ + Seq::new((k - n) as nat, |i: int| ' '),
        decreases 16 - k,
    {
        crate::text::push_char(&mut r, ' ');
        assert(label@ + Seq::new((k - n) as nat, |i: int| ' ').push(' ') =~= label@ + Seq::new(
            (k + 1 - n) as nat,
            |i: int| ' ',
        ));
        k = k + 1;
    }
    crate::text::push_char(&mut r, ' ');
    assert(r@ =~= pad_right(label@, 16) + seq![' ']);
    r
}

fn settings_line(r: &SettingsRow, is_selected: bool) -> (l: PromptLine)
    ensures
        line_view(l) == settings_row_line(row_view(*r), is_selected),
{
    if is_selected {
        if r.key.is_some() {
            let mut text = padded_label(r.label);
            push_str(&mut text, r.value.as_str());
            PromptLine::plain(text, selected_style())
        } else {
            PromptLine::plain_str(r.label, selected_style())
        }
    } else if r.key.is_some() {
        let mut segs: Vec<(String, Style)> = Vec::new();
        segs.push((padded_label(r.label), label_style()));
        segs.push((r.value.clone(), value_style()));
        let l = PromptLine::from_segments(segs);
        assert(line_view(l) =~= settings_row_line(row_view(*r), is_selected));
        l
    } else {
        PromptLine::plain_str(r.label, label_style())
    }
}

/// The lines that show the settings rows with row `selected` highlighted.
pub fn settings_menu_lines(rows: &[SettingsRow], selected: usize) -> (r: Vec<PromptLine>)
    ensures
        lines_view(r@) == settings_lines_spec(rows_view(rows@), selected as int),
{
    let ghost rv = rows_view(rows@);
    let mut lines: Vec<PromptLine> = Vec::new();
    lines.push(PromptLine::plain_str("Settings", header_style()));
    let mut idx: usize = 0;
    while idx < rows.len()
        invariant
            idx <= rows.len(),
            rv == rows_view(rows@),
            lines_view(lines@) =~= seq![seq![("Settings"@, header_spec())]] + Seq::new(
                idx as nat,
                |i: int| settings_row_line(rv[i], i == selected as int),
            ),
        decreases rows.len() - idx,
    {
        let line = settings_line(&rows[idx], idx == selected);
        assert(row_view(rows@[idx as int]) == rv[idx as int]);
        let ghost before = lines@;
        lines.push(line);
        assert(lines_view(lines@) =~= lines_view(before).push(line_view(line)));
        assert(lines_view(lines@) =~= seq![seq![("Settings"@, header_spec())]] + Seq::new(
            (idx + 1) as nat,
            |i: int| settings_row_line(rv[i], i == selected as int),
        ));
        idx = idx + 1;
    }
    let ghost body = lines@;
    let footer = PromptLine::plain_str("Use ↑/↓ and Enter. Esc to go back.", fg(Color::Info));
    lines.push(footer);
    assert(lines_view(lines@) =~= lines_view(body).push(line_view(footer)));
    assert(lines_view(lines@) =~= settings_lines_spec(rv, selected as int));
    lines
}

/// A value sent to the runtime's `config.set`.
#[derive(Debug, Clone)]
pub enum SettingValue {
    Text(String),
    Flag(bool),
}

/// What changing a setting writes: the `config.set` parameter sent to the runtime
/// (if any), the `runtime.toml` key and value written when the project is known,
/// whether that write decides success, and whether a restart is needed.
#[derive(Debug)]
pub struct SettingPlan {
    pub request: Option<(&'static str, SettingValue)>,
    pub file_key: &'static str,
    pub file_value: String,
    pub file_required: bool,
    pub restart_required: bool,
}

pub open spec fn value_view(v: SettingValue) -> (bool, Seq<char>, bool) {
    match v {
        SettingValue::Text(t) => (true, t@, false),
        SettingValue::Flag(b) => (false, Seq::empty(), b),
    }
}

/// A plan as plain values: request key and value, file key and value, whether the
/// file write decides success, whether a restart is needed.
pub open spec fn plan_view(p: SettingPlan) -> (Option<(Seq<char>, (bool, Seq<char>, bool))>, Seq<char>, Seq<char>, bool, bool) {
    (
        match p.request {
            Some(r) => Some((r.0@, value_view(r.1))),
            None => None,
        },
        p.file_key@,
        p.file_value@,
        p.file_required,
        p.restart_required,
    )
}

pub open spec fn text_req(key: Seq<char>, value: Seq<char>) -> Option<(Seq<char>, (bool, Seq<char>, bool))> {
    Some((key, (true, value, false)))
}

pub open spec fn flag_req(key: Seq<char>, b: bool) -> Option<(Seq<char>, (bool, Seq<char>, bool))> {
    Some((key, (false, Seq::empty(), b)))
}

pub open spec fn bool_word(b: bool) -> Seq<char> {
    if b { "true"@ } else { "false"@ }
}

/// What changing `key` to `value` writes, or the message refusing the value.
pub open spec fn plan_setting_spec(key: SettingKey, value: Seq<char>) -> Result<(Option<(Seq<char>, (bool, Seq<char>, bool))>, Seq<char>, Seq<char>, bool, bool), Seq<char>> {
    match key {
        SettingKey::PlcName => Ok((None, "resource.name"@, value, true, true)),
        SettingKey::CycleInterval => match parse_unsigned(trim(value), u64::MAX as nat) {
            Some(ms) => Ok((None, "resource.cycle_interval_ms"@, decimal(ms), true, true)),
            None => Err("Invalid number."@),
        },
        SettingKey::LogLevel => Ok((text_req("log.level"@, value), "runtime.log.level"@, value, false, false)),
        SettingKey::ControlMode => Ok((text_req("control.mode"@, value), "runtime.control.mode"@, value, false, true)),
        SettingKey::WebListen => Ok((text_req("web.listen"@, value), "runtime.web.listen"@, value, false, true)),
        SettingKey::WebAuth => Ok((text_req("web.auth"@, value), "runtime.web.auth"@, value, false, true)),
        SettingKey::DiscoveryEnabled => match parse_bool_spec(value) {
            Some(b) => Ok((flag_req("discovery.enabled"@, b), "runtime.discovery.enabled"@, bool_word(b), false, true)),
            None => Err("Use true/false."@),
        },
        SettingKey::MeshEnabled => match parse_bool_spec(value) {
            Some(b) => Ok((flag_req("mesh.enabled"@, b), "runtime.mesh.enabled"@, bool_word(b), false, true)),
            None => Err("Use true/false."@),
        },
    }
}

fn bool_word_exec(b: bool) -> (r: String)
    ensures
        r@ == bool_word(b),
{
    if b { "true".to_owned() } else { "false".to_owned() }
}

fn plan(request: Option<(&'static str, SettingValue)>, file_key: &'static str, file_value: String, file_required: bool, restart_required: bool) -> (p: SettingPlan)
    ensures
        p.request == request,
        p.file_key == file_key,
        p.file_value == file_value,
        p.file_required == file_required,
        p.restart_required == restart_required,
{
    SettingPlan { request, file_key, file_value, file_required, restart_required }
}

/// Decides what changing `key` to `value` writes, or refuses the value.
pub fn plan_setting(key: SettingKey, value: &str) -> (r: Result<SettingPlan, &'static str>)
    ensures
        match r {
            Ok(p) => plan_setting_spec(key, value@) == Ok::<_, Seq<char>>(plan_view(p)),
            Err(m) => plan_setting_spec(key, value@) == Err::<(Option<(Seq<char>, (bool, Seq<char>, bool))>, Seq<char>, Seq<char>, bool, bool), Seq<char>>(m@),
        },
{
    match key {
        SettingKey::PlcName => Ok(plan(None, "resource.name", value.to_owned(), true, true)),
        SettingKey::CycleInterval => {
            let raw = chars_of(value);
            let t = trim_chars(raw.as_slice());
            match parse_unsigned_chars(t.as_slice(), u64::MAX) {
                Some(ms) => {
                    let d = decimal_chars(ms);
                    Ok(plan(None, "resource.cycle_interval_ms", string_of(d.as_slice()), true, true))
                },
                None => Err("Invalid number."),
            }
        },
        SettingKey::LogLevel => Ok(plan(Some(("log.level", SettingValue::Text(value.to_owned()))), "runtime.log.level", value.to_owned(), false, false)),
        SettingKey::ControlMode => Ok(plan(Some(("control.mode", SettingValue::Text(value.to_owned()))), "runtime.control.mode", value.to_owned(), false, true)),
        SettingKey::WebListen => Ok(plan(Some(("web.listen", SettingValue::Text(value.to_owned()))), "runtime.web.listen", value.to_owned(), false, true)),
        SettingKey::WebAuth => Ok(plan(Some(("web.auth", SettingValue::Text(value.to_owned()))), "runtime.web.auth", value.to_owned(), false, true)),
        SettingKey::DiscoveryEnabled => match parse_bool_value(value) {
            Some(b) => Ok(plan(Some(("discovery.enabled", SettingValue::Flag(b))), "runtime.discovery.enabled", bool_word_exec(b), false, true)),
            None => Err("Use true/false."),
        },
        SettingKey::MeshEnabled => match parse_bool_value(value) {
            Some(b) => Ok(plan(Some(("mesh.enabled", SettingValue::Flag(b))), "runtime.mesh.enabled", bool_word_exec(b), false, true)),
            None => Err("Use true/false."),
        },
    }
}

/// How writing the project file went.
#[derive(Debug)]
pub enum FileOutcome {
    /// No project directory is known.
    NoProject,
    /// The write failed with this message.
    Failed(String),
    Written,
}

/// The result shown after changing a setting.
#[derive(Debug)]
pub struct SettingApplyResult {
    pub ok: bool,
    pub restart_required: bool,
    pub message: String,
}

/// The result of carrying out a plan: when the file write decides, a missing
/// project or a failed write fails the change; otherwise the change stands and
/// asks for a restart when the plan does.
pub open spec fn outcome_spec(file_required: bool, restart_required: bool, file: FileOutcome) -> (bool, bool, Seq<char>) {
    if file_required {
        match file {
            FileOutcome::NoProject => (false, false, "Project path required."@),
            FileOutcome::Failed(e) => (false, false, "Failed: "@ + e@),
            FileOutcome::Written => (true, true, "Saved. Restart required."@),
        }
    } else if restart_required {
        (true, true, "Saved. Restart required."@)
    } else {
        (true, false, "Saved."@)
    }
}

pub fn setting_outcome(p: &SettingPlan, file: FileOutcome) -> (r: SettingApplyResult)
    ensures
        (r.ok, r.restart_required, r.message@) == outcome_spec(p.file_required, p.restart_required, file),
{
    if p.file_required {
        match file {
            FileOutcome::NoProject => SettingApplyResult { ok: false, restart_required: false, message: "Project path required.".to_owned() },
            FileOutcome::Failed(e) => {
                let mut m = "Failed: ".to_owned();
                push_str(&mut m, e.as_str());
                SettingApplyResult { ok: false, restart_required: false, message: m }
            },
            FileOutcome::Written => SettingApplyResult { ok: true, restart_required: true, message: "Saved. Restart required.".to_owned() },
        }
    } else if p.restart_required {
        SettingApplyResult { ok: true, restart_required: true, message: "Saved. Restart required.".to_owned() }
    } else {
        SettingApplyResult { ok: true, restart_required: false, message: "Saved.".to_owned() }
    }
}

/// Only the log level changes without a restart.
pub proof fn law_only_log_level_skips_restart(key: SettingKey, value: Seq<char>)
    requires
        plan_setting_spec(key, value) is Ok,
    ensures
        !(plan_setting_spec(key, value)->Ok_0).4 <==> key == SettingKey::LogLevel,
{
}

/// The on/off vocabulary of the console: after trimming and ASCII case folding,
/// each of `true`, `1`, `yes`, `on`, `enable` and `enabled` reads as on, each of
/// `false`, `0`, `no`, `off`, `disable` and `disabled` reads as off, and nothing
/// else reads as either. For discovery and PLC linking that reading is the flag
/// the change writes, and a value outside the vocabulary is refused.
pub proof fn law_on_off_vocabulary(key: SettingKey, value: Seq<char>)
    requires
        key == SettingKey::DiscoveryEnabled || key == SettingKey::MeshEnabled,
    ensures
        ({
            let t = lower(trim(value));
            let on = seq!["true"@, "1"@, "yes"@, "on"@, "enable"@, "enabled"@];
            let off = seq!["false"@, "0"@, "no"@, "off"@, "disable"@, "disabled"@];
            &&& on.contains(t) ==> parse_bool_spec(value) == Some(true)
            &&& off.contains(t) ==> parse_bool_spec(value) == Some(false)
            &&& (!on.contains(t) && !off.contains(t)) ==> parse_bool_spec(value) is None
            &&& on.contains(t) ==> (plan_setting_spec(key, value) matches Ok(p) && p.0 matches Some(r) && r.1.2 == true)
            &&& off.contains(t) ==> (plan_setting_spec(key, value) matches Ok(p) && p.0 matches Some(r) && r.1.2 == false)
            &&& (!on.contains(t) && !off.contains(t)) ==> plan_setting_spec(key, value) is Err
        }),
{
    reveal_strlit("true");
    reveal_strlit("1");
    reveal_strlit("yes");
    reveal_strlit("on");
    reveal_strlit("enable");
    reveal_strlit("enabled");
    reveal_strlit("false");
    reveal_strlit("0");
    reveal_strlit("no");
    reveal_strlit("off");
    reveal_strlit("disable");
    reveal_strlit("disabled");
    let t = lower(trim(value));
    let on = seq!["true"@, "1"@, "yes"@, "on"@, "enable"@, "enabled"@];
    let off = seq!["false"@, "0"@, "no"@, "off"@, "disable"@, "disabled"@];
    if on.contains(t) {
        let i = choose|i: int| 0 <= i < on.len() && on[i] == t;
        assert(t == on[i]);
    }
    if off.contains(t) {
        let i = choose|i: int| 0 <= i < off.len() && off[i] == t;
        assert(t == off[i]);
        assert(t.len() != 4 || t[0] != 't');
        assert(t.len() != 1 || t[0] != '1');
        assert(t.len() != 3 || t[0] != 'y');
        assert(t.len() != 2 || t[0] != 'o');
        assert(t.len() != 6 || t[0] != 'e');
        assert(t.len() != 7 || t[0] != 'e');
        assert(t != "true"@ && t != "1"@ && t != "yes"@ && t != "on"@ && t != "enable"@ && t != "enabled"@);
    }
    if !on.contains(t) {
        assert(on[0] != t && on[1] != t && on[2] != t && on[3] != t && on[4] != t && on[5] != t);
    }
    if !off.contains(t) {
        assert(off[0] != t && off[1] != t && off[2] != t && off[3] != t && off[4] != t && off[5] != t);
    }
}

/// A value written into `runtime.toml`.
#[derive(Debug)]
pub enum TomlScalar {
    Boolean(bool),
    Integer(i64),
    Text(String),
}

/// `str::parse::<i64>`: an optional sign, then decimal digits, within range.
pub open spec fn parse_signed(s: Seq<char>) -> Option<int> {
    if s.len() > 0 && s[0] == '-' {
        match parse_unsigned(s.drop_first(), 0x8000_0000_0000_0000) {
            Some(n) => if s.drop_first().len() > 0 && s.drop_first()[0] == '+' { None } else { Some(-n) },
            None => None,
        }
    } else {
        match parse_unsigned(s, 0x7fff_ffff_ffff_ffff) {
            Some(n) => Some(n as int),
            None => None,
        }
    }
}

/// How a typed value is written: `true`/`false` in any letter case as a
/// boolean, a whole number as an integer, anything else as trimmed text.
pub open spec fn toml_value_spec(value: Seq<char>) -> (Option<bool>, Option<int>, Seq<char>) {
    let t = trim(value);
    if lower(t) == "true"@ {
        (Some(true), None, t)
    } else if lower(t) == "false"@ {
        (Some(false), None, t)
    } else {
        (None, parse_signed(t), t)
    }
}

/// Reads a typed value as the scalar that `runtime.toml` gets.
pub fn parse_toml_value(value: &str) -> (r: TomlScalar)
    ensures
        match r {
            TomlScalar::Boolean(b) => toml_value_spec(value@).0 == Some(b),
            TomlScalar::Integer(n) => toml_value_spec(value@).0 is None && toml_value_spec(value@).1 == Some(n as int),
            TomlScalar::Text(t) => toml_value_spec(value@).0 is None && toml_value_spec(value@).1 is None
                && t@ == toml_value_spec(value@).2,
        },
{
    let raw = chars_of(value);
    let t = trim_chars(raw.as_slice());
    let l = lower_chars(t.as_slice());
    if chars_eq_str(l.as_slice(), "true") {
        return TomlScalar::Boolean(true);
    }
    if chars_eq_str(l.as_slice(), "false") {
        return TomlScalar::Boolean(false);
    }
    if t.len() > 0 && t[0] == '-' {
        let body = crate::text::slice_chars(t.as_slice(), 1, t.len());
        assert(body@ =~= t@.drop_first());
        if body.len() > 0 && body[0] == '+' {
            return TomlScalar::Text(string_of(t.as_slice()));
        }
        match parse_unsigned_chars(body.as_slice(), 0x8000_0000_0000_0000) {
            Some(n) => {
                let v: i64 = if n == 0x8000_0000_0000_0000 { i64::MIN } else { -(n as i64) };
                TomlScalar::Integer(v)
            },
            None => TomlScalar::Text(string_of(t.as_slice())),
        }
    } else {
        match parse_unsigned_chars(t.as_slice(), 0x7fff_ffff_ffff_ffff) {
            Some(n) => TomlScalar::Integer(n as i64),
            None => TomlScalar::Text(string_of(t.as_slice())),
        }
    }
}

/// What answering `input` in the settings list does.
#[derive(Debug)]
pub enum SettingsSelectOutcome {
    /// The answer names no row.
    Invalid,
    /// The row leads back out of the list.
    Back,
    /// Edit this setting; the prompt starts with this value.
    Edit(SettingKey, String),
}

/// A blank answer takes the highlighted row, `0` the last one, a number the row
/// counted from one; the chosen setting's value, normalised, fills the prompt.
pub open spec fn settings_select_spec(
    input: Seq<char>,
    current: nat,
    rows: Seq<(Option<SettingKey>, Seq<char>, Seq<char>)>,
) -> Option<Option<(SettingKey, Seq<char>)>> {
    match menu_choice_spec(input, current, rows.len()) {
        None => None,
        Some(i) => if i >= rows.len() {
            None
        } else {
            match rows[i].0 {
                None => Some(None),
                Some(key) => Some(Some((key, normalize_setting_spec(key, rows[i].2)))),
            }
        },
    }
}

/// Decides what answering `input` in the settings list does.
pub fn settings_select(input: &str, current: usize, rows: &[SettingsRow]) -> (r: SettingsSelectOutcome)
    ensures
        match (r, settings_select_spec(input@, current as nat, rows_view(rows@))) {
            (SettingsSelectOutcome::Invalid, None) => true,
            (SettingsSelectOutcome::Back, Some(None)) => true,
            (SettingsSelectOutcome::Edit(k, v), Some(Some(x))) => k == x.0 && v@ == x.1,
            _ => false,
        },
{
    let i = match menu_choice(input, current, rows.len()) {
        Some(i) => i,
        None => return SettingsSelectOutcome::Invalid,
    };
    if i >= rows.len() {
        return SettingsSelectOutcome::Invalid;
    }
    assert(rows_view(rows@)[i as int] == row_view(rows@[i as int]));
    match rows[i].key {
        None => SettingsSelectOutcome::Back,
        Some(key) => SettingsSelectOutcome::Edit(key, normalize_setting_input(key, rows[i].value.as_str())),
    }
}

/// The prompt shown while editing a setting: its title, its current value and
/// how to go on.
pub open spec fn edit_prompt_spec(key: SettingKey, value: Seq<char>) -> Seq<Seq<(Seq<char>, Style)>> {
    seq![
        seq![(setting_title_spec(key), header_spec())],
        seq![("Current: "@, fg_spec(Color::Cyan)), (value, fg_spec(Color::White))],
        seq![("Enter new value (Esc to cancel)."@, fg_spec(Color::Info))],
    ]
}

pub fn edit_prompt_lines(key: SettingKey, value: &str) -> (r: Vec<PromptLine>)
    ensures
        lines_view(r@) == edit_prompt_spec(key, value@),
{
    let mut lines: Vec<PromptLine> = Vec::new();
    lines.push(PromptLine::plain_str(format_setting_key(key), header_style()));
    let mut segs: Vec<(String, Style)> = Vec::new();
    segs.push(("Current: ".to_owned(), label_style()));
    segs.push((value.to_owned(), value_style()));
    let second = PromptLine::from_segments(segs);
    assert(line_view(second) =~= seq![("Current: "@, fg_spec(Color::Cyan)), (value@, fg_spec(Color::White))]);
    lines.push(second);
    lines.push(PromptLine::plain_str("Enter new value (Esc to cancel).", fg(Color::Info)));
    assert(lines_view(lines@) =~= edit_prompt_spec(key, value@));
    lines
}

/// The value typed for a setting, trimmed; a blank one is refused.
pub fn settings_value_input(input: &str) -> (r: Result<String, &'static str>)
    ensures
        match r {
            Ok(v) => trim(input@).len() > 0 && v@ == trim(input@),
            Err(e) => trim(input@).len() == 0 && e@ == "Value required."@,
        },
{
    let raw = chars_of(input);
    let t = trim_chars(raw.as_slice());
    if t.len() == 0 {
        Err("Value required.")
    } else {
        Ok(string_of(t.as_slice()))
    }
}

} // verus!
