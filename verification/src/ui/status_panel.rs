//! The lines of the console's status panel: the state chip and resource name,
//! then one labelled line per fact of the runtime's status and settings, some of
//! them only when they have something to say.
use vstd::prelude::*;

use crate::text::{chars_of, decimal, decimal_chars, lower, lower_chars, chars_eq_str, push_char, push_chars, push_str};
use crate::ui::catalog::pad_right;
use crate::ui::io_nav::push_padded;
use crate::ui::settings::SettingsSnapshot;
use crate::ui::status::{format_uptime, status_chip, status_chip_spec, uptime_spec};
use crate::ui::style::{fg, fg_spec, label_style, line_view, lines_view, value_style, Color, PromptLine, Style};

verus! {

/// The first I/O driver of the runtime: its name, status and error, if any.
#[derive(Debug, Clone)]
pub struct DriverStatus {
    pub name: String,
    pub status: String,
    pub error: Option<String>,
}

/// What the status panel shows of the runtime's status.
#[derive(Debug, Clone)]
pub struct StatusPanelData {
    pub state: String,
    pub fault: String,
    pub resource: String,
    pub uptime_ms: u64,
    pub overruns: u64,
    pub faults: u64,
    pub driver: Option<DriverStatus>,
    pub debug_enabled: bool,
    pub control_mode: String,
    pub simulation_mode: String,
    pub simulation_time_scale: u32,
    pub simulation_warning: String,
}

pub type Line = Seq<(Seq<char>, Style)>;

/// Text without a style of its own.
pub open spec fn plain_spec() -> Style {
    Style { fg: None, bg: None, bold: false }
}

/// A label padded to twelve characters, a space, and the value.
pub open spec fn label_value(label: Seq<char>, value: Seq<char>, style: Style) -> Line {
    seq![(pad_right(label, 12), fg_spec(Color::Cyan)), (" "@, plain_spec()), (value, style)]
}

/// A signed decimal number.
pub open spec fn signed_decimal(n: int) -> Seq<char> {
    if n < 0 { seq!['-'] + decimal((-n) as nat) } else { decimal(n as nat) }
}

pub open spec fn white() -> Style {
    fg_spec(Color::White)
}

pub open spec fn or_else(s: Seq<char>, d: Seq<char>) -> Seq<char> {
    if s.len() == 0 { d } else { s }
}

/// The simulation mode shown: the status's, else the settings', else
/// `simulation` or `production` as simulation is enabled.
pub open spec fn shown_mode(st: StatusPanelData, se: SettingsSnapshot) -> Seq<char> {
    or_else(st.simulation_mode@, or_else(se.simulation_mode@, if se.simulation_enabled { "simulation"@ } else { "production"@ }))
}

pub open spec fn shown_scale(st: StatusPanelData, se: SettingsSnapshot) -> u32 {
    if st.simulation_time_scale > 0 { st.simulation_time_scale } else { se.simulation_time_scale }
}

pub open spec fn driver_lines(d: Option<DriverStatus>) -> Seq<Line> {
    match d {
        None => seq![label_value("I/O"@, "unknown"@, fg_spec(Color::Info))],
        Some(d) => {
            let io = if d.status@.len() == 0 { d.name@ } else { d.name@ + " ("@ + d.status@ + ")"@ };
            let first = seq![label_value("I/O"@, io, white())];
            match d.error {
                Some(e) => first.push(label_value("I/O error"@, e@, fg_spec(Color::Red))),
                None => first,
            }
        },
    }
}

pub open spec fn when(b: bool, l: Line) -> Seq<Line> {
    if b { seq![l] } else { Seq::empty() }
}

pub open spec fn watchdog_text(se: SettingsSnapshot) -> Seq<char> {
    if se.watchdog_enabled {
        "Watchdog: "@ + signed_decimal(se.watchdog_timeout_ms as int) + " ms ("@ + se.watchdog_action@ + ")"@
    } else {
        "Watchdog: disabled"@
    }
}

pub open spec fn retain_text(se: SettingsSnapshot) -> Seq<char> {
    let mode = or_else(se.retain_mode@, "none"@);
    match se.retain_save_interval_ms {
        Some(ms) => "Retain: "@ + mode + " ("@ + signed_decimal(ms as int) + " ms)"@,
        None => "Retain: "@ + mode,
    }
}

pub open spec fn control_text(st: StatusPanelData) -> Seq<char> {
    st.control_mode@ + " (debug "@ + (if st.debug_enabled { "on"@ } else { "off"@ }) + ")"@
}

pub open spec fn mode_text(st: StatusPanelData, se: SettingsSnapshot) -> Seq<char> {
    shown_mode(st, se) + " (x"@ + decimal(shown_scale(st, se) as nat) + ")"@
}

pub open spec fn shown_warning(st: StatusPanelData, se: SettingsSnapshot) -> Seq<char> {
    or_else(st.simulation_warning@, se.simulation_warning@)
}

pub open spec fn web_text(se: SettingsSnapshot) -> Seq<char> {
    if se.web_listen@.len() == 0 { "disabled"@ } else { "http://"@ + se.web_listen@ }
}

/// The lines about the runtime itself: state, uptime, I/O, control and mode.
pub open spec fn runtime_lines(st: StatusPanelData, se: SettingsSnapshot) -> Seq<Line> {
    seq![seq![status_chip_spec(st.state@), (" "@, plain_spec()), (st.resource@, white())]]
        + seq![label_value("Uptime"@, uptime_spec(st.uptime_ms), white())]
        + driver_lines(st.driver)
        + seq![label_value("Control"@, control_text(st), white())]
        + seq![label_value("Mode"@, mode_text(st, se), white())]
        + when(lower(shown_mode(st, se)) == "simulation"@ && shown_warning(st, se).len() > 0,
            label_value("Warning"@, shown_warning(st, se), fg_spec(Color::Amber)))
}

/// The lines about service and health: web, faults, overruns, watchdog, fault
/// policy and retain.
pub open spec fn service_lines(st: StatusPanelData, se: SettingsSnapshot) -> Seq<Line> {
    seq![label_value("Web"@, web_text(se), white())]
        + when(st.fault@.len() > 0 && st.fault@ != "none"@, label_value("Fault"@, st.fault@, fg_spec(Color::Red)))
        + when(st.overruns > 0, label_value("Overruns"@, decimal(st.overruns as nat), white()))
        + when(st.faults > 0, label_value("Faults"@, decimal(st.faults as nat), white()))
        + seq![label_value("Watchdog"@, watchdog_text(se), white())]
        + seq![label_value("Fault policy"@, or_else(se.fault_policy@, "unknown"@), white())]
        + seq![label_value("Retain"@, retain_text(se), white())]
}

/// The status panel's lines.
pub open spec fn status_panel_spec(st: StatusPanelData, se: SettingsSnapshot) -> Seq<Line> {
    runtime_lines(st, se) + service_lines(st, se)
}

fn label_value_line(label: &str, value: &str, style: Style) -> (r: PromptLine)
    ensures
        line_view(r) == label_value(label@, value@, style),
{
    let mut padded = String::new();
    push_padded(&mut padded, label, 12);
    let mut segments: Vec<(String, Style)> = Vec::new();
    segments.push((padded, label_style()));
    segments.push((" ".to_owned(), Style { fg: None, bg: None, bold: false }));
    segments.push((value.to_owned(), style));
    let r = PromptLine { segments };
    assert(line_view(r) =~= label_value(label@, value@, style));
    r
}

fn signed_decimal_string(n: i64) -> (r: String)
    ensures
        r@ == signed_decimal(n as int),
{
    let mut r = String::new();
    if n < 0 {
        push_char(&mut r, '-');
        let m: u64 = (0i128 - n as i128) as u64;
        push_chars(&mut r, decimal_chars(m).as_slice());
        assert(r@ =~= seq!['-'] + decimal((-n) as nat));
    } else {
        push_chars(&mut r, decimal_chars(n as u64).as_slice());
        assert(r@ =~= decimal(n as nat));
    }
    r
}

fn or_else_string(s: &str, d: &str) -> (r: String)
    ensures
        r@ == or_else(s@, d@),
{
    if chars_of(s).len() == 0 { d.to_owned() } else { s.to_owned() }
}

fn push_line(out: &mut Vec<PromptLine>, l: PromptLine)
    ensures
        lines_view(final(out)@) == lines_view(old(out)@).push(line_view(l)),
{
    out.push(l);
    assert(lines_view(final(out)@) =~= lines_view(old(out)@).push(line_view(l)));
}

fn push_when(out: &mut Vec<PromptLine>, b: bool, l: PromptLine)
    ensures
        lines_view(final(out)@) == lines_view(old(out)@) + when(b, line_view(l)),
{
    let ghost before = lines_view(out@);
    if b {
        push_line(out, l);
    }
    assert(lines_view(out@) =~= before + when(b, line_view(l)));
}

fn control_string(st: &StatusPanelData) -> (r: String)
    ensures
        r@ == control_text(*st),
{
    let mut control = st.control_mode.clone();
    push_str(&mut control, " (debug ");
    push_str(&mut control, if st.debug_enabled { "on" } else { "off" });
    push_str(&mut control, ")");
    control
}

fn mode_string(st: &StatusPanelData, se: &SettingsSnapshot) -> (r: (String, String))
    ensures
        r.0@ == shown_mode(*st, *se),
        r.1@ == mode_text(*st, *se),
{
    let fallback = if se.simulation_enabled { "simulation" } else { "production" };
    let inner = or_else_string(se.simulation_mode.as_str(), fallback);
    let mode = or_else_string(st.simulation_mode.as_str(), inner.as_str());
    let scale: u32 = if st.simulation_time_scale > 0 { st.simulation_time_scale } else { se.simulation_time_scale };
    let mut text = mode.clone();
    push_str(&mut text, " (x");
    push_chars(&mut text, decimal_chars(scale as u64).as_slice());
    push_str(&mut text, ")");
    (mode, text)
}

fn driver_push(out: &mut Vec<PromptLine>, driver: &Option<DriverStatus>)
    ensures
        lines_view(final(out)@) == lines_view(old(out)@) + driver_lines(*driver),
{
    let ghost before = lines_view(out@);
    match driver {
        None => {
            push_line(out, label_value_line("I/O", "unknown", fg(Color::Info)));
        },
        Some(d) => {
            let mut io = d.name.clone();
            if chars_of(d.status.as_str()).len() > 0 {
                push_str(&mut io, " (");
                push_str(&mut io, d.status.as_str());
                push_str(&mut io, ")");
            }
            push_line(out, label_value_line("I/O", io.as_str(), value_style()));
            match &d.error {
                Some(e) => {
                    push_line(out, label_value_line("I/O error", e.as_str(), fg(Color::Red)));
                },
                None => {},
            }
        },
    }
    assert(lines_view(out@) =~= before + driver_lines(*driver));
}

fn runtime_push(out: &mut Vec<PromptLine>, st: &StatusPanelData, se: &SettingsSnapshot)
    ensures
        lines_view(final(out)@) == lines_view(old(out)@) + runtime_lines(*st, *se),
{
    let ghost before = lines_view(out@);
    let chip = status_chip(st.state.as_str());
    let mut head: Vec<(String, Style)> = Vec::new();
    head.push(chip);
    head.push((" ".to_owned(), Style { fg: None, bg: None, bold: false }));
    head.push((st.resource.clone(), value_style()));
    let head_line = PromptLine { segments: head };
    assert(line_view(head_line) =~= seq![status_chip_spec(st.state@), (" "@, plain_spec()), (st.resource@, white())]);
    push_line(out, head_line);
    let uptime = format_uptime(st.uptime_ms);
    push_line(out, label_value_line("Uptime", uptime.as_str(), value_style()));
    let ghost a1 = lines_view(out@);
    driver_push(out, &st.driver);
    let ghost a2 = lines_view(out@);
    push_line(out, label_value_line("Control", control_string(st).as_str(), value_style()));
    let (mode, text) = mode_string(st, se);
    push_line(out, label_value_line("Mode", text.as_str(), value_style()));
    let ghost a3 = lines_view(out@);
    let warning = or_else_string(st.simulation_warning.as_str(), se.simulation_warning.as_str());
    let lm = lower_chars(chars_of(mode.as_str()).as_slice());
    let show = chars_eq_str(lm.as_slice(), "simulation") && chars_of(warning.as_str()).len() > 0;
    push_when(out, show, label_value_line("Warning", warning.as_str(), fg(Color::Amber)));
    assert(lines_view(out@) =~= before + runtime_lines(*st, *se));
}

fn service_push(out: &mut Vec<PromptLine>, st: &StatusPanelData, se: &SettingsSnapshot)
    ensures
        lines_view(final(out)@) == lines_view(old(out)@) + service_lines(*st, *se),
{
    let ghost before = lines_view(out@);
    let web = if chars_of(se.web_listen.as_str()).len() == 0 {
        "disabled".to_owned()
    } else {
        let mut w = "http://".to_owned();
        push_str(&mut w, se.web_listen.as_str());
        w
    };
    push_line(out, label_value_line("Web", web.as_str(), value_style()));
    let fc = chars_of(st.fault.as_str());
    let show_fault = fc.len() > 0 && !chars_eq_str(fc.as_slice(), "none");
    push_when(out, show_fault, label_value_line("Fault", st.fault.as_str(), fg(Color::Red)));
    let over = crate::text::string_of(decimal_chars(st.overruns).as_slice());
    push_when(out, st.overruns > 0, label_value_line("Overruns", over.as_str(), value_style()));
    let faults = crate::text::string_of(decimal_chars(st.faults).as_slice());
    push_when(out, st.faults > 0, label_value_line("Faults", faults.as_str(), value_style()));
    let watchdog = if se.watchdog_enabled {
        let mut w = "Watchdog: ".to_owned();
        push_str(&mut w, signed_decimal_string(se.watchdog_timeout_ms).as_str());
        push_str(&mut w, " ms (");
        push_str(&mut w, se.watchdog_action.as_str());
        push_str(&mut w, ")");
        w
    } else {
        "Watchdog: disabled".to_owned()
    };
    push_line(out, label_value_line("Watchdog", watchdog.as_str(), value_style()));
    let policy = or_else_string(se.fault_policy.as_str(), "unknown");
    push_line(out, label_value_line("Fault policy", policy.as_str(), value_style()));
    let retain_mode = or_else_string(se.retain_mode.as_str(), "none");
    let mut retain = "Retain: ".to_owned();
    push_str(&mut retain, retain_mode.as_str());
    match se.retain_save_interval_ms {
        Some(ms) => {
            push_str(&mut retain, " (");
            push_str(&mut retain, signed_decimal_string(ms).as_str());
            push_str(&mut retain, " ms)");
        },
        None => {},
    }
    push_line(out, label_value_line("Retain", retain.as_str(), value_style()));
    assert(lines_view(out@) =~= before + service_lines(*st, *se));
}

/// The lines of the status panel for a runtime's status and settings.
pub fn status_panel_lines(st: &StatusPanelData, se: &SettingsSnapshot) -> (r: Vec<PromptLine>)
    ensures
        lines_view(r@) == status_panel_spec(*st, *se),
{
    let mut out: Vec<PromptLine> = Vec::new();
    runtime_push(&mut out, st, se);
    service_push(&mut out, st, se);
    assert(lines_view(out@) =~= status_panel_spec(*st, *se));
    out
}

} // verus!
