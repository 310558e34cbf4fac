//! The console's menus: their entries, how they are drawn, and how a selection
//! moves through them.
use vstd::prelude::*;

use crate::text::push_str;
use crate::ui::style::{
    fg, fg_spec, header_spec, header_style, line_view, lines_view, selected_spec,
    selected_style, seg, value_style, Color, PromptLine, Style,
};

verus! {

/// The console's menus.
#[derive(Debug, Clone, Copy, PartialEq, Eq, Structural)]
pub enum MenuKind {
    Io,
    Control,
    Access,
    Linking,
    Log,
    Restart,
}

/// One menu row: its label, the command it runs (empty for "go back"), and
/// whether the command still needs an argument typed after it.
#[derive(Debug, Clone, Copy)]
pub struct MenuEntry {
    pub label: &'static str,
    pub command: &'static str,
    pub needs_input: bool,
}

/// A menu row as plain values.
pub open spec fn entry_view(e: MenuEntry) -> (Seq<char>, Seq<char>, bool) {
    (e.label@, e.command@, e.needs_input)
}

pub open spec fn entries_view(es: Seq<MenuEntry>) -> Seq<(Seq<char>, Seq<char>, bool)> {
    es.map_values(|e: MenuEntry| entry_view(e))
}

pub open spec fn menu_title_spec(kind: MenuKind) -> Seq<char> {
    match kind {
        MenuKind::Io => "I/O Menu"@,
        MenuKind::Control => "Control Menu"@,
        MenuKind::Access => "Access Menu"@,
        MenuKind::Linking => "PLC Linking Menu"@,
        MenuKind::Log => "Log Menu"@,
        MenuKind::Restart => "Restart Required"@,
    }
}

/// The rows of each menu, in order.
pub open spec fn menu_table(kind: MenuKind) -> Seq<(Seq<char>, Seq<char>, bool)> {
    match kind {
        MenuKind::Io => seq![
            ("Read value"@, "/io read"@, true),
            ("Set value"@, "/io set"@, true),
            ("Force value"@, "/io force"@, true),
            ("Release force"@, "/io unforce"@, true),
            ("List all I/O"@, "/io list"@, false),
            ("List forced"@, "/io forced"@, false),
            ("Back"@, ""@, false),
        ],
        MenuKind::Control => seq![
            ("Pause"@, "/control pause"@, false),
            ("Resume"@, "/control resume"@, false),
            ("Step into"@, "/control step"@, false),
            ("Step over"@, "/control step-over"@, false),
            ("Step out"@, "/control step-out"@, false),
            ("Restart (warm/cold)"@, "/control restart"@, true),
            ("Shutdown"@, "/control shutdown"@, false),
            ("Set breakpoint"@, "/control break"@, true),
            ("List breakpoints"@, "/control breaks"@, false),
            ("Delete breakpoint"@, "/control delete"@, true),
            ("Back"@, ""@, false),
        ],
        MenuKind::Access => seq![
            ("Generate access code"@, "/access start"@, false),
            ("Claim access code"@, "/access claim"@, true),
            ("List tokens"@, "/access list"@, false),
            ("Revoke token"@, "/access revoke"@, true),
            ("Back"@, ""@, false),
        ],
        MenuKind::Linking => seq![
            ("Enable linking"@, "/linking enable"@, false),
            ("Disable linking"@, "/linking disable"@, false),
            ("Publish variable"@, "/linking publish"@, true),
            ("Subscribe variable"@, "/linking subscribe"@, true),
            ("Back"@, ""@, false),
        ],
        MenuKind::Log => seq![
            ("Show level"@, "/log"@, false),
            ("Set info"@, "/log info"@, false),
            ("Set warn"@, "/log warn"@, false),
            ("Set debug"@, "/log debug"@, false),
            ("Tail logs"@, "/log tail"@, true),
            ("Back"@, ""@, false),
        ],
        MenuKind::Restart => seq![
            ("Restart now (warm)"@, "/control restart warm"@, false),
            ("Restart now (cold) — resets variables"@, "/control restart cold"@, false),
            ("Restart later"@, ""@, false),
        ],
    }
}

pub fn menu_title(kind: MenuKind) -> (r: &'static str)
    ensures
        r@ == menu_title_spec(kind),
{
    match kind {
        MenuKind::Io => "I/O Menu",
        MenuKind::Control => "Control Menu",
        MenuKind::Access => "Access Menu",
        MenuKind::Linking => "PLC Linking Menu",
        MenuKind::Log => "Log Menu",
        MenuKind::Restart => "Restart Required",
    }
}

fn entry(label: &'static str, command: &'static str, needs_input: bool) -> (e: MenuEntry)
    ensures
        entry_view(e) == (label@, command@, needs_input),
{
    MenuEntry { label, command, needs_input }
}

/// The rows of a menu, in order.
pub fn menu_entries(kind: MenuKind) -> (r: Vec<MenuEntry>)
    ensures
        entries_view(r@) == menu_table(kind),
{
    let r: Vec<MenuEntry> = match kind {
        MenuKind::Io => vec![
            entry("Read value", "/io read", true),
            entry("Set value", "/io set", true),
            entry("Force value", "/io force", true),
            entry("Release force", "/io unforce", true),
            entry("List all I/O", "/io list", false),
            entry("List forced", "/io forced", false),
            entry("Back", "", false),
        ],
        MenuKind::Control => vec![
            entry("Pause", "/control pause", false),
            entry("Resume", "/control resume", false),
            entry("Step into", "/control step", false),
            entry("Step over", "/control step-over", false),
            entry("Step out", "/control step-out", false),
            entry("Restart (warm/cold)", "/control restart", true),
            entry("Shutdown", "/control shutdown", false),
            entry("Set breakpoint", "/control break", true),
            entry("List breakpoints", "/control breaks", false),
            entry("Delete breakpoint", "/control delete", true),
            entry("Back", "", false),
        ],
        MenuKind::Access => vec![
            entry("Generate access code", "/access start", false),
            entry("Claim access code", "/access claim", true),
            entry("List tokens", "/access list", false),
            entry("Revoke token", "/access revoke", true),
            entry("Back", "", false),
        ],
        MenuKind::Linking => vec![
            entry("Enable linking", "/linking enable", false),
            entry("Disable linking", "/linking disable", false),
            entry("Publish variable", "/linking publish", true),
            entry("Subscribe variable", "/linking subscribe", true),
            entry("Back", "", false),
        ],
        MenuKind::Log => vec![
            entry("Show level", "/log", false),
            entry("Set info", "/log info", false),
            entry("Set warn", "/log warn", false),
            entry("Set debug", "/log debug", false),
            entry("Tail logs", "/log tail", true),
            entry("Back", "", false),
        ],
        MenuKind::Restart => vec![
            entry("Restart now (warm)", "/control restart warm", false),
            entry("Restart now (cold) — resets variables", "/control restart cold", false),
            entry("Restart later", "", false),
        ],
    };
    assert(entries_view(r@) =~= menu_table(kind));
    r
}

/// How a menu row is drawn: the selected row as one highlighted segment
/// (label, then the command after a space when there is one); the others with the
/// label in white and the command in cyan.
pub open spec fn menu_row(e: (Seq<char>, Seq<char>, bool), is_selected: bool) -> Seq<(Seq<char>, Style)> {
    if is_selected {
        if e.1.len() == 0 {
            seq![(e.0, selected_spec())]
        } else {
            seq![(e.0 + seq![' '] + e.1, selected_spec())]
        }
    } else if e.1.len() == 0 {
        seq![(e.0, fg_spec(Color::White))]
    } else {
        seq![(e.0, fg_spec(Color::White)), (seq![' '], fg_spec(Color::White)), (e.1, fg_spec(Color::Cyan))]
    }
}

pub open spec fn menu_head(kind: MenuKind) -> Seq<Seq<(Seq<char>, Style)>> {
    let title = seq![seq![(menu_title_spec(kind), header_spec())]];
    if kind == MenuKind::Restart {
        title.push(seq![("Saved. Restart required."@, fg_spec(Color::Amber))])
    } else {
        title
    }
}

/// The lines that show a menu with row `selected` highlighted.
pub open spec fn menu_lines_spec(kind: MenuKind, selected: int) -> Seq<Seq<(Seq<char>, Style)>> {
    let table = menu_table(kind);
    if table.len() == 0 {
        menu_head(kind).push(seq![("No options."@, fg_spec(Color::Info))])
    } else {
        (menu_head(kind) + Seq::new(table.len(), |i: int| menu_row(table[i], i == selected))).push(
            seq![("Use ↑/↓ and Enter. Esc to go back."@, fg_spec(Color::Info))],
        )
    }
}

fn menu_row_line(e: MenuEntry, is_selected: bool) -> (r: PromptLine)
    ensures
        line_view(r) == menu_row(entry_view(e), is_selected),
{
    if is_selected {
        let mut text = e.label.to_owned();
        if !e.command.is_empty() {
            crate::text::push_char(&mut text, ' ');
            push_str(&mut text, e.command);
        }
        assert(text@ =~= menu_row(entry_view(e), true)[0].0);
        PromptLine::plain(text, selected_style())
    } else {
        let mut segs: Vec<(String, Style)> = Vec::new();
        segs.push(seg(e.label, value_style()));
        if !e.command.is_empty() {
            segs.push(seg(" ", value_style()));
            segs.push(seg(e.command, fg(Color::Cyan)));
        }
        proof {
            reveal_strlit(" ");
            assert(" "@ =~= seq![' ']);
        }
        let r = PromptLine::from_segments(segs);
        assert(line_view(r) =~= menu_row(entry_view(e), is_selected));
        r
    }
}

/// The lines that show menu `kind` with row `selected` highlighted.
pub fn menu_lines(kind: MenuKind, selected: usize) -> (r: Vec<PromptLine>)
    ensures
        lines_view(r@) == menu_lines_spec(kind, selected as int),
{
    let entries = menu_entries(kind);
    let ghost table = menu_table(kind);
    let mut lines: Vec<PromptLine> = Vec::new();
    lines.push(PromptLine::plain_str(menu_title(kind), header_style()));
    if kind == MenuKind::Restart {
        lines.push(PromptLine::plain_str("Saved. Restart required.", fg(Color::Amber)));
    }
    assert(lines_view(lines@) =~= menu_head(kind));
    if entries.len() == 0 {
        lines.push(PromptLine::plain_str("No options.", fg(Color::Info)));
        assert(lines_view(lines@) =~= menu_lines_spec(kind, selected as int));
        return lines;
    }
    let ghost head_len = lines@.len();
    let mut idx: usize = 0;
    while idx < entries.len()
        invariant
            idx <= entries.len(),
            entries_view(entries@) == table,
            table == menu_table(kind),
            head_len == menu_head(kind).len(),
            lines_view(lines@) =~= menu_head(kind) + Seq::new(
                idx as nat,
                |i: int| menu_row(table[i], i == selected as int),
            ),
        decreases entries.len() - idx,
    {
        let line = menu_row_line(entries[idx], selected == idx);
        assert(entry_view(entries@[idx as int]) == table[idx as int]);
        assert(line_view(line) == menu_row(table[idx as int], idx as int == selected as int));
        let ghost before = lines@;
        lines.push(line);
        assert(lines_view(lines@) =~= lines_view(before).push(line_view(line)));
        assert(lines_view(lines@) =~= menu_head(kind) + Seq::new(
            (idx + 1) as nat,
            |i: int| menu_row(table[i], i == selected as int),
        ));
        idx = idx + 1;
    }
    let ghost body = lines@;
    let footer = PromptLine::plain_str("Use ↑/↓ and Enter. Esc to go back.", fg(Color::Info));
    lines.push(footer);
    assert(lines_view(lines@) =~= lines_view(body).push(line_view(footer)));
    assert(table.len() == entries@.len());
    assert(lines_view(lines@) =~= menu_lines_spec(kind, selected as int));
    lines
}

/// Moving a selection by `delta` rows in a list of `len` rows, wrapping past
/// either end.
pub open spec fn wrap_spec(current: int, delta: int, len: int) -> int {
    let next = current + delta;
    if next < 0 {
        len - 1
    } else if next >= len {
        0
    } else {
        next
    }
}

/// The row after moving the selection by `delta` rows, wrapping past either end.
pub fn wrap_selection(current: usize, delta: i32, len: usize) -> (r: usize)
    requires
        len > 0,
    ensures
        r == wrap_spec(current as int, delta as int, len as int),
{
    let next: i128 = current as i128 + delta as i128;
    if next < 0 {
        len - 1
    } else if next >= len as i128 {
        0
    } else {
        next as usize
    }
}

/// Every selection move lands on a row of the list.
pub proof fn law_wrap_stays_in_list(current: int, delta: int, len: int)
    requires
        len > 0,
    ensures
        0 <= wrap_spec(current, delta, len) < len,
{
}

/// Moving down from the last row lands on the first, and up from the first on the
/// last.
pub proof fn law_wrap_cycles(len: int)
    requires
        len > 0,
    ensures
        wrap_spec(len - 1, 1, len) == 0,
        wrap_spec(0, -1, len) == len - 1,
{
}

/// Every menu has rows, and its last row runs no command: it leads back.
pub proof fn law_menus_end_with_a_way_back(kind: MenuKind)
    ensures
        menu_table(kind).len() > 0,
        menu_table(kind).last().1.len() == 0,
{
    reveal_strlit("");
}

/// The panel page after the one shown, cycling through the layout's panels.
pub fn next_panel_page(page: usize, layout_len: usize) -> (r: usize)
    ensures
        r == (page as int + 1) % (if layout_len == 0 { 1int } else { layout_len as int }),
{
    let len: usize = if layout_len == 0 { 1 } else { layout_len };
    ((page as u128 + 1) % (len as u128)) as usize
}

} // verus!
