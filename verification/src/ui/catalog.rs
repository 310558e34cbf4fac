//! The command catalog of the console: which commands exist, which of them
//! beginner mode offers, and how the suggestion list is drawn.
use vstd::prelude::*;

use crate::text::{chars_of, push_char, push_str, starts_with, starts_with_chars, str_eq};
use crate::ui::style::{
    fg, fg_spec, header_spec, header_style, line_view, lines_view, selected_spec,
    selected_style, value_style, Color, PromptLine, Style,
};

verus! {

/// A command of the console, its one-line description, and whether beginner
/// mode offers it.
#[derive(Debug, Clone, Copy)]
pub struct CommandHelp {
    pub cmd: &'static str,
    pub desc: &'static str,
    pub beginner: bool,
}

pub open spec fn help_view(h: CommandHelp) -> (Seq<char>, Seq<char>, bool) {
    (h.cmd@, h.desc@, h.beginner)
}

pub open spec fn helps_view(hs: Seq<CommandHelp>) -> Seq<(Seq<char>, Seq<char>, bool)> {
    hs.map_values(|h: CommandHelp| help_view(h))
}

/// Every command of the console, in the order the help lists them.
pub open spec fn catalog_table() -> Seq<(Seq<char>, Seq<char>, bool)> {
    seq![
        ("help"@, "Show all commands"@, true),
        ("status"@, "Show runtime status"@, true),
        ("settings"@, "Open settings menu"@, true),
        ("io"@, "I/O menu (read/write/force)"@, true),
        ("control"@, "Pause, resume, restart"@, true),
        ("info"@, "Show version, uptime"@, true),
        ("exit"@, "Leave console"@, true),
        ("access"@, "Access PLC tokens"@, false),
        ("linking"@, "PLC Linking (mesh)"@, false),
        ("watch"@, "Watch variable"@, false),
        ("log"@, "Show/set log level"@, false),
        ("build"@, "Recompile sources"@, false),
        ("reload"@, "Reload program bytecode"@, false),
        ("layout"@, "Set panel layout"@, false),
        ("focus"@, "Focus a panel"@, false),
        ("unfocus"@, "Return to grid view"@, false),
        ("clear"@, "Clear prompt output"@, false),
    ]
}

pub open spec fn is_beginner_entry(e: (Seq<char>, Seq<char>, bool)) -> bool {
    e.2
}

/// The catalog that a console in the given mode offers.
pub open spec fn catalog_spec(beginner: bool) -> Seq<(Seq<char>, Seq<char>, bool)> {
    if beginner {
        catalog_table().filter(|e: (Seq<char>, Seq<char>, bool)| is_beginner_entry(e))
    } else {
        catalog_table()
    }
}

/// Filtering one more element: it is kept exactly when it passes.
pub proof fn lemma_filter_take_step<A>(s: Seq<A>, pred: spec_fn(A) -> bool, i: int)
    requires
        0 <= i < s.len(),
    ensures
        s.take(i + 1).filter(pred) == (if pred(s[i]) {
            s.take(i).filter(pred).push(s[i])
        } else {
            s.take(i).filter(pred)
        }),
{
    reveal(Seq::filter);
    assert(s.take(i + 1).drop_last() =~= s.take(i));
}

fn help(cmd: &'static str, desc: &'static str, beginner: bool) -> (h: CommandHelp)
    ensures
        help_view(h) == (cmd@, desc@, beginner),
{
    CommandHelp { cmd, desc, beginner }
}

fn full_catalog() -> (r: Vec<CommandHelp>)
    ensures
        helps_view(r@) == catalog_table(),
{
    let r = vec![
        help("help", "Show all commands", true),
        help("status", "Show runtime status", true),
        help("settings", "Open settings menu", true),
        help("io", "I/O menu (read/write/force)", true),
        help("control", "Pause, resume, restart", true),
        help("info", "Show version, uptime", true),
        help("exit", "Leave console", true),
        help("access", "Access PLC tokens", false),
        help("linking", "PLC Linking (mesh)", false),
        help("watch", "Watch variable", false),
        help("log", "Show/set log level", false),
        help("build", "Recompile sources", false),
        help("reload", "Reload program bytecode", false),
        help("layout", "Set panel layout", false),
        help("focus", "Focus a panel", false),
        help("unfocus", "Return to grid view", false),
        help("clear", "Clear prompt output", false),
    ];
    assert(helps_view(r@) =~= catalog_table());
    r
}

/// The commands offered in the given mode: all of them, or in beginner mode those
/// marked for beginners, in catalog order.
pub fn command_catalog(beginner: bool) -> (r: Vec<CommandHelp>)
    ensures
        helps_view(r@) == catalog_spec(beginner),
{
    let all = full_catalog();
    if !beginner {
        return all;
    }
    let ghost table = catalog_table();
    let ghost pred = |e: (Seq<char>, Seq<char>, bool)| is_beginner_entry(e);
    let mut r: Vec<CommandHelp> = Vec::new();
    let mut i: usize = 0;
    while i < all.len()
        invariant
            i <= all.len(),
            helps_view(all@) == table,
            pred == (|e: (Seq<char>, Seq<char>, bool)| is_beginner_entry(e)),
            helps_view(r@) == table.take(i as int).filter(pred),
        decreases all.len() - i,
    {
        proof {
            lemma_filter_take_step(table, pred, i as int);
        }
        assert(help_view(all@[i as int]) == table[i as int]);
        assert(pred(table[i as int]) == all@[i as int].beginner);
        if all[i].beginner {
            let ghost before = r@;
            r.push(all[i]);
            assert(helps_view(r@) =~= helps_view(before).push(help_view(all@[i as int])));
        }
        i = i + 1;
    }
    assert(table.take(all@.len() as int) =~= table);
    r
}

/// The command names that beginner mode lets through.
pub open spec fn is_beginner_command_spec(head: Seq<char>) -> bool {
    ||| head == "help"@
    ||| head == "status"@
    ||| head == "settings"@
    ||| head == "io"@
    ||| head == "control"@
    ||| head == "info"@
    ||| head == "exit"@
}

pub fn is_beginner_command(head: &str) -> (r: bool)
    ensures
        r == is_beginner_command_spec(head@),
{
    str_eq(head, "help") || str_eq(head, "status") || str_eq(head, "settings") || str_eq(head, "io")
        || str_eq(head, "control") || str_eq(head, "info") || str_eq(head, "exit")
}

/// The offered commands whose name starts with `filter`, or all of them with no
/// filter.
pub open spec fn suggestions_spec(beginner: bool, filter: Option<Seq<char>>) -> Seq<(Seq<char>, Seq<char>, bool)> {
    match filter {
        None => catalog_spec(beginner),
        Some(f) => catalog_spec(beginner).filter(|e: (Seq<char>, Seq<char>, bool)| starts_with(e.0, f)),
    }
}

pub fn command_suggestions(beginner: bool, filter: Option<&str>) -> (r: Vec<CommandHelp>)
    ensures
        helps_view(r@) == suggestions_spec(beginner, match filter {
            None => None,
            Some(f) => Some(f@),
        }),
{
    let offered = command_catalog(beginner);
    match filter {
        None => offered,
        Some(f) => {
            let fv = chars_of(f);
            let ghost table = catalog_spec(beginner);
            let ghost pred = |e: (Seq<char>, Seq<char>, bool)| starts_with(e.0, f@);
            let mut r: Vec<CommandHelp> = Vec::new();
            let mut i: usize = 0;
            while i < offered.len()
                invariant
                    i <= offered.len(),
                    fv@ == f@,
                    helps_view(offered@) == table,
                    pred == (|e: (Seq<char>, Seq<char>, bool)| starts_with(e.0, f@)),
                    helps_view(r@) == table.take(i as int).filter(pred),
                decreases offered.len() - i,
            {
                proof {
                    lemma_filter_take_step(table, pred, i as int);
                }
                assert(help_view(offered@[i as int]) == table[i as int]);
                let name = chars_of(offered[i].cmd);
                assert(pred(table[i as int]) == starts_with(name@, fv@));
                if starts_with_chars(name.as_slice(), fv.as_slice()) {
                    let ghost before = r@;
                    r.push(offered[i]);
                    assert(helps_view(r@) =~= helps_view(before).push(help_view(offered@[i as int])));
                }
                i = i + 1;
            }
            assert(table.take(offered@.len() as int) =~= table);
            r
        },
    }
}

/// `format!("{:<width$}", s)`: `s` padded with spaces on the right to `width`
/// characters.
pub open spec fn pad_right(s: Seq<char>, width: nat) -> Seq<char> {
    if s.len() >= width {
        s
    } else {
        s + Seq::new((width - s.len()) as nat, |i: int| ' ')
    }
}

/// The command column of a suggestion row: a slash, then the name padded to eight.
pub open spec fn command_cell(cmd: Seq<char>) -> Seq<char> {
    seq!['/'] + pad_right(cmd, 8)
}

/// How a suggestion row is drawn.
pub open spec fn suggestion_row(e: (Seq<char>, Seq<char>, bool), is_selected: bool) -> Seq<(Seq<char>, Style)> {
    if is_selected {
        seq![(command_cell(e.0), selected_spec()), (e.1, selected_spec())]
    } else {
        seq![(command_cell(e.0), fg_spec(Color::Cyan)), (e.1, fg_spec(Color::White))]
    }
}

/// The lines that list `suggestions`, with row `selected` highlighted if any.
pub open spec fn suggestion_lines_spec(
    suggestions: Seq<(Seq<char>, Seq<char>, bool)>,
    selected: Option<int>,
) -> Seq<Seq<(Seq<char>, Style)>> {
    let head = seq![seq![("Commands:"@, header_spec())]];
    if suggestions.len() == 0 {
        head.push(seq![("No matches."@, fg_spec(Color::Info))])
    } else {
        head + Seq::new(
            suggestions.len(),
            |i: int| suggestion_row(suggestions[i], selected == Some(i)),
        )
    }
}

fn command_cell_exec(cmd: &str) -> (r: String)
    ensures
        r@ == command_cell(cmd@),
{
    let mut r = String::new();
    push_char(&mut r, '/');
    push_str(&mut r, cmd);
    let n = chars_of(cmd).len();
    let mut k: usize = n;
    while k < 8
        invariant
            n == cmd@.len(),
            n <= k <= 8 || (n > 8 && k == n),
            r@ == seq!['/'] + cmd@ + Seq::new((k - n) as nat, |i: int| ' '),
        decreases 8 - k,
    {
        push_char(&mut r, ' ');
        assert(seq!['/'] + cmd@ + Seq::new((k - n) as nat, |i: int| ' ').push(' ') =~= seq!['/']
            + cmd@ + Seq::new((k + 1 - n) as nat, |i: int| ' '));
        k = k + 1;
    }
    assert(r@ =~= command_cell(cmd@));
    r
}

fn suggestion_row_line(h: CommandHelp, is_selected: bool) -> (r: PromptLine)
    ensures
        line_view(r) == suggestion_row(help_view(h), is_selected),
{
    let style = if is_selected { selected_style() } else { fg(Color::Cyan) };
    let desc_style = if is_selected { selected_style() } else { value_style() };
    let mut segs: Vec<(String, Style)> = Vec::new();
    segs.push((command_cell_exec(h.cmd), style));
    segs.push((h.desc.to_owned(), desc_style));
    let r = PromptLine::from_segments(segs);
    assert(line_view(r) =~= suggestion_row(help_view(h), is_selected));
    r
}

/// The lines that list `suggestions`, with row `selected` highlighted if any.
pub fn suggestion_lines(suggestions: &[CommandHelp], selected: Option<usize>) -> (r: Vec<PromptLine>)
    ensures
        lines_view(r@) == suggestion_lines_spec(
            helps_view(suggestions@),
            match selected {
                None => None,
                Some(k) => Some(k as int),
            },
        ),
{
    let ghost sel: Option<int> = match selected {
        None => None,
        Some(k) => Some(k as int),
    };
    let ghost hs = helps_view(suggestions@);
    let mut lines: Vec<PromptLine> = Vec::new();
    lines.push(PromptLine::plain_str("Commands:", header_style()));
    if suggestions.len() == 0 {
        lines.push(PromptLine::plain_str("No matches.", fg(Color::Info)));
        assert(lines_view(lines@) =~= suggestion_lines_spec(hs, sel));
        return lines;
    }
    let mut idx: usize = 0;
    while idx < suggestions.len()
        invariant
            idx <= suggestions.len(),
            hs == helps_view(suggestions@),
            sel == (match selected {
                None => None,
                Some(k) => Some(k as int),
            }),
            lines_view(lines@) =~= seq![seq![("Commands:"@, header_spec())]] + Seq::new(
                idx as nat,
                |i: int| suggestion_row(hs[i], sel == Some(i)),
            ),
        decreases suggestions.len() - idx,
    {
        let is_selected = match selected {
            Some(k) => k == idx,
            None => false,
        };
        let line = suggestion_row_line(suggestions[idx], is_selected);
        assert(help_view(suggestions@[idx as int]) == hs[idx as int]);
        assert(is_selected == (sel == Some(idx as int)));
        let ghost before = lines@;
        lines.push(line);
        assert(lines_view(lines@) =~= lines_view(before).push(line_view(line)));
        assert(lines_view(lines@) =~= seq![seq![("Commands:"@, header_spec())]] + Seq::new(
            (idx + 1) as nat,
            |i: int| suggestion_row(hs[i], sel == Some(i)),
        ));
        idx = idx + 1;
    }
    assert(lines_view(lines@) =~= suggestion_lines_spec(hs, sel));
    lines
}

} // verus!
