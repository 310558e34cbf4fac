//! What a line typed at the console asks for: the routing of commands, the
//! choices made in menus and confirmations, and the watch list.
use vstd::prelude::*;

use crate::text::{
    chars_eq_str, chars_of, lower, lower_chars, parse_unsigned, parse_unsigned_chars,
    slice_chars, split_words, string_of, trim, trim_chars, words,
};
use crate::ui::catalog::{is_beginner_command, is_beginner_command_spec};
use crate::ui::menu::{entries_view, menu_entries, menu_table, MenuKind};
use crate::ui::model::IoActionKind;

verus! {

/// What a command line asks the console to do.
#[derive(Debug, Clone, Copy, PartialEq, Eq, Structural)]
pub enum CommandKind {
    /// Nothing was typed.
    Ignore,
    /// A lone `/`: list every command.
    ShowAllSuggestions,
    Status,
    Help,
    /// Leave the console.
    Quit,
    Pause,
    Resume,
    /// Beginner mode refuses the command.
    BeginnerBlocked,
    Info,
    Clear,
    Settings,
    Io,
    Control,
    Access,
    Linking,
    Build,
    Reload,
    Watch,
    Unwatch,
    Log,
    Layout,
    Focus,
    Unfocus,
    Unknown,
}

/// The words of a command line after its leading `/`, if any.
pub open spec fn command_words(input: Seq<char>) -> Seq<Seq<char>> {
    let raw = trim(input);
    let cmd = if raw.len() > 0 && raw[0] == '/' { raw.drop_first() } else { raw };
    words(cmd)
}

/// The command name: the first word, or nothing.
pub open spec fn command_head(input: Seq<char>) -> Seq<char> {
    let w = command_words(input);
    if w.len() > 0 { w[0] } else { Seq::empty() }
}

/// The words after the command name.
pub open spec fn command_args(input: Seq<char>) -> Seq<Seq<char>> {
    let w = command_words(input);
    if w.len() > 0 { w.drop_first() } else { Seq::empty() }
}

/// How a command name is routed once past the shortcuts and the beginner guard.
pub open spec fn named_kind(head: Seq<char>) -> CommandKind {
    if head == "help"@ {
        CommandKind::Help
    } else if head == "status"@ {
        CommandKind::Status
    } else if head == "info"@ {
        CommandKind::Info
    } else if head == "clear"@ {
        CommandKind::Clear
    } else if head == "exit"@ {
        CommandKind::Quit
    } else if head == "settings"@ {
        CommandKind::Settings
    } else if head == "io"@ {
        CommandKind::Io
    } else if head == "control"@ {
        CommandKind::Control
    } else if head == "access"@ {
        CommandKind::Access
    } else if head == "linking"@ {
        CommandKind::Linking
    } else if head == "build"@ {
        CommandKind::Build
    } else if head == "reload"@ {
        CommandKind::Reload
    } else if head == "watch"@ {
        CommandKind::Watch
    } else if head == "unwatch"@ {
        CommandKind::Unwatch
    } else if head == "log"@ {
        CommandKind::Log
    } else if head == "layout"@ {
        CommandKind::Layout
    } else if head == "focus"@ {
        CommandKind::Focus
    } else if head == "unfocus"@ {
        CommandKind::Unfocus
    } else {
        CommandKind::Unknown
    }
}

/// What the command line `input` asks for: blank lines are ignored, a lone `/`
/// lists the commands, the one-letter shortcuts work in every mode, beginner
/// mode refuses the commands it does not offer, and the rest go by name.
pub open spec fn route_spec(input: Seq<char>, beginner: bool) -> CommandKind {
    let raw = trim(input);
    let head = command_head(input);
    if raw.len() == 0 {
        CommandKind::Ignore
    } else if raw == "/"@ {
        CommandKind::ShowAllSuggestions
    } else if head == "s"@ {
        CommandKind::Status
    } else if head == "h"@ {
        CommandKind::Help
    } else if head == "q"@ {
        CommandKind::Quit
    } else if head == "p"@ {
        CommandKind::Pause
    } else if head == "r"@ {
        CommandKind::Resume
    } else if beginner && !is_beginner_command_spec(head) {
        CommandKind::BeginnerBlocked
    } else {
        named_kind(head)
    }
}

/// The name an operator types for each command the console carries out: the
/// catalog name, or the one-letter shortcut for pausing and resuming.
pub open spec fn command_name(kind: CommandKind) -> Option<Seq<char>> {
    match kind {
        CommandKind::Status => Some("status"@),
        CommandKind::Help => Some("help"@),
        CommandKind::Quit => Some("exit"@),
        CommandKind::Pause => Some("p"@),
        CommandKind::Resume => Some("r"@),
        CommandKind::Info => Some("info"@),
        CommandKind::Clear => Some("clear"@),
        CommandKind::Settings => Some("settings"@),
        CommandKind::Io => Some("io"@),
        CommandKind::Control => Some("control"@),
        CommandKind::Access => Some("access"@),
        CommandKind::Linking => Some("linking"@),
        CommandKind::Build => Some("build"@),
        CommandKind::Reload => Some("reload"@),
        CommandKind::Watch => Some("watch"@),
        CommandKind::Unwatch => Some("unwatch"@),
        CommandKind::Log => Some("log"@),
        CommandKind::Layout => Some("layout"@),
        CommandKind::Focus => Some("focus"@),
        CommandKind::Unfocus => Some("unfocus"@),
        _ => None,
    }
}

/// Outside beginner mode a command line is carried out as the command its head
/// word names, whatever arguments follow: `reload` reloads, `build` builds,
/// `exit` leaves, and so on for every command. Since each command has its own
/// name, two different names never lead to the same command.
pub proof fn law_command_names_route_to_their_commands(kind: CommandKind, input: Seq<char>)
    requires
        command_name(kind) is Some,
        command_head(input) == command_name(kind)->Some_0,
    ensures
        route_spec(input, false) == kind,
{
    reveal_strlit("status");
    reveal_strlit("help");
    reveal_strlit("exit");
    reveal_strlit("p");
    reveal_strlit("r");
    reveal_strlit("s");
    reveal_strlit("h");
    reveal_strlit("q");
    reveal_strlit("info");
    reveal_strlit("clear");
    reveal_strlit("settings");
    reveal_strlit("io");
    reveal_strlit("control");
    reveal_strlit("access");
    reveal_strlit("linking");
    reveal_strlit("build");
    reveal_strlit("reload");
    reveal_strlit("watch");
    reveal_strlit("unwatch");
    reveal_strlit("log");
    reveal_strlit("layout");
    reveal_strlit("focus");
    reveal_strlit("unfocus");
    reveal_strlit("/");
    let raw = trim(input);
    let cmd = if raw.len() > 0 && raw[0] == '/' { raw.drop_first() } else { raw };
    assert(command_head(input).len() > 0);
    assert(words(Seq::<char>::empty()) =~= Seq::<Seq<char>>::empty());
    assert(cmd.len() > 0);
    assert(raw != "/"@) by {
        if raw == "/"@ {
            assert(cmd =~= Seq::<char>::empty());
        }
    }
    let h = command_head(input);
    assert(raw.len() > 0);
    assert(h.len() != 1 || h == "p"@ || h == "r"@);
    if h.len() >= 2 {
        assert(h != "s"@ && h != "h"@ && h != "q"@ && h != "p"@ && h != "r"@);
        assert(route_spec(input, false) == named_kind(h));
    }
    match kind {
        CommandKind::Status => {
            assert(h[1] == 't');
            assert(route_spec(input, false) == CommandKind::Status);
        },
        CommandKind::Pause => {
            assert(h[0] == 'p');
            assert(route_spec(input, false) == CommandKind::Pause);
        },
        CommandKind::Resume => {
            assert(h[0] == 'r');
            assert(route_spec(input, false) == CommandKind::Resume);
        },
        CommandKind::Help => {
            assert(h[1] == 'e');
            assert(route_spec(input, false) == CommandKind::Help);
        },
        CommandKind::Quit => {
            assert(h[1] == 'x');
            assert(route_spec(input, false) == CommandKind::Quit);
        },
        CommandKind::Info => {
            assert(h[1] == 'n');
            assert(route_spec(input, false) == CommandKind::Info);
        },
        CommandKind::Clear => {
            assert(h[1] == 'l');
            assert(route_spec(input, false) == CommandKind::Clear);
        },
        CommandKind::Settings => {
            assert(h[1] == 'e');
            assert(route_spec(input, false) == CommandKind::Settings);
        },
        CommandKind::Io => {
            assert(h[1] == 'o');
            assert(route_spec(input, false) == CommandKind::Io);
        },
        CommandKind::Control => {
            assert(h[1] == 'o');
            assert(route_spec(input, false) == CommandKind::Control);
        },
        CommandKind::Access => {
            assert(h[1] == 'c');
            assert(route_spec(input, false) == CommandKind::Access);
        },
        CommandKind::Linking => {
            assert(h[1] == 'i');
            assert(route_spec(input, false) == CommandKind::Linking);
        },
        CommandKind::Build => {
            assert(h[1] == 'u');
            assert(route_spec(input, false) == CommandKind::Build);
        },
        CommandKind::Reload => {
            assert(h[1] == 'e');
            assert(route_spec(input, false) == CommandKind::Reload);
        },
        CommandKind::Watch => {
            assert(h[1] == 'a');
            assert(route_spec(input, false) == CommandKind::Watch);
        },
        CommandKind::Unwatch => {
            assert(h[1] == 'n');
            assert(route_spec(input, false) == CommandKind::Unwatch);
        },
        CommandKind::Log => {
            assert(h[1] == 'o');
            assert(route_spec(input, false) == CommandKind::Log);
        },
        CommandKind::Layout => {
            assert(h[1] == 'a');
            assert(route_spec(input, false) == CommandKind::Layout);
        },
        CommandKind::Focus => {
            assert(h[1] == 'o');
            assert(route_spec(input, false) == CommandKind::Focus);
        },
        CommandKind::Unfocus => {
            assert(h[2] == 'f');
            assert(route_spec(input, false) == CommandKind::Unfocus);
        },
        _ => {},
    }
}

/// The one-letter shortcuts work in every mode, beginner mode included: `s`
/// shows the status, `h` the help, `q` leaves, `p` pauses and `r` resumes.
pub proof fn law_shortcuts_work_in_every_mode(input: Seq<char>, beginner: bool)
    ensures
        command_head(input) == "s"@ ==> route_spec(input, beginner) == CommandKind::Status,
        command_head(input) == "h"@ ==> route_spec(input, beginner) == CommandKind::Help,
        command_head(input) == "q"@ ==> route_spec(input, beginner) == CommandKind::Quit,
        command_head(input) == "p"@ ==> route_spec(input, beginner) == CommandKind::Pause,
        command_head(input) == "r"@ ==> route_spec(input, beginner) == CommandKind::Resume,
{
    reveal_strlit("s");
    reveal_strlit("h");
    reveal_strlit("q");
    reveal_strlit("p");
    reveal_strlit("r");
    reveal_strlit("/");
    let raw = trim(input);
    let cmd = if raw.len() > 0 && raw[0] == '/' { raw.drop_first() } else { raw };
    let h = command_head(input);
    assert(words(Seq::<char>::empty()) =~= Seq::<Seq<char>>::empty());
    if h.len() == 1 {
        assert(cmd.len() > 0);
        assert(raw.len() > 0);
        assert(raw != "/"@) by {
            if raw == "/"@ {
                assert(cmd =~= Seq::<char>::empty());
            }
        }
        if h == "h"@ {
            assert(h[0] == 'h');
        }
        if h == "q"@ {
            assert(h[0] == 'q');
        }
        if h == "p"@ {
            assert(h[0] == 'p');
        }
        if h == "r"@ {
            assert(h[0] == 'r');
        }
    }
}

/// A routed command line: what it asks for and the words after the command name.
#[derive(Debug)]
pub struct RoutedCommand {
    pub kind: CommandKind,
    pub args: Vec<String>,
}

pub open spec fn strings_view(v: Seq<String>) -> Seq<Seq<char>> {
    v.map_values(|s: String| s@)
}

fn named_kind_exec(head: &[char]) -> (r: CommandKind)
    ensures
        r == named_kind(head@),
{
    if chars_eq_str(head, "help") {
        CommandKind::Help
    } else if chars_eq_str(head, "status") {
        CommandKind::Status
    } else if chars_eq_str(head, "info") {
        CommandKind::Info
    } else if chars_eq_str(head, "clear") {
        CommandKind::Clear
    } else if chars_eq_str(head, "exit") {
        CommandKind::Quit
    } else if chars_eq_str(head, "settings") {
        CommandKind::Settings
    } else if chars_eq_str(head, "io") {
        CommandKind::Io
    } else if chars_eq_str(head, "control") {
        CommandKind::Control
    } else if chars_eq_str(head, "access") {
        CommandKind::Access
    } else if chars_eq_str(head, "linking") {
        CommandKind::Linking
    } else if chars_eq_str(head, "build") {
        CommandKind::Build
    } else if chars_eq_str(head, "reload") {
        CommandKind::Reload
    } else if chars_eq_str(head, "watch") {
        CommandKind::Watch
    } else if chars_eq_str(head, "unwatch") {
        CommandKind::Unwatch
    } else if chars_eq_str(head, "log") {
        CommandKind::Log
    } else if chars_eq_str(head, "layout") {
        CommandKind::Layout
    } else if chars_eq_str(head, "focus") {
        CommandKind::Focus
    } else if chars_eq_str(head, "unfocus") {
        CommandKind::Unfocus
    } else {
        CommandKind::Unknown
    }
}

/// Routes a command line typed at the console.
pub fn route_command(input: &str, beginner: bool) -> (r: RoutedCommand)
    ensures
        r.kind == route_spec(input@, beginner),
        strings_view(r.args@) == command_args(input@),
{
    let raw_all = chars_of(input);
    let raw = trim_chars(raw_all.as_slice());
    let cmd = if raw.len() > 0 && raw[0] == '/' {
        slice_chars(raw.as_slice(), 1, raw.len())
    } else {
        slice_chars(raw.as_slice(), 0, raw.len())
    };
    proof {
        if raw@.len() > 0 && raw@[0] == '/' {
            assert(cmd@ =~= raw@.drop_first());
        } else {
            assert(cmd@ =~= raw@);
        }
    }
    let ws = split_words(cmd.as_slice());
    let ghost wv = ws@.map_values(|w: Vec<char>| w@);
    assert(wv == command_words(input@));
    let empty: Vec<char> = Vec::new();
    let head: &[char] = if ws.len() > 0 { ws[0].as_slice() } else { empty.as_slice() };
    assert(head@ == command_head(input@));
    let mut args: Vec<String> = Vec::new();
    let mut k: usize = 1;
    while k < ws.len()
        invariant
            1 <= k <= ws.len() || (ws.len() == 0 && k == 1),
            wv == ws@.map_values(|w: Vec<char>| w@),
            ws.len() > 0 ==> strings_view(args@) =~= wv.subrange(1, k as int),
            ws.len() == 0 ==> args@.len() == 0,
        decreases ws.len() - k,
    {
        let ghost before = args@;
        args.push(string_of(ws[k].as_slice()));
        assert(strings_view(args@) =~= strings_view(before).push(wv[k as int]));
        assert(wv.subrange(1, k + 1) =~= wv.subrange(1, k as int).push(wv[k as int]));
        k = k + 1;
    }
    proof {
        if wv.len() > 0 {
            assert(wv.subrange(1, wv.len() as int) =~= wv.drop_first());
        } else {
            assert(strings_view(args@) =~= Seq::<Seq<char>>::empty());
        }
    }
    let kind = if raw.len() == 0 {
        CommandKind::Ignore
    } else if chars_eq_str(raw.as_slice(), "/") {
        CommandKind::ShowAllSuggestions
    } else if chars_eq_str(head, "s") {
        CommandKind::Status
    } else if chars_eq_str(head, "h") {
        CommandKind::Help
    } else if chars_eq_str(head, "q") {
        CommandKind::Quit
    } else if chars_eq_str(head, "p") {
        CommandKind::Pause
    } else if chars_eq_str(head, "r") {
        CommandKind::Resume
    } else if beginner && !is_beginner_command(string_of(head).as_str()) {
        CommandKind::BeginnerBlocked
    } else {
        named_kind_exec(head)
    };
    RoutedCommand { kind, args }
}

/// The row a menu answer picks: Enter alone keeps the highlighted row, `0` picks
/// the last row, `n` picks row `n` counted from one; anything else picks none.
pub open spec fn menu_choice_spec(input: Seq<char>, current: nat, len: nat) -> Option<int> {
    let c = trim(input);
    if c.len() == 0 {
        Some(current as int)
    } else {
        match parse_unsigned(c, usize::MAX as nat) {
            Some(n) => if n == 0 {
                Some(if len == 0 { 0int } else { len - 1 })
            } else {
                Some(n - 1)
            },
            None => None,
        }
    }
}

pub fn menu_choice(input: &str, current: usize, len: usize) -> (r: Option<usize>)
    ensures
        r == (match menu_choice_spec(input@, current as nat, len as nat) {
            Some(i) => Some(i as usize),
            None => None,
        }),
{
    let raw = chars_of(input);
    let c = trim_chars(raw.as_slice());
    if c.len() == 0 {
        return Some(current);
    }
    match parse_unsigned_chars(c.as_slice(), usize::MAX as u64) {
        Some(n) => if n == 0 {
            Some(if len == 0 { 0 } else { len - 1 })
        } else {
            Some((n - 1) as usize)
        },
        None => None,
    }
}

/// What picking a menu row does.
#[derive(Debug)]
pub enum MenuSelection<S> {
    /// The answer names no row.
    Invalid,
    /// The row leads back out of the menu.
    Back,
    /// Open the list of I/O points for this action.
    OpenIoSelect(IoActionKind),
    /// Put this text in the prompt for the user to complete.
    Prefill(S),
    /// Run this command.
    Execute(S),
}

pub open spec fn selection_view(s: MenuSelection<String>) -> MenuSelection<Seq<char>> {
    match s {
        MenuSelection::Invalid => MenuSelection::Invalid,
        MenuSelection::Back => MenuSelection::Back,
        MenuSelection::OpenIoSelect(a) => MenuSelection::OpenIoSelect(a),
        MenuSelection::Prefill(t) => MenuSelection::Prefill(t@),
        MenuSelection::Execute(t) => MenuSelection::Execute(t@),
    }
}

/// The I/O menu rows that open the list of I/O points rather than run a command.
pub open spec fn io_select_for(command: Seq<char>) -> Option<IoActionKind> {
    if command == "/io read"@ {
        Some(IoActionKind::Read)
    } else if command == "/io set"@ {
        Some(IoActionKind::SetValue)
    } else if command == "/io force"@ {
        Some(IoActionKind::Force)
    } else if command == "/io unforce"@ {
        Some(IoActionKind::Unforce)
    } else {
        None
    }
}

/// A command that still needs an argument, with the space before it.
pub open spec fn prefill_text(command: Seq<char>) -> Seq<char> {
    if command.len() > 0 && command.last() == ' ' { command } else { command.push(' ') }
}

/// What answering `input` in menu `kind`, with row `current` highlighted, does.
pub open spec fn menu_select_spec(input: Seq<char>, kind: MenuKind, current: nat) -> MenuSelection<Seq<char>> {
    let table = menu_table(kind);
    if table.len() == 0 {
        MenuSelection::Back
    } else {
        match menu_choice_spec(input, current, table.len()) {
            None => MenuSelection::Invalid,
            Some(i) => if i >= table.len() {
                MenuSelection::Invalid
            } else {
                let e = table[i];
                if e.1.len() == 0 {
                    MenuSelection::Back
                } else if kind == MenuKind::Io && io_select_for(e.1) is Some {
                    MenuSelection::OpenIoSelect(io_select_for(e.1)->0)
                } else if e.2 {
                    MenuSelection::Prefill(prefill_text(e.1))
                } else {
                    MenuSelection::Execute(e.1)
                }
            },
        }
    }
}

/// Decides what answering `input` in menu `kind` does.
pub fn menu_select(input: &str, kind: MenuKind, current: usize) -> (r: MenuSelection<String>)
    ensures
        selection_view(r) == menu_select_spec(input@, kind, current as nat),
{
    let entries = menu_entries(kind);
    if entries.len() == 0 {
        return MenuSelection::Back;
    }
    let choice = menu_choice(input, current, entries.len());
    let i = match choice {
        None => return MenuSelection::Invalid,
        Some(i) => i,
    };
    if i >= entries.len() {
        return MenuSelection::Invalid;
    }
    let e = entries[i];
    assert(crate::ui::menu::entry_view(entries@[i as int]) == menu_table(kind)[i as int]);
    if e.command.is_empty() {
        return MenuSelection::Back;
    }
    let cmd = chars_of(e.command);
    if kind == MenuKind::Io {
        if chars_eq_str(cmd.as_slice(), "/io read") {
            return MenuSelection::OpenIoSelect(IoActionKind::Read);
        } else if chars_eq_str(cmd.as_slice(), "/io set") {
            return MenuSelection::OpenIoSelect(IoActionKind::SetValue);
        } else if chars_eq_str(cmd.as_slice(), "/io force") {
            return MenuSelection::OpenIoSelect(IoActionKind::Force);
        } else if chars_eq_str(cmd.as_slice(), "/io unforce") {
            return MenuSelection::OpenIoSelect(IoActionKind::Unforce);
        }
    }
    if e.needs_input {
        let mut text = e.command.to_owned();
        if !(cmd.len() > 0 && cmd[cmd.len() - 1] == ' ') {
            crate::text::push_char(&mut text, ' ');
        }
        return MenuSelection::Prefill(text);
    }
    MenuSelection::Execute(e.command.to_owned())
}

/// Whether a confirmation answer is a yes: `y` or `yes`, in any case, with
/// surrounding whitespace ignored.
pub open spec fn is_yes_spec(input: Seq<char>) -> bool {
    let a = lower(trim(input));
    a == "y"@ || a == "yes"@
}

pub fn is_yes(input: &str) -> (r: bool)
    ensures
        r == is_yes_spec(input@),
{
    let raw = chars_of(input);
    let t = trim_chars(raw.as_slice());
    let a = lower_chars(t.as_slice());
    chars_eq_str(a.as_slice(), "y") || chars_eq_str(a.as_slice(), "yes")
}

/// The watch list after `/watch name`: the name is added unless already watched.
pub fn watch_add(list: &mut Vec<String>, name: &str)
    ensures
        strings_view(final(list)@) == (if strings_view(old(list)@).contains(name@) {
            strings_view(old(list)@)
        } else {
            strings_view(old(list)@).push(name@)
        }),
{
    let mut k: usize = 0;
    while k < list.len()
        invariant
            k <= list.len(),
            forall|j: int| 0 <= j < k ==> list@[j]@ != name@,
        decreases list.len() - k,
    {
        if crate::text::str_eq(list[k].as_str(), name) {
            assert(strings_view(list@)[k as int] == name@);
            return;
        }
        k = k + 1;
    }
    assert(!strings_view(list@).contains(name@)) by {
        if strings_view(list@).contains(name@) {
            let j = choose|j: int| 0 <= j < strings_view(list@).len() && strings_view(list@)[j] == name@;
            assert(list@[j]@ == name@);
        }
    }
    let ghost before = list@;
    list.push(name.to_owned());
    assert(strings_view(list@) =~= strings_view(before).push(name@));
}

/// The watch list after `/unwatch name`: every entry equal to the name is dropped.
pub fn watch_remove(list: &mut Vec<String>, name: &str)
    ensures
        strings_view(final(list)@) == strings_view(old(list)@).filter(|w: Seq<char>| w != name@),
{
    let ghost pred = |w: Seq<char>| w != name@;
    let ghost orig = strings_view(list@);
    let mut kept: Vec<String> = Vec::new();
    let mut k: usize = 0;
    while k < list.len()
        invariant
            k <= list.len(),
            orig == strings_view(list@),
            pred == (|w: Seq<char>| w != name@),
            strings_view(kept@) == orig.take(k as int).filter(pred),
        decreases list.len() - k,
    {
        proof {
            crate::ui::catalog::lemma_filter_take_step(orig, pred, k as int);
        }
        assert(orig[k as int] == list@[k as int]@);
        if !crate::text::str_eq(list[k].as_str(), name) {
            let ghost before = kept@;
            kept.push(list[k].clone());
            assert(strings_view(kept@) =~= strings_view(before).push(orig[k as int]));
        }
        k = k + 1;
    }
    assert(orig.take(orig.len() as int) =~= orig);
    *list = kept;
}

/// Adding to the watch list never makes a name appear twice.
pub proof fn law_watch_add_keeps_names_unique(list: Seq<Seq<char>>, name: Seq<char>)
    requires
        list.no_duplicates(),
    ensures
        (if list.contains(name) { list } else { list.push(name) }).no_duplicates(),
{
}

/// After `/unwatch name`, the name is no longer watched.
pub proof fn law_unwatch_removes_name(list: Seq<Seq<char>>, name: Seq<char>)
    ensures
        !list.filter(|w: Seq<char>| w != name).contains(name),
{
    let f = list.filter(|w: Seq<char>| w != name);
    if f.contains(name) {
        let j = choose|j: int| 0 <= j < f.len() && f[j] == name;
        list.lemma_filter_pred(|w: Seq<char>| w != name, j);
    }
}

/// Which suggestions a partly typed line asks for: none unless it starts with a
/// slash and the command name is still being typed; then those whose name starts
/// with what was typed, or all of them.
pub open spec fn suggestion_filter_spec(input: Seq<char>) -> Option<Option<Seq<char>>> {
    let t = trim(input);
    if !(t.len() > 0 && t[0] == '/') {
        None
    } else {
        let q = trim(crate::text::trim_start_char(t, '/'));
        if crate::text::has_char(q, ' ') {
            None
        } else if q.len() == 0 {
            Some(None)
        } else {
            Some(Some(q))
        }
    }
}

pub fn suggestion_filter(input: &str) -> (r: Option<Option<String>>)
    ensures
        match suggestion_filter_spec(input@) {
            None => r is None,
            Some(None) => r == Some(None::<String>),
            Some(Some(q)) => r is Some && r->0 is Some && r->0->0@ == q,
        },
{
    let raw = chars_of(input);
    let t = trim_chars(raw.as_slice());
    if !(t.len() > 0 && t[0] == '/') {
        return None;
    }
    let stripped = crate::text::trim_start_char_exec(t.as_slice(), '/');
    let q = trim_chars(stripped.as_slice());
    if crate::text::has_char_exec(q.as_slice(), ' ') {
        None
    } else if q.len() == 0 {
        Some(None)
    } else {
        Some(Some(string_of(q.as_slice())))
    }
}

} // verus!
