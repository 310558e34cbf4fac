//! The console's I/O commands: which points an action may touch, how a pick
//! from the list is read, what `/io ...` asks for, and the set of forced points.
use vstd::prelude::*;

use crate::text::{
    chars_eq_str, chars_of, contains, contains_str, lower, lower_chars, parse_unsigned,
    parse_unsigned_chars, push_str, trim, trim_chars,
};
use crate::ui::command::strings_view;
use crate::ui::labels::LabelSet;
use crate::ui::catalog::pad_right;
use crate::ui::model::IoActionKind;
use crate::ui::style::{
    fg, fg_spec, header_spec, header_style, label_style, line_view, lines_view, selected_spec,
    selected_style, seg, value_style, Color, PromptLine, Style,
};

verus! {

/// An I/O point as the runtime reports it.
#[derive(Debug)]
pub struct IoEntry {
    pub name: String,
    pub address: String,
    pub value: String,
    pub direction: String,
}

/// Name, address, value and direction of an I/O point.
pub open spec fn io_entry_view(e: IoEntry) -> (Seq<char>, Seq<char>, Seq<char>, Seq<char>) {
    (e.name@, e.address@, e.value@, e.direction@)
}

pub open spec fn io_entries_view(s: Seq<IoEntry>) -> Seq<(Seq<char>, Seq<char>, Seq<char>, Seq<char>)> {
    s.map_values(|e: IoEntry| io_entry_view(e))
}

pub open spec fn io_action_label_spec(action: IoActionKind) -> Seq<char> {
    match action {
        IoActionKind::Read => "Read I/O"@,
        IoActionKind::SetValue => "Set I/O value"@,
        IoActionKind::Force => "Force I/O value"@,
        IoActionKind::Unforce => "Release I/O force"@,
    }
}

/// The heading of the list of I/O points offered for an action.
pub fn io_action_label(action: IoActionKind) -> (r: &'static str)
    ensures
        r@ == io_action_label_spec(action),
{
    match action {
        IoActionKind::Read => "Read I/O",
        IoActionKind::SetValue => "Set I/O value",
        IoActionKind::Force => "Force I/O value",
        IoActionKind::Unforce => "Release I/O force",
    }
}

/// `OUT` in any letter case.
pub open spec fn is_output_direction(direction: Seq<char>) -> bool {
    lower(direction) == "out"@
}

/// Reading works on every point; writing, forcing and releasing on outputs only.
pub open spec fn io_listed(action: IoActionKind, direction: Seq<char>) -> bool {
    action == IoActionKind::Read || is_output_direction(direction)
}

/// The positions, in order, of the points with these directions that `action` may touch.
pub open spec fn io_indices(directions: Seq<Seq<char>>, action: IoActionKind) -> Seq<int>
    decreases directions.len(),
{
    if directions.len() == 0 {
        Seq::empty()
    } else {
        let rest = io_indices(directions.drop_last(), action);
        if io_listed(action, directions.last()) {
            rest.push(directions.len() - 1)
        } else {
            rest
        }
    }
}

pub open spec fn directions_of(s: Seq<(Seq<char>, Seq<char>, Seq<char>, Seq<char>)>) -> Seq<Seq<char>> {
    s.map_values(|e: (Seq<char>, Seq<char>, Seq<char>, Seq<char>)| e.3)
}

fn is_output_direction_exec(direction: &str) -> (r: bool)
    ensures
        r == is_output_direction(direction@),
{
    let d = chars_of(direction);
    let l = lower_chars(d.as_slice());
    chars_eq_str(l.as_slice(), "out")
}

/// The positions of the points that `action` may touch, in list order.
pub fn io_entries_for_action(entries: &[IoEntry], action: IoActionKind) -> (r: Vec<usize>)
    ensures
        r@.map_values(|i: usize| i as int) == io_indices(directions_of(io_entries_view(entries@)), action),
{
    let ghost dirs = directions_of(io_entries_view(entries@));
    let mut r: Vec<usize> = Vec::new();
    let mut i: usize = 0;
    assert(dirs.take(0) =~= Seq::<Seq<char>>::empty());
    assert(r@.map_values(|k: usize| k as int) =~= Seq::<int>::empty());
    while i < entries.len()
        invariant
            i <= entries.len(),
            dirs == directions_of(io_entries_view(entries@)),
            dirs.len() == entries.len(),
            r@.map_values(|k: usize| k as int) == io_indices(dirs.take(i as int), action),
        decreases entries.len() - i,
    {
        assert(dirs.take(i + 1).drop_last() =~= dirs.take(i as int));
        assert(dirs.take(i + 1).last() == entries@[i as int].direction@);
        let listed = match action {
            IoActionKind::Read => true,
            _ => is_output_direction_exec(entries[i].direction.as_str()),
        };
        if listed {
            r.push(i);
            assert(r@.map_values(|k: usize| k as int) =~= io_indices(dirs.take(i as int), action).push(i as int));
        }
        i = i + 1;
    }
    assert(dirs.take(entries.len() as int) =~= dirs);
    r
}

/// A value the console offers TRUE/FALSE for: `true` or `false` in any letter
/// case, or a value shown as `Bool(..)`.
pub open spec fn is_bool_value_spec(value: Seq<char>) -> bool {
    let t = trim(value);
    lower(t) == "true"@ || lower(t) == "false"@ || contains(t, "Bool("@)
}

pub fn is_bool_value(value: &str) -> (r: bool)
    ensures
        r == is_bool_value_spec(value@),
{
    let raw = chars_of(value);
    let t = trim_chars(raw.as_slice());
    let l = lower_chars(t.as_slice());
    chars_eq_str(l.as_slice(), "true") || chars_eq_str(l.as_slice(), "false") || contains_str(t.as_slice(), "Bool(")
}

/// The row picked in a list: the highlighted one for a blank answer, else the
/// answer counted from one; `0` and anything but a number pick nothing.
pub open spec fn io_choice_spec(input: Seq<char>, current: nat) -> Option<nat> {
    let c = trim(input);
    if c.len() == 0 {
        Some(current)
    } else {
        match parse_unsigned(c, usize::MAX as nat) {
            Some(n) => if n == 0 { None } else { Some((n - 1) as nat) },
            None => None,
        }
    }
}

fn io_choice(input: &str, current: usize) -> (r: Option<usize>)
    ensures
        r == (match io_choice_spec(input@, current as nat) {
            Some(k) => Some(k as usize),
            None => None,
        }),
{
    let raw = chars_of(input);
    let c = trim_chars(raw.as_slice());
    if c.len() == 0 {
        return Some(current);
    }
    match parse_unsigned_chars(c.as_slice(), usize::MAX as u64) {
        Some(n) => if n == 0 { None } else { Some((n - 1) as usize) },
        None => None,
    }
}

/// What picking from the list of I/O points does.
#[derive(Debug)]
pub enum IoSelectOutcome<S> {
    /// No point fits the action: the list closes.
    Close,
    /// The answer names no row.
    Invalid,
    /// Show the value at this address.
    Read(S),
    /// Offer TRUE and FALSE for this address.
    ChooseValue(S),
    /// Put this command in the prompt for the user to finish with a value.
    EnterValue(S),
    /// Release the force on this address.
    Release(S),
}

pub open spec fn io_select_view(o: IoSelectOutcome<String>) -> IoSelectOutcome<Seq<char>> {
    match o {
        IoSelectOutcome::Close => IoSelectOutcome::Close,
        IoSelectOutcome::Invalid => IoSelectOutcome::Invalid,
        IoSelectOutcome::Read(a) => IoSelectOutcome::Read(a@),
        IoSelectOutcome::ChooseValue(a) => IoSelectOutcome::ChooseValue(a@),
        IoSelectOutcome::EnterValue(a) => IoSelectOutcome::EnterValue(a@),
        IoSelectOutcome::Release(a) => IoSelectOutcome::Release(a@),
    }
}

/// What answering `input` in the list of points for `action` does, with row
/// `current` highlighted.
pub open spec fn io_select_spec(
    input: Seq<char>,
    action: IoActionKind,
    current: nat,
    entries: Seq<(Seq<char>, Seq<char>, Seq<char>, Seq<char>)>,
) -> IoSelectOutcome<Seq<char>> {
    let idx = io_indices(directions_of(entries), action);
    if idx.len() == 0 {
        IoSelectOutcome::Close
    } else {
        match io_choice_spec(input, current) {
            None => IoSelectOutcome::Invalid,
            Some(k) => if k >= idx.len() {
                IoSelectOutcome::Invalid
            } else {
                let e = entries[idx[k as int]];
                match action {
                    IoActionKind::Read => IoSelectOutcome::Read(e.1),
                    IoActionKind::SetValue => if is_bool_value_spec(e.2) {
                        IoSelectOutcome::ChooseValue(e.1)
                    } else {
                        IoSelectOutcome::EnterValue("/io set "@ + e.1 + " "@)
                    },
                    IoActionKind::Force => if is_bool_value_spec(e.2) {
                        IoSelectOutcome::ChooseValue(e.1)
                    } else {
                        IoSelectOutcome::EnterValue("/io force "@ + e.1 + " "@)
                    },
                    IoActionKind::Unforce => IoSelectOutcome::Release(e.1),
                }
            },
        }
    }
}

proof fn lemma_io_indices_in_range(directions: Seq<Seq<char>>, action: IoActionKind)
    ensures
        forall|k: int| 0 <= k < io_indices(directions, action).len() ==> 0 <= #[trigger] io_indices(directions, action)[k] < directions.len(),
    decreases directions.len(),
{
    if directions.len() > 0 {
        let rest = io_indices(directions.drop_last(), action);
        lemma_io_indices_in_range(directions.drop_last(), action);
        assert forall|k: int| 0 <= k < io_indices(directions, action).len() implies 0 <= #[trigger] io_indices(directions, action)[k] < directions.len() by {
            if k < rest.len() {
                assert(io_indices(directions, action)[k] == rest[k]);
            }
        }
    }
}

/// Decides what answering `input` in the list of points for `action` does.
pub fn io_select(input: &str, action: IoActionKind, current: usize, entries: &[IoEntry]) -> (r: IoSelectOutcome<String>)
    ensures
        io_select_view(r) == io_select_spec(input@, action, current as nat, io_entries_view(entries@)),
{
    let idx = io_entries_for_action(entries, action);
    let ghost ev = io_entries_view(entries@);
    proof {
        lemma_io_indices_in_range(directions_of(ev), action);
    }
    if idx.len() == 0 {
        return IoSelectOutcome::Close;
    }
    let k = match io_choice(input, current) {
        Some(k) => k,
        None => return IoSelectOutcome::Invalid,
    };
    if k >= idx.len() {
        return IoSelectOutcome::Invalid;
    }
    let j = idx[k];
    assert(idx@.map_values(|i: usize| i as int)[k as int] == j as int);
    let e = &entries[j];
    assert(ev[j as int] == io_entry_view(entries@[j as int]));
    let address = e.address.clone();
    match action {
        IoActionKind::Read => IoSelectOutcome::Read(address),
        IoActionKind::Unforce => IoSelectOutcome::Release(address),
        IoActionKind::SetValue | IoActionKind::Force => {
            if is_bool_value(e.value.as_str()) {
                IoSelectOutcome::ChooseValue(address)
            } else {
                let mut cmd = if action == IoActionKind::SetValue {
                    "/io set ".to_owned()
                } else {
                    "/io force ".to_owned()
                };
                push_str(&mut cmd, address.as_str());
                push_str(&mut cmd, " ");
                IoSelectOutcome::EnterValue(cmd)
            }
        },
    }
}

/// What answering `input` in the TRUE/FALSE list does.
#[derive(Debug, Clone, Copy, PartialEq, Eq, Structural)]
pub enum IoValueOutcome {
    /// No point is waiting for a value: the list closes.
    Close,
    /// The answer names no row.
    Invalid,
    /// Write or force this value.
    Value(bool),
    /// Go back to the list of points.
    Back,
}

/// Rows: `TRUE`, `FALSE`, `Back`; a blank answer takes the highlighted row and
/// `0` goes back.
pub open spec fn io_value_spec(input: Seq<char>, current: nat, pending: bool) -> IoValueOutcome {
    if !pending {
        IoValueOutcome::Close
    } else {
        let c = trim(input);
        let picked: Option<nat> = if c.len() == 0 {
            Some(current)
        } else {
            match parse_unsigned(c, usize::MAX as nat) {
                Some(n) => if n == 0 { Some(2) } else { Some((n - 1) as nat) },
                None => None,
            }
        };
        match picked {
            None => IoValueOutcome::Invalid,
            Some(k) => if k == 0 {
                IoValueOutcome::Value(true)
            } else if k == 1 {
                IoValueOutcome::Value(false)
            } else {
                IoValueOutcome::Back
            },
        }
    }
}

/// Decides what answering `input` in the TRUE/FALSE list does; `pending` is
/// whether a point and an action wait for the value.
pub fn io_value_select(input: &str, current: usize, pending: bool) -> (r: IoValueOutcome)
    ensures
        r == io_value_spec(input@, current as nat, pending),
{
    if !pending {
        return IoValueOutcome::Close;
    }
    let raw = chars_of(input);
    let c = trim_chars(raw.as_slice());
    let picked: Option<usize> = if c.len() == 0 {
        Some(current)
    } else {
        match parse_unsigned_chars(c.as_slice(), usize::MAX as u64) {
            Some(n) => if n == 0 { Some(2) } else { Some((n - 1) as usize) },
            None => None,
        }
    };
    match picked {
        None => IoValueOutcome::Invalid,
        Some(0) => IoValueOutcome::Value(true),
        Some(1) => IoValueOutcome::Value(false),
        Some(_) => IoValueOutcome::Back,
    }
}

/// What `/io ...` asks for.
#[derive(Debug)]
pub enum IoCommand<S> {
    /// No sub-command: open the I/O menu.
    OpenMenu,
    /// List every point.
    List,
    /// The sub-command lacks its arguments: pick the point from a list.
    SelectFor(IoActionKind),
    /// Show the value at an address.
    Read(S),
    /// Write a value to an address.
    Write(S, S),
    /// Force an address to a value.
    Force(S, S),
    /// Release every force.
    ReleaseAll,
    /// Release the force on an address.
    Release(S),
    /// List the forced addresses.
    ShowForced,
    Unknown,
}

pub open spec fn io_command_view(c: IoCommand<String>) -> IoCommand<Seq<char>> {
    match c {
        IoCommand::OpenMenu => IoCommand::OpenMenu,
        IoCommand::List => IoCommand::List,
        IoCommand::SelectFor(a) => IoCommand::SelectFor(a),
        IoCommand::Read(a) => IoCommand::Read(a@),
        IoCommand::Write(a, v) => IoCommand::Write(a@, v@),
        IoCommand::Force(a, v) => IoCommand::Force(a@, v@),
        IoCommand::ReleaseAll => IoCommand::ReleaseAll,
        IoCommand::Release(a) => IoCommand::Release(a@),
        IoCommand::ShowForced => IoCommand::ShowForced,
        IoCommand::Unknown => IoCommand::Unknown,
    }
}

/// The meaning of the words after `/io`; words beyond those a sub-command uses
/// are ignored.
pub open spec fn io_command_spec(args: Seq<Seq<char>>) -> IoCommand<Seq<char>> {
    if args.len() == 0 {
        IoCommand::OpenMenu
    } else if args[0] == "list"@ {
        IoCommand::List
    } else if args[0] == "read"@ {
        if args.len() < 2 { IoCommand::SelectFor(IoActionKind::Read) } else { IoCommand::Read(args[1]) }
    } else if args[0] == "set"@ {
        if args.len() < 3 { IoCommand::SelectFor(IoActionKind::SetValue) } else { IoCommand::Write(args[1], args[2]) }
    } else if args[0] == "force"@ {
        if args.len() < 3 { IoCommand::SelectFor(IoActionKind::Force) } else { IoCommand::Force(args[1], args[2]) }
    } else if args[0] == "unforce"@ {
        if args.len() < 2 {
            IoCommand::SelectFor(IoActionKind::Unforce)
        } else if args[1] == "all"@ {
            IoCommand::ReleaseAll
        } else {
            IoCommand::Release(args[1])
        }
    } else if args[0] == "forced"@ {
        IoCommand::ShowForced
    } else {
        IoCommand::Unknown
    }
}

/// Reads the words after `/io`.
pub fn io_command(args: &[String]) -> (r: IoCommand<String>)
    ensures
        io_command_view(r) == io_command_spec(args@.map_values(|s: String| s@)),
{
    let ghost a = args@.map_values(|s: String| s@);
    if args.len() == 0 {
        return IoCommand::OpenMenu;
    }
    assert(a[0] == args@[0]@);
    let head = args[0].as_str();
    if crate::text::str_eq(head, "list") {
        IoCommand::List
    } else if crate::text::str_eq(head, "read") {
        if args.len() < 2 {
            IoCommand::SelectFor(IoActionKind::Read)
        } else {
            assert(a[1] == args@[1]@);
            IoCommand::Read(args[1].clone())
        }
    } else if crate::text::str_eq(head, "set") {
        if args.len() < 3 {
            IoCommand::SelectFor(IoActionKind::SetValue)
        } else {
            assert(a[1] == args@[1]@ && a[2] == args@[2]@);
            IoCommand::Write(args[1].clone(), args[2].clone())
        }
    } else if crate::text::str_eq(head, "force") {
        if args.len() < 3 {
            IoCommand::SelectFor(IoActionKind::Force)
        } else {
            assert(a[1] == args@[1]@ && a[2] == args@[2]@);
            IoCommand::Force(args[1].clone(), args[2].clone())
        }
    } else if crate::text::str_eq(head, "unforce") {
        if args.len() < 2 {
            IoCommand::SelectFor(IoActionKind::Unforce)
        } else {
            assert(a[1] == args@[1]@);
            if crate::text::str_eq(args[1].as_str(), "all") {
                IoCommand::ReleaseAll
            } else {
                IoCommand::Release(args[1].clone())
            }
        }
    } else if crate::text::str_eq(head, "forced") {
        IoCommand::ShowForced
    } else {
        IoCommand::Unknown
    }
}

/// The first point at `address`, if any.
pub open spec fn find_address(
    entries: Seq<(Seq<char>, Seq<char>, Seq<char>, Seq<char>)>,
    address: Seq<char>,
) -> Option<int>
    decreases entries.len(),
{
    if entries.len() == 0 {
        None
    } else {
        match find_address(entries.drop_last(), address) {
            Some(i) => Some(i),
            None => if entries.last().1 == address { Some(entries.len() - 1) } else { None },
        }
    }
}

/// The answer to `/io read <address>`: `<address> = <value>` for the first point
/// at that address.
pub open spec fn io_read_spec(entries: Seq<(Seq<char>, Seq<char>, Seq<char>, Seq<char>)>, address: Seq<char>) -> Option<Seq<char>> {
    match find_address(entries, address) {
        Some(i) => Some(entries[i].1 + " = "@ + entries[i].2),
        None => None,
    }
}

proof fn lemma_find_address_step(
    entries: Seq<(Seq<char>, Seq<char>, Seq<char>, Seq<char>)>,
    address: Seq<char>,
    i: int,
)
    requires
        0 <= i < entries.len(),
        find_address(entries.take(i), address) is None,
    ensures
        find_address(entries.take(i + 1), address) == (if entries[i].1 == address { Some(i) } else { None::<int> }),
{
    assert(entries.take(i + 1).drop_last() =~= entries.take(i));
}

proof fn lemma_find_address_found(
    entries: Seq<(Seq<char>, Seq<char>, Seq<char>, Seq<char>)>,
    address: Seq<char>,
    k: int,
)
    requires
        0 <= k <= entries.len(),
        find_address(entries.take(k), address) is Some,
    ensures
        find_address(entries, address) == find_address(entries.take(k), address),
    decreases entries.len() - k,
{
    if k < entries.len() {
        assert(entries.take(k + 1).drop_last() =~= entries.take(k));
        lemma_find_address_found(entries, address, k + 1);
    } else {
        assert(entries.take(k) =~= entries);
    }
}

/// Looks up `address` for `/io read`; `None` where no point has it.
pub fn io_read(entries: &[IoEntry], address: &str) -> (r: Option<String>)
    ensures
        match (r, io_read_spec(io_entries_view(entries@), address@)) {
            (Some(a), Some(b)) => a@ == b,
            (None, None) => true,
            _ => false,
        },
{
    let ghost ev = io_entries_view(entries@);
    let mut i: usize = 0;
    assert(ev.take(0) =~= Seq::<(Seq<char>, Seq<char>, Seq<char>, Seq<char>)>::empty());
    while i < entries.len()
        invariant
            i <= entries.len(),
            ev == io_entries_view(entries@),
            ev.len() == entries.len(),
            find_address(ev.take(i as int), address@) is None,
        decreases entries.len() - i,
    {
        proof {
            lemma_find_address_step(ev, address@, i as int);
        }
        assert(ev[i as int] == io_entry_view(entries@[i as int]));
        if crate::text::str_eq(entries[i].address.as_str(), address) {
            proof {
                lemma_find_address_found(ev, address@, i + 1);
            }
            let mut line = entries[i].address.clone();
            push_str(&mut line, " = ");
            push_str(&mut line, entries[i].value.as_str());
            return Some(line);
        }
        i = i + 1;
    }
    assert(ev.take(entries.len() as int) =~= ev);
    None
}

/// One row of `/io list`: direction, name, address and value. The name runs
/// straight into the address.
pub open spec fn io_list_line(e: (Seq<char>, Seq<char>, Seq<char>, Seq<char>)) -> Seq<char> {
    e.3 + " "@ + e.0 + e.1 + " "@ + e.2
}

pub open spec fn io_list_spec(entries: Seq<(Seq<char>, Seq<char>, Seq<char>, Seq<char>)>) -> Seq<Seq<char>> {
    entries.map_values(|e: (Seq<char>, Seq<char>, Seq<char>, Seq<char>)| io_list_line(e))
}

/// The rows of `/io list`, one per point.
pub fn io_list_lines(entries: &[IoEntry]) -> (r: Vec<String>)
    ensures
        strings_view(r@) == io_list_spec(io_entries_view(entries@)),
{
    let ghost ev = io_entries_view(entries@);
    let mut r: Vec<String> = Vec::new();
    let mut i: usize = 0;
    assert(strings_view(r@) =~= io_list_spec(ev.take(0)));
    while i < entries.len()
        invariant
            i <= entries.len(),
            ev == io_entries_view(entries@),
            ev.len() == entries.len(),
            strings_view(r@) == io_list_spec(ev.take(i as int)),
        decreases entries.len() - i,
    {
        let e = &entries[i];
        assert(ev[i as int] == io_entry_view(entries@[i as int]));
        let mut line = e.direction.clone();
        push_str(&mut line, " ");
        push_str(&mut line, e.name.as_str());
        push_str(&mut line, e.address.as_str());
        push_str(&mut line, " ");
        push_str(&mut line, e.value.as_str());
        assert(line@ == io_list_line(ev[i as int]));
        let ghost before = r@;
        r.push(line);
        assert(strings_view(r@) =~= strings_view(before).push(io_list_line(ev[i as int])));
        assert(io_list_spec(ev.take(i + 1)) =~= io_list_spec(ev.take(i as int)).push(io_list_line(ev[i as int])));
        i = i + 1;
    }
    assert(ev.take(entries.len() as int) =~= ev);
    r
}

/// Appends `t` padded with spaces on the right to `width` characters.
pub(crate) fn push_padded(out: &mut String, t: &str, width: usize)
    ensures
        final(out)@ == old(out)@ + pad_right(t@, width as nat),
{
    push_str(out, t);
    let n = chars_of(t).len();
    let mut k: usize = n;
    let ghost base = old(out)@ + t@;
    while k < width
        invariant
            n == t@.len(),
            n <= k <= width || (n >= width && k == n),
            base == old(out)@ + t@,
            out@ == base + Seq::new((k - n) as nat, |i: int| ' '),
        decreases width - k,
    {
        crate::text::push_char(out, ' ');
        assert(base + Seq::new((k - n) as nat, |i: int| ' ').push(' ') =~= base + Seq::new((k + 1 - n) as nat, |i: int| ' '));
        k = k + 1;
    }
    assert(out@ =~= old(out)@ + pad_right(t@, width as nat));
}

/// The mark after a forced point.
pub open spec fn forced_mark(forced: bool) -> Seq<char> {
    if forced { " *"@ } else { ""@ }
}

/// How a point is drawn in the list: the highlighted row in one piece, the
/// others column by column.
pub open spec fn io_row(e: (Seq<char>, Seq<char>, Seq<char>, Seq<char>), forced: bool, is_selected: bool) -> Seq<(Seq<char>, Style)> {
    if is_selected {
        seq![(pad_right(e.3, 3) + " "@ + pad_right(e.1, 7) + " "@ + pad_right(e.0, 10) + " "@ + e.2 + forced_mark(forced), selected_spec())]
    } else {
        seq![
            (pad_right(e.3, 3) + " "@, fg_spec(Color::Cyan)),
            (pad_right(e.1, 7) + " "@, fg_spec(Color::White)),
            (pad_right(e.0, 10) + " "@, fg_spec(Color::White)),
            (e.2, fg_spec(Color::White)),
            (forced_mark(forced), fg_spec(Color::Amber)),
        ]
    }
}

pub open spec fn io_header_rows(action: IoActionKind) -> Seq<Seq<(Seq<char>, Style)>> {
    seq![
        seq![(io_action_label_spec(action), header_spec())],
        seq![("DIR "@, header_spec()), ("ADDR    "@, header_spec()), ("NAME       "@, header_spec()), ("VALUE"@, header_spec())],
    ]
}

/// The list of points that `action` may touch, row `selected` highlighted.
pub open spec fn io_select_lines_spec(
    entries: Seq<(Seq<char>, Seq<char>, Seq<char>, Seq<char>)>,
    forced: Set<Seq<char>>,
    action: IoActionKind,
    selected: nat,
) -> Seq<Seq<(Seq<char>, Style)>> {
    let idx = io_indices(directions_of(entries), action);
    if idx.len() == 0 {
        io_header_rows(action).push(seq![("No matching I/O."@, fg_spec(Color::Info))])
    } else {
        (io_header_rows(action) + Seq::new(
            idx.len(),
            |r: int| io_row(entries[idx[r]], forced.contains(entries[idx[r]].1), r == selected),
        )).push(seq![("Use ↑/↓ and Enter. Esc to back."@, fg_spec(Color::Info))])
    }
}

fn io_row_line(e: &IoEntry, forced: bool, is_selected: bool) -> (r: PromptLine)
    ensures
        line_view(r) == io_row(io_entry_view(*e), forced, is_selected),
{
    let mark = if forced { " *" } else { "" };
    if is_selected {
        let mut text = String::new();
        push_padded(&mut text, e.direction.as_str(), 3);
        push_str(&mut text, " ");
        push_padded(&mut text, e.address.as_str(), 7);
        push_str(&mut text, " ");
        push_padded(&mut text, e.name.as_str(), 10);
        push_str(&mut text, " ");
        push_str(&mut text, e.value.as_str());
        push_str(&mut text, mark);
        PromptLine::plain(text, selected_style())
    } else {
        let mut dir = String::new();
        push_padded(&mut dir, e.direction.as_str(), 3);
        push_str(&mut dir, " ");
        let mut addr = String::new();
        push_padded(&mut addr, e.address.as_str(), 7);
        push_str(&mut addr, " ");
        let mut name = String::new();
        push_padded(&mut name, e.name.as_str(), 10);
        push_str(&mut name, " ");
        let mut segs: Vec<(String, Style)> = Vec::new();
        segs.push((dir, label_style()));
        segs.push((addr, value_style()));
        segs.push((name, value_style()));
        segs.push((e.value.clone(), value_style()));
        segs.push((mark.to_owned(), fg(Color::Amber)));
        let r = PromptLine::from_segments(segs);
        assert(line_view(r) =~= io_row(io_entry_view(*e), forced, is_selected));
        r
    }
}

/// Draws the list of points that `action` may touch, row `selected` highlighted.
pub fn io_select_lines(entries: &[IoEntry], forced: &LabelSet, action: IoActionKind, selected: usize) -> (r: Vec<PromptLine>)
    requires
        forced.wf(),
    ensures
        lines_view(r@) == io_select_lines_spec(io_entries_view(entries@), forced.view_set(), action, selected as nat),
{
    let ghost ev = io_entries_view(entries@);
    let idx = io_entries_for_action(entries, action);
    let ghost iv = idx@.map_values(|i: usize| i as int);
    proof {
        lemma_io_indices_in_range(directions_of(ev), action);
    }
    let mut lines: Vec<PromptLine> = Vec::new();
    lines.push(PromptLine::plain_str(io_action_label(action), header_style()));
    let mut heads: Vec<(String, Style)> = Vec::new();
    heads.push(seg("DIR ", header_style()));
    heads.push(seg("ADDR    ", header_style()));
    heads.push(seg("NAME       ", header_style()));
    heads.push(seg("VALUE", header_style()));
    let hl = PromptLine::from_segments(heads);
    assert(line_view(hl) =~= io_header_rows(action)[1]);
    let ghost first = lines@[0];
    lines.push(hl);
    assert(lines@ == seq![first, hl]);
    assert(lines_view(lines@) =~= io_header_rows(action));
    if idx.len() == 0 {
        lines.push(PromptLine::plain_str("No matching I/O.", fg(Color::Info)));
        assert(lines_view(lines@) =~= io_select_lines_spec(ev, forced.view_set(), action, selected as nat));
        return lines;
    }
    let mut row: usize = 0;
    while row < idx.len()
        invariant
            row <= idx.len(),
            ev == io_entries_view(entries@),
            iv == idx@.map_values(|i: usize| i as int),
            iv == io_indices(directions_of(ev), action),
            forall|k: int| 0 <= k < iv.len() ==> 0 <= #[trigger] iv[k] < ev.len(),
            forced.wf(),
            lines_view(lines@) == io_header_rows(action) + Seq::new(
                row as nat,
                |r: int| io_row(ev[iv[r]], forced.view_set().contains(ev[iv[r]].1), r == selected),
            ),
        decreases idx.len() - row,
    {
        let j = idx[row];
        assert(iv[row as int] == j as int);
        let e = &entries[j];
        assert(ev[j as int] == io_entry_view(entries@[j as int]));
        let is_forced = forced.contains(e.address.as_str());
        let line = io_row_line(e, is_forced, row == selected);
        let ghost before = lines@;
        lines.push(line);
        assert(lines_view(lines@) =~= lines_view(before).push(line_view(line)));
        assert(lines_view(lines@) =~= io_header_rows(action) + Seq::new(
            (row + 1) as nat,
            |r: int| io_row(ev[iv[r]], forced.view_set().contains(ev[iv[r]].1), r == selected),
        ));
        row = row + 1;
    }
    let ghost before = lines@;
    lines.push(PromptLine::plain_str("Use ↑/↓ and Enter. Esc to back.", fg(Color::Info)));
    assert(lines_view(lines@) =~= lines_view(before).push(seq![("Use ↑/↓ and Enter. Esc to back."@, fg_spec(Color::Info))]));
    lines
}

/// The rows of the TRUE/FALSE list.
pub open spec fn io_value_option(k: int) -> Seq<char> {
    if k == 0 { "TRUE"@ } else if k == 1 { "FALSE"@ } else { "Back"@ }
}

/// The TRUE/FALSE list for the point waiting for a value, row `selected` highlighted.
pub open spec fn io_value_lines_spec(address: Option<Seq<char>>, action: Option<IoActionKind>, selected: nat) -> Seq<Seq<(Seq<char>, Style)>> {
    let a = match address { Some(x) => x, None => "<io>"@ };
    let l = match action { Some(x) => io_action_label_spec(x), None => "I/O"@ };
    seq![seq![(l + " — "@ + a, header_spec())], seq![("Select value:"@, fg_spec(Color::Info))]] + Seq::new(
        3,
        |k: int| if k == selected { seq![(io_value_option(k), selected_spec())] } else { seq![(io_value_option(k), fg_spec(Color::White))] },
    )
}

/// Draws the TRUE/FALSE list.
pub fn io_value_lines(address: Option<&str>, action: Option<IoActionKind>, selected: usize) -> (r: Vec<PromptLine>)
    ensures
        lines_view(r@) == io_value_lines_spec(
            match address { Some(x) => Some(x@), None => None },
            action,
            selected as nat,
        ),
{
    let mut head = String::new();
    match action {
        Some(a) => push_str(&mut head, io_action_label(a)),
        None => push_str(&mut head, "I/O"),
    }
    push_str(&mut head, " — ");
    match address {
        Some(x) => push_str(&mut head, x),
        None => push_str(&mut head, "<io>"),
    }
    let mut lines: Vec<PromptLine> = Vec::new();
    lines.push(PromptLine::plain(head, header_style()));
    lines.push(PromptLine::plain_str("Select value:", fg(Color::Info)));
    let mut k: usize = 0;
    while k < 3
        invariant
            k <= 3,
            lines_view(lines@) == seq![
                lines_view(lines@)[0],
                seq![("Select value:"@, fg_spec(Color::Info))],
            ] + Seq::new(
                k as nat,
                |i: int| if i == selected { seq![(io_value_option(i), selected_spec())] } else { seq![(io_value_option(i), fg_spec(Color::White))] },
            ),
            lines_view(lines@)[0] == io_value_lines_spec(
                match address { Some(x) => Some(x@), None => None },
                action,
                selected as nat,
            )[0],
        decreases 3 - k,
    {
        let option = if k == 0 { "TRUE" } else if k == 1 { "FALSE" } else { "Back" };
        let line = if k == selected {
            PromptLine::plain_str(option, selected_style())
        } else {
            let mut segs: Vec<(String, Style)> = Vec::new();
            segs.push(seg(option, value_style()));
            let l = PromptLine::from_segments(segs);
            assert(line_view(l) =~= seq![(option@, fg_spec(Color::White))]);
            l
        };
        let ghost before = lines@;
        lines.push(line);
        assert(lines_view(lines@) =~= lines_view(before).push(line_view(line)));
        k = k + 1;
    }
    assert(lines_view(lines@) =~= io_value_lines_spec(
        match address { Some(x) => Some(x@), None => None },
        action,
        selected as nat,
    ));
    lines
}

} // verus!
