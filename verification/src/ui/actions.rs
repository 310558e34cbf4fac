//! What the console's `/control`, `/access`, `/linking`, `/log`, `/layout` and
//! `/focus` commands ask for, and the lines shown for the runtime's answers.
use vstd::prelude::*;

use crate::text::{
    chars_of, decimal, find_char, parse_unsigned, parse_unsigned_chars, push_decimal, push_str,
    slice_chars, split_once, str_eq, string_of,
};
use crate::entropy::{base64_len_fits, base64_standard, encode_standard};
use crate::ide::order::{lemma_lex_total, lemma_lex_transitive, lex_lt, lex_lt_exec};
use crate::ui::command::strings_view;
use crate::ui::model::{panel_parse_spec, PanelKind};
use crate::ui::style::Color;

verus! {

/// What `/control ...` asks for.
#[derive(Debug)]
pub enum ControlCommand<S> {
    /// No sub-command: open the control menu.
    OpenMenu,
    Pause,
    Resume,
    StepIn,
    StepOver,
    StepOut,
    /// `restart` without a mode: open the restart menu.
    RestartMenu,
    /// Restart in this mode.
    Restart(S),
    /// Ask for a yes/no before shutting down.
    AskShutdown,
    /// Set a breakpoint on a line of a source.
    SetBreakpoint(S, u32),
    ListBreakpoints,
    ClearAllBreakpoints,
    ClearBreakpoint(u32),
    /// The arguments were incomplete: nothing happens.
    Nothing,
    Unknown,
}

pub open spec fn control_view(c: ControlCommand<String>) -> ControlCommand<Seq<char>> {
    match c {
        ControlCommand::OpenMenu => ControlCommand::OpenMenu,
        ControlCommand::Pause => ControlCommand::Pause,
        ControlCommand::Resume => ControlCommand::Resume,
        ControlCommand::StepIn => ControlCommand::StepIn,
        ControlCommand::StepOver => ControlCommand::StepOver,
        ControlCommand::StepOut => ControlCommand::StepOut,
        ControlCommand::RestartMenu => ControlCommand::RestartMenu,
        ControlCommand::Restart(m) => ControlCommand::Restart(m@),
        ControlCommand::AskShutdown => ControlCommand::AskShutdown,
        ControlCommand::SetBreakpoint(f, l) => ControlCommand::SetBreakpoint(f@, l),
        ControlCommand::ListBreakpoints => ControlCommand::ListBreakpoints,
        ControlCommand::ClearAllBreakpoints => ControlCommand::ClearAllBreakpoints,
        ControlCommand::ClearBreakpoint(i) => ControlCommand::ClearBreakpoint(i),
        ControlCommand::Nothing => ControlCommand::Nothing,
        ControlCommand::Unknown => ControlCommand::Unknown,
    }
}

/// The meaning of the words after `/control`. `break <file>:<line>` takes line 1
/// where the line is not a number.
pub open spec fn control_spec(args: Seq<Seq<char>>) -> ControlCommand<Seq<char>> {
    if args.len() == 0 {
        ControlCommand::OpenMenu
    } else if args[0] == "pause"@ {
        ControlCommand::Pause
    } else if args[0] == "resume"@ {
        ControlCommand::Resume
    } else if args[0] == "step"@ {
        ControlCommand::StepIn
    } else if args[0] == "step-over"@ {
        ControlCommand::StepOver
    } else if args[0] == "step-out"@ {
        ControlCommand::StepOut
    } else if args[0] == "restart"@ {
        if args.len() < 2 { ControlCommand::RestartMenu } else { ControlCommand::Restart(args[1]) }
    } else if args[0] == "shutdown"@ {
        ControlCommand::AskShutdown
    } else if args[0] == "break"@ {
        if args.len() < 2 {
            ControlCommand::Nothing
        } else {
            match split_once(args[1], ':') {
                Some((file, line)) => ControlCommand::SetBreakpoint(
                    file,
                    match parse_unsigned(line, u32::MAX as nat) { Some(n) => n as u32, None => 1 },
                ),
                None => ControlCommand::Nothing,
            }
        }
    } else if args[0] == "breaks"@ {
        ControlCommand::ListBreakpoints
    } else if args[0] == "delete"@ {
        if args.len() < 2 {
            ControlCommand::Nothing
        } else if args[1] == "all"@ {
            ControlCommand::ClearAllBreakpoints
        } else {
            match parse_unsigned(args[1], u32::MAX as nat) {
                Some(n) => ControlCommand::ClearBreakpoint(n as u32),
                None => ControlCommand::Nothing,
            }
        }
    } else {
        ControlCommand::Unknown
    }
}

/// Reads the words after `/control`.
pub fn control_command(args: &[String]) -> (r: ControlCommand<String>)
    ensures
        control_view(r) == control_spec(strings_view(args@)),
{
    let ghost a = strings_view(args@);
    if args.len() == 0 {
        return ControlCommand::OpenMenu;
    }
    assert(a[0] == args@[0]@);
    let head = args[0].as_str();
    if str_eq(head, "pause") {
        ControlCommand::Pause
    } else if str_eq(head, "resume") {
        ControlCommand::Resume
    } else if str_eq(head, "step") {
        ControlCommand::StepIn
    } else if str_eq(head, "step-over") {
        ControlCommand::StepOver
    } else if str_eq(head, "step-out") {
        ControlCommand::StepOut
    } else if str_eq(head, "restart") {
        if args.len() < 2 {
            ControlCommand::RestartMenu
        } else {
            assert(a[1] == args@[1]@);
            ControlCommand::Restart(args[1].clone())
        }
    } else if str_eq(head, "shutdown") {
        ControlCommand::AskShutdown
    } else if str_eq(head, "break") {
        if args.len() < 2 {
            return ControlCommand::Nothing;
        }
        assert(a[1] == args@[1]@);
        let loc = chars_of(args[1].as_str());
        let i = find_char(loc.as_slice(), ':');
        if i < loc.len() {
            let file = slice_chars(loc.as_slice(), 0, i);
            let line = slice_chars(loc.as_slice(), i + 1, loc.len());
            assert(file@ =~= loc@.take(i as int));
            assert(line@ =~= loc@.skip(i + 1));
            let n = match parse_unsigned_chars(line.as_slice(), u32::MAX as u64) {
                Some(v) => v as u32,
                None => 1,
            };
            ControlCommand::SetBreakpoint(string_of(file.as_slice()), n)
        } else {
            ControlCommand::Nothing
        }
    } else if str_eq(head, "breaks") {
        ControlCommand::ListBreakpoints
    } else if str_eq(head, "delete") {
        if args.len() < 2 {
            return ControlCommand::Nothing;
        }
        assert(a[1] == args@[1]@);
        if str_eq(args[1].as_str(), "all") {
            ControlCommand::ClearAllBreakpoints
        } else {
            let t = chars_of(args[1].as_str());
            match parse_unsigned_chars(t.as_slice(), u32::MAX as u64) {
                Some(v) => ControlCommand::ClearBreakpoint(v as u32),
                None => ControlCommand::Nothing,
            }
        }
    } else {
        ControlCommand::Unknown
    }
}

/// The line shown when the runtime accepts a control command.
pub open spec fn control_success_spec(c: ControlCommand<Seq<char>>) -> Seq<char> {
    match c {
        ControlCommand::Pause => "Paused."@,
        ControlCommand::Resume => "Resumed."@,
        ControlCommand::StepIn => "Step."@,
        ControlCommand::StepOver => "Step over."@,
        ControlCommand::StepOut => "Step out."@,
        ControlCommand::Restart(_) => "Restarting..."@,
        ControlCommand::SetBreakpoint(_, _) => "Breakpoint set."@,
        ControlCommand::ClearAllBreakpoints => "Breakpoints cleared."@,
        ControlCommand::ClearBreakpoint(_) => "Breakpoint cleared."@,
        _ => ""@,
    }
}

pub fn control_success(c: &ControlCommand<String>) -> (r: &'static str)
    ensures
        r@ == control_success_spec(control_view(*c)),
{
    match c {
        ControlCommand::Pause => "Paused.",
        ControlCommand::Resume => "Resumed.",
        ControlCommand::StepIn => "Step.",
        ControlCommand::StepOver => "Step over.",
        ControlCommand::StepOut => "Step out.",
        ControlCommand::Restart(_) => "Restarting...",
        ControlCommand::SetBreakpoint(_, _) => "Breakpoint set.",
        ControlCommand::ClearAllBreakpoints => "Breakpoints cleared.",
        ControlCommand::ClearBreakpoint(_) => "Breakpoint cleared.",
        _ => "",
    }
}

/// A breakpoint as listed: `file <id> @ <start>`.
pub fn breakpoint_line(file_id: u64, start: u64) -> (r: String)
    ensures
        r@ == "file "@ + decimal(file_id as nat) + " @ "@ + decimal(start as nat),
{
    let mut v: Vec<char> = Vec::new();
    v.push('f');
    v.push('i');
    v.push('l');
    v.push('e');
    v.push(' ');
    push_decimal(&mut v, file_id);
    v.push(' ');
    v.push('@');
    v.push(' ');
    push_decimal(&mut v, start);
    assert(v@ =~= "file "@ + decimal(file_id as nat) + " @ "@ + decimal(start as nat)) by {
        reveal_strlit("file ");
        reveal_strlit(" @ ");
    }
    string_of(v.as_slice())
}

/// What `/access ...` asks for.
#[derive(Debug)]
pub enum AccessCommand<S> {
    OpenMenu,
    /// Start pairing: the runtime hands out an access code.
    Start,
    /// Claim an access code for a token.
    Claim(S),
    List,
    /// Revoke a token (or `all`).
    Revoke(S),
    /// `revoke` without an id: show how to use it.
    RevokeUsage,
    /// The arguments were incomplete: nothing happens.
    Nothing,
    Unknown,
}

pub open spec fn access_view(c: AccessCommand<String>) -> AccessCommand<Seq<char>> {
    match c {
        AccessCommand::OpenMenu => AccessCommand::OpenMenu,
        AccessCommand::Start => AccessCommand::Start,
        AccessCommand::Claim(x) => AccessCommand::Claim(x@),
        AccessCommand::List => AccessCommand::List,
        AccessCommand::Revoke(x) => AccessCommand::Revoke(x@),
        AccessCommand::RevokeUsage => AccessCommand::RevokeUsage,
        AccessCommand::Nothing => AccessCommand::Nothing,
        AccessCommand::Unknown => AccessCommand::Unknown,
    }
}

pub open spec fn access_spec(args: Seq<Seq<char>>) -> AccessCommand<Seq<char>> {
    if args.len() == 0 {
        AccessCommand::OpenMenu
    } else if args[0] == "start"@ {
        AccessCommand::Start
    } else if args[0] == "claim"@ {
        if args.len() < 2 { AccessCommand::Nothing } else { AccessCommand::Claim(args[1]) }
    } else if args[0] == "list"@ {
        AccessCommand::List
    } else if args[0] == "revoke"@ {
        if args.len() < 2 { AccessCommand::RevokeUsage } else { AccessCommand::Revoke(args[1]) }
    } else {
        AccessCommand::Unknown
    }
}

/// Reads the words after `/access`.
pub fn access_command(args: &[String]) -> (r: AccessCommand<String>)
    ensures
        access_view(r) == access_spec(strings_view(args@)),
{
    let ghost a = strings_view(args@);
    if args.len() == 0 {
        return AccessCommand::OpenMenu;
    }
    assert(a[0] == args@[0]@);
    let head = args[0].as_str();
    if str_eq(head, "start") {
        AccessCommand::Start
    } else if str_eq(head, "claim") {
        if args.len() < 2 {
            AccessCommand::Nothing
        } else {
            assert(a[1] == args@[1]@);
            AccessCommand::Claim(args[1].clone())
        }
    } else if str_eq(head, "list") {
        AccessCommand::List
    } else if str_eq(head, "revoke") {
        if args.len() < 2 {
            AccessCommand::RevokeUsage
        } else {
            assert(a[1] == args@[1]@);
            AccessCommand::Revoke(args[1].clone())
        }
    } else {
        AccessCommand::Unknown
    }
}

/// The line that shows a fresh access code.
pub fn access_code_line(code: &str) -> (r: String)
    ensures
        r@ == "Access code: "@ + code@ + " (valid 5 min)"@,
{
    let mut r = "Access code: ".to_owned();
    push_str(&mut r, code);
    push_str(&mut r, " (valid 5 min)");
    r
}

/// The line that shows a claimed token.
pub fn token_line(token: &str) -> (r: String)
    ensures
        r@ == "Token: "@ + token@,
{
    let mut r = "Token: ".to_owned();
    push_str(&mut r, token);
    r
}

/// What `/linking ...` asks for.
#[derive(Debug)]
pub enum LinkingCommand<S> {
    OpenMenu,
    /// Switch runtime linking on or off.
    SetEnabled(bool),
    /// Publish a variable to linked runtimes.
    Publish(S),
    /// Take a variable from a linked runtime: local name and source.
    Subscribe(S, S),
    /// The arguments were incomplete: nothing happens.
    Nothing,
    Unknown,
}

pub open spec fn linking_view(c: LinkingCommand<String>) -> LinkingCommand<Seq<char>> {
    match c {
        LinkingCommand::OpenMenu => LinkingCommand::OpenMenu,
        LinkingCommand::SetEnabled(b) => LinkingCommand::SetEnabled(b),
        LinkingCommand::Publish(x) => LinkingCommand::Publish(x@),
        LinkingCommand::Subscribe(k, v) => LinkingCommand::Subscribe(k@, v@),
        LinkingCommand::Nothing => LinkingCommand::Nothing,
        LinkingCommand::Unknown => LinkingCommand::Unknown,
    }
}

pub open spec fn linking_spec(args: Seq<Seq<char>>) -> LinkingCommand<Seq<char>> {
    if args.len() == 0 {
        LinkingCommand::OpenMenu
    } else if args[0] == "enable"@ {
        LinkingCommand::SetEnabled(true)
    } else if args[0] == "disable"@ {
        LinkingCommand::SetEnabled(false)
    } else if args[0] == "publish"@ {
        if args.len() < 2 { LinkingCommand::Nothing } else { LinkingCommand::Publish(args[1]) }
    } else if args[0] == "subscribe"@ {
        if args.len() < 3 { LinkingCommand::Nothing } else { LinkingCommand::Subscribe(args[1], args[2]) }
    } else {
        LinkingCommand::Unknown
    }
}

/// Reads the words after `/linking`.
pub fn linking_command(args: &[String]) -> (r: LinkingCommand<String>)
    ensures
        linking_view(r) == linking_spec(strings_view(args@)),
{
    let ghost a = strings_view(args@);
    if args.len() == 0 {
        return LinkingCommand::OpenMenu;
    }
    assert(a[0] == args@[0]@);
    let head = args[0].as_str();
    if str_eq(head, "enable") {
        LinkingCommand::SetEnabled(true)
    } else if str_eq(head, "disable") {
        LinkingCommand::SetEnabled(false)
    } else if str_eq(head, "publish") {
        if args.len() < 2 {
            LinkingCommand::Nothing
        } else {
            assert(a[1] == args@[1]@);
            LinkingCommand::Publish(args[1].clone())
        }
    } else if str_eq(head, "subscribe") {
        if args.len() < 3 {
            LinkingCommand::Nothing
        } else {
            assert(a[1] == args@[1]@ && a[2] == args@[2]@);
            LinkingCommand::Subscribe(args[1].clone(), args[2].clone())
        }
    } else {
        LinkingCommand::Unknown
    }
}

/// The published variables with `var` added at the end unless already there.
pub open spec fn publish_spec(current: Seq<Seq<char>>, var: Seq<char>) -> Seq<Seq<char>> {
    if current.contains(var) { current } else { current.push(var) }
}

/// The published variables after `/linking publish <var>`.
pub fn publish_with(current: &[String], var: &str) -> (r: Vec<String>)
    ensures
        strings_view(r@) == publish_spec(strings_view(current@), var@),
{
    let ghost cv = strings_view(current@);
    let mut r: Vec<String> = Vec::new();
    let mut found = false;
    let mut i: usize = 0;
    while i < current.len()
        invariant
            i <= current.len(),
            cv == strings_view(current@),
            strings_view(r@) == cv.take(i as int),
            found == cv.take(i as int).contains(var@),
        decreases current.len() - i,
    {
        let ghost before = r@;
        r.push(current[i].clone());
        assert(strings_view(r@) =~= strings_view(before).push(cv[i as int]));
        assert(cv.take(i + 1) =~= cv.take(i as int).push(cv[i as int]));
        if str_eq(current[i].as_str(), var) {
            found = true;
            assert(cv.take(i + 1)[i as int] == var@);
        } else if !found {
            assert forall|k: int| 0 <= k < i + 1 implies #[trigger] cv.take(i + 1)[k] != var@ by {
                if k < i {
                    assert(cv.take(i + 1)[k] == cv.take(i as int)[k]);
                }
            }
        } else {
            proof {
                let k = choose|k: int| 0 <= k < i && cv.take(i as int)[k] == var@;
                assert(cv.take(i + 1)[k] == var@);
            }
        }
        i = i + 1;
    }
    assert(cv.take(current.len() as int) =~= cv);
    if !found {
        let ghost before = r@;
        r.push(var.to_owned());
        assert(strings_view(r@) =~= strings_view(before).push(var@));
    }
    r
}

/// What `/log ...` asks for.
#[derive(Debug)]
pub enum LogCommand<S> {
    OpenMenu,
    /// Show the last events, at most this many.
    Tail(u64),
    /// Set the log level.
    SetLevel(S),
}

pub open spec fn log_view(c: LogCommand<String>) -> LogCommand<Seq<char>> {
    match c {
        LogCommand::OpenMenu => LogCommand::OpenMenu,
        LogCommand::Tail(n) => LogCommand::Tail(n),
        LogCommand::SetLevel(x) => LogCommand::SetLevel(x@),
    }
}

/// `tail` shows ten events unless a number follows; any other word is a level.
pub open spec fn log_spec(args: Seq<Seq<char>>) -> LogCommand<Seq<char>> {
    if args.len() == 0 {
        LogCommand::OpenMenu
    } else if args[0] == "tail"@ {
        LogCommand::Tail(
            if args.len() < 2 {
                10
            } else {
                match parse_unsigned(args[1], u64::MAX as nat) { Some(n) => n as u64, None => 10 }
            },
        )
    } else {
        LogCommand::SetLevel(args[0])
    }
}

/// Reads the words after `/log`.
pub fn log_command(args: &[String]) -> (r: LogCommand<String>)
    ensures
        log_view(r) == log_spec(strings_view(args@)),
{
    let ghost a = strings_view(args@);
    if args.len() == 0 {
        return LogCommand::OpenMenu;
    }
    assert(a[0] == args@[0]@);
    if str_eq(args[0].as_str(), "tail") {
        if args.len() < 2 {
            return LogCommand::Tail(10);
        }
        assert(a[1] == args@[1]@);
        let t = chars_of(args[1].as_str());
        match parse_unsigned_chars(t.as_slice(), u64::MAX) {
            Some(n) => LogCommand::Tail(n),
            None => LogCommand::Tail(10),
        }
    } else {
        LogCommand::SetLevel(args[0].clone())
    }
}

/// `(k, v)` put into the pairs `s`, kept in increasing key order: the value of
/// an equal key is replaced, otherwise the pair goes after every smaller key.
pub open spec fn upsert(s: Seq<(Seq<char>, Seq<char>)>, k: Seq<char>, v: Seq<char>) -> Seq<(Seq<char>, Seq<char>)>
    decreases s.len(),
{
    if s.len() == 0 {
        seq![(k, v)]
    } else if s.last().0 == k {
        s.drop_last().push((k, v))
    } else if lex_lt(k, s.last().0) {
        upsert(s.drop_last(), k, v).push(s.last())
    } else {
        s.push((k, v))
    }
}

/// The pairs gathered into a map ordered by key, a later pair winning over an
/// earlier one with the same key.
pub open spec fn ordered_pairs(pairs: Seq<(Seq<char>, Seq<char>)>) -> Seq<(Seq<char>, Seq<char>)>
    decreases pairs.len(),
{
    if pairs.len() == 0 {
        Seq::empty()
    } else {
        upsert(ordered_pairs(pairs.drop_last()), pairs.last().0, pairs.last().1)
    }
}

/// The subscriptions after `/linking subscribe <name> <source>`.
pub open spec fn subscribe_spec(current: Seq<(Seq<char>, Seq<char>)>, name: Seq<char>, source: Seq<char>) -> Seq<(Seq<char>, Seq<char>)> {
    upsert(ordered_pairs(current), name, source)
}

pub open spec fn pairs_view(s: Seq<(String, String)>) -> Seq<(Seq<char>, Seq<char>)> {
    s.map_values(|p: (String, String)| (p.0@, p.1@))
}

pub(crate) fn upsert_exec(s: &mut Vec<(String, String)>, k: &str, v: &str)
    ensures
        pairs_view(final(s)@) == upsert(pairs_view(old(s)@), k@, v@),
{
    let ghost p = pairs_view(s@);
    let kv = chars_of(k);
    let mut j: usize = s.len();
    assert(p.take(j as int) =~= p);
    assert(p.skip(j as int) =~= Seq::<(Seq<char>, Seq<char>)>::empty());
    loop
        invariant
            j <= s@.len(),
            s@ == old(s)@,
            p == pairs_view(s@),
            kv@ == k@,
            upsert(p, k@, v@) == upsert(p.take(j as int), k@, v@) + p.skip(j as int),
        ensures
            j <= s@.len(),
            s@ == old(s)@,
            p == pairs_view(s@),
            upsert(p, k@, v@) == p.take(j as int).push((k@, v@)) + p.skip(j as int),
        decreases j,
    {
        if j == 0 {
            assert(p.take(0) =~= Seq::<(Seq<char>, Seq<char>)>::empty());
            break;
        }
        let last = chars_of(s[j - 1].0.as_str());
        assert(p.take(j as int).last() == p[j - 1]);
        assert(p.take(j as int).drop_last() =~= p.take(j - 1));
        assert(last@ == p[j - 1].0);
        if crate::text::chars_eq(last.as_slice(), kv.as_slice()) {
            let _replaced = s.remove(j - 1);
            s.insert(j - 1, (k.to_owned(), v.to_owned()));
            assert(pairs_view(s@) =~= p.take(j - 1).push((k@, v@)) + p.skip(j as int));
            return;
        }
        if !lex_lt_exec(kv.as_slice(), last.as_slice()) {
            break;
        }
        assert(p.skip(j - 1) =~= seq![p[j - 1]] + p.skip(j as int));
        assert(upsert(p.take(j - 1), k@, v@).push(p[j - 1]) + p.skip(j as int) =~= upsert(p.take(j - 1), k@, v@) + p.skip(j - 1));
        j = j - 1;
    }
    s.insert(j, (k.to_owned(), v.to_owned()));
    assert(pairs_view(s@) =~= p.take(j as int).push((k@, v@)) + p.skip(j as int));
}

/// The subscriptions after `/linking subscribe <name> <source>`, ordered by name.
pub fn subscribe_with(current: &[(String, String)], name: &str, source: &str) -> (r: Vec<(String, String)>)
    ensures
        pairs_view(r@) == subscribe_spec(pairs_view(current@), name@, source@),
{
    let ghost cv = pairs_view(current@);
    let mut r: Vec<(String, String)> = Vec::new();
    let mut i: usize = 0;
    assert(cv.take(0) =~= Seq::<(Seq<char>, Seq<char>)>::empty());
    assert(pairs_view(r@) =~= Seq::<(Seq<char>, Seq<char>)>::empty());
    while i < current.len()
        invariant
            i <= current.len(),
            cv == pairs_view(current@),
            pairs_view(r@) == ordered_pairs(cv.take(i as int)),
        decreases current.len() - i,
    {
        assert(cv.take(i + 1).drop_last() =~= cv.take(i as int));
        assert(cv.take(i + 1).last() == (current@[i as int].0@, current@[i as int].1@));
        upsert_exec(&mut r, current[i].0.as_str(), current[i].1.as_str());
        i = i + 1;
    }
    assert(cv.take(current.len() as int) =~= cv);
    upsert_exec(&mut r, name, source);
    r
}

/// Keys in strictly increasing order.
pub open spec fn keys_ordered(s: Seq<(Seq<char>, Seq<char>)>) -> bool {
    forall|i: int, j: int| 0 <= i < j < s.len() ==> lex_lt(#[trigger] s[i].0, #[trigger] s[j].0)
}

pub(crate) proof fn lemma_upsert_keys(s: Seq<(Seq<char>, Seq<char>)>, k: Seq<char>, v: Seq<char>)
    requires
        keys_ordered(s),
    ensures
        keys_ordered(upsert(s, k, v)),
        upsert(s, k, v).contains((k, v)),
        forall|i: int| 0 <= i < upsert(s, k, v).len() ==> (#[trigger] upsert(s, k, v)[i]).0 == k || s.contains(upsert(s, k, v)[i]),
        forall|x: (Seq<char>, Seq<char>)| s.contains(x) && x.0 != k ==> upsert(s, k, v).contains(x),
    decreases s.len(),
{
    let u = upsert(s, k, v);
    if s.len() == 0 {
        assert(u[0] == (k, v));
    } else if s.last().0 == k {
        assert(u[u.len() - 1] == (k, v));
        assert forall|i: int, j: int| 0 <= i < j < u.len() implies lex_lt(#[trigger] u[i].0, #[trigger] u[j].0) by {
            if j == u.len() - 1 {
                assert(u[i] == s[i]);
                assert(lex_lt(s[i].0, s[s.len() - 1].0));
            } else {
                assert(u[i] == s[i] && u[j] == s[j]);
            }
        }
        assert forall|i: int| 0 <= i < u.len() implies (#[trigger] u[i]).0 == k || s.contains(u[i]) by {
            if i < u.len() - 1 {
                assert(u[i] == s[i]);
            }
        }
        assert forall|x: (Seq<char>, Seq<char>)| s.contains(x) && x.0 != k implies u.contains(x) by {
            let m = choose|m: int| 0 <= m < s.len() && s[m] == x;
            assert(m != s.len() - 1);
            assert(u[m] == x);
        }
    } else if lex_lt(k, s.last().0) {
        let d = s.drop_last();
        let w = upsert(d, k, v);
        assert(keys_ordered(d)) by {
            assert forall|i: int, j: int| 0 <= i < j < d.len() implies lex_lt(#[trigger] d[i].0, #[trigger] d[j].0) by {
                assert(d[i] == s[i] && d[j] == s[j]);
            }
        }
        lemma_upsert_keys(d, k, v);
        assert(u == w.push(s.last()));
        assert forall|i: int, j: int| 0 <= i < j < u.len() implies lex_lt(#[trigger] u[i].0, #[trigger] u[j].0) by {
            if j == u.len() - 1 {
                assert(u[i] == w[i]);
                assert(u[j] == s.last());
                if w[i].0 == k {
                } else {
                    assert(d.contains(w[i]));
                    let m = choose|m: int| 0 <= m < d.len() && d[m] == w[i];
                    assert(s[m] == w[i]);
                    assert(lex_lt(s[m].0, s[s.len() - 1].0));
                }
            } else {
                assert(u[i] == w[i] && u[j] == w[j]);
            }
        }
        assert(u.contains((k, v))) by {
            let m = choose|m: int| 0 <= m < w.len() && w[m] == (k, v);
            assert(u[m] == (k, v));
        }
        assert forall|i: int| 0 <= i < u.len() implies (#[trigger] u[i]).0 == k || s.contains(u[i]) by {
            if i < u.len() - 1 {
                assert(u[i] == w[i]);
                if w[i].0 != k {
                    assert(d.contains(w[i]));
                    let m = choose|m: int| 0 <= m < d.len() && d[m] == w[i];
                    assert(s[m] == w[i]);
                }
            } else {
                assert(s[s.len() - 1] == u[i]);
            }
        }
        assert forall|x: (Seq<char>, Seq<char>)| s.contains(x) && x.0 != k implies u.contains(x) by {
            let m = choose|m: int| 0 <= m < s.len() && s[m] == x;
            if m == s.len() - 1 {
                assert(u[u.len() - 1] == x);
            } else {
                assert(d[m] == x);
                assert(d.contains(x));
                assert(w.contains(x));
                let n = choose|n: int| 0 <= n < w.len() && w[n] == x;
                assert(u[n] == x);
            }
        }
    } else {
        lemma_lex_total(k, s.last().0);
        assert(u[u.len() - 1] == (k, v));
        assert forall|i: int, j: int| 0 <= i < j < u.len() implies lex_lt(#[trigger] u[i].0, #[trigger] u[j].0) by {
            if j == u.len() - 1 {
                assert(u[i] == s[i]);
                if i < s.len() - 1 {
                    assert(lex_lt(s[i].0, s[s.len() - 1].0));
                    lemma_lex_transitive(s[i].0, s[s.len() - 1].0, k);
                }
            } else {
                assert(u[i] == s[i] && u[j] == s[j]);
            }
        }
        assert forall|i: int| 0 <= i < u.len() implies (#[trigger] u[i]).0 == k || s.contains(u[i]) by {
            if i < u.len() - 1 {
                assert(u[i] == s[i]);
            }
        }
        assert forall|x: (Seq<char>, Seq<char>)| s.contains(x) && x.0 != k implies u.contains(x) by {
            let m = choose|m: int| 0 <= m < s.len() && s[m] == x;
            assert(u[m] == x);
        }
    }
}

proof fn lemma_ordered_pairs_keys(pairs: Seq<(Seq<char>, Seq<char>)>)
    ensures
        keys_ordered(ordered_pairs(pairs)),
    decreases pairs.len(),
{
    if pairs.len() > 0 {
        lemma_ordered_pairs_keys(pairs.drop_last());
        lemma_upsert_keys(ordered_pairs(pairs.drop_last()), pairs.last().0, pairs.last().1);
    }
}

/// After `/linking subscribe <name> <source>` the subscriptions are ordered by
/// name with no name twice, `name` takes `source`, and every other
/// subscription stays.
pub proof fn law_subscribe_replaces_one(current: Seq<(Seq<char>, Seq<char>)>, name: Seq<char>, source: Seq<char>)
    ensures
        keys_ordered(subscribe_spec(current, name, source)),
        subscribe_spec(current, name, source).contains((name, source)),
        forall|x: (Seq<char>, Seq<char>)| ordered_pairs(current).contains(x) && x.0 != name ==> subscribe_spec(current, name, source).contains(x),
        forall|i: int| 0 <= i < subscribe_spec(current, name, source).len() ==>
            (#[trigger] subscribe_spec(current, name, source)[i]).0 == name || ordered_pairs(current).contains(subscribe_spec(current, name, source)[i]),
{
    lemma_ordered_pairs_keys(current);
    lemma_upsert_keys(ordered_pairs(current), name, source);
}

/// The panels named by `args`, each once, in order; words naming no panel are
/// skipped.
pub open spec fn named_panels(args: Seq<Seq<char>>) -> Seq<PanelKind>
    decreases args.len(),
{
    if args.len() == 0 {
        Seq::empty()
    } else {
        let p = named_panels(args.drop_last());
        match panel_parse_spec(args.last()) {
            Some(k) => if p.contains(k) { p } else { p.push(k) },
            None => p,
        }
    }
}

/// The layout that `/layout <panels>` sets: the panels named by the first four
/// words, filled up to four with the status panel; none when no word names a
/// panel.
pub open spec fn layout_spec(args: Seq<Seq<char>>) -> Option<Seq<PanelKind>> {
    let p = named_panels(args.take(if args.len() < 4 { args.len() as int } else { 4 }));
    if p.len() == 0 {
        None
    } else {
        Some(p + Seq::new((4 - p.len()) as nat, |i: int| PanelKind::Status))
    }
}

proof fn lemma_named_panels_len(args: Seq<Seq<char>>)
    ensures
        named_panels(args).len() <= args.len(),
    decreases args.len(),
{
    if args.len() > 0 {
        lemma_named_panels_len(args.drop_last());
    }
}

/// The layout asked for by the words after `/layout`, if any word names a panel.
pub fn layout_from_args(args: &[String]) -> (r: Option<Vec<PanelKind>>)
    ensures
        match (r, layout_spec(strings_view(args@))) {
            (Some(v), Some(s)) => v@ == s,
            (None, None) => true,
            _ => false,
        },
{
    let ghost a = strings_view(args@);
    let n: usize = if args.len() < 4 { args.len() } else { 4 };
    let ghost t = a.take(n as int);
    let mut panels: Vec<PanelKind> = Vec::new();
    let mut i: usize = 0;
    assert(t.take(0) =~= Seq::<Seq<char>>::empty());
    while i < n
        invariant
            i <= n,
            n <= args.len(),
            a == strings_view(args@),
            t == a.take(n as int),
            panels@ == named_panels(t.take(i as int)),
        decreases n - i,
    {
        assert(t.take(i + 1).drop_last() =~= t.take(i as int));
        assert(t.take(i + 1).last() == args@[i as int]@);
        if let Some(k) = PanelKind::parse(args[i].as_str()) {
            let mut seen = false;
            let mut j: usize = 0;
            while j < panels.len()
                invariant
                    j <= panels.len(),
                    seen == panels@.take(j as int).contains(k),
                decreases panels.len() - j,
            {
                assert(panels@.take(j + 1) =~= panels@.take(j as int).push(panels@[j as int]));
                if panels[j] == k {
                    seen = true;
                }
                proof {
                    if seen {
                        if panels@[j as int] == k {
                            assert(panels@.take(j + 1)[j as int] == k);
                        } else {
                            let m = choose|m: int| 0 <= m < j && panels@.take(j as int)[m] == k;
                            assert(panels@.take(j + 1)[m] == k);
                        }
                    } else {
                        assert forall|m: int| 0 <= m < j + 1 implies #[trigger] panels@.take(j + 1)[m] != k by {
                            if m < j {
                                assert(panels@.take(j + 1)[m] == panels@.take(j as int)[m]);
                            }
                        }
                    }
                }
                j = j + 1;
            }
            assert(panels@.take(panels.len() as int) =~= panels@);
            if !seen {
                panels.push(k);
            }
        }
        i = i + 1;
    }
    assert(t.take(n as int) =~= t);
    proof {
        lemma_named_panels_len(t);
    }
    if panels.len() == 0 {
        return None;
    }
    let ghost p = panels@;
    while panels.len() < 4
        invariant
            p.len() <= panels.len() <= 4,
            panels@ == p + Seq::new((panels.len() - p.len()) as nat, |i: int| PanelKind::Status),
        decreases 4 - panels.len(),
    {
        let ghost before = panels@;
        panels.push(PanelKind::Status);
        assert(panels@ =~= p + Seq::new((panels.len() - p.len()) as nat, |i: int| PanelKind::Status));
    }
    Some(panels)
}

/// A panel's name as `/layout` prints it.
pub open spec fn panel_name_spec(k: PanelKind) -> Seq<char> {
    match k {
        PanelKind::Cycle => "cycle"@,
        PanelKind::Io => "io"@,
        PanelKind::Status => "status"@,
        PanelKind::Events => "events"@,
        PanelKind::Tasks => "tasks"@,
        PanelKind::Watch => "watch"@,
    }
}

fn panel_name(k: PanelKind) -> (r: &'static str)
    ensures
        r@ == panel_name_spec(k),
{
    match k {
        PanelKind::Cycle => "cycle",
        PanelKind::Io => "io",
        PanelKind::Status => "status",
        PanelKind::Events => "events",
        PanelKind::Tasks => "tasks",
        PanelKind::Watch => "watch",
    }
}

/// The panel names joined by single spaces.
pub open spec fn panel_names(layout: Seq<PanelKind>) -> Seq<char>
    decreases layout.len(),
{
    if layout.len() == 0 {
        Seq::empty()
    } else if layout.len() == 1 {
        panel_name_spec(layout[0])
    } else {
        panel_names(layout.drop_last()) + " "@ + panel_name_spec(layout.last())
    }
}

/// What `/layout` alone shows: `Current: ` and the panel names.
pub fn layout_text(layout: &[PanelKind]) -> (r: String)
    ensures
        r@ == "Current: "@ + panel_names(layout@),
{
    let mut r = "Current: ".to_owned();
    let mut i: usize = 0;
    assert(layout@.take(0) =~= Seq::<PanelKind>::empty());
    while i < layout.len()
        invariant
            i <= layout.len(),
            r@ == "Current: "@ + panel_names(layout@.take(i as int)),
        decreases layout.len() - i,
    {
        assert(layout@.take(i + 1).drop_last() =~= layout@.take(i as int));
        if i > 0 {
            push_str(&mut r, " ");
        } else {
            assert(layout@.take(1)[0] == layout@[0]);
        }
        push_str(&mut r, panel_name(layout[i]));
        i = i + 1;
    }
    assert(layout@.take(layout.len() as int) =~= layout@);
    r
}

/// The panel `/focus <name>` focuses, and the line it shows, if the first word
/// names a panel.
pub open spec fn focus_spec(args: Seq<Seq<char>>) -> Option<(PanelKind, Seq<char>)> {
    if args.len() == 0 {
        None
    } else {
        match panel_parse_spec(args[0]) {
            Some(k) => Some((k, "Focused "@ + args[0] + "."@)),
            None => None,
        }
    }
}

/// Reads the words after `/focus`.
pub fn focus_from_args(args: &[String]) -> (r: Option<(PanelKind, String)>)
    ensures
        match (r, focus_spec(strings_view(args@))) {
            (Some(x), Some(y)) => x.0 == y.0 && x.1@ == y.1,
            (None, None) => true,
            _ => false,
        },
{
    if args.len() == 0 {
        return None;
    }
    assert(strings_view(args@)[0] == args@[0]@);
    match PanelKind::parse(args[0].as_str()) {
        Some(k) => {
            let mut text = "Focused ".to_owned();
            push_str(&mut text, args[0].as_str());
            push_str(&mut text, ".");
            Some((k, text))
        },
        None => None,
    }
}

/// The line shown for a runtime's answer: its error in red, else `success` in
/// green; a request that failed shows `Error: ` and the failure in red.
pub open spec fn simple_response_spec(reply: Result<Option<Seq<char>>, Seq<char>>, success: Seq<char>) -> (Seq<char>, Color) {
    match reply {
        Ok(Some(err)) => (err, Color::Red),
        Ok(None) => (success, Color::Green),
        Err(e) => ("Error: "@ + e, Color::Red),
    }
}

/// The line shown for a runtime's answer; `reply` holds the answer's error
/// text, if any, or the request's failure.
pub fn simple_response(reply: &Result<Option<String>, String>, success: &str) -> (r: (String, Color))
    ensures
        (r.0@, r.1) == simple_response_spec(
            match reply {
                Ok(Some(e)) => Ok(Some(e@)),
                Ok(None) => Ok(None),
                Err(e) => Err(e@),
            },
            success@,
        ),
{
    match reply {
        Ok(Some(err)) => (err.clone(), Color::Red),
        Ok(None) => (success.to_owned(), Color::Green),
        Err(e) => {
            let mut t = "Error: ".to_owned();
            push_str(&mut t, e.as_str());
            (t, Color::Red)
        },
    }
}

/// What the console does once a setting change was answered.
#[derive(Debug)]
pub enum ConfigReply {
    /// Show this line in this colour.
    Show(String, Color),
    /// The change needs a restart: open the restart menu.
    RestartMenu,
}

/// A refused change shows its error (or `error`) in red; an accepted one opens
/// the restart menu when a restart is needed, else shows `success` in green.
pub open spec fn config_reply_spec(ok: bool, restart_required: bool, error: Option<Seq<char>>, success: Seq<char>) -> Option<(Seq<char>, Color)> {
    if !ok {
        Some((match error { Some(e) => e, None => "error"@ }, Color::Red))
    } else if restart_required {
        None
    } else {
        Some((success, Color::Green))
    }
}

pub fn set_config_response(ok: bool, restart_required: bool, error: Option<String>, success: &str) -> (r: ConfigReply)
    ensures
        match (r, config_reply_spec(ok, restart_required, match error { Some(e) => Some(e@), None => None }, success@)) {
            (ConfigReply::Show(t, c), Some(x)) => t@ == x.0 && c == x.1,
            (ConfigReply::RestartMenu, None) => true,
            _ => false,
        },
{
    if !ok {
        let text = match error {
            Some(e) => e,
            None => "error".to_owned(),
        };
        return ConfigReply::Show(text, Color::Red);
    }
    if restart_required {
        ConfigReply::RestartMenu
    } else {
        ConfigReply::Show(success.to_owned(), Color::Green)
    }
}

/// The text that carries a compiled program to the runtime for a reload: its
/// bytes in standard base64.
pub fn reload_payload(bytes: &[u8]) -> (r: String)
    requires
        base64_len_fits(bytes.len() as nat),
    ensures
        r@ == base64_standard(bytes@),
        r@.len() == 4 * ((bytes.len() + 2) / 3),
{
    encode_standard(bytes)
}

} // verus!
