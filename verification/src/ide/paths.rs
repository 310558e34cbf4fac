//! Workspace path normalization, project templates and glob filters.
use vstd::prelude::*;

use crate::ide::model::{ide_error, IdeError, IdeErrorKind};
use crate::text::{
    chars_eq_str, chars_of, ends_with, ends_with_str, lower, lower_chars, push_chars, push_str,
    slice_chars, starts_with, string_of, trim, trim_chars, decimal, decimal_chars,
};

verus! {

// ---------------------------------------------------------------------------
// Splitting on a separator
// ---------------------------------------------------------------------------

/// Reading `s` left to right: the pieces closed by `sep` and the open piece.
pub open spec fn scan_pieces(s: Seq<char>, sep: char) -> (Seq<Seq<char>>, Seq<char>)
    decreases s.len(),
{
    if s.len() == 0 {
        (Seq::empty(), Seq::empty())
    } else {
        let (done, cur) = scan_pieces(s.drop_last(), sep);
        if s.last() == sep {
            (done.push(cur), Seq::empty())
        } else {
            (done, cur.push(s.last()))
        }
    }
}

/// `str::split(sep)`: every piece between separators, empty ones included.
pub open spec fn split_all(s: Seq<char>, sep: char) -> Seq<Seq<char>> {
    let (done, cur) = scan_pieces(s, sep);
    done.push(cur)
}

/// The pieces of `s` between occurrences of `sep`.
pub fn split_chars(s: &[char], sep: char) -> (r: Vec<Vec<char>>)
    ensures
        r@.len() == split_all(s@, sep).len(),
        forall|i: int| 0 <= i < r@.len() ==> (#[trigger] r@[i])@ == split_all(s@, sep)[i],
{
    let mut done: Vec<Vec<char>> = Vec::new();
    let mut cur: Vec<char> = Vec::new();
    let mut i: usize = 0;
    while i < s.len()
        invariant
            i <= s.len(),
            done@.len() == scan_pieces(s@.take(i as int), sep).0.len(),
            forall|k: int|
                0 <= k < done@.len() ==> (#[trigger] done@[k])@ == scan_pieces(
                    s@.take(i as int),
                    sep,
                ).0[k],
            cur@ == scan_pieces(s@.take(i as int), sep).1,
        decreases s.len() - i,
    {
        assert(s@.take(i + 1).drop_last() == s@.take(i as int));
        assert(s@.take(i + 1).last() == s@[i as int]);
        if s[i] == sep {
            let mut piece: Vec<char> = Vec::new();
            std::mem::swap(&mut piece, &mut cur);
            done.push(piece);
        } else {
            cur.push(s[i]);
        }
        i = i + 1;
    }
    assert(s@.take(s.len() as int) == s@);
    done.push(cur);
    done
}

/// Pieces joined with `sep`.
pub open spec fn join_with(ps: Seq<Seq<char>>, sep: char) -> Seq<char>
    decreases ps.len(),
{
    if ps.len() == 0 {
        Seq::empty()
    } else if ps.len() == 1 {
        ps[0]
    } else {
        join_with(ps.drop_last(), sep) + seq![sep] + ps.last()
    }
}

pub fn join_chars(ps: &Vec<Vec<char>>, sep: char) -> (r: Vec<char>)
    ensures
        r@ == join_with(ps@.map_values(|p: Vec<char>| p@), sep),
{
    let ghost views = ps@.map_values(|p: Vec<char>| p@);
    let mut out: Vec<char> = Vec::new();
    let mut i: usize = 0;
    while i < ps.len()
        invariant
            views == ps@.map_values(|p: Vec<char>| p@),
            i <= ps.len(),
            out@ == join_with(views.take(i as int), sep),
        decreases ps.len() - i,
    {
        if i > 0 {
            out.push(sep);
        }
        let prev = out;
        out = crate::text::concat_chars(prev.as_slice(), ps[i].as_slice());
        proof {
            let t = views.take(i + 1);
            assert(t.drop_last() == views.take(i as int));
            assert(t.last() == ps@[i as int]@);
            if i == 0 {
                assert(views.take(0).len() == 0);
            }
        }
        i = i + 1;
    }
    assert(views.take(ps.len() as int) == views);
    out
}

// ---------------------------------------------------------------------------
// Workspace paths
// ---------------------------------------------------------------------------

/// Why a workspace path is refused.
#[derive(Debug, Clone, Copy, PartialEq, Eq, Structural)]
pub enum PathIssue {
    Hidden,
    Escapes,
}

/// The components of a relative path, read left to right: empty and `.` pieces
/// are skipped, `..` escapes the root, a name starting with `.` is hidden. The
/// first offending piece decides.
pub open spec fn path_parts(pieces: Seq<Seq<char>>) -> Result<Seq<Seq<char>>, PathIssue>
    decreases pieces.len(),
{
    if pieces.len() == 0 {
        Ok(Seq::empty())
    } else {
        let p = pieces[0];
        if p.len() == 0 || p == "."@ {
            path_parts(pieces.drop_first())
        } else if p == ".."@ {
            Err(PathIssue::Escapes)
        } else if p[0] == '.' {
            Err(PathIssue::Hidden)
        } else {
            match path_parts(pieces.drop_first()) {
                Ok(rest) => Ok(seq![p] + rest),
                Err(e) => Err(e),
            }
        }
    }
}

/// The outcome of normalizing a workspace path: the normalized path, or the kind
/// and message of the refusal.
pub open spec fn workspace_path_spec(path: Seq<char>, allow_root: bool) -> Result<
    Seq<char>,
    (IdeErrorKind, Seq<char>),
> {
    let t = trim(path);
    if t.len() == 0 {
        if allow_root {
            Ok(Seq::empty())
        } else {
            Err((IdeErrorKind::InvalidInput, "workspace path is required"@))
        }
    } else if t[0] == '/' {
        Err((IdeErrorKind::Forbidden, "absolute workspace paths are not allowed"@))
    } else {
        match path_parts(split_all(t, '/')) {
            Err(PathIssue::Hidden) => Err(
                (IdeErrorKind::Forbidden, "hidden workspace paths are not allowed"@),
            ),
            Err(PathIssue::Escapes) => Err(
                (IdeErrorKind::Forbidden, "workspace path escapes project root"@),
            ),
            Ok(parts) => if parts.len() == 0 {
                Err((IdeErrorKind::InvalidInput, "workspace path is required"@))
            } else {
                Ok(join_with(parts, '/'))
            },
        }
    }
}

/// The result of a path operation against its specification.
pub open spec fn path_result_matches(
    r: Result<String, IdeError>,
    spec: Result<Seq<char>, (IdeErrorKind, Seq<char>)>,
) -> bool {
    match r {
        Ok(s) => spec == Ok::<Seq<char>, (IdeErrorKind, Seq<char>)>(s@),
        Err(e) => spec == Err::<Seq<char>, (IdeErrorKind, Seq<char>)>(
            (e.kind_spec(), e.message_spec()),
        ),
    }
}

/// Normalizes a path relative to the workspace root: components joined with `/`,
/// refusing absolute, hidden and escaping paths.
pub fn normalize_workspace_path(path: &str, allow_root: bool) -> (r: Result<String, IdeError>)
    ensures
        path_result_matches(r, workspace_path_spec(path@, allow_root)),
{
    let raw = chars_of(path);
    let t = trim_chars(raw.as_slice());
    if t.len() == 0 {
        if allow_root {
            return Ok(String::new());
        }
        return Err(ide_error(IdeErrorKind::InvalidInput, "workspace path is required"));
    }
    if t[0] == '/' {
        return Err(ide_error(IdeErrorKind::Forbidden, "absolute workspace paths are not allowed"));
    }
    let pieces = split_chars(t.as_slice(), '/');
    let ghost ps = split_all(t@, '/');
    let mut parts: Vec<Vec<char>> = Vec::new();
    let mut i: usize = 0;
    assert(ps.skip(0) == ps);
    while i < pieces.len()
        invariant
            t@ == trim(path@),
            t@.len() > 0,
            t@[0] != '/',
            ps == split_all(t@, '/'),
            pieces@.len() == ps.len(),
            forall|k: int| 0 <= k < ps.len() ==> (#[trigger] pieces@[k])@ == ps[k],
            i <= pieces.len(),
            path_parts(ps) == match path_parts(ps.skip(i as int)) {
                Ok(rest) => Ok(parts@.map_values(|p: Vec<char>| p@) + rest),
                Err(e) => Err(e),
            },
        decreases pieces.len() - i,
    {
        let p = &pieces[i];
        proof {
            let rest = ps.skip(i as int);
            assert(rest[0] == ps[i as int]);
            assert(rest.drop_first() == ps.skip(i + 1));
            reveal_strlit(".");
            reveal_strlit("..");
        }
        if p.len() == 0 || chars_eq_str(p.as_slice(), ".") {
        } else if chars_eq_str(p.as_slice(), "..") {
            assert(path_parts(ps.skip(i as int)) == Err::<Seq<Seq<char>>, PathIssue>(PathIssue::Escapes));
            return Err(ide_error(IdeErrorKind::Forbidden, "workspace path escapes project root"));
        } else if p[0] == '.' {
            assert(path_parts(ps.skip(i as int)) == Err::<Seq<Seq<char>>, PathIssue>(PathIssue::Hidden));
            return Err(ide_error(IdeErrorKind::Forbidden, "hidden workspace paths are not allowed"));
        } else {
            let ghost before = parts@.map_values(|q: Vec<char>| q@);
            let copy = slice_chars(p.as_slice(), 0, p.len());
            assert(copy@ == ps[i as int]);
            parts.push(copy);
            proof {
                let after = parts@.map_values(|q: Vec<char>| q@);
                assert(after =~= before.push(ps[i as int]));
                match path_parts(ps.skip(i + 1)) {
                    Ok(rest) => {
                        assert(before + (seq![ps[i as int]] + rest) == after + rest);
                    },
                    Err(e) => {},
                }
            }
        }
        i = i + 1;
    }
    assert(ps.skip(pieces.len() as int).len() == 0);
    assert(parts@.map_values(|p: Vec<char>| p@) + Seq::<Seq<char>>::empty() == parts@.map_values(
        |p: Vec<char>| p@,
    ));
    if parts.len() == 0 {
        return Err(ide_error(IdeErrorKind::InvalidInput, "workspace path is required"));
    }
    let joined = join_chars(&parts, '/');
    Ok(string_of(joined.as_slice()))
}

/// A workspace file path (the root itself is refused).
pub fn normalize_workspace_file_path(path: &str) -> (r: Result<String, IdeError>)
    ensures
        path_result_matches(r, workspace_path_spec(path@, false)),
{
    normalize_workspace_path(path, false)
}

/// A workspace path to a Structured Text source: it must end in `.st` (any case).
pub open spec fn source_path_spec(path: Seq<char>) -> Result<Seq<char>, (IdeErrorKind, Seq<char>)> {
    match workspace_path_spec(path, false) {
        Ok(p) => if ends_with(lower(p), ".st"@) {
            Ok(p)
        } else {
            Err((IdeErrorKind::InvalidInput, "only .st files are allowed"@))
        },
        Err(e) => Err(e),
    }
}

pub fn normalize_source_path(path: &str) -> (r: Result<String, IdeError>)
    ensures
        path_result_matches(r, source_path_spec(path@)),
{
    let normalized = normalize_workspace_path(path, false)?;
    let v = chars_of(normalized.as_str());
    let l = lower_chars(v.as_slice());
    if !ends_with_str(l.as_slice(), ".st") {
        return Err(ide_error(IdeErrorKind::InvalidInput, "only .st files are allowed"));
    }
    Ok(normalized)
}

/// A path for display: backslashes turned into slashes.
pub open spec fn display_path(path: Seq<char>) -> Seq<char> {
    Seq::new(path.len(), |i: int| if path[i] == '\\' { '/' } else { path[i] })
}

pub fn pathbuf_to_display(path: &str) -> (r: String)
    ensures
        r@ == display_path(path@),
{
    let v = chars_of(path);
    let mut out: Vec<char> = Vec::new();
    let mut i: usize = 0;
    while i < v.len()
        invariant
            i <= v.len(),
            out@.len() == i,
            forall|k: int| 0 <= k < i ==> out@[k] == (if v@[k] == '\\' { '/' } else { v@[k] }),
        decreases v.len() - i,
    {
        out.push(if v[i] == '\\' { '/' } else { v[i] });
        i = i + 1;
    }
    assert(out@ == display_path(path@));
    string_of(out.as_slice())
}

// ---------------------------------------------------------------------------
// Project templates
// ---------------------------------------------------------------------------

pub open spec fn template_source_spec(template: Seq<char>) -> Seq<char> {
    if template == "blinky"@ {
        "PROGRAM Main\n  VAR\n    blink : BOOL := FALSE;\n  END_VAR\n\n  blink := NOT blink;\nEND_PROGRAM\n"@
    } else if template == "pid_loop"@ {
        "PROGRAM Main\n  VAR\n    setpoint : REAL := 50.0;\n    process_value : REAL := 0.0;\n    output : REAL := 0.0;\n    pid : PID_FB;\n  END_VAR\n\n  pid(Setpoint := setpoint, ProcessValue := process_value);\n  output := pid.Output;\nEND_PROGRAM\n"@
    } else if template == "motor_control"@ {
        "PROGRAM Main\n  VAR\n    start_cmd : BOOL := FALSE;\n    stop_cmd : BOOL := FALSE;\n    safety_trip : BOOL := FALSE;\n    motor : MOTOR_FB;\n  END_VAR\n\n  motor(StartCmd := start_cmd, StopCmd := stop_cmd, SafetyTrip := safety_trip);\nEND_PROGRAM\n"@
    } else {
        "PROGRAM Main\nVAR\nEND_VAR\nEND_PROGRAM\n"@
    }
}

fn owned(s: &str) -> (r: String)
    ensures
        r@ == s@,
{
    let mut out = String::new();
    push_str(&mut out, s);
    out
}

/// The main program of a new project made from `template`.
pub fn project_template_source(template: &str, project_name: &str) -> (r: String)
    ensures
        r@ == template_source_spec(template@),
{
    let t = chars_of(template);
    if chars_eq_str(t.as_slice(), "blinky") {
        owned(
            "PROGRAM Main\n  VAR\n    blink : BOOL := FALSE;\n  END_VAR\n\n  blink := NOT blink;\nEND_PROGRAM\n",
        )
    } else if chars_eq_str(t.as_slice(), "pid_loop") {
        owned(
            "PROGRAM Main\n  VAR\n    setpoint : REAL := 50.0;\n    process_value : REAL := 0.0;\n    output : REAL := 0.0;\n    pid : PID_FB;\n  END_VAR\n\n  pid(Setpoint := setpoint, ProcessValue := process_value);\n  output := pid.Output;\nEND_PROGRAM\n",
        )
    } else if chars_eq_str(t.as_slice(), "motor_control") {
        owned(
            "PROGRAM Main\n  VAR\n    start_cmd : BOOL := FALSE;\n    stop_cmd : BOOL := FALSE;\n    safety_trip : BOOL := FALSE;\n    motor : MOTOR_FB;\n  END_VAR\n\n  motor(StartCmd := start_cmd, StopCmd := stop_cmd, SafetyTrip := safety_trip);\nEND_PROGRAM\n",
        )
    } else {
        owned("PROGRAM Main\nVAR\nEND_VAR\nEND_PROGRAM\n")
    }
}

pub open spec fn pid_fb_source() -> Seq<char> {
    "FUNCTION_BLOCK PID_FB\nVAR_INPUT\n  Setpoint : REAL;\n  ProcessValue : REAL;\nEND_VAR\nVAR_OUTPUT\n  Output : REAL;\nEND_VAR\nVAR\n  Integral : REAL := 0.0;\n  Kp : REAL := 1.0;\n  Ki : REAL := 0.1;\nEND_VAR\n\nIntegral := Integral + (Setpoint - ProcessValue);\nOutput := (Kp * (Setpoint - ProcessValue)) + (Ki * Integral);\nEND_FUNCTION_BLOCK\n"@
}

pub open spec fn motor_fb_source() -> Seq<char> {
    "FUNCTION_BLOCK MOTOR_FB\nVAR_INPUT\n  StartCmd : BOOL;\n  StopCmd : BOOL;\n  SafetyTrip : BOOL;\nEND_VAR\nVAR_OUTPUT\n  MotorRunning : BOOL;\n  Fault : BOOL;\nEND_VAR\n\nIF SafetyTrip THEN\n  Fault := TRUE;\n  MotorRunning := FALSE;\nELSIF StopCmd THEN\n  MotorRunning := FALSE;\nELSIF StartCmd THEN\n  MotorRunning := TRUE;\nEND_IF;\nEND_FUNCTION_BLOCK\n"@
}

pub open spec fn safety_fb_source() -> Seq<char> {
    "FUNCTION_BLOCK SAFETY_FB\nVAR_INPUT\n  EStop : BOOL;\nEND_VAR\nVAR_OUTPUT\n  Trip : BOOL;\nEND_VAR\n\nTrip := EStop;\nEND_FUNCTION_BLOCK\n"@
}

/// The extra source files of a new project made from `template`, as
/// `(file name, content)` pairs.
pub fn project_template_extra_sources(template: &str) -> (r: Vec<(String, String)>)
    ensures
        template@ == "pid_loop"@ ==> r@.len() == 1 && r@[0].0@ == "pid_fb.st"@ && r@[0].1@
            == pid_fb_source(),
        template@ == "motor_control"@ ==> r@.len() == 2 && r@[0].0@ == "motor_fb.st"@
            && r@[0].1@ == motor_fb_source() && r@[1].0@ == "safety.st"@ && r@[1].1@
            == safety_fb_source(),
        template@ != "pid_loop"@ && template@ != "motor_control"@ ==> r@.len() == 0,
{
    let t = chars_of(template);
    proof {
        reveal_strlit("pid_loop");
        reveal_strlit("motor_control");
        assert("motor_control"@[0] != "pid_loop"@[0]);
    }
    let mut out: Vec<(String, String)> = Vec::new();
    if chars_eq_str(t.as_slice(), "pid_loop") {
        out.push(
            (
                owned("pid_fb.st"),
                owned(
                    "FUNCTION_BLOCK PID_FB\nVAR_INPUT\n  Setpoint : REAL;\n  ProcessValue : REAL;\nEND_VAR\nVAR_OUTPUT\n  Output : REAL;\nEND_VAR\nVAR\n  Integral : REAL := 0.0;\n  Kp : REAL := 1.0;\n  Ki : REAL := 0.1;\nEND_VAR\n\nIntegral := Integral + (Setpoint - ProcessValue);\nOutput := (Kp * (Setpoint - ProcessValue)) + (Ki * Integral);\nEND_FUNCTION_BLOCK\n",
                ),
            ),
        );
    } else if chars_eq_str(t.as_slice(), "motor_control") {
        out.push(
            (
                owned("motor_fb.st"),
                owned(
                    "FUNCTION_BLOCK MOTOR_FB\nVAR_INPUT\n  StartCmd : BOOL;\n  StopCmd : BOOL;\n  SafetyTrip : BOOL;\nEND_VAR\nVAR_OUTPUT\n  MotorRunning : BOOL;\n  Fault : BOOL;\nEND_VAR\n\nIF SafetyTrip THEN\n  Fault := TRUE;\n  MotorRunning := FALSE;\nELSIF StopCmd THEN\n  MotorRunning := FALSE;\nELSIF StartCmd THEN\n  MotorRunning := TRUE;\nEND_IF;\nEND_FUNCTION_BLOCK\n",
                ),
            ),
        );
        out.push(
            (
                owned("safety.st"),
                owned(
                    "FUNCTION_BLOCK SAFETY_FB\nVAR_INPUT\n  EStop : BOOL;\nEND_VAR\nVAR_OUTPUT\n  Trip : BOOL;\nEND_VAR\n\nTrip := EStop;\nEND_FUNCTION_BLOCK\n",
                ),
            ),
        );
        assert(out@.len() == 2);
    }
    out
}

// ---------------------------------------------------------------------------
// Glob filters
// ---------------------------------------------------------------------------

#[verifier::external_type_specification]
#[verifier::external_body]
pub struct ExGlobPattern(glob::Pattern);

/// The error text `glob::Pattern::new` gives for `pattern`, `None` when it
/// accepts it.
pub uninterp spec fn glob_pattern_error(pattern: Seq<char>) -> Option<Seq<char>>;

/// `glob::Pattern::new`: claimed to succeed exactly when `glob_pattern_error` is
/// `None`, and otherwise to fail with that error's display text.
#[verifier::external_body]
fn compile_glob(pattern: &str) -> (r: Result<glob::Pattern, String>)
    ensures
        match r {
            Ok(_) => glob_pattern_error(pattern@).is_none(),
            Err(m) => glob_pattern_error(pattern@) == Some(m@),
        },
{
    glob::Pattern::new(pattern).map_err(|err| err.to_string())
}

/// The outcome of compiling an optional glob filter for `field`: no filter for a
/// missing or blank pattern, else the compiled pattern or the refusal message.
pub open spec fn glob_filter_spec(raw: Option<Seq<char>>, field: Seq<char>) -> Option<Seq<char>> {
    match raw {
        Some(p) => if trim(p).len() == 0 {
            None
        } else {
            match glob_pattern_error(trim(p)) {
                Some(err) => Some(
                    "invalid "@ + field + " glob pattern '"@ + trim(p) + "': "@ + err,
                ),
                None => None,
            }
        },
        None => None,
    }
}

/// A compiled glob filter together with the pattern text it was compiled from.
pub struct GlobFilter {
    text: String,
    pattern: glob::Pattern,
}

impl View for GlobFilter {
    type V = Seq<char>;

    /// The pattern text the filter was compiled from.
    closed spec fn view(&self) -> Seq<char> {
        self.text@
    }
}

/// Whether `glob::Pattern::matches` accepts `path` for the pattern compiled
/// from `pattern`.
pub uninterp spec fn glob_matches(pattern: Seq<char>, path: Seq<char>) -> bool;

/// `glob::Pattern::matches` on the filter's compiled pattern: its answer depends
/// on the pattern text (which the filter was compiled from, in
/// `compile_glob_pattern` alone) and the path only.
#[verifier::external_body]
pub(crate) fn glob_filter_matches(filter: &GlobFilter, path: &str) -> (r: bool)
    ensures
        r == glob_matches(filter@, path@),
{
    filter.pattern.matches(path)
}

/// Compiles the optional glob filter given for `field`.
pub fn compile_glob_pattern(raw: Option<&str>, field: &str) -> (r: Result<Option<GlobFilter>, IdeError>)
    ensures
        match r {
            Ok(Some(f)) => raw.is_some() && trim(raw.unwrap()@).len() > 0 && glob_pattern_error(
                trim(raw.unwrap()@),
            ).is_none() && f@ == trim(raw.unwrap()@),
            Ok(None) => raw.is_none() || trim(raw.unwrap()@).len() == 0,
            Err(e) => e.kind_spec() == IdeErrorKind::InvalidInput && glob_filter_spec(
                match raw {
                    Some(p) => Some(p@),
                    None => None,
                },
                field@,
            ) == Some(e.message_spec()),
        },
{
    let text = match raw {
        Some(p) => p,
        None => return Ok(None),
    };
    let v = chars_of(text);
    let trimmed = trim_chars(v.as_slice());
    if trimmed.len() == 0 {
        return Ok(None);
    }
    let pattern_text = string_of(trimmed.as_slice());
    match compile_glob(pattern_text.as_str()) {
        Ok(pattern) => Ok(Some(GlobFilter { text: pattern_text, pattern })),
        Err(err) => {
            let mut m = String::new();
            push_str(&mut m, "invalid ");
            push_str(&mut m, field);
            push_str(&mut m, " glob pattern '");
            push_chars(&mut m, trimmed.as_slice());
            push_str(&mut m, "': ");
            push_str(&mut m, err.as_str());
            Err(IdeError::new(IdeErrorKind::InvalidInput, m))
        },
    }
}

// ---------------------------------------------------------------------------
// Source size limit
// ---------------------------------------------------------------------------

/// The message refusing a source of `len` bytes over a limit of `max`.
pub open spec fn too_large_message(len: nat, max: nat) -> Seq<char> {
    "source file exceeds limit ("@ + decimal(len) + " > "@ + decimal(max) + " bytes)"@
}

/// Refuses a source text of `len` bytes when it is longer than `max_file_bytes`.
pub fn check_source_size(len: usize, max_file_bytes: usize) -> (r: Result<(), IdeError>)
    ensures
        r is Ok <==> len <= max_file_bytes,
        r matches Err(e) ==> e.kind_spec() == IdeErrorKind::TooLarge && e.message_spec()
            == too_large_message(len as nat, max_file_bytes as nat) && e.version_spec() is None,
{
    if len > max_file_bytes {
        let mut m = "source file exceeds limit (".to_owned();
        push_chars(&mut m, decimal_chars(len as u64).as_slice());
        push_str(&mut m, " > ");
        push_chars(&mut m, decimal_chars(max_file_bytes as u64).as_slice());
        push_str(&mut m, " bytes)");
        return Err(IdeError::new(IdeErrorKind::TooLarge, m));
    }
    Ok(())
}

// ---------------------------------------------------------------------------
// Paths under a renamed or deleted entry
// ---------------------------------------------------------------------------

/// `path` is `root` itself or lies below it.
pub open spec fn is_under(path: Seq<char>, root: Seq<char>) -> bool {
    path == root || starts_with(path, root + "/"@)
}

/// Where `path` goes when `old` is renamed to `new`: the same place below `new`;
/// `None` for a path not under `old`.
pub open spec fn remap_spec(path: Seq<char>, old: Seq<char>, new: Seq<char>) -> Option<Seq<char>> {
    if is_under(path, old) {
        Some(new + path.skip(old.len() as int))
    } else {
        None
    }
}

/// Whether `path` is `root` or lies below it.
pub fn path_is_under(path: &str, root: &str) -> (r: bool)
    ensures
        r == is_under(path@, root@),
{
    let p = chars_of(path);
    let mut prefix = chars_of(root);
    if chars_eq_str(p.as_slice(), root) {
        return true;
    }
    prefix.push('/');
    assert(prefix@ =~= root@ + "/"@) by {
        reveal_strlit("/");
    }
    crate::text::starts_with_chars(p.as_slice(), prefix.as_slice())
}

/// The path that `path` becomes when `old` is renamed to `new`, if it lies under `old`.
pub fn remap_path(path: &str, old: &str, new: &str) -> (r: Option<String>)
    ensures
        match (r, remap_spec(path@, old@, new@)) {
            (Some(a), Some(b)) => a@ == b,
            (None, None) => true,
            _ => false,
        },
{
    if !path_is_under(path, old) {
        return None;
    }
    let p = chars_of(path);
    let n = chars_of(old).len();
    let suffix = slice_chars(p.as_slice(), n, p.len());
    assert(suffix@ =~= path@.skip(n as int));
    let mut r = new.to_owned();
    push_chars(&mut r, suffix.as_slice());
    Some(r)
}

/// Renaming back undoes a rename: a path under `old`, moved under `new`, comes
/// back to itself when `new` is renamed to `old`.
pub proof fn law_remap_round_trip(path: Seq<char>, old: Seq<char>, new: Seq<char>)
    requires
        is_under(path, old),
    ensures
        remap_spec(path, old, new) is Some,
        is_under(remap_spec(path, old, new)->0, new),
        remap_spec(remap_spec(path, old, new)->0, new, old) == Some(path),
{
    reveal_strlit("/");
    let suffix = path.skip(old.len() as int);
    let moved = new + suffix;
    if path == old {
        assert(suffix =~= Seq::<char>::empty());
        assert(moved =~= new);
    } else {
        assert(path.subrange(0, (old.len() + 1) as int) == old + "/"@);
        assert(path[old.len() as int] == path.subrange(0, (old.len() + 1) as int)[old.len() as int]);
        assert((old + "/"@)[old.len() as int] == '/');
        assert(suffix[0] == '/');
        assert(moved.subrange(0, (new.len() + 1) as int) =~= new + "/"@);
    }
    assert(moved.skip(new.len() as int) =~= suffix);
    assert(path =~= old + suffix) by {
        if path != old {
            assert(path.subrange(0, old.len() as int) =~= old);
        }
    }
}

/// The system directory a browse request reaches into, if any: `/proc`, `/sys`
/// or `/dev` (as a plain prefix of the resolved path).
pub open spec fn blocked_root(path: Seq<char>) -> Option<Seq<char>> {
    if starts_with(path, "/proc"@) {
        Some("/proc"@)
    } else if starts_with(path, "/sys"@) {
        Some("/sys"@)
    } else if starts_with(path, "/dev"@) {
        Some("/dev"@)
    } else {
        None
    }
}

/// Refuses browsing a resolved path inside a system directory.
pub fn check_browse_path(path: &str) -> (r: Result<(), IdeError>)
    ensures
        r is Ok <==> blocked_root(path@) is None,
        r matches Err(e) ==> e.kind_spec() == IdeErrorKind::Forbidden
            && e.message_spec() == "browsing "@ + blocked_root(path@)->0 + " is not allowed"@,
{
    let p = chars_of(path);
    let blocked: Option<&str> = if crate::text::starts_with_str(p.as_slice(), "/proc") {
        Some("/proc")
    } else if crate::text::starts_with_str(p.as_slice(), "/sys") {
        Some("/sys")
    } else if crate::text::starts_with_str(p.as_slice(), "/dev") {
        Some("/dev")
    } else {
        None
    };
    match blocked {
        Some(b) => {
            let mut m = "browsing ".to_owned();
            push_str(&mut m, b);
            push_str(&mut m, " is not allowed");
            Err(IdeError::new(IdeErrorKind::Forbidden, m))
        },
        None => Ok(()),
    }
}

} // verus!
