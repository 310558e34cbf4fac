//! Indentation formatter for Structured Text sources.
use vstd::prelude::*;

use crate::text::{
    chars_eq_str, chars_of, concat_chars, is_ws, is_ws_char, push_chars, slice_chars,
    starts_with, starts_with_chars, starts_with_str, string_of, contains, contains_str, trim_start,
    upper, upper_chars, lemma_trim_start_skip, lemma_trim_start_fixed,
};

verus! {

// ---------------------------------------------------------------------------
// Splitting into lines
// ---------------------------------------------------------------------------

/// A line as `str::lines` yields it: a trailing `'\r'` before its `'\n'` is dropped.
pub open spec fn strip_cr(line: Seq<char>) -> Seq<char> {
    if line.len() > 0 && line.last() == '\r' {
        line.drop_last()
    } else {
        line
    }
}

/// Reading `s` left to right: the lines finished by a `'\n'` and the text after
/// the last one.
pub open spec fn scan_lines(s: Seq<char>) -> (Seq<Seq<char>>, Seq<char>)
    decreases s.len(),
{
    if s.len() == 0 {
        (Seq::empty(), Seq::empty())
    } else {
        let (done, cur) = scan_lines(s.drop_last());
        if s.last() == '\n' {
            (done.push(strip_cr(cur)), Seq::empty())
        } else {
            (done, cur.push(s.last()))
        }
    }
}

/// `str::lines`: lines end at `'\n'` or `"\r\n"`; the final line ending is
/// optional.
pub open spec fn lines(s: Seq<char>) -> Seq<Seq<char>> {
    let (done, cur) = scan_lines(s);
    if s.len() > 0 && s.last() != '\n' {
        done.push(cur)
    } else {
        done
    }
}

fn strip_cr_exec(line: Vec<char>) -> (r: Vec<char>)
    ensures
        r@ == strip_cr(line@),
{
    if line.len() > 0 && line[line.len() - 1] == '\r' {
        let n = line.len() - 1;
        slice_chars(line.as_slice(), 0, n)
    } else {
        line
    }
}

/// The lines of `s` (`str::lines`).
pub fn split_lines(s: &[char]) -> (r: Vec<Vec<char>>)
    ensures
        r@.len() == lines(s@).len(),
        forall|i: int| 0 <= i < r@.len() ==> (#[trigger] r@[i])@ == lines(s@)[i],
{
    let mut done: Vec<Vec<char>> = Vec::new();
    let mut cur: Vec<char> = Vec::new();
    let mut i: usize = 0;
    while i < s.len()
        invariant
            i <= s.len(),
            done@.len() == scan_lines(s@.take(i as int)).0.len(),
            forall|k: int|
                0 <= k < done@.len() ==> (#[trigger] done@[k])@ == scan_lines(s@.take(i as int)).0[k],
            cur@ == scan_lines(s@.take(i as int)).1,
        decreases s.len() - i,
    {
        assert(s@.take(i + 1).drop_last() == s@.take(i as int));
        assert(s@.take(i + 1).last() == s@[i as int]);
        if s[i] == '\n' {
            let mut piece: Vec<char> = Vec::new();
            std::mem::swap(&mut piece, &mut cur);
            let line = strip_cr_exec(piece);
            done.push(line);
        } else {
            cur.push(s[i]);
        }
        i = i + 1;
    }
    assert(s@.take(s.len() as int) == s@);
    if s.len() > 0 && s[s.len() - 1] != '\n' {
        done.push(cur);
    }
    done
}

// ---------------------------------------------------------------------------
// Block keywords
// ---------------------------------------------------------------------------

/// A line (trimmed, uppercased) that closes a block or starts an alternative
/// branch, and so is written one level out.
pub open spec fn dedent_line(u: Seq<char>) -> bool {
    ||| starts_with(u, "END_"@)
    ||| u == "ELSE"@
    ||| starts_with(u, "ELSE "@)
    ||| starts_with(u, "ELSIF "@)
    ||| starts_with(u, "UNTIL "@)
}

/// A declaration section keyword: the bare word or the word followed by a space.
pub open spec fn section_line(u: Seq<char>, word: Seq<char>) -> bool {
    u == word || starts_with(u, word + " "@)
}

/// A line (trimmed, uppercased) that opens a block, so the lines after it are
/// written one level in.
pub open spec fn indent_line(u: Seq<char>) -> bool {
    ||| starts_with(u, "PROGRAM "@)
    ||| starts_with(u, "FUNCTION "@)
    ||| starts_with(u, "FUNCTION_BLOCK "@)
    ||| starts_with(u, "CONFIGURATION "@)
    ||| starts_with(u, "RESOURCE "@)
    ||| starts_with(u, "CLASS "@)
    ||| starts_with(u, "INTERFACE "@)
    ||| starts_with(u, "METHOD "@)
    ||| starts_with(u, "PROPERTY "@)
    ||| starts_with(u, "ACTION "@)
    ||| starts_with(u, "TRANSITION "@)
    ||| u == "ELSE"@
    ||| starts_with(u, "ELSE "@)
    ||| starts_with(u, "ELSIF "@)
    ||| starts_with(u, "REPEAT"@)
    ||| section_line(u, "VAR"@)
    ||| section_line(u, "VAR_INPUT"@)
    ||| section_line(u, "VAR_OUTPUT"@)
    ||| section_line(u, "VAR_IN_OUT"@)
    ||| section_line(u, "VAR_TEMP"@)
    ||| section_line(u, "VAR_GLOBAL"@)
    ||| section_line(u, "VAR_EXTERNAL"@)
    ||| section_line(u, "VAR_CONFIG"@)
    ||| section_line(u, "VAR_ACCESS"@)
    ||| (starts_with(u, "IF "@) && contains(u, " THEN"@))
    ||| (starts_with(u, "CASE "@) && contains(u, " OF"@))
    ||| (starts_with(u, "FOR "@) && contains(u, " DO"@))
    ||| (starts_with(u, "WHILE "@) && contains(u, " DO"@))
}

pub fn is_dedent_line(upper_trimmed: &[char]) -> (r: bool)
    ensures
        r == dedent_line(upper_trimmed@),
{
    let u = upper_trimmed;
    starts_with_str(u, "END_") || chars_eq_str(u, "ELSE") || starts_with_str(u, "ELSE ")
        || starts_with_str(u, "ELSIF ") || starts_with_str(u, "UNTIL ")
}

fn is_section_line(u: &[char], word: &str) -> (r: bool)
    ensures
        r == section_line(u@, word@),
{
    let w = chars_of(word);
    let ws = concat_chars(w.as_slice(), chars_of(" ").as_slice());
    chars_eq_str(u, word) || starts_with_chars(u, ws.as_slice())
}

pub fn is_indent_line(upper_trimmed: &[char]) -> (r: bool)
    ensures
        r == indent_line(upper_trimmed@),
{
    let u = upper_trimmed;
    if starts_with_str(u, "PROGRAM ") || starts_with_str(u, "FUNCTION ") || starts_with_str(
        u,
        "FUNCTION_BLOCK ",
    ) || starts_with_str(u, "CONFIGURATION ") || starts_with_str(u, "RESOURCE ")
        || starts_with_str(u, "CLASS ") || starts_with_str(u, "INTERFACE ") || starts_with_str(
        u,
        "METHOD ",
    ) || starts_with_str(u, "PROPERTY ") || starts_with_str(u, "ACTION ") || starts_with_str(
        u,
        "TRANSITION ",
    ) || chars_eq_str(u, "ELSE") || starts_with_str(u, "ELSE ") || starts_with_str(u, "ELSIF ")
        || starts_with_str(u, "REPEAT") {
        return true;
    }
    if is_section_line(u, "VAR") || is_section_line(u, "VAR_INPUT") || is_section_line(
        u,
        "VAR_OUTPUT",
    ) || is_section_line(u, "VAR_IN_OUT") || is_section_line(u, "VAR_TEMP") || is_section_line(
        u,
        "VAR_GLOBAL",
    ) || is_section_line(u, "VAR_EXTERNAL") || is_section_line(u, "VAR_CONFIG")
        || is_section_line(u, "VAR_ACCESS") {
        return true;
    }
    (starts_with_str(u, "IF ") && contains_str(u, " THEN")) || (starts_with_str(u, "CASE ")
        && contains_str(u, " OF")) || (starts_with_str(u, "FOR ") && contains_str(u, " DO")) || (
    starts_with_str(u, "WHILE ") && contains_str(u, " DO"))
}

// ---------------------------------------------------------------------------
// Formatting
// ---------------------------------------------------------------------------

/// `trim_end_matches([' ', '\t'])`.
pub open spec fn trim_end_blank(s: Seq<char>) -> Seq<char>
    decreases s.len(),
{
    if s.len() > 0 && (s.last() == ' ' || s.last() == '\t') {
        trim_end_blank(s.drop_last())
    } else {
        s
    }
}

/// Two spaces per level.
pub open spec fn indent(level: nat) -> Seq<char> {
    Seq::new(2 * level, |i: int| ' ')
}

/// A formatted line and the level of the next one.
pub open spec fn format_line(line: Seq<char>, level: nat) -> (Seq<char>, nat) {
    let t = trim_start(trim_end_blank(line));
    if t.len() == 0 {
        (Seq::empty(), level)
    } else if starts_with(t, "//"@) || starts_with(t, "(*"@) {
        (indent(level) + t, level)
    } else {
        let u = upper(t);
        let at = if dedent_line(u) && level > 0 {
            (level - 1) as nat
        } else {
            level
        };
        (indent(at) + t, if indent_line(u) {
            at + 1
        } else {
            at
        })
    }
}

/// The formatted lines, starting at `level`.
pub open spec fn format_lines(ls: Seq<Seq<char>>, level: nat) -> Seq<Seq<char>>
    decreases ls.len(),
{
    if ls.len() == 0 {
        Seq::empty()
    } else {
        let (out, next) = format_line(ls[0], level);
        seq![out] + format_lines(ls.drop_first(), next)
    }
}

/// Lines joined with `'\n'`.
pub open spec fn join_lines(ls: Seq<Seq<char>>) -> Seq<char>
    decreases ls.len(),
{
    if ls.len() == 0 {
        Seq::empty()
    } else if ls.len() == 1 {
        ls[0]
    } else {
        join_lines(ls.drop_last()) + seq!['\n'] + ls.last()
    }
}

/// The formatted document: every line re-indented by block depth, joined with
/// `'\n'`, and ended by a newline unless it is empty.
pub open spec fn formatted_document(source: Seq<char>) -> Seq<char> {
    let body = join_lines(format_lines(lines(source), 0));
    if body.len() > 0 {
        body.push('\n')
    } else {
        body
    }
}

fn trim_end_blank_exec(s: &[char]) -> (r: Vec<char>)
    ensures
        r@ == trim_end_blank(s@),
{
    let mut j: usize = s.len();
    assert(s@.take(s.len() as int) == s@);
    while j > 0 && (s[j - 1] == ' ' || s[j - 1] == '\t')
        invariant
            j <= s.len(),
            trim_end_blank(s@) == trim_end_blank(s@.take(j as int)),
        decreases j,
    {
        assert(s@.take(j as int).drop_last() == s@.take(j - 1));
        j = j - 1;
    }
    assert(s@.take(s.len() as int) == s@);
    slice_chars(s, 0, j)
}

fn trim_start_exec(s: &[char]) -> (r: Vec<char>)
    ensures
        r@ == trim_start(s@),
{
    let mut i: usize = 0;
    while i < s.len() && is_ws_char(s[i])
        invariant
            i <= s.len(),
            forall|k: int| 0 <= k < i ==> is_ws(#[trigger] s@[k]),
        decreases s.len() - i,
    {
        i = i + 1;
    }
    proof {
        lemma_trim_start_skip(s@, i as int);
        lemma_trim_start_fixed(s@.skip(i as int));
    }
    slice_chars(s, i, s.len())
}

fn indent_chars(level: usize) -> (r: Vec<char>)
    ensures
        r@ == indent(level as nat),
{
    let mut r: Vec<char> = Vec::new();
    let mut i: usize = 0;
    while i < level
        invariant
            i <= level,
            r@ == Seq::new(2 * i as nat, |k: int| ' '),
        decreases level - i,
    {
        r.push(' ');
        r.push(' ');
        assert(r@ == Seq::new(2 * (i + 1) as nat, |k: int| ' '));
        i = i + 1;
    }
    r
}

fn format_one_line(line: &[char], level: usize) -> (r: (Vec<char>, usize))
    requires
        level < usize::MAX,
    ensures
        (r.0@, r.1 as nat) == format_line(line@, level as nat),
        r.1 <= level + 1,
{
    let a = trim_end_blank_exec(line);
    let t = trim_start_exec(a.as_slice());
    if t.len() == 0 {
        return (Vec::new(), level);
    }
    if starts_with_str(t.as_slice(), "//") || starts_with_str(t.as_slice(), "(*") {
        let pad = indent_chars(level);
        return (concat_chars(pad.as_slice(), t.as_slice()), level);
    }
    let u = upper_chars(t.as_slice());
    let mut at = level;
    if is_dedent_line(u.as_slice()) && at > 0 {
        at = at - 1;
    }
    let pad = indent_chars(at);
    let out = concat_chars(pad.as_slice(), t.as_slice());
    let next = if is_indent_line(u.as_slice()) {
        at + 1
    } else {
        at
    };
    (out, next)
}

/// Re-indents a Structured Text document by block depth.
pub fn format_structured_text_document(source: &str) -> (r: String)
    ensures
        r@ == formatted_document(source@),
{
    let src = chars_of(source);
    let ls = split_lines(src.as_slice());
    let ghost all = lines(src@);
    assert(ls@.len() == all.len());
    let mut level: usize = 0;
    let mut body: Vec<char> = Vec::new();
    let mut i: usize = 0;
    let ghost mut done: Seq<Seq<char>> = Seq::empty();
    assert(all.skip(0) == all);
    while i < ls.len()
        invariant
            ls@.len() == all.len(),
            forall|k: int| 0 <= k < ls@.len() ==> (#[trigger] ls@[k])@ == all[k],
            i <= ls.len(),
            level <= i,
            done + format_lines(all.skip(i as int), level as nat) == format_lines(all, 0),
            done.len() == i,
            body@ == join_lines(done),
        decreases ls.len() - i,
    {
        let (out, next) = format_one_line(ls[i].as_slice(), level);
        proof {
            let rest = all.skip(i as int);
            assert(rest[0] == all[i as int]);
            assert(rest.drop_first() == all.skip(i + 1));
            assert(format_lines(rest, level as nat) == seq![out@] + format_lines(
                all.skip(i + 1),
                next as nat,
            ));
            assert(done.push(out@) + format_lines(all.skip(i + 1), next as nat) == done + (seq![
                out@,
            ] + format_lines(all.skip(i + 1), next as nat)));
        }
        if i > 0 {
            body.push('\n');
        }
        let old_body = body;
        body = concat_chars(old_body.as_slice(), out.as_slice());
        proof {
            let d2 = done.push(out@);
            assert(d2.drop_last() == done);
            if i > 0 {
                assert(join_lines(d2) == join_lines(done) + seq!['\n'] + out@);
            } else {
                assert(done.len() == 0);
                assert(join_lines(d2) == out@);
                assert(body@ == out@);
            }
            done = d2;
        }
        level = next;
        i = i + 1;
    }
    assert(all.skip(ls.len() as int).len() == 0);
    assert(done == format_lines(all, 0));
    if body.len() > 0 {
        body.push('\n');
    }
    string_of(body.as_slice())
}

// ---------------------------------------------------------------------------
// Laws of the formatter
// ---------------------------------------------------------------------------

/// The text of a line as the formatter keeps it: blanks cut at the end, white
/// space at the start.
pub open spec fn line_text(line: Seq<char>) -> Seq<char> {
    trim_start(trim_end_blank(line))
}

/// No character of `s` is a line feed.
pub open spec fn no_newline(s: Seq<char>) -> bool {
    forall|j: int| 0 <= j < s.len() ==> s[j] != '\n'
}

/// `s` does not end with a carriage return.
pub open spec fn no_trailing_cr(s: Seq<char>) -> bool {
    s.len() == 0 || s.last() != '\r'
}

proof fn lemma_trim_start_shape(s: Seq<char>)
    ensures
        trim_start(s).len() <= s.len(),
        trim_start(s).len() == 0 || !is_ws(trim_start(s)[0]),
        trim_start(s).len() > 0 ==> trim_start(s).last() == s.last(),
        no_newline(s) ==> no_newline(trim_start(s)),
    decreases s.len(),
{
    if s.len() > 0 && is_ws(s[0]) {
        lemma_trim_start_shape(s.drop_first());
        if no_newline(s) {
            assert forall|j: int| 0 <= j < s.drop_first().len() implies s.drop_first()[j] != '\n' by {
                assert(s.drop_first()[j] == s[j + 1]);
            }
        }
    }
}

proof fn lemma_trim_end_blank_shape(s: Seq<char>)
    ensures
        trim_end_blank(s).len() == 0 || (trim_end_blank(s).last() != ' ' && trim_end_blank(s).last() != '\t'),
        no_newline(s) ==> no_newline(trim_end_blank(s)),
    decreases s.len(),
{
    if s.len() > 0 && (s.last() == ' ' || s.last() == '\t') {
        lemma_trim_end_blank_shape(s.drop_last());
        if no_newline(s) {
            assert forall|j: int| 0 <= j < s.drop_last().len() implies s.drop_last()[j] != '\n' by {
                assert(s.drop_last()[j] == s[j]);
            }
        }
    }
}

proof fn lemma_line_text_shape(line: Seq<char>)
    ensures
        line_text(line).len() == 0 || !is_ws(line_text(line)[0]),
        line_text(line).len() == 0 || (line_text(line).last() != ' ' && line_text(line).last() != '\t'),
        no_newline(line) ==> no_newline(line_text(line)),
{
    lemma_trim_end_blank_shape(line);
    lemma_trim_start_shape(trim_end_blank(line));
}

proof fn lemma_indent_then_text(k: nat, t: Seq<char>)
    requires
        t.len() == 0 || !is_ws(t[0]),
        t.len() == 0 || (t.last() != ' ' && t.last() != '\t'),
    ensures
        line_text(indent(k) + t) == t,
{
    let x = indent(k) + t;
    if t.len() > 0 {
        assert(x.last() == t.last());
        assert(trim_end_blank(x) == x);
    } else {
        assert(x =~= indent(k));
        lemma_trim_end_blank_indent(k);
    }
    assert forall|j: int| 0 <= j < 2 * k implies is_ws(#[trigger] x[j]) by {
        assert(x[j] == ' ');
    }
    if t.len() > 0 {
        lemma_trim_start_skip(x, (2 * k) as int);
        assert(x.skip((2 * k) as int) =~= t);
        lemma_trim_start_fixed(t);
    } else {
        lemma_trim_start_skip(indent(k), (2 * k) as int);
        assert(indent(k).skip((2 * k) as int) =~= Seq::<char>::empty());
    }
}

proof fn lemma_trim_end_blank_indent(k: nat)
    ensures
        trim_end_blank(indent(k)) == Seq::<char>::empty(),
    decreases k,
{
    if k > 0 {
        let i = indent(k);
        assert(i.drop_last() =~= indent((k - 1) as nat).push(' '));
        assert(i.drop_last().drop_last() =~= indent((k - 1) as nat));
        assert(i.last() == ' ');
        assert(trim_end_blank(i) == trim_end_blank(i.drop_last()));
        assert(i.drop_last().last() == ' ');
        assert(trim_end_blank(i.drop_last()) == trim_end_blank(i.drop_last().drop_last()));
        lemma_trim_end_blank_indent((k - 1) as nat);
    } else {
        assert(indent(0) =~= Seq::<char>::empty());
    }
}

/// Formatting a formatted line again gives it back, with the same next level.
proof fn lemma_format_line_stable(line: Seq<char>, level: nat)
    ensures
        format_line(format_line(line, level).0, level) == format_line(line, level),
{
    let t = line_text(line);
    lemma_line_text_shape(line);
    let o = format_line(line, level).0;
    if t.len() == 0 {
        assert(o =~= Seq::<char>::empty());
        assert(trim_end_blank(o) =~= o);
    } else if starts_with(t, "//"@) || starts_with(t, "(*"@) {
        lemma_indent_then_text(level, t);
    } else {
        let u = upper(t);
        let at = if dedent_line(u) && level > 0 { (level - 1) as nat } else { level };
        lemma_indent_then_text(at, t);
    }
}

proof fn lemma_format_lines_stable(ls: Seq<Seq<char>>, level: nat)
    ensures
        format_lines(format_lines(ls, level), level) == format_lines(ls, level),
    decreases ls.len(),
{
    if ls.len() > 0 {
        let (out, next) = format_line(ls[0], level);
        let rest = format_lines(ls.drop_first(), next);
        let f = format_lines(ls, level);
        assert(f == seq![out] + rest);
        lemma_format_line_stable(ls[0], level);
        assert(f[0] == out);
        assert(f.drop_first() =~= rest);
        lemma_format_lines_stable(ls.drop_first(), next);
    }
}

/// Each formatted line is empty (for a line with no text) or the line's text
/// behind an indentation of whole levels; there are as many as lines given.
proof fn lemma_format_lines_shape(ls: Seq<Seq<char>>, level: nat)
    ensures
        format_lines(ls, level).len() == ls.len(),
        forall|i: int| 0 <= i < ls.len() ==> {
            let o = #[trigger] format_lines(ls, level)[i];
            let t = line_text(ls[i]);
            (t.len() == 0 && o.len() == 0) || (t.len() > 0 && exists|k: nat| o == indent(k) + t)
        },
        forall|i: int| 0 <= i < ls.len() && no_newline(#[trigger] ls[i]) ==> no_newline(format_lines(ls, level)[i]),
    decreases ls.len(),
{
    if ls.len() > 0 {
        let (out, next) = format_line(ls[0], level);
        let d = ls.drop_first();
        lemma_format_lines_shape(d, next);
        let f = format_lines(ls, level);
        let r = format_lines(d, next);
        assert(f == seq![out] + r);
        lemma_line_text_shape(ls[0]);
        assert forall|i: int| 0 <= i < ls.len() implies {
            let o = #[trigger] format_lines(ls, level)[i];
            let t = line_text(ls[i]);
            (t.len() == 0 && o.len() == 0) || (t.len() > 0 && exists|k: nat| o == indent(k) + t)
        } by {
            if i == 0 {
                let t = line_text(ls[0]);
                if t.len() > 0 {
                    let u = upper(t);
                    let at = if starts_with(t, "//"@) || starts_with(t, "(*"@) {
                        level
                    } else if dedent_line(u) && level > 0 {
                        (level - 1) as nat
                    } else {
                        level
                    };
                    assert(f[0] == indent(at) + t);
                }
            } else {
                assert(f[i] == r[i - 1]);
                assert(ls[i] == d[i - 1]);
            }
        }
        assert forall|i: int| 0 <= i < ls.len() && no_newline(#[trigger] ls[i]) implies no_newline(f[i]) by {
            if i == 0 {
                let t = line_text(ls[0]);
                assert forall|j: int| 0 <= j < f[0].len() implies f[0][j] != '\n' by {
                    if t.len() > 0 {
                        let k = choose|k: nat| f[0] == indent(k) + t;
                        if j >= 2 * k {
                            assert(f[0][j] == t[j - 2 * k]);
                        }
                    }
                }
            } else {
                assert(f[i] == r[i - 1]);
                assert(ls[i] == d[i - 1]);
            }
        }
    }
}

/// Reading `a` followed by text without a line feed only lengthens the
/// unfinished line.
proof fn lemma_scan_append(a: Seq<char>, b: Seq<char>)
    requires
        no_newline(b),
    ensures
        scan_lines(a + b) == (scan_lines(a).0, scan_lines(a).1 + b),
    decreases b.len(),
{
    if b.len() == 0 {
        assert(a + b =~= a);
        assert(scan_lines(a).1 + b =~= scan_lines(a).1);
    } else {
        let c = b.drop_last();
        assert(no_newline(c)) by {
            assert forall|j: int| 0 <= j < c.len() implies c[j] != '\n' by {
                assert(c[j] == b[j]);
            }
        }
        lemma_scan_append(a, c);
        assert((a + b).drop_last() =~= a + c);
        assert((a + b).last() == b.last());
        assert(scan_lines(a).1 + c + seq![b.last()] =~= scan_lines(a).1 + b);
    }
}

/// Lines joined and ended by a line feed read back as the same lines.
proof fn lemma_lines_of_joined(ls: Seq<Seq<char>>)
    requires
        ls.len() > 0,
        forall|i: int| 0 <= i < ls.len() ==> no_newline(#[trigger] ls[i]) && no_trailing_cr(ls[i]),
    ensures
        lines(join_lines(ls).push('\n')) == ls,
        scan_lines(join_lines(ls).push('\n')) == (ls, Seq::<char>::empty()),
    decreases ls.len(),
{
    let x = ls.last();
    assert(no_newline(x) && no_trailing_cr(x));
    if ls.len() == 1 {
        lemma_scan_append(Seq::<char>::empty(), x);
        assert(Seq::<char>::empty() + x =~= x);
        assert(join_lines(ls) == x);
        assert(x.push('\n').drop_last() =~= x);
        assert(scan_lines(Seq::<char>::empty()) == (Seq::<Seq<char>>::empty(), Seq::<char>::empty()));
        assert(Seq::<char>::empty() + x =~= x);
        assert(seq![x] =~= ls);
    } else {
        let d = ls.drop_last();
        assert forall|i: int| 0 <= i < d.len() implies no_newline(#[trigger] d[i]) && no_trailing_cr(d[i]) by {
            assert(d[i] == ls[i]);
        }
        lemma_lines_of_joined(d);
        let a = join_lines(d).push('\n');
        lemma_scan_append(a, x);
        assert(Seq::<char>::empty() + x =~= x);
        let whole = join_lines(ls).push('\n');
        assert(join_lines(ls) =~= a + x);
        assert(whole.drop_last() =~= a + x);
        assert(d.push(x) =~= ls);
    }
    assert(join_lines(ls).push('\n').last() == '\n');
}

/// Every line that `lines` reads has no line feed.
proof fn lemma_lines_no_newline(s: Seq<char>)
    ensures
        forall|i: int| 0 <= i < scan_lines(s).0.len() ==> no_newline(#[trigger] scan_lines(s).0[i]),
        no_newline(scan_lines(s).1),
        forall|i: int| 0 <= i < lines(s).len() ==> no_newline(#[trigger] lines(s)[i]),
    decreases s.len(),
{
    if s.len() > 0 {
        lemma_lines_no_newline(s.drop_last());
        let (done, cur) = scan_lines(s.drop_last());
        if s.last() == '\n' {
            assert(no_newline(strip_cr(cur))) by {
                assert forall|j: int| 0 <= j < strip_cr(cur).len() implies strip_cr(cur)[j] != '\n' by {
                    assert(strip_cr(cur)[j] == cur[j]);
                }
            }
            assert forall|i: int| 0 <= i < scan_lines(s).0.len() implies no_newline(#[trigger] scan_lines(s).0[i]) by {
                if i < done.len() {
                    assert(scan_lines(s).0[i] == done[i]);
                }
            }
        } else {
            assert forall|j: int| 0 <= j < cur.push(s.last()).len() implies cur.push(s.last())[j] != '\n' by {
                if j < cur.len() {
                    assert(cur.push(s.last())[j] == cur[j]);
                }
            }
        }
    }
    let (done, cur) = scan_lines(s);
    assert forall|i: int| 0 <= i < lines(s).len() implies no_newline(#[trigger] lines(s)[i]) by {
        if i < done.len() {
            assert(lines(s)[i] == done[i]);
        }
    }
}

/// The formatter settles in one pass: formatting its output again changes
/// nothing, provided no formatted line ends with a carriage return (a line
/// ending `"\r\r\n"` keeps one `'\r'` in the first pass, which the second
/// reads as part of its line ending). Its output is empty or ends with a line
/// feed, and, when not empty, has as many lines as the source, each being the
/// source line's text behind whole indentation levels, or empty where the
/// source line has no text.
pub proof fn law_format_settles(s: Seq<char>)
    requires
        forall|i: int| 0 <= i < format_lines(lines(s), 0).len() ==> no_trailing_cr(#[trigger] format_lines(lines(s), 0)[i]),
    ensures
        formatted_document(formatted_document(s)) == formatted_document(s),
        formatted_document(s).len() == 0 || formatted_document(s).last() == '\n',
        formatted_document(s).len() > 0 ==> lines(formatted_document(s)).len() == lines(s).len(),
        formatted_document(s).len() > 0 ==> forall|i: int| 0 <= i < lines(s).len() ==> {
            let o = #[trigger] lines(formatted_document(s))[i];
            let t = line_text(lines(s)[i]);
            (t.len() == 0 && o.len() == 0) || (t.len() > 0 && exists|k: nat| o == indent(k) + t)
        },
{
    let ls = lines(s);
    let f = format_lines(ls, 0);
    let body = join_lines(f);
    lemma_lines_no_newline(s);
    lemma_format_lines_shape(ls, 0);
    if body.len() == 0 {
        assert(formatted_document(s) == body);
        let e = Seq::<char>::empty();
        assert(scan_lines(e) == (Seq::<Seq<char>>::empty(), e));
        assert(lines(e) =~= Seq::<Seq<char>>::empty());
        assert(format_lines(lines(e), 0) =~= Seq::<Seq<char>>::empty());
        assert(join_lines(format_lines(lines(e), 0)) =~= e);
    } else {
        assert(f.len() > 0);
        assert forall|i: int| 0 <= i < f.len() implies no_newline(#[trigger] f[i]) && no_trailing_cr(f[i]) by {
            assert(no_newline(ls[i]));
        }
        lemma_lines_of_joined(f);
        assert(formatted_document(s) == body.push('\n'));
        assert(lines(formatted_document(s)) == f);
        lemma_format_lines_stable(ls, 0);
    }
}

/// The headers of Structured Text blocks: program organisation units and their
/// parts (`PROGRAM`, `FUNCTION`, `FUNCTION_BLOCK`, `CONFIGURATION`, `RESOURCE`,
/// `CLASS`, `INTERFACE`, `METHOD`, `PROPERTY`, `ACTION`, `TRANSITION`, each with
/// a name after it), the alternative branches `ELSE` and `ELSIF`, `REPEAT`, the
/// declaration sections (`VAR`, `VAR_INPUT`, `VAR_OUTPUT`, `VAR_IN_OUT`,
/// `VAR_TEMP`, `VAR_GLOBAL`, `VAR_EXTERNAL`, `VAR_CONFIG`, `VAR_ACCESS`, alone or
/// followed by a qualifier), and the control statements `IF … THEN`,
/// `CASE … OF`, `FOR … DO` and `WHILE … DO`. `u` is the line's text in upper
/// case.
pub open spec fn block_header(u: Seq<char>) -> bool {
    let headed = seq![
        "PROGRAM "@, "FUNCTION "@, "FUNCTION_BLOCK "@, "CONFIGURATION "@, "RESOURCE "@,
        "CLASS "@, "INTERFACE "@, "METHOD "@, "PROPERTY "@, "ACTION "@, "TRANSITION "@,
        "ELSE "@, "ELSIF "@, "REPEAT"@,
    ];
    let sections = seq![
        "VAR"@, "VAR_INPUT"@, "VAR_OUTPUT"@, "VAR_IN_OUT"@, "VAR_TEMP"@, "VAR_GLOBAL"@,
        "VAR_EXTERNAL"@, "VAR_CONFIG"@, "VAR_ACCESS"@,
    ];
    let statements = seq![("IF "@, " THEN"@), ("CASE "@, " OF"@), ("FOR "@, " DO"@), ("WHILE "@, " DO"@)];
    ||| u == "ELSE"@
    ||| exists|j: int| 0 <= j < headed.len() && starts_with(u, #[trigger] headed[j])
    ||| exists|j: int| 0 <= j < sections.len() && (u == #[trigger] sections[j] || starts_with(u, sections[j] + " "@))
    ||| exists|j: int| 0 <= j < statements.len() && starts_with(u, (#[trigger] statements[j]).0) && contains(u, statements[j].1)
}

/// The lines that end a block (`END_…`), start an alternative branch (`ELSE`,
/// `ELSIF`) or close a `REPEAT` (`UNTIL`). `u` is the line's text in upper case.
pub open spec fn block_closer(u: Seq<char>) -> bool {
    let closers = seq!["END_"@, "ELSE "@, "ELSIF "@, "UNTIL "@];
    u == "ELSE"@ || exists|j: int| 0 <= j < closers.len() && starts_with(u, #[trigger] closers[j])
}

proof fn lemma_block_header(u: Seq<char>)
    ensures
        block_header(u) == indent_line(u),
{
    let headed = seq![
        "PROGRAM "@, "FUNCTION "@, "FUNCTION_BLOCK "@, "CONFIGURATION "@, "RESOURCE "@,
        "CLASS "@, "INTERFACE "@, "METHOD "@, "PROPERTY "@, "ACTION "@, "TRANSITION "@,
        "ELSE "@, "ELSIF "@, "REPEAT"@,
    ];
    let sections = seq![
        "VAR"@, "VAR_INPUT"@, "VAR_OUTPUT"@, "VAR_IN_OUT"@, "VAR_TEMP"@, "VAR_GLOBAL"@,
        "VAR_EXTERNAL"@, "VAR_CONFIG"@, "VAR_ACCESS"@,
    ];
    let statements = seq![("IF "@, " THEN"@), ("CASE "@, " OF"@), ("FOR "@, " DO"@), ("WHILE "@, " DO"@)];
    if exists|j: int| 0 <= j < headed.len() && starts_with(u, #[trigger] headed[j]) {
        let j = choose|j: int| 0 <= j < headed.len() && starts_with(u, #[trigger] headed[j]);
        assert(0 <= j < 14);
        assert(j == 0 || j == 1 || j == 2 || j == 3 || j == 4 || j == 5 || j == 6 || j == 7 || j == 8 || j == 9 || j == 10 || j == 11 || j == 12 || j == 13);
    }
    if exists|j: int| 0 <= j < sections.len() && (u == #[trigger] sections[j] || starts_with(u, sections[j] + " "@)) {
        let j = choose|j: int| 0 <= j < sections.len() && (u == #[trigger] sections[j] || starts_with(u, sections[j] + " "@));
        assert(j == 0 || j == 1 || j == 2 || j == 3 || j == 4 || j == 5 || j == 6 || j == 7 || j == 8);
    }
    if exists|j: int| 0 <= j < statements.len() && starts_with(u, (#[trigger] statements[j]).0) && contains(u, statements[j].1) {
        let j = choose|j: int| 0 <= j < statements.len() && starts_with(u, (#[trigger] statements[j]).0) && contains(u, statements[j].1);
        assert(j == 0 || j == 1 || j == 2 || j == 3);
    }
    if indent_line(u) {
        let hs = headed;
        assert(hs[0] == "PROGRAM "@ && hs[1] == "FUNCTION "@ && hs[2] == "FUNCTION_BLOCK "@ && hs[3] == "CONFIGURATION "@);
        assert(hs[4] == "RESOURCE "@ && hs[5] == "CLASS "@ && hs[6] == "INTERFACE "@ && hs[7] == "METHOD "@);
        assert(hs[8] == "PROPERTY "@ && hs[9] == "ACTION "@ && hs[10] == "TRANSITION "@ && hs[11] == "ELSE "@);
        assert(hs[12] == "ELSIF "@ && hs[13] == "REPEAT"@);
        assert(sections[0] == "VAR"@ && sections[1] == "VAR_INPUT"@ && sections[2] == "VAR_OUTPUT"@);
        assert(sections[3] == "VAR_IN_OUT"@ && sections[4] == "VAR_TEMP"@ && sections[5] == "VAR_GLOBAL"@);
        assert(sections[6] == "VAR_EXTERNAL"@ && sections[7] == "VAR_CONFIG"@ && sections[8] == "VAR_ACCESS"@);
        assert(statements[0] == ("IF "@, " THEN"@) && statements[1] == ("CASE "@, " OF"@));
        assert(statements[2] == ("FOR "@, " DO"@) && statements[3] == ("WHILE "@, " DO"@));
    }
}

proof fn lemma_block_closer(u: Seq<char>)
    ensures
        block_closer(u) == dedent_line(u),
{
    let closers = seq!["END_"@, "ELSE "@, "ELSIF "@, "UNTIL "@];
    if exists|j: int| 0 <= j < closers.len() && starts_with(u, #[trigger] closers[j]) {
        let j = choose|j: int| 0 <= j < closers.len() && starts_with(u, #[trigger] closers[j]);
        assert(j == 0 || j == 1 || j == 2 || j == 3);
    }
    assert(closers[0] == "END_"@ && closers[1] == "ELSE "@ && closers[2] == "ELSIF "@ && closers[3] == "UNTIL "@);
}

/// The level the formatter is at when it reaches line `j` of `ls`, having
/// started at `level`.
pub open spec fn level_at(ls: Seq<Seq<char>>, level: nat, j: nat) -> nat
    decreases j,
{
    if j == 0 || ls.len() == 0 {
        level
    } else {
        level_at(ls.drop_first(), format_line(ls[0], level).1, (j - 1) as nat)
    }
}

proof fn lemma_line_at(ls: Seq<Seq<char>>, level: nat, j: int)
    requires
        0 <= j < ls.len(),
    ensures
        format_lines(ls, level)[j] == format_line(ls[j], level_at(ls, level, j as nat)).0,
        level_at(ls, level, (j + 1) as nat) == format_line(ls[j], level_at(ls, level, j as nat)).1,
    decreases j,
{
    let next = format_line(ls[0], level).1;
    lemma_format_lines_shape(ls, level);
    if j > 0 {
        lemma_line_at(ls.drop_first(), next, j - 1);
        assert(ls.drop_first()[j - 1] == ls[j]);
        assert(format_lines(ls, level)[j] == format_lines(ls.drop_first(), next)[j - 1]);
        assert(level_at(ls, level, j as nat) == level_at(ls.drop_first(), next, (j - 1) as nat));
        assert(level_at(ls, level, (j + 1) as nat) == level_at(ls.drop_first(), next, j as nat));
    } else {
        assert(level_at(ls, level, 1) == level_at(ls.drop_first(), next, 0));
    }
}

/// Lines are indented by block depth, two spaces a level. Take a line with text
/// written at level `k`. The line after it is written at the level that line
/// leaves: one deeper after a block header (a comment is no header), the same
/// otherwise. A line that closes a block is written one level out from there
/// (never below the left margin), a comment or any other line at that level,
/// and a line without text is left empty.
pub proof fn law_block_depth(ls: Seq<Seq<char>>, level: nat, i: int, k: nat)
    requires
        0 <= i,
        i + 1 < ls.len(),
        line_text(ls[i]).len() > 0,
        format_lines(ls, level)[i] == Seq::new(2 * k, |_j: int| ' ') + line_text(ls[i]),
    ensures
        ({
            let t = line_text(ls[i]);
            let t2 = line_text(ls[i + 1]);
            let out = format_lines(ls, level)[i + 1];
            let comment = starts_with(t, "//"@) || starts_with(t, "(*"@);
            let comment2 = starts_with(t2, "//"@) || starts_with(t2, "(*"@);
            let after: nat = if !comment && block_header(upper(t)) { k + 1 } else { k };
            if t2.len() == 0 {
                out.len() == 0
            } else if !comment2 && block_closer(upper(t2)) && after > 0 {
                out == Seq::new((2 * (after - 1)) as nat, |_j: int| ' ') + t2
            } else {
                out == Seq::new(2 * after, |_j: int| ' ') + t2
            }
        }),
{
    let t = line_text(ls[i]);
    let l = level_at(ls, level, i as nat);
    lemma_line_at(ls, level, i);
    lemma_line_at(ls, level, i + 1);
    lemma_block_header(upper(t));
    lemma_block_closer(upper(line_text(ls[i + 1])));
    let f = format_line(ls[i], l);
    assert(f.0.len() == 2 * k + t.len());
}

} // verus!
