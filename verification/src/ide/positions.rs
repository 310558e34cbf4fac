//! Conversion between UTF-8 byte offsets into a source text and editor positions
//! (a line, and a character within that line).
use vstd::prelude::*;

use crate::ide::model::{IdePosition, IdeRange};
use crate::text::chars_of;

verus! {

/// The number of bytes that UTF-8 spends on `c`.
pub open spec fn utf8_width(c: char) -> nat {
    if (c as u32) <= 0x7F {
        1
    } else if (c as u32) <= 0x7FF {
        2
    } else if (c as u32) <= 0xFFFF {
        3
    } else {
        4
    }
}

/// The length in bytes of the UTF-8 encoding of `s`.
pub open spec fn utf8_len(s: Seq<char>) -> nat
    decreases s.len(),
{
    if s.len() == 0 {
        0
    } else {
        utf8_width(s[0]) + utf8_len(s.drop_first())
    }
}

/// `utf8_len` is the length of the encoding that a `str` holds.
pub proof fn lemma_utf8_len_is_encoding_len(s: Seq<char>)
    ensures
        utf8_len(s) == vstd::utf8::encode_utf8(s).len(),
    decreases s.len(),
{
    if s.len() > 0 {
        let c = s[0];
        vstd::utf8::char_is_scalar(c);
        assert(vstd::utf8::encode_scalar(c as u32).len() == utf8_width(c));
        lemma_utf8_len_is_encoding_len(s.drop_first());
    }
}

pub proof fn lemma_utf8_len_concat(a: Seq<char>, b: Seq<char>)
    ensures
        utf8_len(a + b) == utf8_len(a) + utf8_len(b),
    decreases a.len(),
{
    if a.len() > 0 {
        assert((a + b).drop_first() =~= a.drop_first() + b);
        lemma_utf8_len_concat(a.drop_first(), b);
    } else {
        assert(a + b =~= b);
    }
}

/// Reading one more character adds its width.
pub proof fn lemma_utf8_len_take_step(s: Seq<char>, i: int)
    requires
        0 <= i < s.len(),
    ensures
        utf8_len(s.take(i + 1)) == utf8_len(s.take(i)) + utf8_width(s[i]),
        utf8_len(s.take(i + 1)) <= utf8_len(s),
{
    assert(s.take(i + 1) =~= s.take(i) + seq![s[i]]);
    lemma_utf8_len_concat(s.take(i), seq![s[i]]);
    assert(seq![s[i]].drop_first() =~= Seq::<char>::empty());
    assert(utf8_len(seq![s[i]]) == utf8_width(s[i])) by {
        reveal_with_fuel(utf8_len, 2);
    }
    assert(s =~= s.take(i + 1) + s.skip(i + 1));
    lemma_utf8_len_concat(s.take(i + 1), s.skip(i + 1));
}

pub(crate) fn char_width(c: char) -> (r: usize)
    ensures
        r == utf8_width(c),
{
    let u = c as u32;
    if u <= 0x7F {
        1
    } else if u <= 0x7FF {
        2
    } else if u <= 0xFFFF {
        3
    } else {
        4
    }
}

/// The line and the character within it that follow the text `p`.
pub open spec fn end_position(p: Seq<char>) -> (nat, nat)
    decreases p.len(),
{
    if p.len() == 0 {
        (0, 0)
    } else if p.last() == '\n' {
        (end_position(p.drop_last()).0 + 1, 0)
    } else {
        (end_position(p.drop_last()).0, end_position(p.drop_last()).1 + 1)
    }
}

/// The characters of `s` that lie wholly within its first `n` bytes.
pub open spec fn chars_within(s: Seq<char>, n: nat) -> Seq<char>
    decreases s.len(),
{
    if s.len() == 0 || utf8_width(s[0]) > n {
        Seq::empty()
    } else {
        seq![s[0]] + chars_within(s.drop_first(), (n - utf8_width(s[0])) as nat)
    }
}

pub(crate) proof fn lemma_chars_within_step(s: Seq<char>, i: int, n: nat)
    requires
        0 <= i < s.len(),
        utf8_width(s[i]) <= n,
    ensures
        s.take(i) + chars_within(s.skip(i), n) == s.take(i + 1) + chars_within(s.skip(i + 1), (n - utf8_width(s[i])) as nat),
{
    let t = s.skip(i);
    assert(t.drop_first() =~= s.skip(i + 1));
    assert(t[0] == s[i]);
    assert(chars_within(t, n) == seq![s[i]] + chars_within(s.skip(i + 1), (n - utf8_width(s[i])) as nat));
    assert(s.take(i + 1) =~= s.take(i) + seq![s[i]]);
    assert(s.take(i) + (seq![s[i]] + chars_within(s.skip(i + 1), (n - utf8_width(s[i])) as nat))
        =~= s.take(i + 1) + chars_within(s.skip(i + 1), (n - utf8_width(s[i])) as nat));
}

/// A byte offset at which a character starts, or one at or past the end.
pub open spec fn on_char_boundary(s: Seq<char>, n: nat) -> bool {
    n >= utf8_len(s) || utf8_len(chars_within(s, n)) == n
}

/// The characters of the first line of `s`, up to its first line break.
pub open spec fn first_line_len(s: Seq<char>) -> nat
    decreases s.len(),
{
    if s.len() == 0 || s[0] == '\n' {
        0
    } else {
        1 + first_line_len(s.drop_first())
    }
}

pub proof fn lemma_first_line_len_bound(s: Seq<char>)
    ensures
        first_line_len(s) <= s.len(),
    decreases s.len(),
{
    if s.len() > 0 && s[0] != '\n' {
        lemma_first_line_len_bound(s.drop_first());
    }
}

/// The byte offset in `s` of character `ch` of line `line` (of the end of that
/// line where it is shorter), or `None` where `s` has fewer lines.
pub open spec fn line_char_offset(s: Seq<char>, line: nat, ch: nat) -> Option<nat>
    decreases s.len(),
{
    if line == 0 {
        Some(utf8_len(s.take(if ch <= first_line_len(s) { ch } else { first_line_len(s) } as int)))
    } else if s.len() == 0 {
        None
    } else {
        let rest_line = if s[0] == '\n' { (line - 1) as nat } else { line };
        match line_char_offset(s.drop_first(), rest_line, ch) {
            Some(o) => Some(o + utf8_width(s[0])),
            None => None,
        }
    }
}

/// The byte offset of a position: the end of the text for a line past the last.
pub open spec fn position_offset(s: Seq<char>, line: nat, ch: nat) -> nat {
    match line_char_offset(s, line, ch) {
        Some(o) => o,
        None => utf8_len(s),
    }
}

pub open spec fn shift(o: Option<nat>, by: nat) -> Option<nat> {
    match o {
        Some(x) => Some(x + by),
        None => None,
    }
}

/// The byte offset of `position` in `text`, truncated to 32 bits.
pub fn position_to_text_size(text: &str, position: &IdePosition) -> (r: u32)
    requires
        utf8_len(text@) <= usize::MAX,
    ensures
        r == position_offset(text@, position.line as nat, position.character as nat) as u32,
{
    let ghost s = text@;
    let v = chars_of(text);
    let n = v.len();
    let mut i: usize = 0;
    let mut bytes: usize = 0;
    let mut remaining: u32 = position.line;
    let ghost target = line_char_offset(s, position.line as nat, position.character as nat);
    assert(s.skip(0) =~= s);
    assert(s.take(0) =~= Seq::<char>::empty());
    while remaining > 0 && i < n
        invariant
            v@ == s,
            n == s.len(),
            i <= n,
            utf8_len(s) <= usize::MAX,
            bytes == utf8_len(s.take(i as int)),
            target == shift(line_char_offset(s.skip(i as int), remaining as nat, position.character as nat), bytes as nat),
        decreases n - i,
    {
        let c = v[i];
        proof {
            lemma_utf8_len_take_step(s, i as int);
            assert(s.skip(i as int).drop_first() =~= s.skip(i + 1));
            assert(s.skip(i as int)[0] == c);
        }
        if c == '\n' {
            remaining = remaining - 1;
        }
        bytes = bytes + char_width(c);
        i = i + 1;
    }
    if remaining > 0 {
        assert(s.take(i as int) =~= s);
        return bytes as u32;
    }
    let mut count: u32 = 0;
    let ghost ch = position.character as nat;
    while count < position.character && i < n && v[i] != '\n'
        invariant
            v@ == s,
            n == s.len(),
            i <= n,
            count <= ch,
            ch == position.character as nat,
            utf8_len(s) <= usize::MAX,
            bytes == utf8_len(s.take(i as int)),
            target == Some((bytes + utf8_len(s.skip(i as int).take(
                if (ch - count) as nat <= first_line_len(s.skip(i as int)) { (ch - count) as nat } else { first_line_len(s.skip(i as int)) } as int,
            ))) as nat),
        decreases n - i,
    {
        let c = v[i];
        let ghost t = s.skip(i as int);
        proof {
            lemma_utf8_len_take_step(s, i as int);
            assert(t.drop_first() =~= s.skip(i + 1));
            assert(t[0] == c);
            let k: nat = (ch - count) as nat;
            let m: nat = if k <= first_line_len(t) { k } else { first_line_len(t) };
            lemma_first_line_len_bound(t);
            assert(first_line_len(t) == 1 + first_line_len(t.drop_first()));
            let k1: nat = (k - 1) as nat;
            let m1: nat = if k1 <= first_line_len(t.drop_first()) { k1 } else { first_line_len(t.drop_first()) };
            assert(m == m1 + 1);
            assert(t.take(m as int).drop_first() =~= t.drop_first().take(m1 as int));
            assert(t.take(m as int)[0] == c);
        }
        bytes = bytes + char_width(c);
        i = i + 1;
        count = count + 1;
    }
    proof {
        let t = s.skip(i as int);
        assert(t.take(0) =~= Seq::<char>::empty());
    }
    bytes as u32
}

/// The position at byte `offset` of `text`; an offset past the end counts as the
/// end. Line and character are truncated to 32 bits.
pub fn text_offset_to_position(text: &str, offset: u32) -> (r: IdePosition)
    requires
        utf8_len(text@) <= usize::MAX,
        on_char_boundary(text@, offset as nat),
    ensures
        r.line == end_position(chars_within(text@, offset as nat)).0 as u32,
        r.character == end_position(chars_within(text@, offset as nat)).1 as u32,
{
    let ghost s = text@;
    let v = chars_of(text);
    let n = v.len();
    let off = offset as usize;
    let mut i: usize = 0;
    let mut bytes: usize = 0;
    let mut line: usize = 0;
    let mut col: usize = 0;
    assert(s.skip(0) =~= s);
    assert(s.take(0) =~= Seq::<char>::empty());
    assert(chars_within(s, off as nat) =~= s.take(0) + chars_within(s.skip(0), off as nat));
    while i < n && char_width(v[i]) <= off - bytes
        invariant
            v@ == s,
            n == s.len(),
            i <= n,
            off == offset as usize,
            utf8_len(s) <= usize::MAX,
            bytes == utf8_len(s.take(i as int)),
            bytes <= off,
            line <= i,
            col <= i,
            (line as nat, col as nat) == end_position(s.take(i as int)),
            chars_within(s, off as nat) == s.take(i as int) + chars_within(s.skip(i as int), (off - bytes) as nat),
        decreases n - i,
    {
        let c = v[i];
        proof {
            lemma_utf8_len_take_step(s, i as int);
            let t = s.skip(i as int);
            assert(t.drop_first() =~= s.skip(i + 1));
            assert(t[0] == c);
            assert(s.take(i + 1) =~= s.take(i as int) + seq![c]);
            assert(s.take(i + 1).drop_last() =~= s.take(i as int));
            lemma_chars_within_step(s, i as int, (off - bytes) as nat);
        }
        if c == '\n' {
            line = line + 1;
            col = 0;
        } else {
            col = col + 1;
        }
        bytes = bytes + char_width(c);
        i = i + 1;
    }
    proof {
        let t = s.skip(i as int);
        assert(chars_within(t, (off - bytes) as nat) =~= Seq::<char>::empty());
        assert(chars_within(s, off as nat) =~= s.take(i as int));
    }
    IdePosition { line: line as u32, character: col as u32 }
}

/// The positions of both ends of the byte range `start..end` of `text`.
pub fn text_range_to_ide_range(text: &str, start: u32, end: u32) -> (r: IdeRange)
    requires
        utf8_len(text@) <= usize::MAX,
        on_char_boundary(text@, start as nat),
        on_char_boundary(text@, end as nat),
    ensures
        r.start.line == end_position(chars_within(text@, start as nat)).0 as u32,
        r.start.character == end_position(chars_within(text@, start as nat)).1 as u32,
        r.end.line == end_position(chars_within(text@, end as nat)).0 as u32,
        r.end.character == end_position(chars_within(text@, end as nat)).1 as u32,
{
    IdeRange { start: text_offset_to_position(text, start), end: text_offset_to_position(text, end) }
}

proof fn lemma_end_position_prepend(c: char, q: Seq<char>)
    ensures
        end_position(seq![c] + q) == (if c == '\n' {
            (end_position(q).0 + 1, end_position(q).1)
        } else {
            (end_position(q).0, if end_position(q).0 == 0 { end_position(q).1 + 1 } else { end_position(q).1 })
        }),
    decreases q.len(),
{
    if q.len() == 0 {
        assert(seq![c] + q =~= seq![c]);
        assert(seq![c].drop_last() =~= Seq::<char>::empty());
        assert(end_position(Seq::<char>::empty()) == (0nat, 0nat));
        assert(seq![c].last() == c);
    } else {
        assert((seq![c] + q).drop_last() =~= seq![c] + q.drop_last());
        assert((seq![c] + q).last() == q.last());
        lemma_end_position_prepend(c, q.drop_last());
    }
}

proof fn lemma_end_position_line_zero(q: Seq<char>)
    requires
        end_position(q).0 == 0,
    ensures
        end_position(q).1 == q.len(),
        forall|j: int| 0 <= j < q.len() ==> q[j] != '\n',
    decreases q.len(),
{
    if q.len() > 0 {
        lemma_end_position_line_zero(q.drop_last());
        assert forall|j: int| 0 <= j < q.len() implies q[j] != '\n' by {
            if j < q.len() - 1 {
                assert(q.drop_last()[j] == q[j]);
            }
        }
    }
}

proof fn lemma_first_line_len_at_least(s: Seq<char>, k: int)
    requires
        0 <= k <= s.len(),
        forall|j: int| 0 <= j < k ==> s[j] != '\n',
    ensures
        first_line_len(s) >= k,
    decreases k,
{
    if k > 0 {
        assert forall|j: int| 0 <= j < k - 1 implies s.drop_first()[j] != '\n' by {
            assert(s.drop_first()[j] == s[j + 1]);
        }
        lemma_first_line_len_at_least(s.drop_first(), k - 1);
    }
}

/// The position reached after the first `k` characters leads back to their byte length.
proof fn lemma_position_of_prefix(s: Seq<char>, k: int)
    requires
        0 <= k <= s.len(),
    ensures
        line_char_offset(s, end_position(s.take(k)).0, end_position(s.take(k)).1) == Some(utf8_len(s.take(k))),
    decreases s.len(),
{
    if k == 0 {
        assert(s.take(0) =~= Seq::<char>::empty());
    } else {
        let c = s[0];
        let t = s.drop_first();
        let q = t.take(k - 1);
        assert(s.take(k) =~= seq![c] + q);
        assert((seq![c] + q).drop_first() =~= q);
        lemma_end_position_prepend(c, q);
        lemma_position_of_prefix(t, k - 1);
        if c != '\n' && end_position(q).0 == 0 {
            lemma_end_position_line_zero(q);
            assert forall|j: int| 0 <= j < k implies s[j] != '\n' by {
                if j > 0 {
                    assert(q[j - 1] == s[j]);
                }
            }
            lemma_first_line_len_at_least(s, k);
        }
    }
}

pub(crate) proof fn lemma_chars_within_prefix(s: Seq<char>, n: nat)
    ensures
        chars_within(s, n).len() <= s.len(),
        chars_within(s, n) == s.take(chars_within(s, n).len() as int),
        n >= utf8_len(s) ==> chars_within(s, n) == s,
    decreases s.len(),
{
    if s.len() > 0 && utf8_width(s[0]) <= n {
        let m = (n - utf8_width(s[0])) as nat;
        lemma_chars_within_prefix(s.drop_first(), m);
        let r = chars_within(s.drop_first(), m);
        assert(s.take((r.len() + 1) as int) =~= seq![s[0]] + s.drop_first().take(r.len() as int));
        if n >= utf8_len(s) {
            assert(s =~= seq![s[0]] + s.drop_first());
        }
    } else if s.len() > 0 {
        assert(s.take(0) =~= Seq::<char>::empty());
    } else {
        assert(s.take(0) =~= s);
    }
}

/// Converting a byte offset to a position and the position back to an offset
/// gives the offset again (the end of the text for an offset past it).
pub proof fn law_position_round_trip(s: Seq<char>, offset: nat)
    requires
        on_char_boundary(s, offset),
    ensures
        position_offset(s, end_position(chars_within(s, offset)).0, end_position(chars_within(s, offset)).1)
            == if offset <= utf8_len(s) { offset } else { utf8_len(s) },
{
    let p = chars_within(s, offset);
    lemma_chars_within_prefix(s, offset);
    lemma_position_of_prefix(s, p.len() as int);
    if offset >= utf8_len(s) {
        assert(s.take(s.len() as int) =~= s);
    }
}

} // verus!
