//! Applying the text edits of a rename to a source text: the edits are applied
//! from the last position to the first, each replacing a byte range.
use vstd::prelude::*;

use crate::ide::model::{ide_error, IdeError, IdeErrorKind};
use crate::ide::positions::{
    char_width, chars_within, lemma_chars_within_prefix, lemma_chars_within_step,
    lemma_utf8_len_concat, lemma_utf8_len_take_step, on_char_boundary, utf8_len, utf8_width,
};
use crate::text::{chars_of, string_of};

verus! {

/// A replacement of the bytes `start..end` of a text by `new_text`.
#[derive(Debug, Clone)]
pub struct TextEdit {
    pub start: u32,
    pub end: u32,
    pub new_text: String,
}

pub open spec fn edit_view(e: TextEdit) -> (nat, nat, Seq<char>) {
    (e.start as nat, e.end as nat, e.new_text@)
}

pub open spec fn edits_view(s: Seq<TextEdit>) -> Seq<(nat, nat, Seq<char>)> {
    s.map_values(|e: TextEdit| edit_view(e))
}

/// `e` placed into `s`, which runs from the latest start to the earliest, after
/// every edit starting at or after it.
pub open spec fn insert_by_start(s: Seq<(nat, nat, Seq<char>)>, e: (nat, nat, Seq<char>)) -> Seq<(nat, nat, Seq<char>)>
    decreases s.len(),
{
    if s.len() == 0 {
        seq![e]
    } else if s.last().0 < e.0 {
        insert_by_start(s.drop_last(), e).push(s.last())
    } else {
        s.push(e)
    }
}

/// The edits from the latest start to the earliest, edits with the same start
/// in their given order (a stable sort).
pub open spec fn by_start_desc(s: Seq<(nat, nat, Seq<char>)>) -> Seq<(nat, nat, Seq<char>)>
    decreases s.len(),
{
    if s.len() == 0 {
        s
    } else {
        insert_by_start(by_start_desc(s.drop_last()), s.last())
    }
}

/// `out` with the bytes `start..end` replaced by `new_text`.
pub open spec fn replace_bytes(out: Seq<char>, start: nat, end: nat, new_text: Seq<char>) -> Seq<char> {
    chars_within(out, start) + new_text + out.skip(chars_within(out, end).len() as int)
}

/// The text after the edits in the order given; `None` where an edit reaches
/// outside the text as it then stands or ends before it starts.
pub open spec fn apply_in_order(text: Seq<char>, edits: Seq<(nat, nat, Seq<char>)>) -> Option<Seq<char>>
    decreases edits.len(),
{
    if edits.len() == 0 {
        Some(text)
    } else {
        let e = edits[0];
        if e.0 > e.1 || e.1 > utf8_len(text) {
            None
        } else {
            apply_in_order(replace_bytes(text, e.0, e.1, e.2), edits.drop_first())
        }
    }
}

/// Every edit that is applied starts and ends on a character boundary of the
/// text as it then stands.
pub open spec fn edits_on_boundaries(text: Seq<char>, edits: Seq<(nat, nat, Seq<char>)>) -> bool
    decreases edits.len(),
{
    if edits.len() == 0 {
        true
    } else {
        let e = edits[0];
        if e.0 > e.1 || e.1 > utf8_len(text) {
            true
        } else {
            on_char_boundary(text, e.0) && on_char_boundary(text, e.1) && edits_on_boundaries(
                replace_bytes(text, e.0, e.1, e.2),
                edits.drop_first(),
            )
        }
    }
}

fn copy_edit(e: &TextEdit) -> (r: TextEdit)
    ensures
        edit_view(r) == edit_view(*e),
{
    TextEdit { start: e.start, end: e.end, new_text: e.new_text.clone() }
}

fn insert_edit(sorted: &mut Vec<TextEdit>, e: TextEdit)
    ensures
        edits_view(final(sorted)@) == insert_by_start(edits_view(old(sorted)@), edit_view(e)),
{
    let ghost s = edits_view(sorted@);
    let mut k: usize = sorted.len();
    assert(s.take(k as int) =~= s);
    assert(s.skip(k as int) =~= Seq::<(nat, nat, Seq<char>)>::empty());
    while k > 0 && sorted[k - 1].start < e.start
        invariant
            k <= sorted@.len(),
            sorted@ == old(sorted)@,
            s == edits_view(sorted@),
            insert_by_start(s, edit_view(e)) == insert_by_start(s.take(k as int), edit_view(e)) + s.skip(k as int),
        decreases k,
    {
        assert(s.take(k as int).drop_last() =~= s.take(k - 1));
        assert(s.take(k as int).last() == s[k - 1]);
        assert(s.skip(k - 1) =~= seq![s[k - 1]] + s.skip(k as int));
        assert(insert_by_start(s.take(k - 1), edit_view(e)).push(s[k - 1]) + s.skip(k as int) =~= insert_by_start(
            s.take(k - 1),
            edit_view(e),
        ) + s.skip(k - 1));
        k = k - 1;
    }
    proof {
        if k > 0 {
            assert(s.take(k as int).last() == s[k - 1]);
        }
    }
    sorted.insert(k, e);
    assert(edits_view(sorted@) =~= s.take(k as int).push(edit_view(e)) + s.skip(k as int));
}

pub(crate) fn utf8_len_exec(s: &[char]) -> (r: u128)
    ensures
        r == utf8_len(s@),
{
    let mut i: usize = 0;
    let mut n: u128 = 0;
    assert(s@.take(0) =~= Seq::<char>::empty());
    while i < s.len()
        invariant
            i <= s.len(),
            n == utf8_len(s@.take(i as int)),
            n <= 4 * i,
        decreases s.len() - i,
    {
        proof {
            lemma_utf8_len_take_step(s@, i as int);
        }
        n = n + char_width(s[i]) as u128;
        i = i + 1;
    }
    assert(s@.take(s.len() as int) =~= s@);
    n
}

/// How many characters of `s` lie wholly within its first `n` bytes.
fn chars_within_count(s: &[char], n: u32) -> (r: usize)
    ensures
        r == chars_within(s@, n as nat).len(),
        chars_within(s@, n as nat) == s@.take(r as int),
{
    let mut i: usize = 0;
    let mut rem: u32 = n;
    assert(s@.skip(0) =~= s@);
    assert(s@.take(0) =~= Seq::<char>::empty());
    assert(chars_within(s@, n as nat) =~= s@.take(0) + chars_within(s@.skip(0), n as nat));
    while i < s.len() && char_width(s[i]) <= rem as usize
        invariant
            i <= s.len(),
            chars_within(s@, n as nat) == s@.take(i as int) + chars_within(s@.skip(i as int), rem as nat),
        decreases s.len() - i,
    {
        proof {
            lemma_chars_within_step(s@, i as int, rem as nat);
        }
        rem = rem - char_width(s[i]) as u32;
        i = i + 1;
    }
    proof {
        let t = s@.skip(i as int);
        assert(chars_within(t, rem as nat) =~= Seq::<char>::empty());
        assert(chars_within(s@, n as nat) =~= s@.take(i as int));
    }
    i
}

/// Applies rename edits to `text`, from the latest start to the earliest. An edit
/// that ends before it starts, or past the end of the text as it then stands,
/// is refused.
pub fn apply_text_edits(text: &str, edits: &[TextEdit]) -> (r: Result<String, IdeError>)
    requires
        edits_on_boundaries(text@, by_start_desc(edits_view(edits@))),
    ensures
        match (r, apply_in_order(text@, by_start_desc(edits_view(edits@)))) {
            (Ok(s), Some(t)) => s@ == t,
            (Err(e), None) => e.kind_spec() == IdeErrorKind::InvalidInput && e.message_spec()
                == "rename edit range out of bounds"@,
            _ => false,
        },
{
    let ghost ev = edits_view(edits@);
    let mut sorted: Vec<TextEdit> = Vec::new();
    let mut i: usize = 0;
    assert(ev.take(0) =~= Seq::<(nat, nat, Seq<char>)>::empty());
    assert(edits_view(sorted@) =~= by_start_desc(ev.take(0)));
    while i < edits.len()
        invariant
            i <= edits.len(),
            ev == edits_view(edits@),
            edits_view(sorted@) == by_start_desc(ev.take(i as int)),
        decreases edits.len() - i,
    {
        assert(ev.take(i + 1).drop_last() =~= ev.take(i as int));
        assert(ev.take(i + 1).last() == edit_view(edits@[i as int]));
        insert_edit(&mut sorted, copy_edit(&edits[i]));
        i = i + 1;
    }
    assert(ev.take(edits.len() as int) =~= ev);
    let ghost order = edits_view(sorted@);
    let mut out = chars_of(text);
    let mut j: usize = 0;
    assert(order.skip(0) =~= order);
    while j < sorted.len()
        invariant
            j <= sorted.len(),
            order == edits_view(sorted@),
            order == by_start_desc(edits_view(edits@)),
            edits_on_boundaries(out@, order.skip(j as int)),
            apply_in_order(out@, order.skip(j as int)) == apply_in_order(text@, order),
        decreases sorted.len() - j,
    {
        let e = &sorted[j];
        let ghost ej = order[j as int];
        assert(order.skip(j as int)[0] == ej);
        assert(order.skip(j as int).drop_first() =~= order.skip(j + 1));
        assert(ej == edit_view(sorted@[j as int]));
        let total = utf8_len_exec(out.as_slice());
        if e.start > e.end || e.end as u128 > total {
            assert(apply_in_order(out@, order.skip(j as int)) is None);
            return Err(ide_error(IdeErrorKind::InvalidInput, "rename edit range out of bounds"));
        }
        let a = chars_within_count(out.as_slice(), e.start);
        let b = chars_within_count(out.as_slice(), e.end);
        proof {
            lemma_chars_within_prefix(out@, e.start as nat);
            lemma_chars_within_prefix(out@, e.end as nat);
        }
        let mut next: Vec<char> = Vec::new();
        let mut k: usize = 0;
        while k < a
            invariant
                k <= a,
                a <= out@.len(),
                next@ == out@.take(k as int),
            decreases a - k,
        {
            next.push(out[k]);
            assert(out@.take(k + 1) =~= out@.take(k as int).push(out@[k as int]));
            k = k + 1;
        }
        let nv = chars_of(e.new_text.as_str());
        let mut m: usize = 0;
        let ghost base = next@;
        while m < nv.len()
            invariant
                m <= nv.len(),
                next@ == base + nv@.take(m as int),
            decreases nv.len() - m,
        {
            next.push(nv[m]);
            assert(nv@.take(m + 1) =~= nv@.take(m as int).push(nv@[m as int]));
            m = m + 1;
        }
        assert(nv@.take(nv.len() as int) =~= nv@);
        let ghost mid = next@;
        let mut q: usize = b;
        while q < out.len()
            invariant
                b <= q <= out@.len(),
                next@ == mid + out@.subrange(b as int, q as int),
            decreases out.len() - q,
        {
            next.push(out[q]);
            assert(out@.subrange(b as int, q + 1) =~= out@.subrange(b as int, q as int).push(out@[q as int]));
            q = q + 1;
        }
        assert(next@ =~= replace_bytes(out@, ej.0, ej.1, ej.2));
        assert(apply_in_order(out@, order.skip(j as int)) == apply_in_order(next@, order.skip(j + 1)));
        assert(edits_on_boundaries(next@, order.skip(j + 1)));
        out = next;
        j = j + 1;
    }
    assert(order.skip(sorted.len() as int) =~= Seq::<(nat, nat, Seq<char>)>::empty());
    Ok(string_of(out.as_slice()))
}

proof fn lemma_chars_within_concat(p: Seq<char>, q: Seq<char>, n: nat)
    requires
        n <= utf8_len(p),
    ensures
        chars_within(p + q, n) == chars_within(p, n),
    decreases p.len(),
{
    if p.len() == 0 {
        assert(n == 0);
        assert(p + q =~= q);
        if q.len() > 0 {
            assert(utf8_width(q[0]) >= 1);
        }
    } else {
        assert((p + q)[0] == p[0]);
        assert((p + q).drop_first() =~= p.drop_first() + q);
        if utf8_width(p[0]) <= n {
            lemma_chars_within_concat(p.drop_first(), q, (n - utf8_width(p[0])) as nat);
        }
    }
}

proof fn lemma_chars_within_monotone(s: Seq<char>, n: nat, m: nat)
    requires
        n <= m,
    ensures
        chars_within(s, n).len() <= chars_within(s, m).len(),
    decreases s.len(),
{
    if s.len() > 0 && utf8_width(s[0]) <= n {
        lemma_chars_within_monotone(s.drop_first(), (n - utf8_width(s[0])) as nat, (m - utf8_width(s[0])) as nat);
    }
}

/// Edits given against the original text land where they were meant to: with
/// one edit wholly before another, both apply to the original offsets, because
/// the later one is applied first.
pub proof fn law_edits_use_original_offsets(text: Seq<char>, e1: (nat, nat, Seq<char>), e2: (nat, nat, Seq<char>))
    requires
        e1.0 <= e1.1 <= e2.0 <= e2.1 <= utf8_len(text),
        e1.0 < e2.0,
        on_char_boundary(text, e1.0),
        on_char_boundary(text, e1.1),
        on_char_boundary(text, e2.0),
        on_char_boundary(text, e2.1),
    ensures
        edits_on_boundaries(text, by_start_desc(seq![e1, e2])),
        apply_in_order(text, by_start_desc(seq![e1, e2])) == Some(
            chars_within(text, e1.0) + e1.2 + text.subrange(
                chars_within(text, e1.1).len() as int,
                chars_within(text, e2.0).len() as int,
            ) + e2.2 + text.skip(chars_within(text, e2.1).len() as int),
        ),
{
    let es = seq![e1, e2];
    assert(es.drop_last() =~= seq![e1]);
    assert(seq![e1].drop_last() =~= Seq::<(nat, nat, Seq<char>)>::empty());
    assert(by_start_desc(Seq::<(nat, nat, Seq<char>)>::empty()) =~= Seq::<(nat, nat, Seq<char>)>::empty());
    assert(insert_by_start(Seq::<(nat, nat, Seq<char>)>::empty(), e1) =~= seq![e1]);
    assert(seq![e1].last() == e1);
    assert(by_start_desc(seq![e1]) =~= seq![e1]);
    assert(es.last() == e2);
    assert(insert_by_start(Seq::<(nat, nat, Seq<char>)>::empty(), e2) =~= seq![e2]);
    assert(by_start_desc(es) =~= seq![e2, e1]);
    let w1 = chars_within(text, e1.0);
    let v1 = chars_within(text, e1.1);
    let w2 = chars_within(text, e2.0);
    let v2 = chars_within(text, e2.1);
    lemma_chars_within_prefix(text, e1.0);
    lemma_chars_within_prefix(text, e1.1);
    lemma_chars_within_prefix(text, e2.0);
    lemma_chars_within_prefix(text, e2.1);
    lemma_chars_within_monotone(text, e1.0, e1.1);
    lemma_chars_within_monotone(text, e1.1, e2.0);
    let out1 = replace_bytes(text, e2.0, e2.1, e2.2);
    let rest = text.skip(v2.len() as int);
    assert(out1 == w2 + e2.2 + rest);
    assert(out1 =~= w2 + (e2.2 + rest));
    assert(utf8_len(w2) == e2.0);
    // the first edit sees the same bytes before the second one's start
    lemma_chars_within_concat(w2, e2.2 + rest, e1.0);
    lemma_chars_within_concat(w2, e2.2 + rest, e1.1);
    assert(text =~= w2 + text.skip(w2.len() as int));
    lemma_chars_within_concat(w2, text.skip(w2.len() as int), e1.0);
    lemma_chars_within_concat(w2, text.skip(w2.len() as int), e1.1);
    assert(chars_within(out1, e1.0) == w1);
    assert(chars_within(out1, e1.1) == v1);
    lemma_utf8_len_concat(w2, e2.2 + rest);
    assert(utf8_len(out1) >= e2.0);
    // boundaries of the intermediate text
    assert(on_char_boundary(out1, e1.0));
    assert(on_char_boundary(out1, e1.1));
    let out2 = replace_bytes(out1, e1.0, e1.1, e1.2);
    assert(out1.skip(v1.len() as int) =~= w2.skip(v1.len() as int) + e2.2 + rest);
    assert(w2.skip(v1.len() as int) =~= text.subrange(v1.len() as int, w2.len() as int));
    let d = seq![e2, e1];
    assert(d[0] == e2);
    assert(d.drop_first() =~= seq![e1]);
    assert(seq![e1][0] == e1);
    assert(seq![e1].drop_first() =~= Seq::<(nat, nat, Seq<char>)>::empty());
    assert(apply_in_order(out2, Seq::<(nat, nat, Seq<char>)>::empty()) == Some(out2));
    assert(edits_on_boundaries(out2, Seq::<(nat, nat, Seq<char>)>::empty()));
    assert(edits_on_boundaries(out1, seq![e1]));
    assert(apply_in_order(out1, seq![e1]) == Some(out2));
    assert(out2 =~= w1 + e1.2 + text.subrange(v1.len() as int, w2.len() as int) + e2.2 + rest);
}

} // verus!
