//! Text helpers behind completion: identifiers, the word being typed, the symbols
//! a document declares, and the ranking of completion items.
use vstd::prelude::*;

use crate::ide::format::{lines, split_lines};
use crate::ide::order::{
    lemma_is_sorted_listing, lemma_lex_irreflexive, lemma_lex_total, lemma_lex_transitive, lex_lt,
    lex_lt_exec,
    sorted_listing, strictly_sorted,
};
use crate::ide::paths::{scan_pieces, split_all, split_chars};
use crate::text::{
    chars_eq, chars_eq_str, chars_of, is_ascii_alnum, is_ascii_digit, is_ascii_lower,
    is_ascii_upper, is_word_char, is_word_char_exec, lower, lower_chars, slice_chars,
    split_words, starts_with, starts_with_chars, starts_with_str, string_of, trim, trim_chars,
    trim_end_char, trim_end_char_exec, words, scan_words, is_ws, lemma_char_index_unique,
};

verus! {

/// An identifier: a letter or `_`, then letters, digits and `_`.
pub open spec fn is_identifier_spec(s: Seq<char>) -> bool {
    &&& s.len() > 0
    &&& (is_ascii_upper(s[0]) || is_ascii_lower(s[0]) || s[0] == '_')
    &&& forall|i: int| 1 <= i < s.len() ==> is_word_char(#[trigger] s[i])
}

pub fn is_identifier_chars(s: &[char]) -> (r: bool)
    ensures
        r == is_identifier_spec(s@),
{
    if s.len() == 0 {
        return false;
    }
    let first = s[0];
    if !(('A' <= first && first <= 'Z') || ('a' <= first && first <= 'z') || first == '_') {
        return false;
    }
    let mut i: usize = 1;
    while i < s.len()
        invariant
            1 <= i <= s.len(),
            forall|k: int| 1 <= k < i ==> is_word_char(#[trigger] s@[k]),
        decreases s.len() - i,
    {
        if !is_word_char_exec(s[i]) {
            assert(!is_word_char(s@[i as int]));
            return false;
        }
        i = i + 1;
    }
    true
}

/// Whether `text` is an identifier.
pub fn is_identifier(text: &str) -> (r: bool)
    ensures
        r == is_identifier_spec(text@),
{
    let v = chars_of(text);
    is_identifier_chars(v.as_slice())
}

/// Index of the last non-identifier character of `s`, or -1.
pub open spec fn last_non_word(s: Seq<char>) -> int
    decreases s.len(),
{
    if s.len() == 0 {
        -1
    } else if !is_word_char(s.last()) {
        s.len() - 1
    } else {
        last_non_word(s.drop_last())
    }
}

/// The text of line `line` up to column `character` (in characters).
pub open spec fn text_before(text: Seq<char>, line: u32, character: u32) -> Seq<char> {
    let pieces = split_all(text, '\n');
    let l = if line < pieces.len() { pieces[line as int] } else { Seq::<char>::empty() };
    l.take(if character < l.len() { character as int } else { l.len() as int })
}

/// The word being completed is cut after the last non-identifier character before
/// the cursor; that cut falls inside a character unless the character is ASCII.
pub open spec fn completion_prefix_defined(text: Seq<char>, line: u32, character: u32) -> bool {
    let before = text_before(text, line, character);
    last_non_word(before) < 0 || (before[last_non_word(before)] as u32) < 0x80
}

/// The word being completed: the identifier characters just before the cursor.
pub open spec fn completion_prefix_spec(text: Seq<char>, line: u32, character: u32) -> Seq<char> {
    let before = text_before(text, line, character);
    trim(before.skip(last_non_word(before) + 1))
}

proof fn lemma_last_non_word(s: Seq<char>)
    ensures
        -1 <= last_non_word(s) < s.len(),
        last_non_word(s) >= 0 ==> !is_word_char(s[last_non_word(s)]),
        forall|k: int| last_non_word(s) < k < s.len() ==> is_word_char(#[trigger] s[k]),
    decreases s.len(),
{
    if s.len() > 0 && is_word_char(s.last()) {
        lemma_last_non_word(s.drop_last());
        assert forall|k: int| last_non_word(s) < k < s.len() implies is_word_char(#[trigger] s[k]) by {
            if k < s.len() - 1 {
                assert(s.drop_last()[k] == s[k]);
            }
        }
        if last_non_word(s) >= 0 {
            assert(s.drop_last()[last_non_word(s)] == s[last_non_word(s)]);
        }
    }
}

/// The word being completed at a cursor position.
pub fn completion_prefix(text: &str, line: u32, character: u32) -> (r: String)
    requires
        completion_prefix_defined(text@, line, character),
    ensures
        r@ == completion_prefix_spec(text@, line, character),
{
    let v = chars_of(text);
    let pieces = split_chars(v.as_slice(), '\n');
    let empty: Vec<char> = Vec::new();
    let l: &[char] = if (line as usize) < pieces.len() && line as u64 <= usize::MAX as u64 {
        pieces[line as usize].as_slice()
    } else {
        empty.as_slice()
    };
    proof {
        let ps = split_all(text@, '\n');
        if line < ps.len() {
            assert(pieces@[line as int]@ == ps[line as int]);
        }
    }
    let n: usize = if (character as u64) < l.len() as u64 { character as usize } else { l.len() };
    let before = slice_chars(l, 0, n);
    assert(before@ =~= text_before(text@, line, character));
    proof {
        lemma_last_non_word(before@);
    }
    let mut k: usize = before.len();
    assert(before@.take(k as int) =~= before@);
    while k > 0 && is_word_char_exec(before[k - 1])
        invariant
            k <= before.len(),
            last_non_word(before@) == last_non_word(before@.take(k as int)),
        decreases k,
    {
        assert(before@.take(k as int).drop_last() =~= before@.take(k - 1));
        k = k - 1;
    }
    proof {
        if k > 0 {
            assert(before@.take(k as int).last() == before@[k - 1]);
        } else {
            assert(before@.take(0) =~= Seq::<char>::empty());
        }
    }
    let seg = slice_chars(before.as_slice(), k, before.len());
    assert(seg@ =~= before@.skip(last_non_word(before@) + 1));
    let t = trim_chars(seg.as_slice());
    string_of(t.as_slice())
}

/// A completion offered to the editor.
#[derive(Debug, Clone)]
pub struct CompletionItem {
    pub label: String,
    pub kind: String,
    pub detail: Option<String>,
    pub documentation: Option<String>,
    pub insert_text: Option<String>,
    pub sort_priority: u32,
}

/// How well a completion matches the typed prefix: 0 for a matching symbol, 1 for
/// a matching keyword, 2 for no match.
pub open spec fn completion_rank_spec(label: Seq<char>, kind: Seq<char>, prefix_lower: Seq<char>) -> u8 {
    if starts_with(lower(label), prefix_lower) {
        if lower(kind) == "keyword"@ { 1 } else { 0 }
    } else {
        2
    }
}

pub fn completion_rank(item: &CompletionItem, prefix_lower: &str) -> (r: u8)
    ensures
        r == completion_rank_spec(item.label@, item.kind@, prefix_lower@),
{
    let label = chars_of(item.label.as_str());
    let label_lower = lower_chars(label.as_slice());
    if starts_with_str(label_lower.as_slice(), prefix_lower) {
        let kind = chars_of(item.kind.as_str());
        let kind_lower = lower_chars(kind.as_slice());
        if chars_eq_str(kind_lower.as_slice(), "keyword") {
            1
        } else {
            0
        }
    } else {
        2
    }
}

/// The first word of `s`, or nothing.
pub open spec fn first_word(s: Seq<char>) -> Seq<char> {
    let w = words(s);
    if w.len() > 0 { w[0] } else { Seq::empty() }
}

/// The declaration keywords whose next word names a symbol.
pub open spec fn decl_keywords() -> Seq<Seq<char>> {
    seq!["PROGRAM"@, "FUNCTION"@, "FUNCTION_BLOCK"@, "TYPE"@, "CLASS"@]
}

/// The symbols a line names after a declaration keyword it starts with.
pub open spec fn keyword_symbols(line: Seq<char>, kws: Seq<Seq<char>>) -> Set<Seq<char>>
    decreases kws.len(),
{
    if kws.len() == 0 {
        Set::empty()
    } else {
        let kw = kws.last();
        let rest = keyword_symbols(line, kws.drop_last());
        if starts_with(line, kw) && is_identifier_spec(first_word(line.skip(kw.len() as int))) {
            rest.insert(first_word(line.skip(kw.len() as int)))
        } else {
            rest
        }
    }
}

/// The names a variable declaration line lists before its `:`.
pub open spec fn declared_names(parts: Seq<Seq<char>>) -> Set<Seq<char>>
    decreases parts.len(),
{
    if parts.len() == 0 {
        Set::empty()
    } else {
        let c = trim_end_char(first_word(parts.last()), ';');
        let rest = declared_names(parts.drop_last());
        if is_identifier_spec(c) { rest.insert(c) } else { rest }
    }
}

/// The symbols one raw line declares: none for blank and comment lines; else the
/// names after declaration keywords and the names listed before a `:`.
pub open spec fn line_symbols(raw: Seq<char>) -> Set<Seq<char>> {
    let line = trim(raw);
    if line.len() == 0 || starts_with(line, "//"@) || starts_with(line, "(*"@) {
        Set::empty()
    } else {
        let from_keywords = keyword_symbols(line, decl_keywords());
        match crate::text::split_once(line, ':') {
            Some((lhs, _)) => from_keywords.union(declared_names(split_all(lhs, ','))),
            None => from_keywords,
        }
    }
}

pub open spec fn symbols_of_lines(ls: Seq<Seq<char>>) -> Set<Seq<char>>
    decreases ls.len(),
{
    if ls.len() == 0 {
        Set::empty()
    } else {
        symbols_of_lines(ls.drop_last()).union(line_symbols(ls.last()))
    }
}

pub open spec fn string_set(v: Seq<String>) -> Set<Seq<char>> {
    v.map_values(|s: String| s@).to_set()
}

pub open spec fn names_view(v: Seq<String>) -> Seq<Seq<char>> {
    v.map_values(|s: String| s@)
}

fn name_sorts_before(out: &Vec<String>, k: usize, name: &[char]) -> (r: bool)
    requires
        k < out@.len(),
    ensures
        r == lex_lt(names_view(out@)[k as int], name@),
{
    let cur = chars_of(out[k].as_str());
    lex_lt_exec(cur.as_slice(), name)
}

/// Adds `name` to a strictly increasing list unless it is already present,
/// keeping the list increasing.
pub(crate) fn add_symbol(out: &mut Vec<String>, name: &[char])
    requires
        strictly_sorted(names_view(old(out)@)),
    ensures
        strictly_sorted(names_view(final(out)@)),
        string_set(final(out)@) == string_set(old(out)@).insert(name@),
{
    let ghost before = names_view(out@);
    let mut k: usize = 0;
    while k < out.len() && name_sorts_before(out, k, name)
        invariant
            k <= out.len(),
            out@ == old(out)@,
            before == names_view(out@),
            strictly_sorted(before),
            forall|j: int| 0 <= j < k ==> lex_lt(#[trigger] before[j], name@),
        decreases out.len() - k,
    {
        k = k + 1;
    }
    if k < out.len() {
        let cur = chars_of(out[k].as_str());
        assert(cur@ == before[k as int]);
        if chars_eq(cur.as_slice(), name) {
            assert(string_set(out@) =~= string_set(out@).insert(name@)) by {
                assert(before.contains(name@));
            }
            return;
        }
        proof {
            lemma_lex_total(before[k as int], name@);
        }
    }
    out.insert(k, string_of(name));
    let ghost after = names_view(out@);
    assert(after =~= before.insert(k as int, name@));
    assert(strictly_sorted(after)) by {
        assert forall|a: int, b: int| 0 <= a < b < after.len() implies lex_lt(#[trigger] after[a], #[trigger] after[b]) by {
            if b < k {
                assert(after[a] == before[a] && after[b] == before[b]);
            } else if b == k {
                assert(after[a] == before[a]);
            } else if a == k {
                assert(after[b] == before[b - 1]);
                if b - 1 > k {
                    assert(lex_lt(before[k as int], before[b - 1]));
                    lemma_lex_transitive(name@, before[k as int], before[b - 1]);
                }
            } else if a < k {
                assert(after[a] == before[a] && after[b] == before[b - 1]);
            } else {
                assert(after[a] == before[a - 1] && after[b] == before[b - 1]);
            }
        }
    }
    assert forall|x: Seq<char>| #[trigger] after.contains(x) <==> before.to_set().insert(name@).contains(x) by {
        if after.contains(x) {
            let j = choose|j: int| 0 <= j < after.len() && after[j] == x;
            if j < k {
                assert(before[j] == x);
            } else if j > k {
                assert(before[j - 1] == x);
            }
        }
        if before.contains(x) {
            let j = choose|j: int| 0 <= j < before.len() && before[j] == x;
            if j < k {
                assert(after[j] == x);
            } else {
                assert(after[j + 1] == x);
            }
        }
        if x == name@ {
            assert(after[k as int] == x);
        }
    }
    assert(string_set(out@) =~= string_set(old(out)@).insert(name@));
}

fn first_word_exec(s: &[char]) -> (r: Vec<char>)
    ensures
        r@ == first_word(s@),
{
    let ws = split_words(s);
    proof {
        if ws@.len() > 0 {
            assert(ws@.map_values(|w: Vec<char>| w@)[0] == ws@[0]@);
        }
    }
    if ws.len() > 0 {
        slice_chars(ws[0].as_slice(), 0, ws[0].len())
    } else {
        Vec::new()
    }
}

fn add_symbols_of_line(out: &mut Vec<String>, raw: &[char])
    requires
        strictly_sorted(names_view(old(out)@)),
    ensures
        strictly_sorted(names_view(final(out)@)),
        string_set(final(out)@) == string_set(old(out)@).union(line_symbols(raw@)),
{
    let line = trim_chars(raw);
    if line.len() == 0 || starts_with_str(line.as_slice(), "//") || starts_with_str(line.as_slice(), "(*") {
        assert(string_set(out@) =~= string_set(out@).union(Set::<Seq<char>>::empty()));
        return;
    }
    let kws: Vec<&str> = vec!["PROGRAM", "FUNCTION", "FUNCTION_BLOCK", "TYPE", "CLASS"];
    let ghost kw_spec = decl_keywords();
    assert(forall|j: int| 0 <= j < 5 ==> (#[trigger] kws@[j])@ == kw_spec[j]);
    let ghost start = string_set(out@);
    let mut j: usize = 0;
    while j < kws.len()
        invariant
            j <= kws.len(),
            kws@.len() == 5,
            kw_spec == decl_keywords(),
            forall|m: int| 0 <= m < 5 ==> (#[trigger] kws@[m])@ == kw_spec[m],
            strictly_sorted(names_view(out@)),
            string_set(out@) == start.union(keyword_symbols(line@, kw_spec.take(j as int))),
        decreases kws.len() - j,
    {
        let kw = kws[j];
        assert(kw_spec.take(j + 1).drop_last() =~= kw_spec.take(j as int));
        assert(kw_spec.take(j + 1).last() == kw@);
        if starts_with_str(line.as_slice(), kw) {
            let kwn = chars_of(kw).len();
            let rest = slice_chars(line.as_slice(), kwn, line.len());
            assert(rest@ =~= line@.skip(kw@.len() as int));
            let cand = first_word_exec(rest.as_slice());
            if is_identifier_chars(cand.as_slice()) {
                add_symbol(out, cand.as_slice());
                assert(string_set(out@) =~= start.union(keyword_symbols(line@, kw_spec.take(j + 1))));
            } else {
                assert(string_set(out@) =~= start.union(keyword_symbols(line@, kw_spec.take(j + 1))));
            }
        } else {
            assert(string_set(out@) =~= start.union(keyword_symbols(line@, kw_spec.take(j + 1))));
        }
        j = j + 1;
    }
    assert(kw_spec.take(5) =~= kw_spec);
    let colon = crate::text::find_char(line.as_slice(), ':');
    if colon >= line.len() {
        assert(string_set(out@) =~= start.union(line_symbols(raw@)));
        return;
    }
    let ghost mid = string_set(out@);
    let lhs = slice_chars(line.as_slice(), 0, colon);
    assert(lhs@ =~= line@.take(colon as int));
    let parts = split_chars(lhs.as_slice(), ',');
    let ghost ps = split_all(lhs@, ',');
    let mut p: usize = 0;
    while p < parts.len()
        invariant
            p <= parts.len(),
            parts@.len() == ps.len(),
            forall|m: int| 0 <= m < parts@.len() ==> (#[trigger] parts@[m])@ == ps[m],
            strictly_sorted(names_view(out@)),
            string_set(out@) == mid.union(declared_names(ps.take(p as int))),
        decreases parts.len() - p,
    {
        assert(ps.take(p + 1).drop_last() =~= ps.take(p as int));
        assert(ps.take(p + 1).last() == parts@[p as int]@);
        let w = first_word_exec(parts[p].as_slice());
        let c = trim_end_char_exec(w.as_slice(), ';');
        if is_identifier_chars(c.as_slice()) {
            add_symbol(out, c.as_slice());
        }
        assert(string_set(out@) =~= mid.union(declared_names(ps.take(p + 1))));
        p = p + 1;
    }
    assert(ps.take(ps.len() as int) =~= ps);
    assert(string_set(out@) =~= start.union(line_symbols(raw@)));
}

/// The symbols a document declares: the names after `PROGRAM`, `FUNCTION`,
/// `FUNCTION_BLOCK`, `TYPE` and `CLASS`, and the names listed before a `:`,
/// skipping blank and comment lines; listed once each, in increasing order.
pub fn extract_in_scope_symbols(text: &str) -> (r: Vec<String>)
    ensures
        strictly_sorted(names_view(r@)),
        string_set(r@) == symbols_of_lines(lines(text@)),
        names_view(r@) == sorted_listing(symbols_of_lines(lines(text@))),
{
    let v = chars_of(text);
    let ls = split_lines(v.as_slice());
    let ghost lv = lines(text@);
    let mut out: Vec<String> = Vec::new();
    assert(string_set(out@) =~= Set::<Seq<char>>::empty());
    let mut i: usize = 0;
    while i < ls.len()
        invariant
            i <= ls.len(),
            lv == lines(text@),
            ls@.len() == lv.len(),
            forall|m: int| 0 <= m < ls@.len() ==> (#[trigger] ls@[m])@ == lv[m],
            strictly_sorted(names_view(out@)),
            string_set(out@) == symbols_of_lines(lv.take(i as int)),
        decreases ls.len() - i,
    {
        assert(lv.take(i + 1).drop_last() =~= lv.take(i as int));
        assert(lv.take(i + 1).last() == ls@[i as int]@);
        add_symbols_of_line(&mut out, ls[i].as_slice());
        i = i + 1;
    }
    assert(lv.take(lv.len() as int) =~= lv);
    proof {
        lemma_is_sorted_listing(names_view(out@));
    }
    out
}

// ---------------------------------------------------------------------------
// Ranking completions
// ---------------------------------------------------------------------------

/// A completion as plain values: label, kind, detail, documentation, insert text,
/// sort priority.
pub type ItemView = (Seq<char>, Seq<char>, Option<Seq<char>>, Option<Seq<char>>, Option<Seq<char>>, u32);

pub open spec fn opt_chars(o: Option<String>) -> Option<Seq<char>> {
    match o {
        Some(s) => Some(s@),
        None => None,
    }
}

pub open spec fn item_view(i: CompletionItem) -> ItemView {
    (i.label@, i.kind@, opt_chars(i.detail), opt_chars(i.documentation), opt_chars(i.insert_text), i.sort_priority)
}

pub open spec fn items_view(s: Seq<CompletionItem>) -> Seq<ItemView> {
    s.map_values(|i: CompletionItem| item_view(i))
}

/// The sort key of a completion: rank, then priority, then label.
pub open spec fn key_lt(x: ItemView, y: ItemView, prefix_lower: Seq<char>) -> bool {
    let rx = completion_rank_spec(x.0, x.1, prefix_lower);
    let ry = completion_rank_spec(y.0, y.1, prefix_lower);
    rx < ry || (rx == ry && (x.5 < y.5 || (x.5 == y.5 && lex_lt(x.0, y.0))))
}

/// `x` put into the sorted `s` after every completion it does not sort before.
pub open spec fn insert_sorted(s: Seq<ItemView>, x: ItemView, prefix_lower: Seq<char>) -> Seq<ItemView>
    decreases s.len(),
{
    if s.len() == 0 {
        seq![x]
    } else if key_lt(x, s.last(), prefix_lower) {
        insert_sorted(s.drop_last(), x, prefix_lower).push(s.last())
    } else {
        s.push(x)
    }
}

/// `sort_by` on the key: a stable sort, equal keys keeping their order.
pub open spec fn sort_views(s: Seq<ItemView>, prefix_lower: Seq<char>) -> Seq<ItemView>
    decreases s.len(),
{
    if s.len() == 0 {
        s
    } else {
        insert_sorted(sort_views(s.drop_last(), prefix_lower), s.last(), prefix_lower)
    }
}

/// The completions with the first of each case-insensitively equal label kept.
pub open spec fn dedupe_views(s: Seq<ItemView>) -> Seq<ItemView>
    decreases s.len(),
{
    if s.len() == 0 {
        s
    } else {
        let d = dedupe_views(s.drop_last());
        if d.map_values(|v: ItemView| lower(v.0)).contains(lower(s.last().0)) {
            d
        } else {
            d.push(s.last())
        }
    }
}

/// At most `limit` completions, when a limit is given.
pub open spec fn cut(s: Seq<ItemView>, limit: Option<u32>) -> Seq<ItemView> {
    match limit {
        Some(m) => if (m as int) < s.len() { s.take(m as int) } else { s },
        None => s,
    }
}

/// The completion offered for an in-scope symbol.
pub open spec fn symbol_view(sym: Seq<char>) -> ItemView {
    (sym, "symbol"@, Some("in-scope symbol"@), None, Some(sym), 0u32)
}

/// The in-scope symbols offered besides the engine's completions: those that
/// start with the prefix (ignoring ASCII case) and whose label no completion has,
/// in increasing order.
pub open spec fn fallback_symbols(text: Seq<char>, prefix_lower: Seq<char>, items: Seq<ItemView>) -> Seq<Seq<char>> {
    let seen = items.map_values(|v: ItemView| lower(v.0));
    sorted_listing(symbols_of_lines(lines(text))).filter(
        |sym: Seq<char>| starts_with(lower(sym), prefix_lower) && !seen.contains(lower(sym)),
    )
}

/// The completion list after the relevance contract: with no word being typed the
/// list is only cut to the limit; otherwise in-scope symbols that match are put in
/// front, the list is stably sorted by rank, priority and label, the first of
/// each case-insensitive label is kept, and the result is cut to the limit.
pub open spec fn relevance_spec(items: Seq<ItemView>, text: Seq<char>, line: u32, character: u32, limit: Option<u32>) -> Seq<ItemView> {
    let prefix = completion_prefix_spec(text, line, character);
    if prefix.len() == 0 {
        cut(items, limit)
    } else {
        let pl = lower(prefix);
        let fb = fallback_symbols(text, pl, items).map_values(|sym: Seq<char>| symbol_view(sym));
        cut(dedupe_views(sort_views(fb + items, pl)), limit)
    }
}

fn key_lt_exec(x: &CompletionItem, y: &CompletionItem, prefix_lower: &str) -> (r: bool)
    ensures
        r == key_lt(item_view(*x), item_view(*y), prefix_lower@),
{
    let rx = completion_rank(x, prefix_lower);
    let ry = completion_rank(y, prefix_lower);
    if rx != ry {
        return rx < ry;
    }
    if x.sort_priority != y.sort_priority {
        return x.sort_priority < y.sort_priority;
    }
    let lx = chars_of(x.label.as_str());
    let ly = chars_of(y.label.as_str());
    lex_lt_exec(lx.as_slice(), ly.as_slice())
}

fn sorts_before_at(sorted: &Vec<CompletionItem>, k: usize, x: &CompletionItem, prefix_lower: &str) -> (r: bool)
    requires
        k < sorted@.len(),
    ensures
        r == key_lt(item_view(*x), item_view(sorted@[k as int]), prefix_lower@),
{
    key_lt_exec(x, &sorted[k], prefix_lower)
}

/// Puts `x` into the sorted list as `insert_sorted` says.
fn insert_item(sorted: &mut Vec<CompletionItem>, x: CompletionItem, prefix_lower: &str)
    ensures
        items_view(final(sorted)@) == insert_sorted(items_view(old(sorted)@), item_view(x), prefix_lower@),
{
    let ghost s = items_view(sorted@);
    let ghost xv = item_view(x);
    let mut k: usize = sorted.len();
    assert(s.take(k as int) =~= s);
    assert(s.skip(k as int) =~= Seq::<ItemView>::empty());
    while k > 0 && sorts_before_at(sorted, k - 1, &x, prefix_lower)
        invariant
            k <= sorted@.len(),
            sorted@ == old(sorted)@,
            s == items_view(sorted@),
            xv == item_view(x),
            insert_sorted(s, xv, prefix_lower@) == insert_sorted(s.take(k as int), xv, prefix_lower@) + s.skip(k as int),
        decreases k,
    {
        assert(s.take(k as int).drop_last() =~= s.take(k - 1));
        assert(s.take(k as int).last() == s[k - 1]);
        assert(s.skip(k - 1) =~= seq![s[k - 1]] + s.skip(k as int));
        assert(insert_sorted(s.take(k - 1), xv, prefix_lower@).push(s[k - 1]) + s.skip(k as int)
            =~= insert_sorted(s.take(k - 1), xv, prefix_lower@) + s.skip(k - 1));
        k = k - 1;
    }
    proof {
        if k > 0 {
            assert(s.take(k as int).last() == s[k - 1]);
        }
    }
    sorted.insert(k, x);
    assert(items_view(sorted@) =~= s.take(k as int).push(xv) + s.skip(k as int));
}

/// `sort_by` on rank, priority and label.
fn sort_items(items: Vec<CompletionItem>, prefix_lower: &str) -> (r: Vec<CompletionItem>)
    ensures
        items_view(r@) == sort_views(items_view(items@), prefix_lower@),
{
    let ghost orig = items_view(items@);
    let mut rest = items;
    let n = rest.len();
    let mut sorted: Vec<CompletionItem> = Vec::new();
    let mut k: usize = 0;
    while rest.len() > 0
        invariant
            orig.len() == n,
            orig.len() == k + rest@.len(),
            items_view(rest@) == orig.skip(k as int),
            items_view(sorted@) == sort_views(orig.take(k as int), prefix_lower@),
        decreases rest@.len(),
    {
        let ghost before = rest@;
        let x = rest.remove(0);
        assert(orig.take(k + 1).drop_last() =~= orig.take(k as int));
        assert(items_view(before)[0] == item_view(before[0]));
        assert(orig.skip(k as int)[0] == orig[k as int]);
        assert(orig[k as int] == item_view(x));
        assert(items_view(rest@) =~= items_view(before).drop_first());
        assert(orig.take(k + 1).last() == item_view(x));
        insert_item(&mut sorted, x, prefix_lower);
        assert(items_view(rest@) =~= orig.skip(k + 1));
        k = k + 1;
    }
    assert(orig.take(k as int) =~= orig);
    sorted
}

/// Keeps the first completion of each case-insensitive label.
fn dedupe_items(items: Vec<CompletionItem>) -> (r: Vec<CompletionItem>)
    ensures
        items_view(r@) == dedupe_views(items_view(items@)),
{
    let ghost orig = items_view(items@);
    let mut rest = items;
    let n = rest.len();
    let mut kept: Vec<CompletionItem> = Vec::new();
    let mut seen: Vec<Vec<char>> = Vec::new();
    let mut k: usize = 0;
    while rest.len() > 0
        invariant
            orig.len() == n,
            orig.len() == k + rest@.len(),
            items_view(rest@) == orig.skip(k as int),
            items_view(kept@) == dedupe_views(orig.take(k as int)),
            seen@.map_values(|w: Vec<char>| w@) == items_view(kept@).map_values(|v: ItemView| lower(v.0)),
        decreases rest@.len(),
    {
        let ghost before = rest@;
        let x = rest.remove(0);
        assert(orig.take(k + 1).drop_last() =~= orig.take(k as int));
        assert(items_view(before)[0] == item_view(before[0]));
        assert(orig.skip(k as int)[0] == orig[k as int]);
        assert(orig[k as int] == item_view(x));
        assert(items_view(rest@) =~= items_view(before).drop_first());
        assert(orig.take(k + 1).last() == item_view(x));
        let lx = lower_chars(chars_of(x.label.as_str()).as_slice());
        let ghost seen_view = seen@.map_values(|w: Vec<char>| w@);
        let mut j: usize = 0;
        let mut found = false;
        while j < seen.len() && !found
            invariant
                j <= seen.len(),
                seen_view == seen@.map_values(|w: Vec<char>| w@),
                found ==> seen_view.contains(lx@),
                !found ==> forall|m: int| 0 <= m < j ==> seen_view[m] != lx@,
            decreases seen.len() - j + (if found { 0int } else { 1int }),
        {
            if chars_eq(seen[j].as_slice(), lx.as_slice()) {
                found = true;
                assert(seen_view[j as int] == lx@);
            } else {
                j = j + 1;
            }
        }
        if !found {
            let ghost kv = items_view(kept@);
            kept.push(x);
            seen.push(lx);
            assert(items_view(kept@) =~= kv.push(orig[k as int]));
            assert(seen@.map_values(|w: Vec<char>| w@) =~= seen_view.push(lower(orig[k as int].0)));
            assert(items_view(kept@).map_values(|v: ItemView| lower(v.0)) =~= kv.map_values(|v: ItemView| lower(v.0)).push(lower(orig[k as int].0)));
        }
        assert(items_view(rest@) =~= orig.skip(k + 1));
        k = k + 1;
    }
    assert(orig.take(k as int) =~= orig);
    kept
}

fn contains_chars(list: &Vec<Vec<char>>, x: &[char]) -> (r: bool)
    ensures
        r == list@.map_values(|w: Vec<char>| w@).contains(x@),
{
    let ghost v = list@.map_values(|w: Vec<char>| w@);
    let mut j: usize = 0;
    while j < list.len()
        invariant
            j <= list.len(),
            v == list@.map_values(|w: Vec<char>| w@),
            forall|m: int| 0 <= m < j ==> v[m] != x@,
        decreases list.len() - j,
    {
        if chars_eq(list[j].as_slice(), x) {
            assert(v[j as int] == x@);
            return true;
        }
        j = j + 1;
    }
    false
}

fn symbol_item(sym: &String) -> (r: CompletionItem)
    ensures
        item_view(r) == symbol_view(sym@),
{
    proof {
        reveal_strlit("symbol");
    }
    CompletionItem {
        label: sym.clone(),
        kind: "symbol".to_owned(),
        detail: Some("in-scope symbol".to_owned()),
        documentation: None,
        insert_text: Some(sym.clone()),
        sort_priority: 0,
    }
}

/// Orders, completes and trims the completion list for the word being typed at a
/// cursor position.
pub fn apply_completion_relevance_contract(
    items: &mut Vec<CompletionItem>,
    text: &str,
    line: u32,
    character: u32,
    limit: Option<u32>,
)
    requires
        completion_prefix_defined(text@, line, character),
    ensures
        items_view(final(items)@) == relevance_spec(items_view(old(items)@), text@, line, character, limit),
{
    let ghost orig = items_view(items@);
    let prefix = completion_prefix(text, line, character);
    if prefix.as_str().is_empty() {
        if let Some(max) = limit {
            items.truncate(max as usize);
        }
        assert(items_view(items@) =~= relevance_spec(orig, text@, line, character, limit));
        return;
    }
    let pl_chars = lower_chars(chars_of(prefix.as_str()).as_slice());
    let pl = string_of(pl_chars.as_slice());
    let ghost plv = pl@;
    // the case-folded labels already offered
    let mut seen: Vec<Vec<char>> = Vec::new();
    let mut i: usize = 0;
    while i < items.len()
        invariant
            i <= items.len(),
            orig == items_view(items@),
            seen@.map_values(|w: Vec<char>| w@) =~= orig.take(i as int).map_values(|v: ItemView| lower(v.0)),
        decreases items.len() - i,
    {
        let l = lower_chars(chars_of(items[i].label.as_str()).as_slice());
        assert(orig[i as int].0 == items@[i as int].label@);
        let ghost sb = seen@;
        seen.push(l);
        assert(seen@.map_values(|w: Vec<char>| w@) =~= sb.map_values(|w: Vec<char>| w@).push(lower(orig[i as int].0)));
        assert(orig.take(i + 1) =~= orig.take(i as int).push(orig[i as int]));
        i = i + 1;
    }
    assert(orig.take(orig.len() as int) =~= orig);
    let ghost seen_view = orig.map_values(|v: ItemView| lower(v.0));
    let ghost pred = |sym: Seq<char>| starts_with(lower(sym), plv) && !seen_view.contains(lower(sym));
    let syms = extract_in_scope_symbols(text);
    let ghost sv = names_view(syms@);
    let mut fallback: Vec<CompletionItem> = Vec::new();
    let mut j: usize = 0;
    while j < syms.len()
        invariant
            j <= syms.len(),
            sv == names_view(syms@),
            plv == pl@,
            pl_chars@ == plv,
            seen@.map_values(|w: Vec<char>| w@) == seen_view,
            pred == (|sym: Seq<char>| starts_with(lower(sym), plv) && !seen_view.contains(lower(sym))),
            items_view(fallback@) == sv.take(j as int).filter(pred).map_values(|sym: Seq<char>| symbol_view(sym)),
        decreases syms.len() - j,
    {
        proof {
            crate::ui::catalog::lemma_filter_take_step(sv, pred, j as int);
        }
        let low = lower_chars(chars_of(syms[j].as_str()).as_slice());
        assert(sv[j as int] == syms@[j as int]@);
        let keep = starts_with_chars(low.as_slice(), pl_chars.as_slice()) && !contains_chars(&seen, low.as_slice());
        assert(keep == pred(sv[j as int]));
        if keep {
            let ghost before = fallback@;
            fallback.push(symbol_item(&syms[j]));
            assert(items_view(fallback@) =~= items_view(before).push(symbol_view(sv[j as int])));
            assert(sv.take(j + 1).filter(pred).map_values(|sym: Seq<char>| symbol_view(sym)) =~= sv.take(
                j as int,
            ).filter(pred).map_values(|sym: Seq<char>| symbol_view(sym)).push(symbol_view(sv[j as int])));
        }
        j = j + 1;
    }
    assert(sv.take(sv.len() as int) =~= sv);
    let mut taken: Vec<CompletionItem> = Vec::new();
    std::mem::swap(&mut taken, items);
    let mut all = fallback;
    let ghost fbv = items_view(all@);
    all.append(&mut taken);
    assert(items_view(all@) =~= fbv + orig);
    let sorted = sort_items(all, pl.as_str());
    let mut deduped = dedupe_items(sorted);
    if let Some(max) = limit {
        deduped.truncate(max as usize);
    }
    *items = deduped;
    assert(items_view(items@) =~= relevance_spec(orig, text@, line, character, limit));
}

/// The same sort key.
pub open spec fn key_eq(x: ItemView, y: ItemView, pl: Seq<char>) -> bool {
    completion_rank_spec(x.0, x.1, pl) == completion_rank_spec(y.0, y.1, pl) && x.5 == y.5 && x.0 == y.0
}

proof fn lemma_key_order(x: ItemView, y: ItemView, z: ItemView, pl: Seq<char>)
    ensures
        !key_lt(x, x, pl),
        key_lt(x, y, pl) ==> !key_lt(y, x, pl),
        key_lt(x, y, pl) && key_lt(y, z, pl) ==> key_lt(x, z, pl),
        key_lt(x, y, pl) || key_lt(y, x, pl) || key_eq(x, y, pl),
        key_eq(x, y, pl) ==> (key_lt(x, z, pl) == key_lt(y, z, pl) && key_lt(z, x, pl) == key_lt(z, y, pl)),
{
    lemma_lex_irreflexive(x.0);
    lemma_lex_total(x.0, y.0);
    if lex_lt(x.0, y.0) {
        crate::ide::order::lemma_lex_asymmetric(x.0, y.0);
    }
    if lex_lt(x.0, y.0) && lex_lt(y.0, z.0) {
        lemma_lex_transitive(x.0, y.0, z.0);
    }
}

/// Sorted by key: no completion sorts before an earlier one.
pub open spec fn key_sorted(s: Seq<ItemView>, pl: Seq<char>) -> bool {
    forall|i: int, j: int| 0 <= i < j < s.len() ==> !key_lt(#[trigger] s[j], #[trigger] s[i], pl)
}

proof fn lemma_insert_sorted(s: Seq<ItemView>, x: ItemView, pl: Seq<char>)
    requires
        key_sorted(s, pl),
    ensures
        key_sorted(insert_sorted(s, x, pl), pl),
        insert_sorted(s, x, pl).len() == s.len() + 1,
        forall|e: ItemView| #[trigger] insert_sorted(s, x, pl).contains(e) ==> e == x || s.contains(e),
    decreases s.len(),
{
    let r = insert_sorted(s, x, pl);
    if s.len() == 0 {
        assert(r =~= seq![x]);
    } else if key_lt(x, s.last(), pl) {
        let s0 = s.drop_last();
        let last = s.last();
        assert(key_sorted(s0, pl)) by {
            assert forall|i: int, j: int| 0 <= i < j < s0.len() implies !key_lt(#[trigger] s0[j], #[trigger] s0[i], pl) by {
                assert(s0[i] == s[i] && s0[j] == s[j]);
            }
        }
        lemma_insert_sorted(s0, x, pl);
        let inner = insert_sorted(s0, x, pl);
        assert forall|e: ItemView| #[trigger] r.contains(e) implies e == x || s.contains(e) by {
            let k = choose|k: int| 0 <= k < r.len() && r[k] == e;
            if k < inner.len() {
                assert(inner[k] == e);
                assert(inner.contains(e));
                if e != x {
                    let m = choose|m: int| 0 <= m < s0.len() && s0[m] == e;
                    assert(s[m] == e);
                }
            } else {
                assert(s[s.len() - 1] == e);
            }
        }
        assert forall|i: int, j: int| 0 <= i < j < r.len() implies !key_lt(#[trigger] r[j], #[trigger] r[i], pl) by {
            if j < inner.len() {
            } else {
                // r[j] is the old last element
                let e = r[i];
                assert(inner[i] == e);
                assert(inner.contains(e));
                lemma_key_order(last, e, x, pl);
                if e == x {
                } else {
                    let m = choose|m: int| 0 <= m < s0.len() && s0[m] == e;
                    assert(s[m] == e);
                    assert(!key_lt(s[s.len() - 1], s[m], pl));
                }
            }
        }
    } else {
        assert(r =~= s.push(x));
        assert forall|e: ItemView| #[trigger] r.contains(e) implies e == x || s.contains(e) by {
            let k = choose|k: int| 0 <= k < r.len() && r[k] == e;
            if k < s.len() {
                assert(s[k] == e);
            }
        }
        assert forall|i: int, j: int| 0 <= i < j < r.len() implies !key_lt(#[trigger] r[j], #[trigger] r[i], pl) by {
            if j == s.len() {
                let last = s.last();
                let e = s[i];
                assert(r[i] == e);
                assert(!key_lt(last, e, pl) || i == s.len() - 1);
                lemma_key_order(x, e, last, pl);
                lemma_key_order(e, last, x, pl);
                lemma_key_order(x, last, e, pl);
                lemma_key_order(last, x, e, pl);
                lemma_key_order(e, x, last, pl);
                if i < s.len() - 1 {
                    assert(!key_lt(s[s.len() - 1], s[i], pl));
                }
            } else {
                assert(r[i] == s[i] && r[j] == s[j]);
            }
        }
    }
}

/// The sorted completions are in key order.
pub proof fn law_sorted_by_key(s: Seq<ItemView>, pl: Seq<char>)
    ensures
        key_sorted(sort_views(s, pl), pl),
        sort_views(s, pl).len() == s.len(),
    decreases s.len(),
{
    if s.len() > 0 {
        law_sorted_by_key(s.drop_last(), pl);
        lemma_insert_sorted(sort_views(s.drop_last(), pl), s.last(), pl);
    }
}

/// After deduplication no two completions share a label up to ASCII case.
pub proof fn law_labels_unique(s: Seq<ItemView>)
    ensures
        dedupe_views(s).map_values(|v: ItemView| lower(v.0)).no_duplicates(),
    decreases s.len(),
{
    if s.len() > 0 {
        law_labels_unique(s.drop_last());
        let d = dedupe_views(s.drop_last());
        let dl = d.map_values(|v: ItemView| lower(v.0));
        if !dl.contains(lower(s.last().0)) {
            let r = d.push(s.last());
            let rl = r.map_values(|v: ItemView| lower(v.0));
            assert(rl =~= dl.push(lower(s.last().0)));
            assert forall|a: int, b: int| 0 <= a < rl.len() && 0 <= b < rl.len() && a != b implies rl[a] != rl[b] by {
                if a < dl.len() && b < dl.len() {
                } else if a == dl.len() {
                    assert(dl[b] == rl[b]);
                } else {
                    assert(dl[a] == rl[a]);
                }
            }
        }
    }
}

/// A limit bounds the length of the list.
pub proof fn law_limit_respected(s: Seq<ItemView>, m: u32)
    ensures
        cut(s, Some(m)).len() <= m,
{
}

/// Kinds of symbols the analysis reports.
#[derive(Debug, Clone, Copy, PartialEq, Eq, Structural)]
pub enum SymbolKind {
    Program,
    Configuration,
    Resource,
    Task,
    ProgramInstance,
    Namespace,
    Function,
    FunctionBlock,
    Class,
    Method,
    Property,
    Interface,
    Variable,
    Constant,
    Type,
    EnumValue,
    Parameter,
}

pub open spec fn symbol_kind_label_spec(kind: SymbolKind) -> Seq<char> {
    match kind {
        SymbolKind::Program => "program"@,
        SymbolKind::Configuration => "configuration"@,
        SymbolKind::Resource => "resource"@,
        SymbolKind::Task => "task"@,
        SymbolKind::ProgramInstance => "program_instance"@,
        SymbolKind::Namespace => "namespace"@,
        SymbolKind::Function => "function"@,
        SymbolKind::FunctionBlock => "function_block"@,
        SymbolKind::Class => "class"@,
        SymbolKind::Method => "method"@,
        SymbolKind::Property => "property"@,
        SymbolKind::Interface => "interface"@,
        SymbolKind::Variable => "variable"@,
        SymbolKind::Constant => "constant"@,
        SymbolKind::Type => "type"@,
        SymbolKind::EnumValue => "enum_value"@,
        SymbolKind::Parameter => "parameter"@,
    }
}

/// The label a symbol kind is shown with.
pub fn symbol_kind_label(kind: SymbolKind) -> (r: &'static str)
    ensures
        r@ == symbol_kind_label_spec(kind),
{
    match kind {
        SymbolKind::Program => "program",
        SymbolKind::Configuration => "configuration",
        SymbolKind::Resource => "resource",
        SymbolKind::Task => "task",
        SymbolKind::ProgramInstance => "program_instance",
        SymbolKind::Namespace => "namespace",
        SymbolKind::Function => "function",
        SymbolKind::FunctionBlock => "function_block",
        SymbolKind::Class => "class",
        SymbolKind::Method => "method",
        SymbolKind::Property => "property",
        SymbolKind::Interface => "interface",
        SymbolKind::Variable => "variable",
        SymbolKind::Constant => "constant",
        SymbolKind::Type => "type",
        SymbolKind::EnumValue => "enum_value",
        SymbolKind::Parameter => "parameter",
    }
}

// ---------------------------------------------------------------------------
// Laws of the declared symbols
// ---------------------------------------------------------------------------

proof fn lemma_scan_after_space(n: Seq<char>)
    requires
        forall|i: int| 0 <= i < n.len() ==> !is_ws(#[trigger] n[i]),
    ensures
        scan_words(seq![' '] + n) == (Seq::<Seq<char>>::empty(), n),
    decreases n.len(),
{
    if n.len() == 0 {
        assert(seq![' '] + n =~= seq![' ']);
        assert(seq![' '].drop_last() =~= Seq::<char>::empty());
        assert(scan_words(Seq::<char>::empty()) == (Seq::<Seq<char>>::empty(), Seq::<char>::empty()));
        assert(is_ws(seq![' '].last()));
    } else {
        assert((seq![' '] + n).drop_last() =~= seq![' '] + n.drop_last());
        assert((seq![' '] + n).last() == n.last());
        assert(!is_ws(n[n.len() - 1]));
        lemma_scan_after_space(n.drop_last());
        assert(n.drop_last().push(n.last()) =~= n);
    }
}

proof fn lemma_keyword_symbols_has(line: Seq<char>, kws: Seq<Seq<char>>, m: int)
    requires
        0 <= m < kws.len(),
        starts_with(line, kws[m]),
        is_identifier_spec(first_word(line.skip(kws[m].len() as int))),
    ensures
        keyword_symbols(line, kws).contains(first_word(line.skip(kws[m].len() as int))),
    decreases kws.len(),
{
    if m < kws.len() - 1 {
        assert(kws.drop_last()[m] == kws[m]);
        lemma_keyword_symbols_has(line, kws.drop_last(), m);
    }
}

proof fn lemma_symbols_of_lines_has(ls: Seq<Seq<char>>, i: int, name: Seq<char>)
    requires
        0 <= i < ls.len(),
        line_symbols(ls[i]).contains(name),
    ensures
        symbols_of_lines(ls).contains(name),
    decreases ls.len(),
{
    if i < ls.len() - 1 {
        assert(ls.drop_last()[i] == ls[i]);
        lemma_symbols_of_lines_has(ls.drop_last(), i, name);
    }
}

/// A declaration names a symbol: a line reading `PROGRAM`, `FUNCTION`,
/// `FUNCTION_BLOCK`, `TYPE` or `CLASS`, a space and an identifier (surrounding
/// white space aside) puts that identifier among the document's symbols, which
/// completion then offers; `CLASS Motor` declares `Motor`.
pub proof fn law_declared_names_are_symbols(text: Seq<char>, i: int, keyword: Seq<char>, name: Seq<char>)
    requires
        0 <= i < lines(text).len(),
        keyword == "PROGRAM"@ || keyword == "FUNCTION"@ || keyword == "FUNCTION_BLOCK"@
            || keyword == "TYPE"@ || keyword == "CLASS"@,
        is_identifier_spec(name),
        trim(lines(text)[i]) == keyword + " "@ + name,
    ensures
        symbols_of_lines(lines(text)).contains(name),
{
    reveal_strlit("PROGRAM");
    reveal_strlit("FUNCTION");
    reveal_strlit("FUNCTION_BLOCK");
    reveal_strlit("TYPE");
    reveal_strlit("CLASS");
    reveal_strlit(" ");
    reveal_strlit("//");
    reveal_strlit("(*");
    let raw = lines(text)[i];
    let line = trim(raw);
    let kws = decl_keywords();
    let m: int = if keyword == "PROGRAM"@ { 0 } else if keyword == "FUNCTION"@ { 1 } else if keyword == "FUNCTION_BLOCK"@ { 2 } else if keyword == "TYPE"@ { 3 } else { 4 };
    assert(kws[m] == keyword);
    assert(line.subrange(0, keyword.len() as int) =~= keyword);
    assert(line.skip(keyword.len() as int) =~= seq![' '] + name);
    assert forall|j: int| 0 <= j < name.len() implies !is_ws(#[trigger] name[j]) by {
        if j > 0 {
            assert(is_word_char(name[j]));
        }
    }
    lemma_scan_after_space(name);
    assert(words(seq![' '] + name) =~= seq![name]);
    assert(first_word(line.skip(keyword.len() as int)) == name);
    lemma_keyword_symbols_has(line, kws, m);
    assert(line[0] == keyword[0]);
    assert(!starts_with(line, "//"@)) by {
        if starts_with(line, "//"@) {
            assert(line.subrange(0, 2)[0] == line[0]);
        }
    }
    assert(!starts_with(line, "(*"@)) by {
        if starts_with(line, "(*"@) {
            assert(line.subrange(0, 2)[0] == line[0]);
        }
    }
    assert(line_symbols(raw).contains(name));
    lemma_symbols_of_lines_has(lines(text), i, name);
}

proof fn lemma_scan_word_then_gap(name: Seq<char>, gap: Seq<char>)
    requires
        name.len() > 0,
        forall|i: int| 0 <= i < name.len() ==> !is_ws(#[trigger] name[i]),
        forall|i: int| 0 <= i < gap.len() ==> is_ws(#[trigger] gap[i]),
    ensures
        scan_words(name + gap) == (if gap.len() == 0 {
            (Seq::<Seq<char>>::empty(), name)
        } else {
            (seq![name], Seq::<char>::empty())
        }),
    decreases name.len() + gap.len(),
{
    if gap.len() == 0 {
        assert(name + gap =~= name);
        if name.len() == 1 {
            assert(name.drop_last() =~= Seq::<char>::empty());
            assert(scan_words(Seq::<char>::empty()) == (Seq::<Seq<char>>::empty(), Seq::<char>::empty()));
            assert(!is_ws(name[0]));
            assert(Seq::<char>::empty().push(name.last()) =~= name);
        } else {
            lemma_scan_word_then_gap(name.drop_last(), gap);
            assert(name.drop_last() + gap =~= name.drop_last());
            assert(!is_ws(name[name.len() - 1]));
            assert(name.drop_last().push(name.last()) =~= name);
        }
    } else {
        lemma_scan_word_then_gap(name, gap.drop_last());
        assert((name + gap).drop_last() =~= name + gap.drop_last());
        assert((name + gap).last() == gap[gap.len() - 1]);
    }
}

proof fn lemma_no_separator(s: Seq<char>, sep: char)
    requires
        forall|i: int| 0 <= i < s.len() ==> #[trigger] s[i] != sep,
    ensures
        scan_pieces(s, sep) == (Seq::<Seq<char>>::empty(), s),
    decreases s.len(),
{
    if s.len() > 0 {
        lemma_no_separator(s.drop_last(), sep);
        assert(s.last() == s[s.len() - 1]);
        assert(s.drop_last().push(s.last()) =~= s);
    }
}

/// A variable declaration names a symbol: a line listing an identifier before
/// its `:` (`Speed : INT;`, blanks between the two or none) puts that identifier
/// among the document's symbols.
pub proof fn law_declared_variables_are_symbols(text: Seq<char>, i: int, name: Seq<char>, gap: Seq<char>, rest: Seq<char>)
    requires
        0 <= i < lines(text).len(),
        is_identifier_spec(name),
        forall|j: int| 0 <= j < gap.len() ==> is_ws(#[trigger] gap[j]),
        trim(lines(text)[i]) == name + gap + ":"@ + rest,
    ensures
        symbols_of_lines(lines(text)).contains(name),
{
    reveal_strlit(":");
    reveal_strlit("//");
    reveal_strlit("(*");
    let raw = lines(text)[i];
    let line = trim(raw);
    let lhs = name + gap;
    assert forall|j: int| 0 <= j < name.len() implies !is_ws(#[trigger] name[j]) by {
        if j > 0 {
            assert(is_word_char(name[j]));
        }
    }
    assert forall|j: int| 0 <= j < lhs.len() implies #[trigger] lhs[j] != ':' && lhs[j] != ',' by {
        if j < name.len() {
            assert(lhs[j] == name[j]);
            if j > 0 {
                assert(is_word_char(name[j]));
            }
        } else {
            assert(lhs[j] == gap[j - name.len()]);
        }
    }
    assert(line[lhs.len() as int] == ':');
    assert forall|k: int| 0 <= k < lhs.len() implies line[k] != ':' by {
        assert(line[k] == lhs[k]);
    }
    lemma_char_index_unique(line, ':', lhs.len() as int);
    assert(line.take(lhs.len() as int) =~= lhs);
    assert(crate::text::split_once(line, ':') == Some((lhs, line.skip(lhs.len() as int + 1))));
    lemma_no_separator(lhs, ',');
    assert(split_all(lhs, ',') =~= seq![lhs]);
    lemma_scan_word_then_gap(name, gap);
    assert(words(lhs) =~= seq![name]);
    assert(first_word(lhs) == name);
    assert(is_word_char(name.last()) || name.len() == 1);
    assert(trim_end_char(name, ';') == name);
    assert(seq![lhs].drop_last() =~= Seq::<Seq<char>>::empty());
    assert(declared_names(seq![lhs]).contains(name));
    assert(line[0] == name[0]);
    assert(!crate::text::starts_with(line, "//"@)) by {
        if crate::text::starts_with(line, "//"@) {
            assert(line.subrange(0, 2)[0] == line[0]);
        }
    }
    assert(!crate::text::starts_with(line, "(*"@)) by {
        if crate::text::starts_with(line, "(*"@) {
            assert(line.subrange(0, 2)[0] == line[0]);
        }
    }
    assert(line_symbols(raw).contains(name));
    lemma_symbols_of_lines_has(lines(text), i, name);
}

proof fn lemma_keyword_symbols_identifiers(line: Seq<char>, kws: Seq<Seq<char>>)
    ensures
        forall|x: Seq<char>| #[trigger] keyword_symbols(line, kws).contains(x) ==> is_identifier_spec(x),
    decreases kws.len(),
{
    if kws.len() > 0 {
        lemma_keyword_symbols_identifiers(line, kws.drop_last());
        let kw = kws.last();
        let w = first_word(line.skip(kw.len() as int));
        let rest = keyword_symbols(line, kws.drop_last());
        assert forall|x: Seq<char>| #[trigger] keyword_symbols(line, kws).contains(x) implies is_identifier_spec(x) by {
            if starts_with(line, kw) && is_identifier_spec(w) {
                assert(keyword_symbols(line, kws) == rest.insert(w));
                if x != w {
                    assert(rest.contains(x));
                }
            } else {
                assert(keyword_symbols(line, kws) == rest);
            }
        }
    } else {
        assert forall|x: Seq<char>| #[trigger] keyword_symbols(line, kws).contains(x) implies is_identifier_spec(x) by {
            assert(keyword_symbols(line, kws) == Set::<Seq<char>>::empty());
        }
    }
}

proof fn lemma_declared_names_identifiers(parts: Seq<Seq<char>>)
    ensures
        forall|x: Seq<char>| #[trigger] declared_names(parts).contains(x) ==> is_identifier_spec(x),
    decreases parts.len(),
{
    if parts.len() > 0 {
        lemma_declared_names_identifiers(parts.drop_last());
        let c = trim_end_char(first_word(parts.last()), ';');
        let rest = declared_names(parts.drop_last());
        assert forall|x: Seq<char>| #[trigger] declared_names(parts).contains(x) implies is_identifier_spec(x) by {
            if is_identifier_spec(c) {
                assert(declared_names(parts) == rest.insert(c));
                if x != c {
                    assert(rest.contains(x));
                }
            } else {
                assert(declared_names(parts) == rest);
            }
        }
    } else {
        assert forall|x: Seq<char>| #[trigger] declared_names(parts).contains(x) implies is_identifier_spec(x) by {
            assert(declared_names(parts) == Set::<Seq<char>>::empty());
        }
    }
}

/// Only identifiers are symbols: whatever a document holds, every symbol it
/// declares is a letter or `_` followed by letters, digits and `_`.
pub proof fn law_symbols_are_identifiers(ls: Seq<Seq<char>>)
    ensures
        forall|x: Seq<char>| #[trigger] symbols_of_lines(ls).contains(x) ==> is_identifier_spec(x),
    decreases ls.len(),
{
    if ls.len() > 0 {
        law_symbols_are_identifiers(ls.drop_last());
        let line = trim(ls.last());
        lemma_keyword_symbols_identifiers(line, decl_keywords());
        match crate::text::split_once(line, ':') {
            Some((lhs, _)) => lemma_declared_names_identifiers(split_all(lhs, ',')),
            None => {},
        }
        let prev = symbols_of_lines(ls.drop_last());
        let here = line_symbols(ls.last());
        assert forall|x: Seq<char>| #[trigger] symbols_of_lines(ls).contains(x) implies is_identifier_spec(x) by {
            assert(symbols_of_lines(ls) == prev.union(here));
            if !prev.contains(x) {
                assert(here.contains(x));
            }
        }
    } else {
        assert forall|x: Seq<char>| #[trigger] symbols_of_lines(ls).contains(x) implies is_identifier_spec(x) by {
            assert(symbols_of_lines(ls) == Set::<Seq<char>>::empty());
        }
    }
}

} // verus!
