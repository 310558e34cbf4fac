//! Workspace symbol search: which of the analysed symbols a query finds, in the
//! order of the files (by path) and of the symbols within each file, cut at a limit.
use vstd::prelude::*;
use crate::text::{lower, trim, trim_start, trim_end, is_ws, is_ascii_upper, lower_char, contains, chars_of, lower_chars, trim_chars, string_of, contains_str, str_eq};
use crate::ide::model::IdeSymbolHit;
use crate::ide::positions::{utf8_len, on_char_boundary, end_position, chars_within, text_offset_to_position};

verus! {

/// One symbol that analysis found in a file: its name, the label of its kind and
/// the byte offset where it starts.
pub struct FileSymbol {
    pub name: String,
    pub kind: String,
    pub start: u32,
}

/// An analysed file: its workspace path, its text and its symbols in the order
/// analysis lists them.
pub struct SymbolFile {
    pub path: String,
    pub source: String,
    pub symbols: Vec<FileSymbol>,
}

/// A hit as plain values: path, name, kind, line, character.
pub type HitView = (Seq<char>, Seq<char>, Seq<char>, u32, u32);

pub open spec fn symbol_view(s: FileSymbol) -> (Seq<char>, Seq<char>, u32) {
    (s.name@, s.kind@, s.start)
}

pub open spec fn symbols_view(v: Seq<FileSymbol>) -> Seq<(Seq<char>, Seq<char>, u32)> {
    v.map_values(|s: FileSymbol| symbol_view(s))
}

pub open spec fn file_view(f: SymbolFile) -> (Seq<char>, Seq<char>, Seq<(Seq<char>, Seq<char>, u32)>) {
    (f.path@, f.source@, symbols_view(f.symbols@))
}

pub open spec fn files_view(v: Seq<SymbolFile>) -> Seq<(Seq<char>, Seq<char>, Seq<(Seq<char>, Seq<char>, u32)>)> {
    v.map_values(|f: SymbolFile| file_view(f))
}

pub open spec fn hit_view(h: IdeSymbolHit) -> HitView {
    (h.path@, h.name@, h.kind@, h.line, h.character)
}

pub open spec fn hits_view(v: Seq<IdeSymbolHit>) -> Seq<HitView> {
    v.map_values(|h: IdeSymbolHit| hit_view(h))
}

/// The query as it is matched: trimmed and in ASCII lower case.
pub open spec fn normalized_query(query: Seq<char>) -> Seq<char> {
    lower(trim(query))
}

/// A symbol is found when it has a name and, for a non-empty query, its name in
/// lower case holds the query.
pub open spec fn symbol_found(q: Seq<char>, name: Seq<char>) -> bool {
    name.len() > 0 && (q.len() == 0 || contains(lower(name), q))
}

/// The hit for a symbol starting at byte `start` of `source`.
pub open spec fn hit_of(path: Seq<char>, source: Seq<char>, sym: (Seq<char>, Seq<char>, u32)) -> HitView {
    let p = end_position(chars_within(source, sym.2 as nat));
    (path, sym.0, sym.1, p.0 as u32, p.1 as u32)
}

/// The hits among `syms`, in their order.
pub open spec fn symbol_hits(
    path: Seq<char>,
    source: Seq<char>,
    syms: Seq<(Seq<char>, Seq<char>, u32)>,
    q: Seq<char>,
) -> Seq<HitView>
    decreases syms.len(),
{
    if syms.len() == 0 {
        Seq::empty()
    } else {
        let rest = symbol_hits(path, source, syms.drop_last(), q);
        if symbol_found(q, syms.last().0) {
            rest.push(hit_of(path, source, syms.last()))
        } else {
            rest
        }
    }
}

/// A file is searched when no path filter is given or its path is the filter.
pub open spec fn file_searched(filter: Option<Seq<char>>, path: Seq<char>) -> bool {
    match filter {
        Some(p) => path == p,
        None => true,
    }
}

/// Every hit of the searched files, file after file.
pub open spec fn all_hits(
    files: Seq<(Seq<char>, Seq<char>, Seq<(Seq<char>, Seq<char>, u32)>)>,
    filter: Option<Seq<char>>,
    q: Seq<char>,
) -> Seq<HitView>
    decreases files.len(),
{
    if files.len() == 0 {
        Seq::empty()
    } else {
        let f = files.last();
        let rest = all_hits(files.drop_last(), filter, q);
        if file_searched(filter, f.0) {
            rest + symbol_hits(f.0, f.1, f.2, q)
        } else {
            rest
        }
    }
}

/// The search stops as soon as it holds `limit` hits, and always keeps the
/// first hit it finds, so a limit of 0 gives at most one.
pub open spec fn limited(all: Seq<HitView>, limit: nat) -> Seq<HitView> {
    let cap: nat = if limit == 0 { 1 } else { limit };
    if all.len() <= cap { all } else { all.take(cap as int) }
}

/// Every symbol offset lies on a character boundary of its file's text.
pub open spec fn offsets_valid(files: Seq<(Seq<char>, Seq<char>, Seq<(Seq<char>, Seq<char>, u32)>)>) -> bool {
    forall|i: int, j: int|
        0 <= i < files.len() && 0 <= j < files[i].2.len()
            ==> utf8_len(files[i].1) <= usize::MAX && on_char_boundary(files[i].1, files[i].2[j].2 as nat)
}

proof fn lemma_symbol_hits_prefix(
    path: Seq<char>,
    source: Seq<char>,
    syms: Seq<(Seq<char>, Seq<char>, u32)>,
    q: Seq<char>,
    j: int,
)
    requires
        0 <= j <= syms.len(),
    ensures
        symbol_hits(path, source, syms.take(j), q).is_prefix_of(symbol_hits(path, source, syms, q)),
    decreases syms.len(),
{
    if j == syms.len() {
        assert(syms.take(j) =~= syms);
    } else {
        let d = syms.drop_last();
        assert(syms.take(j) =~= d.take(j));
        lemma_symbol_hits_prefix(path, source, d, q, j);
    }
}

proof fn lemma_all_hits_prefix(
    files: Seq<(Seq<char>, Seq<char>, Seq<(Seq<char>, Seq<char>, u32)>)>,
    filter: Option<Seq<char>>,
    q: Seq<char>,
    i: int,
)
    requires
        0 <= i <= files.len(),
    ensures
        all_hits(files.take(i), filter, q).is_prefix_of(all_hits(files, filter, q)),
    decreases files.len(),
{
    if i == files.len() {
        assert(files.take(i) =~= files);
    } else {
        let d = files.drop_last();
        assert(files.take(i) =~= d.take(i));
        lemma_all_hits_prefix(d, filter, q, i);
    }
}

fn symbol_found_exec(q: &str, name: &str) -> (r: bool)
    ensures
        r == symbol_found(q@, name@),
{
    let nv = chars_of(name);
    if nv.len() == 0 {
        return false;
    }
    let qc = chars_of(q);
    if qc.len() == 0 {
        return true;
    }
    let ln = lower_chars(nv.as_slice());
    contains_str(ln.as_slice(), q)
}

/// The symbols that `query` finds in `files`, restricted to the file at
/// `filter_path` when one is given, as hits with their line and character.
/// The files come in path order, as analysis keeps them.
#[verifier::rlimit(40)]
pub fn extract_symbol_hits(
    files: &Vec<SymbolFile>,
    filter_path: Option<&str>,
    query: &str,
    limit: usize,
) -> (r: Vec<IdeSymbolHit>)
    requires
        offsets_valid(files_view(files@)),
    ensures
        hits_view(r@) == limited(
            all_hits(files_view(files@), match filter_path { Some(p) => Some(p@), None => None }, normalized_query(query@)),
            limit as nat,
        ),
{
    let ghost fv = files_view(files@);
    let ghost filter: Option<Seq<char>> = match filter_path { Some(p) => Some(p@), None => None };
    let qv = lower_chars(trim_chars(chars_of(query).as_slice()).as_slice());
    let q = string_of(qv.as_slice());
    let ghost qs = normalized_query(query@);
    assert(q@ == qs);
    let ghost cap: nat = if limit == 0 { 1 } else { limit as nat };
    let ghost all = all_hits(fv, filter, qs);
    let mut hits: Vec<IdeSymbolHit> = Vec::new();
    let mut i: usize = 0;
    while i < files.len()
        invariant
            fv == files_view(files@),
            i <= files.len(),
            q@ == qs,
            qs == normalized_query(query@),
            offsets_valid(fv),
            all == all_hits(fv, filter, qs),
            filter == (match filter_path { Some(p) => Some(p@), None => None::<Seq<char>> }),
            cap == (if limit == 0 { 1 } else { limit as nat }),
            hits_view(hits@) == all_hits(fv.take(i as int), filter, qs),
            hits@.len() < cap,
        decreases files.len() - i,
    {
        let f = &files[i];
        let ghost fi = fv[i as int];
        assert(fi == file_view(files@[i as int]));
        proof {
            assert(fv.take(i + 1).drop_last() =~= fv.take(i as int));
            assert(fv.take(i + 1).last() == fi);
        }
        let searched = match filter_path {
            Some(expected) => str_eq(f.path.as_str(), expected),
            None => true,
        };
        if searched {
            let ghost base = hits_view(hits@);
            let mut j: usize = 0;
            while j < f.symbols.len()
                invariant
                    fv == files_view(files@),
                    i < files.len(),
                    *f == files@[i as int],
                    fi == file_view(*f),
                    fi == fv[i as int],
                    j <= f.symbols.len(),
                    q@ == qs,
                    qs == normalized_query(query@),
                    filter == (match filter_path { Some(p) => Some(p@), None => None::<Seq<char>> }),
                    offsets_valid(fv),
                    all == all_hits(fv, filter, qs),
                    file_searched(filter, fi.0),
                    cap == (if limit == 0 { 1 } else { limit as nat }),
                    base == all_hits(fv.take(i as int), filter, qs),
                    hits_view(hits@) == base + symbol_hits(fi.0, fi.1, fi.2.take(j as int), qs),
                    hits@.len() < cap,
                decreases f.symbols.len() - j,
            {
                let s = &f.symbols[j];
                let ghost sv = fi.2[j as int];
                assert(sv == symbol_view(*s));
                proof {
                    assert(fi.2.take(j + 1).drop_last() =~= fi.2.take(j as int));
                    assert(fi.2.take(j + 1).last() == sv);
                }
                if symbol_found_exec(q.as_str(), s.name.as_str()) {
                    proof {
                        assert(0 <= i < fv.len() && 0 <= j < fv[i as int].2.len());
                    }
                    let pos = text_offset_to_position(f.source.as_str(), s.start);
                    let hit = IdeSymbolHit {
                        path: f.path.clone(),
                        name: s.name.clone(),
                        kind: s.kind.clone(),
                        line: pos.line,
                        character: pos.character,
                    };
                    let ghost before = hits_view(hits@);
                    hits.push(hit);
                    proof {
                        assert(hits_view(hits@) =~= before.push(hit_view(hit)));
                        assert(hit_view(hit) == hit_of(fi.0, fi.1, sv));
                        assert(hits_view(hits@) =~= base + symbol_hits(fi.0, fi.1, fi.2.take(j + 1), qs));
                    }
                    if hits.len() >= limit {
                        proof {
                            let cur = hits_view(hits@);
                            assert(hits@.len() == cap);
                            lemma_symbol_hits_prefix(fi.0, fi.1, fi.2, qs, j + 1);
                            lemma_all_hits_prefix(fv, filter, qs, i + 1);
                            let full_file = symbol_hits(fi.0, fi.1, fi.2, qs);
                            let upto = all_hits(fv.take(i + 1), filter, qs);
                            assert(fv.take(i + 1).drop_last() =~= fv.take(i as int));
                            assert(fv.take(i + 1).last() == fi);
                            assert(upto =~= base + full_file);
                            assert(cur.is_prefix_of(upto));
                            assert(cur.is_prefix_of(all));
                            assert(cur =~= limited(all, limit as nat));
                        }
                        return hits;
                    }
                }
                j = j + 1;
            }
            proof {
                assert(fi.2.take(f.symbols.len() as int) =~= fi.2);
                assert(hits_view(hits@) =~= all_hits(fv.take(i + 1), filter, qs));
            }
        } else {
            proof {
                assert(!file_searched(filter, fi.0));
                assert(hits_view(hits@) =~= all_hits(fv.take(i + 1), filter, qs));
            }
        }
        i = i + 1;
    }
    proof {
        assert(fv.take(files.len() as int) =~= fv);
    }
    hits
}

// ---------------------------------------------------------------------------
// Laws of the search
// ---------------------------------------------------------------------------

proof fn lemma_symbol_hits_has(
    path: Seq<char>,
    source: Seq<char>,
    syms: Seq<(Seq<char>, Seq<char>, u32)>,
    q: Seq<char>,
    j: int,
)
    requires
        0 <= j < syms.len(),
        symbol_found(q, syms[j].0),
    ensures
        symbol_hits(path, source, syms, q).contains(hit_of(path, source, syms[j])),
    decreases syms.len(),
{
    let rest = symbol_hits(path, source, syms.drop_last(), q);
    if j == syms.len() - 1 {
        assert(symbol_hits(path, source, syms, q) == rest.push(hit_of(path, source, syms[j])));
        assert(rest.push(hit_of(path, source, syms[j]))[rest.len() as int] == hit_of(path, source, syms[j]));
    } else {
        assert(syms.drop_last()[j] == syms[j]);
        lemma_symbol_hits_has(path, source, syms.drop_last(), q, j);
        let k = choose|k: int| 0 <= k < rest.len() && rest[k] == hit_of(path, source, syms[j]);
        if symbol_found(q, syms.last().0) {
            assert(symbol_hits(path, source, syms, q)[k] == rest[k]);
        }
    }
}

proof fn lemma_symbol_hits_sound(
    path: Seq<char>,
    source: Seq<char>,
    syms: Seq<(Seq<char>, Seq<char>, u32)>,
    q: Seq<char>,
)
    ensures
        forall|k: int| 0 <= k < symbol_hits(path, source, syms, q).len() ==> {
            let name = (#[trigger] symbol_hits(path, source, syms, q)[k]).1;
            name.len() > 0 && (q.len() == 0 || contains(lower(name), q))
        },
    decreases syms.len(),
{
    if syms.len() > 0 {
        lemma_symbol_hits_sound(path, source, syms.drop_last(), q);
        let rest = symbol_hits(path, source, syms.drop_last(), q);
        let all = symbol_hits(path, source, syms, q);
        assert forall|k: int| 0 <= k < all.len() implies {
            let name = (#[trigger] all[k]).1;
            name.len() > 0 && (q.len() == 0 || contains(lower(name), q))
        } by {
            if k < rest.len() {
                assert(all[k] == rest[k]);
            }
        }
    }
}

/// The search finds a query anywhere in a name, not only at its start: every
/// named symbol of a searched file (every file without a path filter, else the
/// file at that path) whose name, in ASCII lower case, holds the query at any
/// position is among the hits, with its file and place.
pub proof fn law_search_finds_query_anywhere_in_name(
    files: Seq<(Seq<char>, Seq<char>, Seq<(Seq<char>, Seq<char>, u32)>)>,
    filter: Option<Seq<char>>,
    q: Seq<char>,
    fi: int,
    sj: int,
)
    requires
        0 <= fi < files.len(),
        0 <= sj < files[fi].2.len(),
        filter is None || filter == Some(files[fi].0),
        files[fi].2[sj].0.len() > 0,
        q.len() == 0 || contains(lower(files[fi].2[sj].0), q),
    ensures
        all_hits(files, filter, q).contains(hit_of(files[fi].0, files[fi].1, files[fi].2[sj])),
    decreases files.len(),
{
    let f = files.last();
    let rest = all_hits(files.drop_last(), filter, q);
    let h = hit_of(files[fi].0, files[fi].1, files[fi].2[sj]);
    if fi == files.len() - 1 {
        lemma_symbol_hits_has(f.0, f.1, f.2, q, sj);
        let mine = symbol_hits(f.0, f.1, f.2, q);
        let k = choose|k: int| 0 <= k < mine.len() && mine[k] == h;
        assert((rest + mine)[rest.len() + k] == h);
    } else {
        assert(files.drop_last()[fi] == files[fi]);
        law_search_finds_query_anywhere_in_name(files.drop_last(), filter, q, fi, sj);
        let k = choose|k: int| 0 <= k < rest.len() && rest[k] == h;
        if file_searched(filter, f.0) {
            assert((rest + symbol_hits(f.0, f.1, f.2, q))[k] == h);
        }
    }
}

/// Every hit is a named symbol whose name, in ASCII lower case, holds the query
/// (any symbol with a name is a hit of an empty query).
pub proof fn law_every_hit_holds_the_query(
    files: Seq<(Seq<char>, Seq<char>, Seq<(Seq<char>, Seq<char>, u32)>)>,
    filter: Option<Seq<char>>,
    q: Seq<char>,
)
    ensures
        forall|k: int| 0 <= k < all_hits(files, filter, q).len() ==> {
            let name = (#[trigger] all_hits(files, filter, q)[k]).1;
            name.len() > 0 && (q.len() == 0 || contains(lower(name), q))
        },
    decreases files.len(),
{
    if files.len() > 0 {
        let f = files.last();
        law_every_hit_holds_the_query(files.drop_last(), filter, q);
        lemma_symbol_hits_sound(f.0, f.1, f.2, q);
        let rest = all_hits(files.drop_last(), filter, q);
        let mine = symbol_hits(f.0, f.1, f.2, q);
        let all = all_hits(files, filter, q);
        assert forall|k: int| 0 <= k < all.len() implies {
            let name = (#[trigger] all[k]).1;
            name.len() > 0 && (q.len() == 0 || contains(lower(name), q))
        } by {
            if k < rest.len() {
                assert(all[k] == rest[k]);
            } else {
                assert(all[k] == mine[k - rest.len()]);
            }
        }
    }
}

proof fn lemma_lower_char(c: char)
    ensures
        !is_ascii_upper(lower_char(c)),
        is_ws(lower_char(c)) == is_ws(c),
{
    if is_ascii_upper(c) {
        assert((c as u32) + 32 >= 97 && (c as u32) + 32 <= 122);
        assert((((c as u32) + 32) as char) as u32 == (c as u32) + 32);
    }
}

proof fn lemma_trim_start_first(s: Seq<char>)
    ensures
        trim_start(s).len() > 0 ==> !is_ws(trim_start(s)[0]),
        trim_start(s).len() <= s.len(),
    decreases s.len(),
{
    if s.len() > 0 && is_ws(s[0]) {
        lemma_trim_start_first(s.drop_first());
    }
}

proof fn lemma_trim_end_last(s: Seq<char>)
    ensures
        trim_end(s).len() > 0 ==> !is_ws(trim_end(s).last()),
        trim_end(s).len() <= s.len(),
        forall|i: int| 0 <= i < trim_end(s).len() ==> #[trigger] trim_end(s)[i] == s[i],
    decreases s.len(),
{
    if s.len() > 0 && is_ws(s.last()) {
        lemma_trim_end_last(s.drop_last());
        assert forall|i: int| 0 <= i < trim_end(s).len() implies #[trigger] trim_end(s)[i] == s[i] by {
            assert(s.drop_last()[i] == s[i]);
        }
    }
}

/// A query is matched without regard to letter case or to the blanks around it:
/// as it is matched it holds no upper-case ASCII letter and neither starts nor
/// ends with white space.
pub proof fn law_query_is_folded_and_trimmed(query: Seq<char>)
    ensures
        forall|i: int| 0 <= i < normalized_query(query).len() ==> !is_ascii_upper(#[trigger] normalized_query(query)[i]),
        normalized_query(query).len() > 0 ==> !is_ws(normalized_query(query)[0]),
        normalized_query(query).len() > 0 ==> !is_ws(normalized_query(query).last()),
{
    let n = normalized_query(query);
    let t = trim(query);
    assert forall|i: int| 0 <= i < n.len() implies !is_ascii_upper(#[trigger] n[i]) by {
        lemma_lower_char(t[i]);
    }
    lemma_trim_start_first(query);
    lemma_trim_end_last(trim_start(query));
    if n.len() > 0 {
        lemma_lower_char(t[0]);
        lemma_lower_char(t[t.len() - 1]);
        assert(t[0] == trim_start(query)[0]);
    }
}

} // verus!
