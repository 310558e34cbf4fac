//! Text search over the workspace's files: the lines that hold the query (in
//! ASCII lower case), in the files that the wanted and exclude globs let
//! through, cut at a limit.
use vstd::prelude::*;

use crate::ide::format::{lines, split_lines};
use crate::ide::model::{IdeError, IdeSearchHit};
use crate::ide::paths::{compile_glob_pattern, glob_filter_matches, glob_filter_spec, glob_matches, GlobFilter};
use crate::ide::positions::utf8_len;
use crate::text::{chars_of, contains, lower, lower_chars, occurs_at, occurs_at_exec, string_of, trim, trim_chars};

verus! {

/// A file of the workspace: its path and its text.
pub struct SearchFile {
    pub path: String,
    pub source: String,
}

pub type SearchHitView = (Seq<char>, u32, u32, Seq<char>);

pub open spec fn search_hit_view(h: IdeSearchHit) -> SearchHitView {
    (h.path@, h.line, h.character, h.preview@)
}

pub open spec fn search_hits_view(s: Seq<IdeSearchHit>) -> Seq<SearchHitView> {
    s.map_values(|h: IdeSearchHit| search_hit_view(h))
}

pub open spec fn search_files_view(s: Seq<SearchFile>) -> Seq<(Seq<char>, Seq<char>)> {
    s.map_values(|f: SearchFile| (f.path@, f.source@))
}

/// The first place where `p` occurs in `s`.
pub open spec fn first_at(s: Seq<char>, p: Seq<char>) -> int {
    choose|i: int| occurs_at(s, p, i) && forall|j: int| 0 <= j < i ==> !occurs_at(s, p, j)
}

/// The hit for line `index` of a file, if the line (in lower case) holds the
/// needle: where the needle first starts, in bytes, and the trimmed line.
pub open spec fn line_hit(path: Seq<char>, index: int, line: Seq<char>, needle: Seq<char>) -> Option<SearchHitView> {
    let l = lower(line);
    if contains(l, needle) {
        Some((path, index as u32, utf8_len(l.take(first_at(l, needle))) as u32, trim(line)))
    } else {
        None
    }
}

/// The hits among the lines `ls` of a file, in line order.
pub open spec fn lines_hits(path: Seq<char>, ls: Seq<Seq<char>>, needle: Seq<char>) -> Seq<SearchHitView>
    decreases ls.len(),
{
    if ls.len() == 0 {
        Seq::empty()
    } else {
        let r = lines_hits(path, ls.drop_last(), needle);
        match line_hit(path, ls.len() - 1, ls.last(), needle) {
            Some(h) => r.push(h),
            None => r,
        }
    }
}

/// The globs let `path` through: it matches the wanted pattern, if any, and
/// not the exclude pattern, if any.
pub open spec fn let_through(wanted: Option<Seq<char>>, exclude: Option<Seq<char>>, path: Seq<char>) -> bool {
    (match wanted { Some(p) => glob_matches(p, path), None => true })
        && (match exclude { Some(p) => !glob_matches(p, path), None => true })
}

/// Every hit of the files let through, file after file.
pub open spec fn search_all(
    files: Seq<(Seq<char>, Seq<char>)>,
    wanted: Option<Seq<char>>,
    exclude: Option<Seq<char>>,
    needle: Seq<char>,
) -> Seq<SearchHitView>
    decreases files.len(),
{
    if files.len() == 0 {
        Seq::empty()
    } else {
        let f = files.last();
        let r = search_all(files.drop_last(), wanted, exclude, needle);
        if let_through(wanted, exclude, f.0) { r + lines_hits(f.0, lines(f.1), needle) } else { r }
    }
}

/// The search stops as soon as it holds `limit` hits, and always keeps the
/// first hit it finds.
pub open spec fn search_limited(all: Seq<SearchHitView>, limit: nat) -> Seq<SearchHitView> {
    let cap: nat = if limit == 0 { 1 } else { limit };
    if all.len() <= cap { all } else { all.take(cap as int) }
}

/// The pattern of a glob filter as given: none when missing or blank, else the
/// trimmed text.
pub open spec fn glob_text(raw: Option<Seq<char>>) -> Option<Seq<char>> {
    match raw {
        Some(p) => if trim(p).len() == 0 { None } else { Some(trim(p)) },
        None => None,
    }
}

pub open spec fn opt_str(s: Option<&str>) -> Option<Seq<char>> {
    match s {
        Some(t) => Some(t@),
        None => None,
    }
}

proof fn lemma_lines_hits_prefix(path: Seq<char>, ls: Seq<Seq<char>>, needle: Seq<char>, j: int)
    requires
        0 <= j <= ls.len(),
    ensures
        lines_hits(path, ls.take(j), needle).is_prefix_of(lines_hits(path, ls, needle)),
    decreases ls.len(),
{
    if j == ls.len() {
        assert(ls.take(j) =~= ls);
    } else {
        assert(ls.take(j) =~= ls.drop_last().take(j));
        lemma_lines_hits_prefix(path, ls.drop_last(), needle, j);
    }
}

proof fn lemma_search_all_prefix(
    files: Seq<(Seq<char>, Seq<char>)>,
    wanted: Option<Seq<char>>,
    exclude: Option<Seq<char>>,
    needle: Seq<char>,
    i: int,
)
    requires
        0 <= i <= files.len(),
    ensures
        search_all(files.take(i), wanted, exclude, needle).is_prefix_of(search_all(files, wanted, exclude, needle)),
    decreases files.len(),
{
    if i == files.len() {
        assert(files.take(i) =~= files);
    } else {
        assert(files.take(i) =~= files.drop_last().take(i));
        lemma_search_all_prefix(files.drop_last(), wanted, exclude, needle, i);
    }
}

/// Where `p` first occurs in `s`, if it does.
fn find_first(s: &[char], p: &[char]) -> (r: Option<usize>)
    ensures
        match r {
            Some(i) => i as int == first_at(s@, p@) && contains(s@, p@) && i + p@.len() <= s@.len(),
            None => !contains(s@, p@),
        },
{
    if p.len() > s.len() {
        proof {
            assert forall|j: int| !occurs_at(s@, p@, j) by {}
        }
        return None;
    }
    let last = s.len() - p.len();
    let mut i: usize = 0;
    loop
        invariant
            i <= last,
            last == s@.len() - p@.len(),
            forall|j: int| 0 <= j < i ==> !occurs_at(s@, p@, j),
        decreases last - i,
    {
        if occurs_at_exec(s, p, i) {
            proof {
                let c = first_at(s@, p@);
                assert(occurs_at(s@, p@, i as int) && forall|j: int| 0 <= j < i ==> !occurs_at(s@, p@, j));
                assert(occurs_at(s@, p@, c) && forall|j: int| 0 <= j < c ==> !occurs_at(s@, p@, j));
            }
            return Some(i);
        }
        if i == last {
            proof {
                assert forall|j: int| !occurs_at(s@, p@, j) by {
                    if 0 <= j < i {
                    }
                }
            }
            return None;
        }
        i = i + 1;
    }
}

fn file_hits_push(
    hits: &mut Vec<IdeSearchHit>,
    path: &str,
    source: &str,
    needle: &str,
    cap: usize,
) -> (full: bool)
    requires
        old(hits)@.len() < cap,
    ensures
        !full ==> search_hits_view(final(hits)@) == search_hits_view(old(hits)@) + lines_hits(path@, lines(source@), needle@),
        !full ==> final(hits)@.len() < cap,
        full ==> final(hits)@.len() == cap,
        full ==> search_hits_view(final(hits)@).is_prefix_of(search_hits_view(old(hits)@) + lines_hits(path@, lines(source@), needle@)),
{
    let ls = split_lines(chars_of(source).as_slice());
    let ghost lv = lines(source@);
    let ghost base = search_hits_view(hits@);
    assert(lv.take(0) =~= Seq::<Seq<char>>::empty());
    let nv = chars_of(needle);
    let mut j: usize = 0;
    while j < ls.len()
        invariant
            ls@.len() == lv.len(),
            forall|k: int| 0 <= k < ls@.len() ==> (#[trigger] ls@[k])@ == lv[k],
            lv == lines(source@),
            nv@ == needle@,
            j <= ls.len(),
            base == search_hits_view(old(hits)@),
            search_hits_view(hits@) == base + lines_hits(path@, lv.take(j as int), needle@),
            hits@.len() < cap,
        decreases ls.len() - j,
    {
        let line = &ls[j];
        let lower_line = lower_chars(line.as_slice());
        proof {
            assert(lv.take(j + 1).drop_last() =~= lv.take(j as int));
            assert(lv.take(j + 1).last() == lv[j as int]);
            assert(lv.take(j + 1).len() - 1 == j);
        }
        match find_first(lower_line.as_slice(), nv.as_slice()) {
            Some(at) => {
                let ghost l = lower(lv[j as int]);
                let prefix = crate::text::slice_chars(lower_line.as_slice(), 0, at);
                let byte = crate::ide::edits::utf8_len_exec(prefix.as_slice());
                let preview = string_of(trim_chars(line.as_slice()).as_slice());
                let hit = IdeSearchHit {
                    path: path.to_owned(),
                    line: j as u32,
                    character: byte as u32,
                    preview,
                };
                let ghost before = search_hits_view(hits@);
                hits.push(hit);
                proof {
                    assert(prefix@ =~= l.take(at as int));
                    assert(search_hits_view(hits@) =~= before.push(search_hit_view(hit)));
                    assert(line_hit(path@, j as int, lv[j as int], needle@) == Some(search_hit_view(hit)));
                    assert(search_hits_view(hits@) =~= base + lines_hits(path@, lv.take(j + 1), needle@));
                }
                if hits.len() >= cap {
                    proof {
                        lemma_lines_hits_prefix(path@, lv, needle@, j + 1);
                        let a = lines_hits(path@, lv.take(j + 1), needle@);
                        let b = lines_hits(path@, lv, needle@);
                        assert((base + a).is_prefix_of(base + b)) by {
                            assert((base + b).subrange(0, (base + a).len() as int) =~= base + a);
                        }
                    }
                    return true;
                }
            },
            None => {
                proof {
                    assert(line_hit(path@, j as int, lv[j as int], needle@) is None);
                }
            },
        }
        j = j + 1;
    }
    proof {
        assert(lv.take(ls.len() as int) =~= lv);
    }
    false
}

/// Searches the files, in the order given, for lines holding `query` (trimmed,
/// in ASCII lower case): a blank query finds nothing; otherwise the wanted and
/// exclude globs are compiled (a bad one is refused) and the files they let
/// through are searched, stopping at `limit` hits.
#[verifier::rlimit(40)]
pub fn workspace_search(
    files: &Vec<SearchFile>,
    query: &str,
    wanted_glob: Option<&str>,
    exclude_glob: Option<&str>,
    limit: usize,
) -> (r: Result<Vec<IdeSearchHit>, IdeError>)
    ensures
        trim(query@).len() == 0 ==> (r matches Ok(h) && h@.len() == 0),
        trim(query@).len() > 0 ==> match glob_filter_spec(opt_str(wanted_glob), "include"@) {
            Some(m) => r matches Err(e) && e.message_spec() == m,
            None => match glob_filter_spec(opt_str(exclude_glob), "exclude"@) {
                Some(m) => r matches Err(e) && e.message_spec() == m,
                None => r matches Ok(h) && search_hits_view(h@) == search_limited(
                    search_all(
                        search_files_view(files@),
                        glob_text(opt_str(wanted_glob)),
                        glob_text(opt_str(exclude_glob)),
                        lower(trim(query@)),
                    ),
                    limit as nat,
                ),
            },
        },
{
    let t = trim_chars(chars_of(query).as_slice());
    if t.len() == 0 {
        return Ok(Vec::new());
    }
    let needle = string_of(lower_chars(t.as_slice()).as_slice());
    let wanted = compile_glob_pattern(wanted_glob, "include")?;
    let exclude = compile_glob_pattern(exclude_glob, "exclude")?;
    let ghost inc = glob_text(opt_str(wanted_glob));
    let ghost exc = glob_text(opt_str(exclude_glob));
    let ghost fv = search_files_view(files@);
    let ghost q = lower(trim(query@));
    let ghost all = search_all(fv, inc, exc, q);
    assert(trim(query@).len() > 0);
    assert(glob_filter_spec(opt_str(wanted_glob), "include"@) is None);
    assert(glob_filter_spec(opt_str(exclude_glob), "exclude"@) is None);
    let cap: usize = if limit == 0 { 1 } else { limit };
    let mut hits: Vec<IdeSearchHit> = Vec::new();
    let mut i: usize = 0;
    assert(fv.take(0) =~= Seq::<(Seq<char>, Seq<char>)>::empty());
    while i < files.len()
        invariant
            fv == search_files_view(files@),
            i <= files.len(),
            needle@ == q,
            q == lower(trim(query@)),
            trim(query@).len() > 0,
            glob_filter_spec(opt_str(wanted_glob), "include"@) is None,
            glob_filter_spec(opt_str(exclude_glob), "exclude"@) is None,
            inc == glob_text(opt_str(wanted_glob)),
            exc == glob_text(opt_str(exclude_glob)),
            all == search_all(fv, inc, exc, q),
            cap as nat == (if limit == 0 { 1nat } else { limit as nat }),
            match wanted { Some(f) => inc == Some(f@), None => inc is None },
            match exclude { Some(f) => exc == Some(f@), None => exc is None },
            search_hits_view(hits@) == search_all(fv.take(i as int), inc, exc, q),
            hits@.len() < cap,
        decreases files.len() - i,
    {
        let f = &files[i];
        let ghost fi = fv[i as int];
        assert(fi == (f.path@, f.source@));
        proof {
            assert(fv.take(i + 1).drop_last() =~= fv.take(i as int));
            assert(fv.take(i + 1).last() == fi);
        }
        let pass_wanted = match &wanted {
            Some(p) => glob_filter_matches(p, f.path.as_str()),
            None => true,
        };
        let pass_exclude = match &exclude {
            Some(p) => !glob_filter_matches(p, f.path.as_str()),
            None => true,
        };
        if pass_wanted && pass_exclude {
            let ghost before = search_hits_view(hits@);
            let full = file_hits_push(&mut hits, f.path.as_str(), f.source.as_str(), needle.as_str(), cap);
            if full {
                proof {
                    let upto = search_all(fv.take(i + 1), inc, exc, q);
                    assert(upto =~= before + lines_hits(fi.0, lines(fi.1), q));
                    lemma_search_all_prefix(fv, inc, exc, q, i + 1);
                    let cur = search_hits_view(hits@);
                    assert(cur.is_prefix_of(all));
                    assert(cur =~= search_limited(all, limit as nat));
                }
                return Ok(hits);
            }
            assert(search_hits_view(hits@) =~= search_all(fv.take(i + 1), inc, exc, q));
        } else {
            assert(search_hits_view(hits@) =~= search_all(fv.take(i + 1), inc, exc, q));
        }
        i = i + 1;
    }
    proof {
        assert(fv.take(files.len() as int) =~= fv);
    }
    Ok(hits)
}

} // verus!
