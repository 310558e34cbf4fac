//! What becomes of tracked documents when workspace entries are renamed, deleted
//! or created: the documents move with a rename (one version further on), are
//! forgotten with a deletion, and a created file is tracked with its content.
use vstd::prelude::*;

use crate::ide::documents::{bump, distinct_paths, doc_index, lemma_doc_index};
use crate::ide::paths::{is_under, law_remap_round_trip, remap_spec};
use crate::text::starts_with;

verus! {

/// A tracked document as plain values: path, content, version, openers.
pub type DocView = (Seq<char>, Seq<char>, u64, Set<Seq<char>>);

/// `path` is the entry `root` itself or, when the entry is a directory, lies
/// below it.
pub open spec fn covers(path: Seq<char>, root: Seq<char>, tree: bool) -> bool {
    if tree { is_under(path, root) } else { path == root }
}

/// Where `path`, covered by `old`, goes when `old` is renamed to `new`.
pub open spec fn moved_to(path: Seq<char>, old: Seq<char>, new: Seq<char>, tree: bool) -> Seq<char> {
    if tree { new + path.skip(old.len() as int) } else { new }
}

/// The document at `path` is replaced by one that the rename moves there.
pub open spec fn overwritten(full: Seq<DocView>, path: Seq<char>, old: Seq<char>, new: Seq<char>, tree: bool) -> bool {
    covers(path, new, tree) && doc_index(full, moved_to(path, new, old, tree)) >= 0
}

/// What a rename does to one document of `full`: a covered one moves and its
/// version is bumped; one that a moved document lands on is dropped; any other
/// stays as it is.
pub open spec fn renamed_step(full: Seq<DocView>, e: DocView, old: Seq<char>, new: Seq<char>, tree: bool) -> Option<DocView> {
    if covers(e.0, old, tree) {
        Some((moved_to(e.0, old, new, tree), e.1, bump(e.2), e.3))
    } else if overwritten(full, e.0, old, new, tree) {
        None
    } else {
        Some(e)
    }
}

/// The documents of `s` (a part of `full`) after the rename, in their order.
pub open spec fn renamed_docs(s: Seq<DocView>, full: Seq<DocView>, old: Seq<char>, new: Seq<char>, tree: bool) -> Seq<DocView>
    decreases s.len(),
{
    if s.len() == 0 {
        Seq::empty()
    } else {
        let r = renamed_docs(s.drop_last(), full, old, new, tree);
        match renamed_step(full, s.last(), old, new, tree) {
            Some(d) => r.push(d),
            None => r,
        }
    }
}

/// The documents of `s` that a deletion of `root` leaves.
pub open spec fn forgotten(s: Seq<DocView>, root: Seq<char>, tree: bool) -> Seq<DocView>
    decreases s.len(),
{
    if s.len() == 0 {
        Seq::empty()
    } else {
        let r = forgotten(s.drop_last(), root, tree);
        if covers(s.last().0, root, tree) { r } else { r.push(s.last()) }
    }
}

/// The documents after a file was created at `path` with `content` by a
/// session: the document takes the content, keeps a version of at least 1 and
/// counts the session among its openers.
pub open spec fn created(s: Seq<DocView>, path: Seq<char>, content: Seq<char>, token: Seq<char>) -> Seq<DocView> {
    let i = doc_index(s, path);
    if i < 0 {
        s.push((path, content, 1, Set::empty().insert(token)))
    } else {
        s.update(i, (path, content, if s[i].2 < 1 { 1 } else { s[i].2 }, s[i].3.insert(token)))
    }
}

/// The tracked document at index `i` of a list without repeated paths is the
/// one found by its path.
pub proof fn lemma_doc_index_unique(s: Seq<DocView>, i: int)
    requires
        distinct_paths(s),
        0 <= i < s.len(),
    ensures
        doc_index(s, s[i].0) == i,
{
    lemma_doc_index(s, s[i].0);
    let d = doc_index(s, s[i].0);
    if d < 0 {
        assert(s[i].0 != s[i].0);
    }
}

/// Two paths that both lie under some path lie one under the other.
proof fn lemma_under_both(k: Seq<char>, a: Seq<char>, b: Seq<char>)
    requires
        is_under(k, a),
        is_under(k, b),
    ensures
        is_under(a, b) || is_under(b, a),
{
    reveal_strlit("/");
    let sa = a + "/"@;
    let sb = b + "/"@;
    if k == a || k == b {
        if k == a && k != b {
            assert(a.subrange(0, sb.len() as int) == sb);
        } else if k == b && k != a {
            assert(b.subrange(0, sa.len() as int) == sa);
        }
    } else {
        assert(k.subrange(0, sa.len() as int) == sa);
        assert(k.subrange(0, sb.len() as int) == sb);
        if a.len() == b.len() {
            assert(a =~= k.subrange(0, a.len() as int));
            assert(b =~= k.subrange(0, b.len() as int));
        } else if a.len() < b.len() {
            assert(b.subrange(0, sa.len() as int) =~= k.subrange(0, sa.len() as int));
        } else {
            assert(a.subrange(0, sb.len() as int) =~= k.subrange(0, sb.len() as int));
        }
    }
}

/// A path moved by a rename lies under the new name, and moves back to itself.
proof fn lemma_moved_round_trip(p: Seq<char>, old: Seq<char>, new: Seq<char>, tree: bool)
    requires
        covers(p, old, tree),
    ensures
        covers(moved_to(p, old, new, tree), new, tree),
        moved_to(moved_to(p, old, new, tree), new, old, tree) == p,
{
    if tree {
        law_remap_round_trip(p, old, new);
        assert(remap_spec(p, old, new) == Some(moved_to(p, old, new, tree)));
    }
}

proof fn lemma_tracked(full: Seq<DocView>, j: int)
    requires
        0 <= j < full.len(),
    ensures
        doc_index(full, full[j].0) >= 0,
{
    lemma_doc_index(full, full[j].0);
}

/// Two different documents are never renamed onto the same path.
proof fn lemma_renamed_paths_differ(full: Seq<DocView>, ja: int, jb: int, old: Seq<char>, new: Seq<char>, tree: bool)
    requires
        distinct_paths(full),
        0 <= ja < full.len(),
        0 <= jb < full.len(),
        ja != jb,
        renamed_step(full, full[ja], old, new, tree) is Some,
        renamed_step(full, full[jb], old, new, tree) is Some,
    ensures
        (renamed_step(full, full[ja], old, new, tree)->0).0 != (renamed_step(full, full[jb], old, new, tree)->0).0,
{
    let a = full[ja];
    let b = full[jb];
    lemma_tracked(full, ja);
    lemma_tracked(full, jb);
    if covers(a.0, old, tree) && covers(b.0, old, tree) {
        lemma_moved_round_trip(a.0, old, new, tree);
        lemma_moved_round_trip(b.0, old, new, tree);
    } else if covers(a.0, old, tree) {
        lemma_moved_round_trip(a.0, old, new, tree);
    } else if covers(b.0, old, tree) {
        lemma_moved_round_trip(b.0, old, new, tree);
    }
}

/// The shape of a rename's result: no repeated path; every document comes from
/// a document of the part renamed; every document that the rename keeps is there.
pub proof fn lemma_renamed(full: Seq<DocView>, m: int, old: Seq<char>, new: Seq<char>, tree: bool)
    requires
        distinct_paths(full),
        0 <= m <= full.len(),
    ensures
        ({
            let r = renamed_docs(full.take(m), full, old, new, tree);
            &&& distinct_paths(r)
            &&& forall|i: int| #![trigger r[i]] 0 <= i < r.len() ==> exists|j: int|
                0 <= j < m && #[trigger] renamed_step(full, full[j], old, new, tree) == Some(r[i])
            &&& forall|j: int| 0 <= j < m && (#[trigger] renamed_step(full, full[j], old, new, tree)) is Some ==>
                exists|i: int| 0 <= i < r.len() && r[i] == renamed_step(full, full[j], old, new, tree)->0
        }),
    decreases m,
{
    if m > 0 {
        lemma_renamed(full, m - 1, old, new, tree);
        let s = full.take(m);
        assert(s.drop_last() =~= full.take(m - 1));
        assert(s.last() == full[m - 1]);
        let r0 = renamed_docs(full.take(m - 1), full, old, new, tree);
        let r = renamed_docs(s, full, old, new, tree);
        match renamed_step(full, full[m - 1], old, new, tree) {
            Some(x) => {
                assert(r == r0.push(x));
                assert forall|a: int, b: int| 0 <= a < r.len() && 0 <= b < r.len() && a != b implies r[a].0 != r[b].0 by {
                    if a < r0.len() && b < r0.len() {
                        assert(r[a] == r0[a] && r[b] == r0[b]);
                    } else if a < r0.len() {
                        assert(r[a] == r0[a]);
                        let ja = choose|j: int| 0 <= j < m - 1 && #[trigger] renamed_step(full, full[j], old, new, tree) == Some(r0[a]);
                        lemma_renamed_paths_differ(full, ja, m - 1, old, new, tree);
                    } else {
                        assert(r[b] == r0[b]);
                        let jb = choose|j: int| 0 <= j < m - 1 && #[trigger] renamed_step(full, full[j], old, new, tree) == Some(r0[b]);
                        lemma_renamed_paths_differ(full, jb, m - 1, old, new, tree);
                    }
                }
                assert forall|i: int| #![trigger r[i]] 0 <= i < r.len() implies exists|j: int|
                    0 <= j < m && #[trigger] renamed_step(full, full[j], old, new, tree) == Some(r[i]) by {
                    if i < r0.len() {
                        assert(r[i] == r0[i]);
                    } else {
                        assert(renamed_step(full, full[m - 1], old, new, tree) == Some(r[i]));
                    }
                }
                assert forall|j: int| 0 <= j < m && (#[trigger] renamed_step(full, full[j], old, new, tree)) is Some implies
                    exists|i: int| 0 <= i < r.len() && r[i] == renamed_step(full, full[j], old, new, tree)->0 by {
                    if j < m - 1 {
                        let i = choose|i: int| 0 <= i < r0.len() && r0[i] == renamed_step(full, full[j], old, new, tree)->0;
                        assert(r[i] == r0[i]);
                    } else {
                        assert(r[r0.len() as int] == x);
                    }
                }
            },
            None => {
                assert(r == r0);
                assert forall|j: int| 0 <= j < m && (#[trigger] renamed_step(full, full[j], old, new, tree)) is Some implies
                    exists|i: int| 0 <= i < r.len() && r[i] == renamed_step(full, full[j], old, new, tree)->0 by {
                    if j < m - 1 {
                    }
                }
            },
        }
    }
}

/// The shape of a deletion's result: the documents that are not covered, in
/// their order.
pub proof fn lemma_forgotten(s: Seq<DocView>, root: Seq<char>, tree: bool)
    requires
        distinct_paths(s),
    ensures
        ({
            let r = forgotten(s, root, tree);
            &&& distinct_paths(r)
            &&& forall|i: int| #![trigger r[i]] 0 <= i < r.len() ==> exists|j: int|
                0 <= j < s.len() && #[trigger] s[j] == r[i] && !covers(s[j].0, root, tree)
            &&& forall|j: int| 0 <= j < s.len() && !covers(#[trigger] s[j].0, root, tree) ==>
                exists|i: int| 0 <= i < r.len() && r[i] == s[j]
        }),
    decreases s.len(),
{
    if s.len() > 0 {
        let d = s.drop_last();
        assert(distinct_paths(d)) by {
            assert forall|a: int, b: int| 0 <= a < d.len() && 0 <= b < d.len() && a != b implies d[a].0 != d[b].0 by {
                assert(d[a] == s[a] && d[b] == s[b]);
            }
        }
        lemma_forgotten(d, root, tree);
        let r0 = forgotten(d, root, tree);
        let r = forgotten(s, root, tree);
        let n = s.len() - 1;
        if covers(s.last().0, root, tree) {
            assert(r == r0);
            assert forall|i: int| #![trigger r[i]] 0 <= i < r.len() implies exists|j: int|
                0 <= j < s.len() && #[trigger] s[j] == r[i] && !covers(s[j].0, root, tree) by {
                let j = choose|j: int| 0 <= j < d.len() && #[trigger] d[j] == r0[i] && !covers(d[j].0, root, tree);
                assert(s[j] == d[j]);
            }
            assert forall|j: int| 0 <= j < s.len() && !covers(#[trigger] s[j].0, root, tree) implies
                exists|i: int| 0 <= i < r.len() && r[i] == s[j] by {
                assert(j < n);
                assert(d[j] == s[j]);
                assert(!covers(d[j].0, root, tree));
            }
        } else {
            assert(r == r0.push(s.last()));
            assert forall|a: int, b: int| 0 <= a < r.len() && 0 <= b < r.len() && a != b implies r[a].0 != r[b].0 by {
                if a < r0.len() && b < r0.len() {
                    assert(r[a] == r0[a] && r[b] == r0[b]);
                } else if a < r0.len() {
                    let ja = choose|j: int| 0 <= j < d.len() && #[trigger] d[j] == r0[a] && !covers(d[j].0, root, tree);
                    assert(r[a] == d[ja] && d[ja] == s[ja]);
                } else {
                    let jb = choose|j: int| 0 <= j < d.len() && #[trigger] d[j] == r0[b] && !covers(d[j].0, root, tree);
                    assert(r[b] == d[jb] && d[jb] == s[jb]);
                }
            }
            assert forall|i: int| #![trigger r[i]] 0 <= i < r.len() implies exists|j: int|
                0 <= j < s.len() && #[trigger] s[j] == r[i] && !covers(s[j].0, root, tree) by {
                if i < r0.len() {
                    let j = choose|j: int| 0 <= j < d.len() && #[trigger] d[j] == r0[i] && !covers(d[j].0, root, tree);
                    assert(s[j] == d[j] && r[i] == r0[i]);
                } else {
                    assert(s[n] == r[i]);
                }
            }
            assert forall|j: int| 0 <= j < s.len() && !covers(#[trigger] s[j].0, root, tree) implies
                exists|i: int| 0 <= i < r.len() && r[i] == s[j] by {
                if j < n {
                    assert(d[j] == s[j]);
                    assert(!covers(d[j].0, root, tree));
                    let i = choose|i: int| 0 <= i < r0.len() && r0[i] == d[j];
                    assert(r[i] == r0[i]);
                } else {
                    assert(r[r0.len() as int] == s[j]);
                }
            }
        }
    }
}

/// A rename carries the tracked documents along: a document under the renamed
/// entry is found at its new path with its content and openers, one version
/// further on; nothing is left under the old name (when neither name lies under
/// the other); a document elsewhere, not under the new name, is found as before.
pub proof fn law_rename_moves_documents(s: Seq<DocView>, old: Seq<char>, new: Seq<char>, tree: bool, k: Seq<char>)
    requires
        distinct_paths(s),
    ensures
        ({
            let r = renamed_docs(s, s, old, new, tree);
            let i = doc_index(s, k);
            let q = moved_to(k, old, new, tree);
            &&& (covers(k, old, tree) && i >= 0) ==> (doc_index(r, q) >= 0 && r[doc_index(r, q)] == (q, s[i].1, bump(s[i].2), s[i].3))
            &&& (covers(k, old, tree) && !is_under(new, old) && !is_under(old, new)) ==> doc_index(r, k) < 0
            &&& (!covers(k, old, tree) && !covers(k, new, tree)) ==> (
                (doc_index(r, k) >= 0 <==> i >= 0) && (i >= 0 ==> r[doc_index(r, k)] == s[i]))
        }),
{
    let r = renamed_docs(s, s, old, new, tree);
    assert(s.take(s.len() as int) =~= s);
    lemma_renamed(s, s.len() as int, old, new, tree);
    lemma_doc_index(s, k);
    let i = doc_index(s, k);
    let q = moved_to(k, old, new, tree);
    if covers(k, old, tree) && i >= 0 {
        assert(renamed_step(s, s[i], old, new, tree) is Some);
        let ir = choose|ir: int| 0 <= ir < r.len() && r[ir] == renamed_step(s, s[i], old, new, tree)->0;
        lemma_doc_index_unique(r, ir);
    }
    if covers(k, old, tree) && !is_under(new, old) && !is_under(old, new) {
        lemma_doc_index(r, k);
        if doc_index(r, k) >= 0 {
            let di = doc_index(r, k);
            let j = choose|j: int| 0 <= j < s.len() && #[trigger] renamed_step(s, s[j], old, new, tree) == Some(r[di]);
            if covers(s[j].0, old, tree) {
                lemma_moved_round_trip(s[j].0, old, new, tree);
                if tree {
                    lemma_under_both(k, old, new);
                } else {
                    reveal_strlit("/");
                    assert(is_under(new, old));
                }
            }
        }
    }
    if !covers(k, old, tree) && !covers(k, new, tree) {
        lemma_doc_index(r, k);
        if i >= 0 {
            assert(renamed_step(s, s[i], old, new, tree) == Some(s[i]));
            let ir = choose|ir: int| 0 <= ir < r.len() && r[ir] == renamed_step(s, s[i], old, new, tree)->0;
            lemma_doc_index_unique(r, ir);
        }
        if doc_index(r, k) >= 0 {
            let di = doc_index(r, k);
            let j = choose|j: int| 0 <= j < s.len() && #[trigger] renamed_step(s, s[j], old, new, tree) == Some(r[di]);
            if covers(s[j].0, old, tree) {
                lemma_moved_round_trip(s[j].0, old, new, tree);
            } else {
                lemma_tracked(s, j);
            }
        }
    }
}

/// A deletion forgets exactly the documents it covers: none is found at a
/// covered path, and every other one is found as before.
pub proof fn law_delete_forgets_documents(s: Seq<DocView>, root: Seq<char>, tree: bool, k: Seq<char>)
    requires
        distinct_paths(s),
    ensures
        ({
            let r = forgotten(s, root, tree);
            let i = doc_index(s, k);
            &&& covers(k, root, tree) ==> doc_index(r, k) < 0
            &&& !covers(k, root, tree) ==> ((doc_index(r, k) >= 0 <==> i >= 0) && (i >= 0 ==> r[doc_index(r, k)] == s[i]))
        }),
{
    let r = forgotten(s, root, tree);
    lemma_forgotten(s, root, tree);
    lemma_doc_index(s, k);
    lemma_doc_index(r, k);
    let i = doc_index(s, k);
    if doc_index(r, k) >= 0 {
        let di = doc_index(r, k);
        let j = choose|j: int| 0 <= j < s.len() && #[trigger] s[j] == r[di] && !covers(s[j].0, root, tree);
        lemma_tracked(s, j);
    }
    if !covers(k, root, tree) && i >= 0 {
        let ir = choose|ir: int| 0 <= ir < r.len() && r[ir] == s[i];
        lemma_doc_index_unique(r, ir);
    }
}

} // verus!
