//! Documents open in the IDE: their last known content and a version that grows
//! with every change, which lets concurrent editors detect stale writes.
use vstd::prelude::*;

use crate::ide::model::{ide_error, IdeError, IdeErrorKind};
use crate::text::str_eq;
use crate::ide::paths::{path_is_under, remap_path};
use crate::ide::relocation::{covers, moved_to, overwritten, renamed_step, renamed_docs, forgotten, created, lemma_renamed, lemma_forgotten};

verus! {

/// A tracked document: its path, content, version and the sessions that have it
/// open.
#[derive(Debug)]
pub struct IdeDocumentEntry {
    pub path: String,
    pub content: String,
    pub version: u64,
    pub opened_by: Vec<String>,
}

/// A document as plain values: path, content, version, sessions that opened it.
pub open spec fn doc_view(d: IdeDocumentEntry) -> (Seq<char>, Seq<char>, u64, Set<Seq<char>>) {
    (d.path@, d.content@, d.version, d.opened_by@.map_values(|t: String| t@).to_set())
}

pub open spec fn docs_view(s: Seq<IdeDocumentEntry>) -> Seq<(Seq<char>, Seq<char>, u64, Set<Seq<char>>)> {
    s.map_values(|d: IdeDocumentEntry| doc_view(d))
}

/// Index of the document at `path`, or -1.
pub open spec fn doc_index(s: Seq<(Seq<char>, Seq<char>, u64, Set<Seq<char>>)>, path: Seq<char>) -> int
    decreases s.len(),
{
    if s.len() == 0 {
        -1
    } else if s.last().0 == path {
        s.len() - 1
    } else {
        doc_index(s.drop_last(), path)
    }
}

pub open spec fn distinct_paths(s: Seq<(Seq<char>, Seq<char>, u64, Set<Seq<char>>)>) -> bool {
    forall|i: int, j: int| 0 <= i < s.len() && 0 <= j < s.len() && i != j ==> s[i].0 != s[j].0
}

/// The next version (saturating).
pub open spec fn bump(v: u64) -> u64 {
    if v == u64::MAX { v } else { (v + 1) as u64 }
}

/// The document at `path` after the content `seen` was observed: tracked from
/// version 1 when new; a changed content replaces the old one and bumps the
/// version.
pub open spec fn observed(
    s: Seq<(Seq<char>, Seq<char>, u64, Set<Seq<char>>)>,
    path: Seq<char>,
    seen: Seq<char>,
) -> Seq<(Seq<char>, Seq<char>, u64, Set<Seq<char>>)> {
    let i = doc_index(s, path);
    if i < 0 {
        s.push((path, seen, 1, Set::empty()))
    } else if s[i].1 != seen {
        s.update(i, (path, seen, bump(s[i].2), s[i].3))
    } else {
        s
    }
}

pub(crate) proof fn lemma_doc_index(s: Seq<(Seq<char>, Seq<char>, u64, Set<Seq<char>>)>, path: Seq<char>)
    ensures
        -1 <= doc_index(s, path) < s.len(),
        doc_index(s, path) >= 0 ==> s[doc_index(s, path)].0 == path,
        doc_index(s, path) < 0 ==> forall|k: int| 0 <= k < s.len() ==> (#[trigger] s[k]).0 != path,
    decreases s.len(),
{
    if s.len() > 0 && s.last().0 != path {
        lemma_doc_index(s.drop_last(), path);
        if doc_index(s, path) >= 0 {
            assert(s.drop_last()[doc_index(s, path)] == s[doc_index(s, path)]);
        } else {
            assert forall|k: int| 0 <= k < s.len() implies (#[trigger] s[k]).0 != path by {
                if k < s.len() - 1 {
                    assert(s.drop_last()[k] == s[k]);
                }
            }
        }
    }
}

pub(crate) proof fn lemma_observed_index(s: Seq<(Seq<char>, Seq<char>, u64, Set<Seq<char>>)>, path: Seq<char>, seen: Seq<char>)
    requires
        distinct_paths(s),
    ensures
        distinct_paths(observed(s, path, seen)),
        doc_index(observed(s, path, seen), path) >= 0,
        observed(s, path, seen)[doc_index(observed(s, path, seen), path)].1 == seen,
        doc_index(s, path) >= 0 ==> doc_index(observed(s, path, seen), path) == doc_index(s, path),
{
    lemma_doc_index(s, path);
    let o = observed(s, path, seen);
    lemma_doc_index(o, path);
    assert forall|a: int, b: int| 0 <= a < o.len() && 0 <= b < o.len() && a != b implies o[a].0 != o[b].0 by {
        if a < s.len() && b < s.len() {
            assert(o[a].0 == s[a].0 && o[b].0 == s[b].0);
        } else if a < s.len() {
            assert(o[a].0 == s[a].0);
        } else {
            assert(o[b].0 == s[b].0);
        }
    }
    if doc_index(s, path) < 0 {
        assert(o[s.len() as int].0 == path);
    } else {
        let i = doc_index(s, path);
        assert(o[i].0 == path);
    }
}

fn covers_exec(path: &str, root: &str, tree: bool) -> (r: bool)
    ensures
        r == covers(path@, root@, tree),
{
    if tree { path_is_under(path, root) } else { str_eq(path, root) }
}

fn moved_to_exec(path: &str, old: &str, new: &str, tree: bool) -> (r: String)
    requires
        covers(path@, old@, tree),
    ensures
        r@ == moved_to(path@, old@, new@, tree),
{
    if tree {
        match remap_path(path, old, new) {
            Some(p) => p,
            None => new.to_owned(),
        }
    } else {
        new.to_owned()
    }
}

/// The open handles over all documents: for each document, the sessions that
/// have it open.
pub open spec fn open_handle_count(s: Seq<(Seq<char>, Seq<char>, u64, Set<Seq<char>>)>) -> nat
    decreases s.len(),
{
    if s.len() == 0 {
        0
    } else {
        open_handle_count(s.drop_last()) + s.last().3.len()
    }
}

proof fn lemma_handle_prefix(s: Seq<(Seq<char>, Seq<char>, u64, Set<Seq<char>>)>, k: int)
    requires
        0 <= k <= s.len(),
    ensures
        open_handle_count(s.take(k)) <= open_handle_count(s),
    decreases s.len(),
{
    if k == s.len() {
        assert(s.take(k) =~= s);
    } else {
        assert(s.take(k) =~= s.drop_last().take(k));
        lemma_handle_prefix(s.drop_last(), k);
    }
}

/// The sessions listed as openers of `e` are all different.
pub open spec fn openers_distinct(e: IdeDocumentEntry) -> bool {
    e.opened_by@.map_values(|t: String| t@).no_duplicates()
}

/// The documents of the IDE.
pub struct IdeDocuments {
    entries: Vec<IdeDocumentEntry>,
}

impl IdeDocuments {
    pub closed spec fn view_seq(&self) -> Seq<(Seq<char>, Seq<char>, u64, Set<Seq<char>>)> {
        docs_view(self.entries@)
    }

    /// No session is listed twice among a document's openers.
    pub closed spec fn openers_unique(&self) -> bool {
        forall|k: int| 0 <= k < self.entries@.len() ==> openers_distinct(#[trigger] self.entries@[k])
    }

    /// No path is tracked twice, and no document lists an opener twice.
    pub open spec fn wf(&self) -> bool {
        distinct_paths(self.view_seq()) && self.openers_unique()
    }

    pub fn new() -> (r: Self)
        ensures
            r.wf(),
            r.view_seq().len() == 0,
    {
        IdeDocuments { entries: Vec::new() }
    }

    /// The number of tracked documents.
    pub fn len(&self) -> (r: usize)
        ensures
            r == self.view_seq().len(),
    {
        self.entries.len()
    }

    /// The number of open handles over all tracked documents.
    pub fn open_handles(&self) -> (r: usize)
        requires
            self.wf(),
            open_handle_count(self.view_seq()) <= usize::MAX,
        ensures
            r == open_handle_count(self.view_seq()),
    {
        let ghost s = self.view_seq();
        let mut total: usize = 0;
        let mut i: usize = 0;
        while i < self.entries.len()
            invariant
                i <= self.entries@.len(),
                s == self.view_seq(),
                s.len() == self.entries@.len(),
                self.wf(),
                open_handle_count(s) <= usize::MAX,
                total == open_handle_count(s.take(i as int)),
            decreases self.entries@.len() - i,
        {
            proof {
                assert(s.take(i + 1).drop_last() =~= s.take(i as int));
                assert(s.take(i + 1).last() == s[i as int]);
                assert(openers_distinct(self.entries@[i as int]));
                let q = self.entries@[i as int].opened_by@.map_values(|t: String| t@);
                q.unique_seq_to_set();
                assert(s[i as int].3 == q.to_set());
                lemma_handle_prefix(s, i + 1);
            }
            total = total + self.entries[i].opened_by.len();
            i = i + 1;
        }
        assert(s.take(i as int) =~= s);
        total
    }

    fn position(&self, path: &str) -> (r: Option<usize>)
        ensures
            match r {
                Some(j) => j == doc_index(self.view_seq(), path@) && j < self.entries@.len(),
                None => doc_index(self.view_seq(), path@) < 0,
            },
    {
        let ghost s = self.view_seq();
        let mut i: usize = self.entries.len();
        assert(s.take(i as int) =~= s);
        while i > 0
            invariant
                i <= self.entries@.len(),
                s == self.view_seq(),
                doc_index(s, path@) == doc_index(s.take(i as int), path@),
            decreases i,
        {
            assert(s.take(i as int).drop_last() =~= s.take(i - 1));
            assert(s.take(i as int).last() == s[i - 1]);
            assert(s[i - 1].0 == self.entries@[i - 1].path@);
            if str_eq(self.entries[i - 1].path.as_str(), path) {
                return Some(i - 1);
            }
            i = i - 1;
        }
        None
    }

    /// The version of the document at `path`, if it is tracked.
    pub fn version(&self, path: &str) -> (r: Option<u64>)
        ensures
            doc_index(self.view_seq(), path@) < 0 ==> r is None,
            doc_index(self.view_seq(), path@) >= 0 ==> r == Some(self.view_seq()[doc_index(self.view_seq(), path@)].2),
    {
        match self.position(path) {
            None => None,
            Some(j) => Some(self.entries[j].version),
        }
    }

    /// Records that the document at `path` now reads `seen`; returns its version.
    fn observe(&mut self, path: &str, seen: &str) -> (r: usize)
        requires
            old(self).wf(),
        ensures
            final(self).wf(),
            final(self).view_seq() == observed(old(self).view_seq(), path@, seen@),
            r == doc_index(final(self).view_seq(), path@),
            r < final(self).entries@.len(),
    {
        let ghost s = self.view_seq();
        proof {
            lemma_observed_index(s, path@, seen@);
            lemma_doc_index(s, path@);
        }
        match self.position(path) {
            None => {
                self.entries.push(IdeDocumentEntry {
                    path: path.to_owned(),
                    content: seen.to_owned(),
                    version: 1,
                    opened_by: Vec::new(),
                });
                proof {
                    assert(Seq::<String>::empty().map_values(|t: String| t@).to_set() =~= Set::<Seq<char>>::empty());
                    assert(self.view_seq() =~= observed(s, path@, seen@));
                }
                self.entries.len() - 1
            },
            Some(j) => {
                if !str_eq(self.entries[j].content.as_str(), seen) {
                    let e = &mut self.entries[j];
                    e.content = seen.to_owned();
                    e.version = e.version.saturating_add(1);
                    proof {
                        assert(self.view_seq() =~= observed(s, path@, seen@));
                    }
                } else {
                    assert(self.view_seq() =~= observed(s, path@, seen@));
                }
                j
            },
        }
    }

    fn add_opener(&mut self, j: usize, token: &str)
        requires
            j < old(self).entries@.len(),
            old(self).openers_unique(),
        ensures
            final(self).openers_unique(),
            final(self).entries@.len() == old(self).entries@.len(),
            final(self).view_seq() == old(self).view_seq().update(
                j as int,
                (old(self).view_seq()[j as int].0, old(self).view_seq()[j as int].1, old(self).view_seq()[j as int].2,
                    old(self).view_seq()[j as int].3.insert(token@)),
            ),
    {
        let ghost s = self.view_seq();
        let ghost ov = self.entries@[j as int].opened_by@.map_values(|t: String| t@);
        let mut present = false;
        let mut k: usize = 0;
        while k < self.entries[j].opened_by.len()
            invariant
                j < self.entries@.len(),
                self.entries@ == old(self).entries@,
                ov == self.entries@[j as int].opened_by@.map_values(|t: String| t@),
                k <= ov.len(),
                present ==> ov.contains(token@),
                !present ==> forall|x: int| 0 <= x < k ==> ov[x] != token@,
            decreases ov.len() - k,
        {
            if str_eq(self.entries[j].opened_by[k].as_str(), token) {
                present = true;
                assert(ov[k as int] == token@);
            }
            k = k + 1;
        }
        if present {
            assert(ov.to_set().insert(token@) =~= ov.to_set());
            assert(self.view_seq() =~= s.update(j as int, (s[j as int].0, s[j as int].1, s[j as int].2, s[j as int].3.insert(token@))));
        } else {
            let e = &mut self.entries[j];
            e.opened_by.push(token.to_owned());
            proof {
                let nv = ov.push(token@);
                assert(self.entries@[j as int].opened_by@.map_values(|t: String| t@) =~= nv);
                assert(openers_distinct(old(self).entries@[j as int]));
                assert(nv.no_duplicates());
                assert forall|x: int| 0 <= x < self.entries@.len() implies openers_distinct(#[trigger] self.entries@[x]) by {
                    if x != j {
                        assert(self.entries@[x] == old(self).entries@[x]);
                    }
                }
                assert(nv.to_set() =~= ov.to_set().insert(token@)) by {
                    broadcast use vstd::seq_lib::group_seq_properties;
                }
                assert(self.view_seq() =~= s.update(j as int, (s[j as int].0, s[j as int].1, s[j as int].2, s[j as int].3.insert(token@))));
            }
        }
    }

    /// A session has opened the document at `path`, which reads `content`.
    pub fn upsert_tracked_document(&mut self, session_token: &str, path: &str, content: &str)
        requires
            old(self).wf(),
        ensures
            final(self).wf(),
            ({
                let o = observed(old(self).view_seq(), path@, content@);
                let i = doc_index(o, path@);
                final(self).view_seq() == o.update(i, (o[i].0, o[i].1, o[i].2, o[i].3.insert(session_token@)))
            }),
    {
        let j = self.observe(path, content);
        let ghost o = self.view_seq();
        self.add_opener(j, session_token);
        proof {
            assert forall|a: int, b: int| 0 <= a < self.view_seq().len() && 0 <= b < self.view_seq().len() && a != b
                implies self.view_seq()[a].0 != self.view_seq()[b].0 by {
                assert(self.view_seq()[a].0 == o[a].0 && self.view_seq()[b].0 == o[b].0);
            }
        }
    }

    /// Before writing the document at `path` whose file reads `disk`: the
    /// document is brought up to the file, and the write is refused as a conflict
    /// unless the writer saw the current version.
    pub fn check_write(&mut self, path: &str, disk: &str, expected_version: u64) -> (r: Result<(), IdeError>)
        requires
            old(self).wf(),
        ensures
            final(self).wf(),
            ({
                let o = observed(old(self).view_seq(), path@, disk@);
                let v = o[doc_index(o, path@)].2;
                &&& final(self).view_seq() == o
                &&& (v == expected_version ==> r is Ok)
                &&& (v != expected_version ==> r is Err && r->Err_0.kind_spec() == IdeErrorKind::Conflict
                    && r->Err_0.version_spec() == Some(v))
            }),
    {
        let j = self.observe(path, disk);
        let v = self.entries[j].version;
        if v != expected_version {
            return Err(IdeError::conflict(v));
        }
        Ok(())
    }

    /// After the file at `path` was written with `content` by a session: the
    /// document takes the content, its version is bumped and returned.
    pub fn commit_write(&mut self, session_token: &str, path: &str, content: &str) -> (r: u64)
        requires
            old(self).wf(),
            doc_index(old(self).view_seq(), path@) >= 0,
        ensures
            final(self).wf(),
            ({
                let s = old(self).view_seq();
                let i = doc_index(s, path@);
                &&& r == bump(s[i].2)
                &&& final(self).view_seq() == s.update(i, (s[i].0, content@, bump(s[i].2), s[i].3.insert(session_token@)))
            }),
    {
        let ghost s = self.view_seq();
        proof {
            lemma_doc_index(s, path@);
        }
        let j = match self.position(path) {
            Some(j) => j,
            None => 0,
        };
        {
            let e = &mut self.entries[j];
            e.content = content.to_owned();
            e.version = e.version.saturating_add(1);
        }
        let ghost mid = self.view_seq();
        assert(mid =~= s.update(j as int, (s[j as int].0, content@, bump(s[j as int].2), s[j as int].3)));
        self.add_opener(j, session_token);
        proof {
            assert(self.view_seq() =~= s.update(j as int, (s[j as int].0, content@, bump(s[j as int].2), s[j as int].3.insert(session_token@))));
            assert forall|a: int, b: int| 0 <= a < self.view_seq().len() && 0 <= b < self.view_seq().len() && a != b
                implies self.view_seq()[a].0 != self.view_seq()[b].0 by {
                assert(self.view_seq()[a].0 == s[a].0 && self.view_seq()[b].0 == s[b].0);
            }
        }
        let v = self.entries[j].version;
        assert(self.view_seq()[j as int].2 == v);
        v
    }

    /// The documents after the entry `from` (a directory when `tree`) was
    /// renamed to `to`: see `renamed_docs`.
    pub fn rename(&mut self, from: &str, to: &str, tree: bool)
        requires
            old(self).wf(),
        ensures
            final(self).wf(),
            final(self).view_seq() == renamed_docs(old(self).view_seq(), old(self).view_seq(), from@, to@, tree),
    {
        let ghost s = self.view_seq();
        let mut drop: Vec<bool> = Vec::new();
        let mut i: usize = 0;
        while i < self.entries.len()
            invariant
                s == self.view_seq(),
                s.len() == self.entries@.len(),
                i <= self.entries@.len(),
                drop@.len() == i,
                forall|j: int| 0 <= j < i ==> drop@[j] == (!covers(#[trigger] s[j].0, from@, tree)
                    && overwritten(s, s[j].0, from@, to@, tree)),
            decreases self.entries@.len() - i,
        {
            let p = self.entries[i].path.as_str();
            assert(s[i as int].0 == p@);
            let d = if covers_exec(p, from, tree) {
                false
            } else if covers_exec(p, to, tree) {
                let src = moved_to_exec(p, to, from, tree);
                self.position(src.as_str()).is_some()
            } else {
                false
            };
            drop.push(d);
            i = i + 1;
        }
        let mut taken: Vec<IdeDocumentEntry> = Vec::new();
        std::mem::swap(&mut taken, &mut self.entries);
        assert(docs_view(taken@) == s);
        assert(taken@ == old(self).entries@);
        assert(forall|x: int| 0 <= x < taken@.len() ==> openers_distinct(#[trigger] taken@[x]));
        let mut out: Vec<IdeDocumentEntry> = Vec::new();
        let mut k: usize = 0;
        let n = taken.len();
        assert(s.skip(0) =~= s);
        assert(s.take(0) =~= Seq::<(Seq<char>, Seq<char>, u64, Set<Seq<char>>)>::empty());
        while k < n
            invariant
                n == s.len(),
                k <= n,
                drop@.len() == n,
                forall|j: int| 0 <= j < n ==> drop@[j] == (!covers(#[trigger] s[j].0, from@, tree)
                    && overwritten(s, s[j].0, from@, to@, tree)),
                docs_view(taken@) == s.skip(k as int),
                forall|x: int| 0 <= x < taken@.len() ==> openers_distinct(#[trigger] taken@[x]),
                forall|x: int| 0 <= x < out@.len() ==> openers_distinct(#[trigger] out@[x]),
                docs_view(out@) == renamed_docs(s.take(k as int), s, from@, to@, tree),
            decreases n - k,
        {
            assert(taken@.len() > 0) by {
                assert(docs_view(taken@).len() == n - k);
            }
            let ghost before = taken@;
            let e = taken.remove(0);
            proof {
                assert(taken@ =~= before.subrange(1, before.len() as int));
                assert(docs_view(taken@) =~= s.skip(k + 1)) by {
                    assert(docs_view(before) == s.skip(k as int));
                    assert(docs_view(before).len() == before.len());
                    assert(docs_view(taken@).len() == taken@.len());
                    assert(docs_view(taken@).len() == s.skip(k + 1).len());
                    assert forall|x: int| 0 <= x < taken@.len() implies #[trigger] docs_view(taken@)[x] == s.skip(k + 1)[x] by {
                        assert(taken@[x] == before[x + 1]);
                        assert(docs_view(before)[x + 1] == s.skip(k as int)[x + 1]);
                        assert(docs_view(before)[x + 1] == doc_view(before[x + 1]));
                        assert(docs_view(taken@)[x] == doc_view(taken@[x]));
                    }
                }
                assert(openers_distinct(e)) by {
                    assert(e == before[0]);
                }
                assert(doc_view(e) == s[k as int]) by {
                    assert(docs_view(before)[0] == s.skip(k as int)[0]);
                }
                assert(s.take(k + 1).drop_last() =~= s.take(k as int));
                assert(s.take(k + 1).last() == s[k as int]);
            }
            let ghost ov = docs_view(out@);
            if covers_exec(e.path.as_str(), from, tree) {
                let np = moved_to_exec(e.path.as_str(), from, to, tree);
                out.push(IdeDocumentEntry {
                    path: np,
                    content: e.content,
                    version: e.version.saturating_add(1),
                    opened_by: e.opened_by,
                });
                proof {
                    assert(docs_view(out@) =~= ov.push(renamed_step(s, s[k as int], from@, to@, tree)->0));
                }
            } else if drop[k] {
                proof {
                    assert(renamed_step(s, s[k as int], from@, to@, tree) is None);
                }
            } else {
                out.push(e);
                proof {
                    assert(renamed_step(s, s[k as int], from@, to@, tree) == Some(s[k as int]));
                    assert(docs_view(out@) =~= ov.push(s[k as int]));
                }
            }
            k = k + 1;
        }
        proof {
            assert(s.take(n as int) =~= s);
            lemma_renamed(s, n as int, from@, to@, tree);
        }
        self.entries = out;
    }

    /// The documents after the entry `root` (a directory when `tree`) was
    /// deleted: see `forgotten`.
    pub fn forget(&mut self, root: &str, tree: bool)
        requires
            old(self).wf(),
        ensures
            final(self).wf(),
            final(self).view_seq() == forgotten(old(self).view_seq(), root@, tree),
    {
        let ghost s = self.view_seq();
        let mut taken: Vec<IdeDocumentEntry> = Vec::new();
        std::mem::swap(&mut taken, &mut self.entries);
        assert(docs_view(taken@) == s);
        assert(taken@ == old(self).entries@);
        assert(forall|x: int| 0 <= x < taken@.len() ==> openers_distinct(#[trigger] taken@[x]));
        let mut out: Vec<IdeDocumentEntry> = Vec::new();
        let mut k: usize = 0;
        let n = taken.len();
        assert(s.skip(0) =~= s);
        assert(s.take(0) =~= Seq::<(Seq<char>, Seq<char>, u64, Set<Seq<char>>)>::empty());
        while k < n
            invariant
                n == s.len(),
                k <= n,
                docs_view(taken@) == s.skip(k as int),
                forall|x: int| 0 <= x < taken@.len() ==> openers_distinct(#[trigger] taken@[x]),
                forall|x: int| 0 <= x < out@.len() ==> openers_distinct(#[trigger] out@[x]),
                docs_view(out@) == forgotten(s.take(k as int), root@, tree),
            decreases n - k,
        {
            assert(taken@.len() > 0) by {
                assert(docs_view(taken@).len() == n - k);
            }
            let ghost before = taken@;
            let e = taken.remove(0);
            proof {
                assert(taken@ =~= before.subrange(1, before.len() as int));
                assert(docs_view(taken@) =~= s.skip(k + 1)) by {
                    assert(docs_view(before) == s.skip(k as int));
                    assert(docs_view(before).len() == before.len());
                    assert(docs_view(taken@).len() == taken@.len());
                    assert(docs_view(taken@).len() == s.skip(k + 1).len());
                    assert forall|x: int| 0 <= x < taken@.len() implies #[trigger] docs_view(taken@)[x] == s.skip(k + 1)[x] by {
                        assert(taken@[x] == before[x + 1]);
                        assert(docs_view(before)[x + 1] == s.skip(k as int)[x + 1]);
                        assert(docs_view(before)[x + 1] == doc_view(before[x + 1]));
                        assert(docs_view(taken@)[x] == doc_view(taken@[x]));
                    }
                }
                assert(openers_distinct(e)) by {
                    assert(e == before[0]);
                }
                assert(doc_view(e) == s[k as int]) by {
                    assert(docs_view(before)[0] == s.skip(k as int)[0]);
                }
                assert(s.take(k + 1).drop_last() =~= s.take(k as int));
                assert(s.take(k + 1).last() == s[k as int]);
            }
            let ghost ov = docs_view(out@);
            if !covers_exec(e.path.as_str(), root, tree) {
                out.push(e);
                proof {
                    assert(docs_view(out@) =~= ov.push(s[k as int]));
                }
            }
            k = k + 1;
        }
        proof {
            assert(s.take(n as int) =~= s);
            lemma_forgotten(s, root@, tree);
        }
        self.entries = out;
    }

    /// A session created the file at `path` with `content`: see `created`.
    /// Returns the document's version.
    pub fn track_created(&mut self, session_token: &str, path: &str, content: &str) -> (r: u64)
        requires
            old(self).wf(),
        ensures
            final(self).wf(),
            final(self).view_seq() == created(old(self).view_seq(), path@, content@, session_token@),
            r == final(self).view_seq()[doc_index(final(self).view_seq(), path@)].2,
            doc_index(final(self).view_seq(), path@) >= 0,
    {
        let ghost s = self.view_seq();
        proof {
            lemma_doc_index(s, path@);
        }
        match self.position(path) {
            None => {
                let mut openers: Vec<String> = Vec::new();
                openers.push(session_token.to_owned());
                self.entries.push(IdeDocumentEntry {
                    path: path.to_owned(),
                    content: content.to_owned(),
                    version: 1,
                    opened_by: openers,
                });
                proof {
                    assert(openers@.map_values(|t: String| t@) =~= seq![session_token@]);
                    assert(seq![session_token@].to_set() =~= Set::<Seq<char>>::empty().insert(session_token@)) by {
                        broadcast use vstd::seq_lib::group_seq_properties;
                    }
                    assert(self.view_seq() =~= created(s, path@, content@, session_token@));
                    let t = self.view_seq();
                    assert forall|a: int, b: int| 0 <= a < t.len() && 0 <= b < t.len() && a != b implies t[a].0 != t[b].0 by {
                        if a < s.len() && b < s.len() {
                            assert(t[a] == s[a] && t[b] == s[b]);
                        } else if a < s.len() {
                            assert(t[a] == s[a]);
                        } else {
                            assert(t[b] == s[b]);
                        }
                    }
                    crate::ide::relocation::lemma_doc_index_unique(t, s.len() as int);
                }
                1
            },
            Some(j) => {
                {
                    let e = &mut self.entries[j];
                    e.content = content.to_owned();
                    if e.version < 1 {
                        e.version = 1;
                    }
                }
                let ghost mid = self.view_seq();
                assert(mid =~= s.update(j as int, (s[j as int].0, content@, if s[j as int].2 < 1 { 1 } else { s[j as int].2 }, s[j as int].3)));
                self.add_opener(j, session_token);
                proof {
                    assert(self.view_seq() =~= created(s, path@, content@, session_token@));
                    let t = self.view_seq();
                    assert forall|a: int, b: int| 0 <= a < t.len() && 0 <= b < t.len() && a != b implies t[a].0 != t[b].0 by {
                        assert(t[a].0 == s[a].0 && t[b].0 == s[b].0);
                    }
                    crate::ide::relocation::lemma_doc_index_unique(t, j as int);
                }
                self.entries[j].version
            },
        }
    }

    /// Stops tracking every document (another project was opened).
    pub fn clear(&mut self)
        ensures
            final(self).wf(),
            final(self).view_seq().len() == 0,
    {
        self.entries = Vec::new();
    }
}

/// Optimistic concurrency: once one editor's write based on version `v` went in,
/// another write based on the same version `v` is refused (the document is at a
/// newer version), unless the version counter is exhausted.
pub proof fn law_stale_write_conflicts(
    s: Seq<(Seq<char>, Seq<char>, u64, Set<Seq<char>>)>,
    path: Seq<char>,
    written: Seq<char>,
    writer: Seq<char>,
)
    requires
        distinct_paths(s),
        doc_index(s, path) >= 0,
        s[doc_index(s, path)].2 < u64::MAX,
    ensures
        ({
            let i = doc_index(s, path);
            let after = s.update(i, (s[i].0, written, bump(s[i].2), s[i].3.insert(writer)));
            let o = observed(after, path, written);
            o[doc_index(o, path)].2 != s[i].2
        }),
{
    let i = doc_index(s, path);
    lemma_doc_index(s, path);
    let after = s.update(i, (s[i].0, written, bump(s[i].2), s[i].3.insert(writer)));
    assert(distinct_paths(after)) by {
        assert forall|a: int, b: int| 0 <= a < after.len() && 0 <= b < after.len() && a != b implies after[a].0 != after[b].0 by {
            assert(after[a].0 == s[a].0 && after[b].0 == s[b].0);
        }
    }
    lemma_doc_index(after, path);
    assert(after[i].0 == path);
    assert(doc_index(after, path) == i) by {
        if doc_index(after, path) != i {
            assert(after[doc_index(after, path)].0 == path);
        }
    }
    lemma_observed_index(after, path, written);
}

} // verus!
