//! When a session's analysis cache is brought up to date with the workspace's
//! sources, and what becomes of each source: read again when its size or
//! modification time changed, kept otherwise, forgotten when it cannot be
//! looked at or is gone.
use vstd::prelude::*;

use crate::ide::model::{ide_error, IdeError, IdeErrorKind};
use crate::text::str_eq;

verus! {

/// How often (in seconds) the cache looks at the workspace again.
pub const ANALYSIS_CACHE_REFRESH_INTERVAL_SECS: u64 = 2;

/// What identifies a version of a source on disk: its size and modification
/// time in milliseconds.
#[derive(Debug, Clone, Copy, PartialEq, Eq, Structural)]
pub struct Fingerprint {
    pub size_bytes: u64,
    pub modified_ms: u128,
}

/// The cache looks at the workspace again when it was never filled, its
/// refresh time has come, or it holds no text for the file being analysed.
pub open spec fn refresh_due_spec(initialized: bool, now: u64, next_refresh_at: u64, has_active: bool) -> bool {
    !initialized || now >= next_refresh_at || !has_active
}

pub fn refresh_due(initialized: bool, now: u64, next_refresh_at: u64, has_active: bool) -> (r: bool)
    ensures
        r == refresh_due_spec(initialized, now, next_refresh_at, has_active),
{
    !initialized || now >= next_refresh_at || !has_active
}

/// When the cache looks again after a refresh at `now` (saturating).
pub fn next_refresh_at(now: u64) -> (r: u64)
    ensures
        r == (if now + ANALYSIS_CACHE_REFRESH_INTERVAL_SECS > u64::MAX { u64::MAX as int } else {
            now + ANALYSIS_CACHE_REFRESH_INTERVAL_SECS
        }),
{
    now.saturating_add(ANALYSIS_CACHE_REFRESH_INTERVAL_SECS)
}

/// The fingerprint the cache holds for `path`, if it holds the file.
pub open spec fn cached_fp(cached: Seq<(Seq<char>, Fingerprint)>, path: Seq<char>) -> Option<Fingerprint>
    decreases cached.len(),
{
    if cached.len() == 0 {
        None
    } else if cached[0].0 == path {
        Some(cached[0].1)
    } else {
        cached_fp(cached.drop_first(), path)
    }
}

/// What happens to one source found in the workspace.
#[derive(Debug, Clone, Copy, PartialEq, Eq, Structural)]
pub enum FileRefresh {
    /// Read it again: it is new or its fingerprint changed.
    Reload(Fingerprint),
    /// Keep the cached text.
    Keep,
    /// Its fingerprint could not be read: forget it.
    Forget,
}

/// The action for a source at `path` whose fingerprint reads `fp` (`None` when
/// it could not be read).
pub open spec fn refresh_action(cached: Seq<(Seq<char>, Fingerprint)>, path: Seq<char>, fp: Option<Fingerprint>) -> FileRefresh {
    match fp {
        None => FileRefresh::Forget,
        Some(f) => if cached_fp(cached, path) == Some(f) { FileRefresh::Keep } else { FileRefresh::Reload(f) },
    }
}

/// The cached paths that the workspace no longer has, in cache order.
pub open spec fn stale_paths(cached: Seq<(Seq<char>, Fingerprint)>, current: Seq<(Seq<char>, Option<Fingerprint>)>) -> Seq<Seq<char>>
    decreases cached.len(),
{
    if cached.len() == 0 {
        Seq::empty()
    } else {
        let r = stale_paths(cached.drop_last(), current);
        let p = cached.last().0;
        if exists|i: int| 0 <= i < current.len() && #[trigger] current[i].0 == p { r } else { r.push(p) }
    }
}

/// The file being analysed could not be looked at.
pub open spec fn active_unreadable(current: Seq<(Seq<char>, Option<Fingerprint>)>, active: Seq<char>) -> bool {
    exists|i: int| 0 <= i < current.len() && #[trigger] current[i].0 == active && current[i].1 is None
}

pub open spec fn cached_view(c: Seq<(String, Fingerprint)>) -> Seq<(Seq<char>, Fingerprint)> {
    c.map_values(|e: (String, Fingerprint)| (e.0@, e.1))
}

pub open spec fn current_view(c: Seq<(String, Option<Fingerprint>)>) -> Seq<(Seq<char>, Option<Fingerprint>)> {
    c.map_values(|e: (String, Option<Fingerprint>)| (e.0@, e.1))
}

fn cached_fp_exec(cached: &[(String, Fingerprint)], path: &str) -> (r: Option<Fingerprint>)
    ensures
        r == cached_fp(cached_view(cached@), path@),
{
    let ghost cv = cached_view(cached@);
    let mut i: usize = 0;
    assert(cv.skip(0) =~= cv);
    while i < cached.len()
        invariant
            i <= cached.len(),
            cv == cached_view(cached@),
            cached_fp(cv, path@) == cached_fp(cv.skip(i as int), path@),
        decreases cached.len() - i,
    {
        assert(cv.skip(i as int)[0] == cv[i as int]);
        assert(cv.skip(i as int).drop_first() =~= cv.skip(i + 1));
        if str_eq(cached[i].0.as_str(), path) {
            return Some(cached[i].1);
        }
        i = i + 1;
    }
    None
}

fn present_in(current: &[(String, Option<Fingerprint>)], path: &str) -> (r: bool)
    ensures
        r == exists|i: int| 0 <= i < current@.len() && #[trigger] current_view(current@)[i].0 == path@,
{
    let ghost cv = current_view(current@);
    let mut i: usize = 0;
    while i < current.len()
        invariant
            i <= current.len(),
            cv == current_view(current@),
            forall|j: int| 0 <= j < i ==> cv[j].0 != path@,
        decreases current.len() - i,
    {
        assert(cv[i as int].0 == current@[i as int].0@);
        if str_eq(current[i].0.as_str(), path) {
            return true;
        }
        i = i + 1;
    }
    false
}

/// The refresh of a session's analysis cache holding `cached` (path and
/// fingerprint of each cached source), given the workspace's sources `current`
/// in path order with their fingerprints: one action per source, and the cached
/// paths to forget because the workspace no longer has them. The file being
/// analysed (`active`) must be readable: if its fingerprint cannot be read, the
/// refresh fails with "source file not found".
pub fn analysis_refresh(
    cached: &[(String, Fingerprint)],
    current: &[(String, Option<Fingerprint>)],
    active: &str,
) -> (r: Result<(Vec<FileRefresh>, Vec<String>), IdeError>)
    ensures
        match r {
            Ok((acts, stale)) => {
                &&& !active_unreadable(current_view(current@), active@)
                &&& acts@.len() == current@.len()
                &&& forall|i: int| 0 <= i < acts@.len() ==> #[trigger] acts@[i] == refresh_action(
                    cached_view(cached@),
                    current_view(current@)[i].0,
                    current_view(current@)[i].1,
                )
                &&& stale@.map_values(|s: String| s@) == stale_paths(cached_view(cached@), current_view(current@))
            },
            Err(e) => {
                &&& active_unreadable(current_view(current@), active@)
                &&& e.kind_spec() == IdeErrorKind::NotFound
                &&& e.message_spec() == "source file not found"@
            },
        },
{
    let ghost cv = cached_view(cached@);
    let ghost uv = current_view(current@);
    let mut acts: Vec<FileRefresh> = Vec::new();
    let mut i: usize = 0;
    while i < current.len()
        invariant
            i <= current.len(),
            cv == cached_view(cached@),
            uv == current_view(current@),
            acts@.len() == i,
            forall|k: int| 0 <= k < i ==> #[trigger] acts@[k] == refresh_action(cv, uv[k].0, uv[k].1),
            forall|k: int| 0 <= k < i ==> !(uv[k].0 == active@ && uv[k].1 is None),
        decreases current.len() - i,
    {
        let (path, fp) = (&current[i].0, current[i].1);
        assert(uv[i as int] == (path@, fp));
        match fp {
            None => {
                if str_eq(path.as_str(), active) {
                    assert(uv[i as int].0 == active@ && uv[i as int].1 is None);
                    assert(active_unreadable(uv, active@));
                    return Err(ide_error(IdeErrorKind::NotFound, "source file not found"));
                }
                acts.push(FileRefresh::Forget);
            },
            Some(f) => {
                let held = cached_fp_exec(cached, path.as_str());
                let same = match held {
                    Some(h) => h == f,
                    None => false,
                };
                if same {
                    acts.push(FileRefresh::Keep);
                } else {
                    acts.push(FileRefresh::Reload(f));
                }
            },
        }
        i = i + 1;
    }
    let mut stale: Vec<String> = Vec::new();
    let mut j: usize = 0;
    assert(cv.take(0) =~= Seq::<(Seq<char>, Fingerprint)>::empty());
    while j < cached.len()
        invariant
            j <= cached.len(),
            cv == cached_view(cached@),
            uv == current_view(current@),
            stale@.map_values(|s: String| s@) == stale_paths(cv.take(j as int), uv),
        decreases cached.len() - j,
    {
        let ghost before = stale@.map_values(|s: String| s@);
        let p = cached[j].0.as_str();
        assert(cv[j as int].0 == p@);
        assert(cv.take(j + 1).drop_last() =~= cv.take(j as int));
        assert(cv.take(j + 1).last() == cv[j as int]);
        if !present_in(current, p) {
            stale.push(p.to_owned());
            assert(stale@.map_values(|s: String| s@) =~= before.push(p@));
        }
        j = j + 1;
    }
    assert(cv.take(cached.len() as int) =~= cv);
    Ok((acts, stale))
}

} // verus!
