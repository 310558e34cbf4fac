//! IDE sessions: tokens with a role and a sliding expiry, pruned when they lapse
//! and bounded in number.
use vstd::prelude::*;

use crate::ide::model::{ide_error, IdeError, IdeErrorKind, IdeRole, IdeSession};
use crate::text::str_eq;

verus! {

/// One session: its token, role and expiry (seconds). Which documents a
/// session opened is kept with the documents, as their openers.
#[derive(Debug)]
pub struct IdeSessionEntry {
    pub token: String,
    pub role: IdeRole,
    pub expires_at: u64,
}

/// A session as plain values: token, role, expiry.
pub open spec fn session_view(e: IdeSessionEntry) -> (Seq<char>, IdeRole, u64) {
    (e.token@, e.role, e.expires_at)
}

pub open spec fn sessions_view(s: Seq<IdeSessionEntry>) -> Seq<(Seq<char>, IdeRole, u64)> {
    s.map_values(|e: IdeSessionEntry| session_view(e))
}

/// A session is live at `now` until its expiry has been reached.
pub open spec fn is_live(e: (Seq<char>, IdeRole, u64), now: u64) -> bool {
    e.2 > now
}

/// The sessions still live at `now`, in order.
pub open spec fn live_sessions(s: Seq<(Seq<char>, IdeRole, u64)>, now: u64) -> Seq<(Seq<char>, IdeRole, u64)>
    decreases s.len(),
{
    if s.len() == 0 {
        s
    } else if is_live(s.last(), now) {
        live_sessions(s.drop_last(), now).push(s.last())
    } else {
        live_sessions(s.drop_last(), now)
    }
}

pub open spec fn distinct_tokens(s: Seq<(Seq<char>, IdeRole, u64)>) -> bool {
    forall|i: int, j: int| 0 <= i < s.len() && 0 <= j < s.len() && i != j ==> s[i].0 != s[j].0
}

/// Index of the session with token `token`, or -1.
pub open spec fn session_index(s: Seq<(Seq<char>, IdeRole, u64)>, token: Seq<char>) -> int
    decreases s.len(),
{
    if s.len() == 0 {
        -1
    } else if s.last().0 == token {
        s.len() - 1
    } else {
        session_index(s.drop_last(), token)
    }
}

/// The number of editor sessions among `s`.
pub open spec fn editor_count(s: Seq<(Seq<char>, IdeRole, u64)>) -> nat
    decreases s.len(),
{
    if s.len() == 0 {
        0
    } else {
        editor_count(s.drop_last()) + if s.last().1 == IdeRole::Editor { 1nat } else { 0nat }
    }
}

/// Renewing a session keeps its role, so the editors are as many as before.
pub proof fn lemma_editor_count_renewed(s: Seq<(Seq<char>, IdeRole, u64)>, i: int, expires_at: u64)
    requires
        0 <= i < s.len(),
    ensures
        editor_count(s.update(i, (s[i].0, s[i].1, expires_at))) == editor_count(s),
    decreases s.len(),
{
    let t = s.update(i, (s[i].0, s[i].1, expires_at));
    if i == s.len() - 1 {
        assert(t.drop_last() =~= s.drop_last());
    } else {
        assert(t.drop_last() =~= s.drop_last().update(i, (s[i].0, s[i].1, expires_at)));
        lemma_editor_count_renewed(s.drop_last(), i, expires_at);
    }
}

/// The expiry given at `now` for a lifetime of `ttl` (saturating).
pub open spec fn renewed(now: u64, ttl: u64) -> u64 {
    if now + ttl > u64::MAX { u64::MAX } else { (now + ttl) as u64 }
}

/// The sessions of the IDE, in the order they were created.
pub struct IdeSessions {
    entries: Vec<IdeSessionEntry>,
}

/// `session_index` finds the session with the token if there is one, and only then.
pub proof fn lemma_session_index(s: Seq<(Seq<char>, IdeRole, u64)>, token: Seq<char>)
    ensures
        -1 <= session_index(s, token) < s.len(),
        session_index(s, token) >= 0 ==> s[session_index(s, token)].0 == token,
        session_index(s, token) < 0 ==> forall|k: int| 0 <= k < s.len() ==> (#[trigger] s[k]).0 != token,
    decreases s.len(),
{
    if s.len() > 0 && s.last().0 != token {
        lemma_session_index(s.drop_last(), token);
        if session_index(s, token) >= 0 {
            assert(s.drop_last()[session_index(s, token)] == s[session_index(s, token)]);
        } else {
            assert forall|k: int| 0 <= k < s.len() implies (#[trigger] s[k]).0 != token by {
                if k < s.len() - 1 {
                    assert(s.drop_last()[k] == s[k]);
                }
            }
        }
    }
}

proof fn lemma_live_from(s: Seq<(Seq<char>, IdeRole, u64)>, now: u64)
    ensures
        forall|i: int| 0 <= i < live_sessions(s, now).len() ==> exists|m: int| 0 <= m < s.len() && s[m] == #[trigger] live_sessions(s, now)[i],
        forall|i: int| 0 <= i < live_sessions(s, now).len() ==> is_live(#[trigger] live_sessions(s, now)[i], now),
    decreases s.len(),
{
    if s.len() > 0 {
        let d = s.drop_last();
        lemma_live_from(d, now);
        let f = live_sessions(d, now);
        let r = live_sessions(s, now);
        assert forall|i: int| 0 <= i < r.len() implies exists|m: int| 0 <= m < s.len() && s[m] == #[trigger] r[i] by {
            if i < f.len() {
                assert(r[i] == f[i]);
                let m = choose|m: int| 0 <= m < d.len() && d[m] == f[i];
                assert(s[m] == d[m]);
            } else {
                assert(s[s.len() - 1] == r[i]);
            }
        }
        assert forall|i: int| 0 <= i < r.len() implies is_live(#[trigger] r[i], now) by {
            if i < f.len() {
                assert(r[i] == f[i]);
            }
        }
    }
}

proof fn lemma_live_distinct(s: Seq<(Seq<char>, IdeRole, u64)>, now: u64)
    requires
        distinct_tokens(s),
    ensures
        distinct_tokens(live_sessions(s, now)),
    decreases s.len(),
{
    if s.len() > 0 {
        let d = s.drop_last();
        assert(distinct_tokens(d)) by {
            assert forall|i: int, j: int| 0 <= i < d.len() && 0 <= j < d.len() && i != j implies d[i].0 != d[j].0 by {
                assert(d[i] == s[i] && d[j] == s[j]);
            }
        }
        lemma_live_distinct(d, now);
        lemma_live_from(d, now);
        let f = live_sessions(d, now);
        if is_live(s.last(), now) {
            let r = f.push(s.last());
            assert forall|i: int, j: int| 0 <= i < r.len() && 0 <= j < r.len() && i != j implies r[i].0 != r[j].0 by {
                if i < f.len() && j < f.len() {
                    assert(r[i] == f[i] && r[j] == f[j]);
                } else {
                    let k = if i < f.len() { i } else { j };
                    assert(r[k] == f[k]);
                    let m = choose|m: int| 0 <= m < d.len() && d[m] == f[k];
                    assert(s[m] == d[m]);
                    assert(s[s.len() - 1] == s.last());
                }
            }
        }
    }
}

proof fn lemma_index_unique(s: Seq<(Seq<char>, IdeRole, u64)>, k: int)
    requires
        distinct_tokens(s),
        0 <= k < s.len(),
    ensures
        session_index(s, s[k].0) == k,
{
    lemma_session_index(s, s[k].0);
}

impl IdeSessions {
    pub closed spec fn view_seq(&self) -> Seq<(Seq<char>, IdeRole, u64)> {
        sessions_view(self.entries@)
    }

    /// No token names two sessions.
    pub closed spec fn wf(&self) -> bool {
        distinct_tokens(sessions_view(self.entries@))
    }

    pub fn new() -> (r: Self)
        ensures
            r.wf(),
            r.view_seq() == Seq::<(Seq<char>, IdeRole, u64)>::empty(),
    {
        let r = IdeSessions { entries: Vec::new() };
        assert(r.view_seq() =~= Seq::<(Seq<char>, IdeRole, u64)>::empty());
        r
    }

    /// The number of editor sessions.
    pub fn editor_count(&self) -> (r: usize)
        ensures
            r == editor_count(self.view_seq()),
    {
        let ghost s = self.view_seq();
        let mut n: usize = 0;
        let mut i: usize = 0;
        while i < self.entries.len()
            invariant
                i <= self.entries@.len(),
                s == self.view_seq(),
                s.len() == self.entries@.len(),
                n == editor_count(s.take(i as int)),
                n <= i,
            decreases self.entries@.len() - i,
        {
            proof {
                assert(s.take(i + 1).drop_last() =~= s.take(i as int));
                assert(s.take(i + 1).last() == s[i as int]);
                assert(s[i as int].1 == self.entries@[i as int].role);
            }
            if matches!(self.entries[i].role, IdeRole::Editor) {
                n = n + 1;
            }
            i = i + 1;
        }
        assert(s.take(i as int) =~= s);
        n
    }

    pub fn len(&self) -> (r: usize)
        ensures
            r == self.view_seq().len(),
    {
        self.entries.len()
    }

    /// Drops the sessions that have expired at `now`; returns their tokens.
    pub fn prune_expired(&mut self, now: u64) -> (removed: Vec<String>)
        requires
            old(self).wf(),
        ensures
            final(self).wf(),
            final(self).view_seq() == live_sessions(old(self).view_seq(), now),
    {
        let ghost orig = self.view_seq();
        let mut rest: Vec<IdeSessionEntry> = Vec::new();
        std::mem::swap(&mut rest, &mut self.entries);
        let n = rest.len();
        let mut kept: Vec<IdeSessionEntry> = Vec::new();
        let mut removed: Vec<String> = Vec::new();
        let mut k: usize = 0;
        while rest.len() > 0
            invariant
                orig.len() == n,
                orig.len() == k + rest@.len(),
                sessions_view(rest@) == orig.skip(k as int),
                sessions_view(kept@) == live_sessions(orig.take(k as int), now),
            decreases rest@.len(),
        {
            let ghost before = rest@;
            let e = rest.remove(0);
            proof {
                assert(orig.take(k + 1).drop_last() =~= orig.take(k as int));
                assert(orig.take(k + 1).last() == orig[k as int]);
                assert(sessions_view(before)[0] == session_view(before[0]));
                assert(orig.skip(k as int)[0] == orig[k as int]);
                assert(sessions_view(rest@) =~= sessions_view(before).drop_first());
            }
            if e.expires_at > now {
                let ghost kv = kept@;
                kept.push(e);
                assert(sessions_view(kept@) =~= sessions_view(kv).push(orig[k as int]));
            } else {
                removed.push(e.token);
            }
            assert(sessions_view(rest@) =~= orig.skip(k + 1));
            k = k + 1;
        }
        assert(orig.take(k as int) =~= orig);
        self.entries = kept;
        proof {
            lemma_live_distinct(orig, now);
        }
        removed
    }

    fn position(&self, token: &str) -> (r: Option<usize>)
        ensures
            match r {
                Some(j) => j < self.entries@.len() && self.view_seq()[j as int].0 == token@
                    && j == session_index(self.view_seq(), token@),
                None => session_index(self.view_seq(), token@) < 0,
            },
    {
        let ghost s = self.view_seq();
        proof {
            lemma_session_index(s, token@);
        }
        let mut i: usize = self.entries.len();
        assert(s.take(i as int) =~= s);
        while i > 0
            invariant
                i <= self.entries@.len(),
                s == self.view_seq(),
                session_index(s, token@) == session_index(s.take(i as int), token@),
            decreases i,
        {
            assert(s.take(i as int).drop_last() =~= s.take(i - 1));
            assert(s.take(i as int).last() == s[i - 1]);
            assert(s[i - 1].0 == self.entries@[i - 1].token@);
            if str_eq(self.entries[i - 1].token.as_str(), token) {
                return Some(i - 1);
            }
            i = i - 1;
        }
        None
    }

    /// Checks the session named by `token` at `now`: expired sessions are dropped
    /// first; a live one is renewed for `ttl` seconds and its role returned.
    pub fn ensure_session(&mut self, token: &str, now: u64, ttl: u64) -> (r: Result<IdeRole, IdeError>)
        requires
            old(self).wf(),
        ensures
            final(self).wf(),
            ({
                let p = live_sessions(old(self).view_seq(), now);
                let i = session_index(p, token@);
                if i < 0 {
                    &&& final(self).view_seq() == p
                    &&& r is Err
                    &&& r->Err_0.kind_spec() == IdeErrorKind::Unauthorized
                    &&& r->Err_0.message_spec() == "invalid or expired session"@
                } else {
                    &&& final(self).view_seq() == p.update(i, (p[i].0, p[i].1, renewed(now, ttl)))
                    &&& r == Ok::<IdeRole, IdeError>(p[i].1)
                }
            }),
    {
        self.prune_expired(now);
        match self.position(token) {
            None => Err(ide_error(IdeErrorKind::Unauthorized, "invalid or expired session")),
            Some(j) => {
                let ghost before = self.view_seq();
                let e = &mut self.entries[j];
                e.expires_at = now.saturating_add(ttl);
                let role = e.role;
                proof {
                    assert(self.view_seq() =~= before.update(j as int, (before[j as int].0, before[j as int].1, renewed(now, ttl))));
                    assert forall|a: int, b: int| 0 <= a < self.view_seq().len() && 0 <= b < self.view_seq().len() && a != b
                        implies self.view_seq()[a].0 != self.view_seq()[b].0 by {
                        assert(self.view_seq()[a].0 == before[a].0);
                        assert(self.view_seq()[b].0 == before[b].0);
                    }
                }
                Ok(role)
            },
        }
    }

    /// As `ensure_session`, and the session must be an editor's.
    pub fn ensure_editor_session(&mut self, token: &str, now: u64, ttl: u64) -> (r: Result<(), IdeError>)
        requires
            old(self).wf(),
        ensures
            final(self).wf(),
            ({
                let p = live_sessions(old(self).view_seq(), now);
                let i = session_index(p, token@);
                if i < 0 {
                    &&& final(self).view_seq() == p
                    &&& r is Err
                    &&& r->Err_0.kind_spec() == IdeErrorKind::Unauthorized
                } else {
                    &&& final(self).view_seq() == p.update(i, (p[i].0, p[i].1, renewed(now, ttl)))
                    &&& (p[i].1 == IdeRole::Editor ==> r is Ok)
                    &&& (p[i].1 != IdeRole::Editor ==> r is Err && r->Err_0.kind_spec() == IdeErrorKind::Forbidden
                        && r->Err_0.message_spec() == "session role does not allow edits"@)
                }
            }),
    {
        let role = self.ensure_session(token, now, ttl)?;
        if role != IdeRole::Editor {
            return Err(ide_error(IdeErrorKind::Forbidden, "session role does not allow edits"));
        }
        Ok(())
    }

    /// Drops the session named by `token`, if any.
    pub fn remove_session(&mut self, token: &str)
        requires
            old(self).wf(),
        ensures
            final(self).wf(),
            session_index(old(self).view_seq(), token@) < 0 ==> final(self).view_seq() == old(self).view_seq(),
            session_index(old(self).view_seq(), token@) >= 0 ==> final(self).view_seq() == old(self).view_seq().remove(
                session_index(old(self).view_seq(), token@),
            ),
    {
        match self.position(token) {
            None => {},
            Some(j) => {
                let ghost before = self.view_seq();
                let _ = self.entries.remove(j);
                proof {
                    assert(self.view_seq() =~= before.remove(j as int));
                    assert forall|a: int, b: int| 0 <= a < self.view_seq().len() && 0 <= b < self.view_seq().len() && a != b
                        implies self.view_seq()[a].0 != self.view_seq()[b].0 by {
                        let a0 = if a < j { a } else { a + 1 };
                        let b0 = if b < j { b } else { b + 1 };
                        assert(self.view_seq()[a] == before[a0]);
                        assert(self.view_seq()[b] == before[b0]);
                    }
                }
            },
        }
    }

    fn oldest(&self) -> (r: usize)
        requires
            self.entries@.len() > 0,
        ensures
            r < self.view_seq().len(),
            forall|k: int| 0 <= k < self.view_seq().len() ==> self.view_seq()[r as int].2 <= (#[trigger] self.view_seq()[k]).2,
    {
        let mut best: usize = 0;
        let mut i: usize = 1;
        while i < self.entries.len()
            invariant
                1 <= i <= self.entries@.len(),
                best < i,
                forall|k: int| 0 <= k < i ==> self.view_seq()[best as int].2 <= (#[trigger] self.view_seq()[k]).2,
            decreases self.entries.len() - i,
        {
            if self.entries[i].expires_at < self.entries[best].expires_at {
                best = i;
            }
            i = i + 1;
        }
        best
    }

    /// Opens a session for `role` at `now`, valid for `ttl` seconds: expired
    /// sessions are dropped; when `max` are still open, one that expires first is
    /// dropped to make room; if there is still no room the request is refused.
    pub fn create_session(&mut self, role: IdeRole, now: u64, ttl: u64, max: usize) -> (r: Result<IdeSession, IdeError>)
        requires
            old(self).wf(),
        ensures
            final(self).wf(),
            exists|k: int| #![trigger evicted(live_sessions(old(self).view_seq(), now), max, k)] {
                let p = live_sessions(old(self).view_seq(), now);
                &&& (p.len() >= max && p.len() > 0 ==> is_oldest(p, k))
                &&& match r {
                    Err(e) => {
                        &&& evicted(p, max, k).len() >= max
                        &&& final(self).view_seq() == evicted(p, max, k)
                        &&& e.kind_spec() == IdeErrorKind::LimitExceeded
                        &&& e.message_spec() == "too many active IDE sessions"@
                    },
                    Ok(s) => {
                        &&& evicted(p, max, k).len() < max
                        &&& final(self).view_seq() == with_session(evicted(p, max, k), s.token@, role, renewed(now, ttl))
                        &&& s.expires_at == renewed(now, ttl)
                        &&& s.role@ == (match role { IdeRole::Viewer => "viewer"@, IdeRole::Editor => "editor"@ })
                    },
                }
            },
    {
        self.prune_expired(now);
        let ghost p = self.view_seq();
        let mut k: usize = 0;
        if self.entries.len() >= max && self.entries.len() > 0 {
            k = self.oldest();
            let t = self.entries[k].token.clone();
            proof {
                lemma_index_unique(p, k as int);
            }
            self.remove_session(t.as_str());
        }
        assert(self.view_seq() == evicted(p, max, k as int));
        if self.entries.len() >= max {
            return Err(ide_error(IdeErrorKind::LimitExceeded, "too many active IDE sessions"));
        }
        let token = crate::entropy::generate_token();
        let expires_at = now.saturating_add(ttl);
        let ghost q = self.view_seq();
        match self.position(token.as_str()) {
            Some(j) => {
                self.entries.set(j, IdeSessionEntry { token: token.clone(), role, expires_at });
                proof {
                    assert(self.view_seq() =~= q.update(j as int, (token@, role, renewed(now, ttl))));
                    assert forall|a: int, b: int| 0 <= a < self.view_seq().len() && 0 <= b < self.view_seq().len() && a != b
                        implies self.view_seq()[a].0 != self.view_seq()[b].0 by {
                        assert(self.view_seq()[a].0 == q[a].0);
                        assert(self.view_seq()[b].0 == q[b].0);
                    }
                }
            },
            None => {
                self.entries.push(IdeSessionEntry { token: token.clone(), role, expires_at });
                proof {
                    lemma_session_index(q, token@);
                    assert(self.view_seq() =~= q.push((token@, role, renewed(now, ttl))));
                    assert forall|a: int, b: int| 0 <= a < self.view_seq().len() && 0 <= b < self.view_seq().len() && a != b
                        implies self.view_seq()[a].0 != self.view_seq()[b].0 by {
                        if a < q.len() && b < q.len() {
                            assert(self.view_seq()[a] == q[a] && self.view_seq()[b] == q[b]);
                        } else if a == q.len() {
                            assert(self.view_seq()[b] == q[b]);
                        } else {
                            assert(self.view_seq()[a] == q[a]);
                        }
                    }
                }
            },
        }
        Ok(IdeSession { token, role: role.as_str().to_owned(), expires_at })
    }
}

/// A session that expires first among `p`.
pub open spec fn is_oldest(p: Seq<(Seq<char>, IdeRole, u64)>, k: int) -> bool {
    0 <= k < p.len() && forall|m: int| 0 <= m < p.len() ==> p[k].2 <= (#[trigger] p[m]).2
}

/// The sessions after making room: when `max` or more are open, session `k` is
/// dropped.
pub open spec fn evicted(p: Seq<(Seq<char>, IdeRole, u64)>, max: usize, k: int) -> Seq<(Seq<char>, IdeRole, u64)> {
    if p.len() >= max && p.len() > 0 { p.remove(k) } else { p }
}

/// The sessions with `token` recorded for `role` until `expires_at`.
pub open spec fn with_session(q: Seq<(Seq<char>, IdeRole, u64)>, token: Seq<char>, role: IdeRole, expires_at: u64) -> Seq<(Seq<char>, IdeRole, u64)> {
    let i = session_index(q, token);
    if i >= 0 { q.update(i, (token, role, expires_at)) } else { q.push((token, role, expires_at)) }
}

/// When the sessions kept within the limit before, a new session always fits and
/// the limit still holds after.
pub proof fn law_session_limit(p: Seq<(Seq<char>, IdeRole, u64)>, max: usize, k: int, token: Seq<char>, role: IdeRole, expires_at: u64)
    requires
        max > 0,
        p.len() <= max,
        p.len() >= max ==> is_oldest(p, k),
    ensures
        evicted(p, max, k).len() < max,
        with_session(evicted(p, max, k), token, role, expires_at).len() <= max,
{
    lemma_session_index(evicted(p, max, k), token);
}

/// Using a session renews it: it stays live for `ttl` more seconds.
pub proof fn law_use_renews(p: Seq<(Seq<char>, IdeRole, u64)>, i: int, now: u64, ttl: u64)
    requires
        0 <= i < p.len(),
        ttl > 0,
        now < u64::MAX,
    ensures
        is_live(p.update(i, (p[i].0, p[i].1, renewed(now, ttl)))[i], now),
{
}

/// An expired session is refused: it is no longer among the live ones.
pub proof fn law_expired_session_gone(s: Seq<(Seq<char>, IdeRole, u64)>, token: Seq<char>, now: u64)
    requires
        distinct_tokens(s),
        forall|m: int| 0 <= m < s.len() && (#[trigger] s[m]).0 == token ==> !is_live(s[m], now),
    ensures
        session_index(live_sessions(s, now), token) < 0,
{
    lemma_live_from(s, now);
    lemma_session_index(live_sessions(s, now), token);
    let l = live_sessions(s, now);
    if session_index(l, token) >= 0 {
        let i = session_index(l, token);
        let m = choose|m: int| 0 <= m < s.len() && s[m] == l[i];
        assert(s[m].0 == token);
    }
}

} // verus!
