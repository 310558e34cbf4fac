//! The filesystem audit log of the IDE: every change to the project is recorded
//! with a prefix of the session token, and only the newest events are kept.
use vstd::prelude::*;

use crate::ide::model::{IdeFsAuditRecord, MAX_FS_AUDIT_EVENTS};
use crate::text::{chars_of, slice_chars, string_of};

verus! {

/// An audit event as plain values: time, session prefix, action, path.
pub open spec fn audit_view(e: IdeFsAuditRecord) -> (u64, Seq<char>, Seq<char>, Seq<char>) {
    (e.ts_secs, e.session@, e.action@, e.path@)
}

pub open spec fn audit_log_view(s: Seq<IdeFsAuditRecord>) -> Seq<(u64, Seq<char>, Seq<char>, Seq<char>)> {
    s.map_values(|e: IdeFsAuditRecord| audit_view(e))
}

/// The log after an event is appended: only the newest `max` events stay.
pub open spec fn appended(
    log: Seq<(u64, Seq<char>, Seq<char>, Seq<char>)>,
    e: (u64, Seq<char>, Seq<char>, Seq<char>),
    max: nat,
) -> Seq<(u64, Seq<char>, Seq<char>, Seq<char>)> {
    let full = log.push(e);
    if full.len() > max { full.skip(full.len() - max) } else { full }
}

/// Records an action of a session on a path at `ts_secs`; the session is logged
/// by the first eight characters of its token.
pub fn record_fs_audit_event(
    log: &mut Vec<IdeFsAuditRecord>,
    session_token: &str,
    action: &str,
    path: &str,
    ts_secs: u64,
)
    ensures
        audit_log_view(final(log)@) == appended(
            audit_log_view(old(log)@),
            (ts_secs, session_token@.take(if session_token@.len() < 8 { session_token@.len() as int } else { 8int }), action@, path@),
            MAX_FS_AUDIT_EVENTS as nat,
        ),
{
    let tv = chars_of(session_token);
    let n: usize = if tv.len() < 8 { tv.len() } else { 8 };
    let prefix = slice_chars(tv.as_slice(), 0, n);
    let ghost old_view = audit_log_view(log@);
    log.push(IdeFsAuditRecord {
        ts_secs,
        session: string_of(prefix.as_slice()),
        action: action.to_owned(),
        path: path.to_owned(),
    });
    let ghost full = audit_log_view(log@);
    assert(full =~= old_view.push((ts_secs, session_token@.take(n as int), action@, path@)));
    let total = log.len();
    let mut dropped: usize = 0;
    while log.len() > MAX_FS_AUDIT_EVENTS
        invariant
            full.len() == total,
            full.len() == dropped + log@.len(),
            dropped == 0 || log@.len() >= MAX_FS_AUDIT_EVENTS,
            audit_log_view(log@) == full.skip(dropped as int),
        decreases log@.len(),
    {
        let ghost before = log@;
        log.remove(0);
        assert(audit_log_view(log@) =~= audit_log_view(before).drop_first());
        assert(full.skip(dropped as int).drop_first() =~= full.skip(dropped + 1));
        dropped = dropped + 1;
    }
    assert(audit_log_view(log@) =~= appended(old_view, (ts_secs, session_token@.take(n as int), action@, path@), MAX_FS_AUDIT_EVENTS as nat)) by {
        if dropped == 0 {
            assert(full.skip(0) =~= full);
        }
    }
}

/// The log never holds more than its bound, and the newest event is always kept.
pub proof fn law_audit_log_bounded(
    log: Seq<(u64, Seq<char>, Seq<char>, Seq<char>)>,
    e: (u64, Seq<char>, Seq<char>, Seq<char>),
    max: nat,
)
    requires
        max > 0,
    ensures
        appended(log, e, max).len() <= max,
        appended(log, e, max).last() == e,
{
}

/// How many events a query returns: the requested number, at least one and at
/// most two hundred, and no more than there are.
pub open spec fn audit_take(limit: usize, len: nat) -> int {
    let want: int = if limit < 1 { 1 } else if limit > 200 { 200 } else { limit as int };
    if want < len { want } else { len as int }
}

/// The newest events first, as many as `audit_take` says.
pub open spec fn recent_events(log: Seq<(u64, Seq<char>, Seq<char>, Seq<char>)>, limit: usize) -> Seq<(u64, Seq<char>, Seq<char>, Seq<char>)> {
    Seq::new(audit_take(limit, log.len()) as nat, |i: int| log[log.len() - 1 - i])
}

/// The newest audit events, newest first.
pub fn recent_audit_events(log: &Vec<IdeFsAuditRecord>, limit: usize) -> (r: Vec<IdeFsAuditRecord>)
    ensures
        audit_log_view(r@) == recent_events(audit_log_view(log@), limit),
{
    let want: usize = if limit < 1 { 1 } else if limit > 200 { 200 } else { limit };
    let take: usize = if want < log.len() { want } else { log.len() };
    let ghost lv = audit_log_view(log@);
    let mut out: Vec<IdeFsAuditRecord> = Vec::new();
    let mut i: usize = 0;
    while i < take
        invariant
            i <= take,
            take <= log@.len(),
            take == audit_take(limit, lv.len()),
            lv == audit_log_view(log@),
            audit_log_view(out@) =~= Seq::new(i as nat, |k: int| lv[lv.len() - 1 - k]),
        decreases take - i,
    {
        let e = &log[log.len() - 1 - i];
        let ghost before = out@;
        out.push(IdeFsAuditRecord {
            ts_secs: e.ts_secs,
            session: e.session.clone(),
            action: e.action.clone(),
            path: e.path.clone(),
        });
        assert(audit_log_view(out@) =~= audit_log_view(before).push(lv[lv.len() - 1 - i]));
        i = i + 1;
    }
    out
}

} // verus!
