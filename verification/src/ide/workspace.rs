//! The IDE's shared state and the decisions of its file operations: sessions,
//! the documents they track, and the audit log of changes. Reading and writing
//! the files is left to the caller, which hands in what it read.
use vstd::prelude::*;

use crate::ide::audit::{appended, audit_log_view, record_fs_audit_event, recent_audit_events, recent_events};
use crate::ide::documents::{bump, doc_index, observed, open_handle_count, IdeDocuments};
use crate::ide::model::{
    ide_error, IdeError, IdeErrorKind, IdeFileSnapshot, IdeFsAuditRecord, IdeRole, IdeWriteResult,
    WebIdeHealth, WebIdeLimits, MAX_FS_AUDIT_EVENTS,
};
use crate::ide::paths::{check_source_size, normalize_workspace_path, path_result_matches, workspace_path_spec};
use crate::ide::relocation::{created, forgotten, renamed_docs};
use crate::ide::model::IdeFsResult;
use crate::ide::sessions::{editor_count, lemma_editor_count_renewed, lemma_session_index, live_sessions, renewed, session_index, IdeSessions};
use crate::ide::telemetry::{total_spec, TelemetryBySession};
use crate::text::{decimal, decimal_chars, push_chars, push_str};

verus! {

/// The message refusing a payload of `len` bytes over a limit of `max`.
pub open spec fn payload_too_large(len: nat, max: nat) -> Seq<char> {
    "payload exceeds limit ("@ + decimal(len) + " > "@ + decimal(max) + " bytes)"@
}

/// Before any change: authoring must be on, and the new content within the limit.
pub fn check_write_allowed(write_enabled: bool, payload_len: usize, max_file_bytes: usize) -> (r: Result<(), IdeError>)
    ensures
        r is Ok <==> write_enabled && payload_len <= max_file_bytes,
        !write_enabled ==> r is Err && r->Err_0.kind_spec() == IdeErrorKind::Forbidden
            && r->Err_0.message_spec() == "web IDE authoring is disabled in current runtime mode"@,
        write_enabled && payload_len > max_file_bytes ==> r is Err && r->Err_0.kind_spec() == IdeErrorKind::TooLarge
            && r->Err_0.message_spec() == payload_too_large(payload_len as nat, max_file_bytes as nat),
{
    if !write_enabled {
        return Err(ide_error(IdeErrorKind::Forbidden, "web IDE authoring is disabled in current runtime mode"));
    }
    if payload_len > max_file_bytes {
        let mut m = "payload exceeds limit (".to_owned();
        push_chars(&mut m, decimal_chars(payload_len as u64).as_slice());
        push_str(&mut m, " > ");
        push_chars(&mut m, decimal_chars(max_file_bytes as u64).as_slice());
        push_str(&mut m, " bytes)");
        return Err(IdeError::new(IdeErrorKind::TooLarge, m));
    }
    Ok(())
}

/// The entry that a change of the workspace tree (create, rename, delete) names:
/// authoring must be on, and the path a workspace path other than the root.
pub fn fs_change_target(write_enabled: bool, path: &str) -> (r: Result<String, IdeError>)
    ensures
        !write_enabled ==> r is Err && r->Err_0.kind_spec() == IdeErrorKind::Forbidden
            && r->Err_0.message_spec() == "web IDE authoring is disabled in current runtime mode"@,
        write_enabled ==> path_result_matches(r, workspace_path_spec(path@, false)),
{
    if !write_enabled {
        return Err(ide_error(IdeErrorKind::Forbidden, "web IDE authoring is disabled in current runtime mode"));
    }
    normalize_workspace_path(path, false)
}

/// The first checks of saving a source: authoring must be on, the new content
/// within the size limit, and the path a workspace file path, in this order.
/// Returns the normalized path, whose file the caller then reads before
/// `begin_write`, writes, and reports with `finish_write`.
pub fn source_write_target(write_enabled: bool, content_len: usize, max_file_bytes: usize, path: &str) -> (r: Result<String, IdeError>)
    ensures
        !write_enabled ==> r is Err && r->Err_0.kind_spec() == IdeErrorKind::Forbidden
            && r->Err_0.message_spec() == "web IDE authoring is disabled in current runtime mode"@,
        write_enabled && content_len > max_file_bytes ==> r is Err && r->Err_0.kind_spec() == IdeErrorKind::TooLarge
            && r->Err_0.message_spec() == payload_too_large(content_len as nat, max_file_bytes as nat),
        write_enabled && content_len <= max_file_bytes ==> path_result_matches(r, workspace_path_spec(path@, false)),
{
    check_write_allowed(write_enabled, content_len, max_file_bytes)?;
    normalize_workspace_path(path, false)
}

/// The kind of a workspace entry as reported: `directory` or `file`.
pub open spec fn entry_kind(is_dir: bool) -> Seq<char> {
    if is_dir { "directory"@ } else { "file"@ }
}

fn entry_kind_exec(is_dir: bool) -> (r: String)
    ensures
        r@ == entry_kind(is_dir),
{
    if is_dir { "directory".to_owned() } else { "file".to_owned() }
}

/// The audit entry of an action: time, the first eight characters of the
/// session token, action, subject.
pub open spec fn audit_entry(now: u64, token: Seq<char>, action: Seq<char>, subject: Seq<char>) -> (u64, Seq<char>, Seq<char>, Seq<char>) {
    (now, token.take(if token.len() < 8 { token.len() as int } else { 8int }), action, subject)
}

/// Documents at the same paths are found at the same place.
proof fn lemma_doc_index_same_paths(
    s: Seq<(Seq<char>, Seq<char>, u64, Set<Seq<char>>)>,
    t: Seq<(Seq<char>, Seq<char>, u64, Set<Seq<char>>)>,
    path: Seq<char>,
)
    requires
        s.len() == t.len(),
        forall|k: int| 0 <= k < s.len() ==> (#[trigger] s[k]).0 == t[k].0,
    ensures
        doc_index(s, path) == doc_index(t, path),
    decreases s.len(),
{
    if s.len() > 0 {
        assert(s.last().0 == t.last().0);
        assert forall|k: int| 0 <= k < s.drop_last().len() implies (#[trigger] s.drop_last()[k]).0 == t.drop_last()[k].0 by {
            assert(s.drop_last()[k] == s[k] && t.drop_last()[k] == t[k]);
        }
        lemma_doc_index_same_paths(s.drop_last(), t.drop_last(), path);
    }
}

/// The IDE's shared state: its limits, its sessions, the documents they track
/// and the audit log of changes.
pub struct IdeWorkspace {
    pub limits: WebIdeLimits,
    pub sessions: IdeSessions,
    pub documents: IdeDocuments,
    pub audit: Vec<IdeFsAuditRecord>,
}

impl IdeWorkspace {
    pub open spec fn wf(&self) -> bool {
        self.sessions.wf() && self.documents.wf()
    }

    pub fn new(limits: WebIdeLimits) -> (r: Self)
        ensures
            r.wf(),
            r.limits == limits,
            r.sessions.view_seq().len() == 0,
            r.documents.view_seq().len() == 0,
            r.audit@.len() == 0,
    {
        IdeWorkspace { limits, sessions: IdeSessions::new(), documents: IdeDocuments::new(), audit: Vec::new() }
    }

    /// A session's view of a source file that reads `disk_content`: the document
    /// is tracked (its version bumped when the file changed), and the session sees
    /// it read-only unless it is an editor's. A file over the size limit is
    /// refused before the session is looked at.
    pub fn open_source(&mut self, session_token: &str, path: &str, disk_content: &str, now: u64) -> (r: Result<IdeFileSnapshot, IdeError>)
        requires
            old(self).wf(),
        ensures
            final(self).wf(),
            final(self).limits == old(self).limits,
            final(self).audit@ == old(self).audit@,
            ({
                let p = live_sessions(old(self).sessions.view_seq(), now);
                let i = session_index(p, session_token@);
                let o = observed(old(self).documents.view_seq(), path@, disk_content@);
                let d = doc_index(o, path@);
                if disk_content.len() > old(self).limits.max_file_bytes {
                    &&& r is Err
                    &&& r->Err_0.kind_spec() == IdeErrorKind::TooLarge
                    &&& final(self).sessions.view_seq() == old(self).sessions.view_seq()
                    &&& final(self).documents.view_seq() == old(self).documents.view_seq()
                } else if i < 0 {
                    &&& r is Err
                    &&& r->Err_0.kind_spec() == IdeErrorKind::Unauthorized
                    &&& final(self).sessions.view_seq() == p
                    &&& final(self).documents.view_seq() == old(self).documents.view_seq()
                } else {
                    &&& r is Ok
                    &&& r->Ok_0.path@ == path@
                    &&& r->Ok_0.content@ == disk_content@
                    &&& r->Ok_0.version == o[d].2
                    &&& r->Ok_0.read_only == (p[i].1 != IdeRole::Editor)
                    &&& final(self).sessions.view_seq() == p.update(i, (p[i].0, p[i].1, renewed(now, old(self).limits.session_ttl_secs)))
                    &&& final(self).documents.view_seq() == o.update(d, (o[d].0, o[d].1, o[d].2, o[d].3.insert(session_token@)))
                }
            }),
    {
        check_source_size(disk_content.len(), self.limits.max_file_bytes)?;
        let role = self.sessions.ensure_session(session_token, now, self.limits.session_ttl_secs)?;
        let ghost o = observed(self.documents.view_seq(), path@, disk_content@);
        self.documents.upsert_tracked_document(session_token, path, disk_content);
        proof {
            crate::ide::documents::lemma_observed_index(old(self).documents.view_seq(), path@, disk_content@);
            let d = doc_index(o, path@);
            crate::ide::documents::lemma_doc_index(o, path@);
            let u = o.update(d, (o[d].0, o[d].1, o[d].2, o[d].3.insert(session_token@)));
            assert forall|k: int| 0 <= k < o.len() implies (#[trigger] o[k]).0 == u[k].0 by {}
            lemma_doc_index_same_paths(o, o.update(d, (o[d].0, o[d].1, o[d].2, o[d].3.insert(session_token@))), path@);
        }
        let version = match self.documents.version(path) {
            Some(v) => v,
            None => 0,
        };
        Ok(IdeFileSnapshot {
            path: path.to_owned(),
            content: disk_content.to_owned(),
            version,
            read_only: role != IdeRole::Editor,
        })
    }

    /// Before writing `path`, whose file reads `disk_content`: the session must be
    /// an editor's, and must have seen the document's current version.
    pub fn begin_write(&mut self, session_token: &str, path: &str, disk_content: &str, expected_version: u64, now: u64) -> (r: Result<(), IdeError>)
        requires
            old(self).wf(),
        ensures
            final(self).wf(),
            final(self).limits == old(self).limits,
            final(self).audit@ == old(self).audit@,
            ({
                let p = live_sessions(old(self).sessions.view_seq(), now);
                let i = session_index(p, session_token@);
                let o = observed(old(self).documents.view_seq(), path@, disk_content@);
                let v = o[doc_index(o, path@)].2;
                if i < 0 {
                    &&& r is Err
                    &&& r->Err_0.kind_spec() == IdeErrorKind::Unauthorized
                    &&& final(self).documents.view_seq() == old(self).documents.view_seq()
                } else if p[i].1 != IdeRole::Editor {
                    &&& r is Err
                    &&& r->Err_0.kind_spec() == IdeErrorKind::Forbidden
                    &&& r->Err_0.message_spec() == "session role does not allow edits"@
                    &&& final(self).documents.view_seq() == old(self).documents.view_seq()
                } else {
                    &&& final(self).documents.view_seq() == o
                    &&& (v == expected_version ==> r is Ok)
                    &&& (v != expected_version ==> r is Err && r->Err_0.kind_spec() == IdeErrorKind::Conflict
                        && r->Err_0.version_spec() == Some(v))
                }
            }),
    {
        self.sessions.ensure_editor_session(session_token, now, self.limits.session_ttl_secs)?;
        self.documents.check_write(path, disk_content, expected_version)
    }

    /// After the file at `path` was written with `content`: the document takes the
    /// content at the next version, and the write is audited.
    pub fn finish_write(&mut self, session_token: &str, path: &str, content: &str, now: u64) -> (r: IdeWriteResult)
        requires
            old(self).wf(),
            doc_index(old(self).documents.view_seq(), path@) >= 0,
        ensures
            final(self).wf(),
            final(self).limits == old(self).limits,
            final(self).sessions.view_seq() == old(self).sessions.view_seq(),
            ({
                let s = old(self).documents.view_seq();
                let i = doc_index(s, path@);
                &&& r.path@ == path@
                &&& r.version == bump(s[i].2)
                &&& final(self).documents.view_seq() == s.update(i, (s[i].0, content@, bump(s[i].2), s[i].3.insert(session_token@)))
                &&& audit_log_view(final(self).audit@) == appended(
                    audit_log_view(old(self).audit@),
                    (now, session_token@.take(if session_token@.len() < 8 { session_token@.len() as int } else { 8int }), "write_file"@, path@),
                    MAX_FS_AUDIT_EVENTS as nat,
                )
            }),
    {
        let version = self.documents.commit_write(session_token, path, content);
        record_fs_audit_event(&mut self.audit, session_token, "write_file", path, now);
        IdeWriteResult { path: path.to_owned(), version }
    }

    /// Before creating an entry: the session must be a live editor's, and a
    /// file's content within the size limit.
    pub fn begin_create(&mut self, session_token: &str, is_directory: bool, payload_len: usize, now: u64) -> (r: Result<(), IdeError>)
        requires
            old(self).wf(),
        ensures
            final(self).wf(),
            final(self).limits == old(self).limits,
            final(self).audit@ == old(self).audit@,
            final(self).documents.view_seq() == old(self).documents.view_seq(),
            ({
                let p = live_sessions(old(self).sessions.view_seq(), now);
                let i = session_index(p, session_token@);
                if i < 0 {
                    r is Err && r->Err_0.kind_spec() == IdeErrorKind::Unauthorized
                } else if p[i].1 != IdeRole::Editor {
                    r is Err && r->Err_0.kind_spec() == IdeErrorKind::Forbidden
                        && r->Err_0.message_spec() == "session role does not allow edits"@
                } else if !is_directory && payload_len > old(self).limits.max_file_bytes {
                    r is Err && r->Err_0.kind_spec() == IdeErrorKind::TooLarge
                        && r->Err_0.message_spec() == payload_too_large(payload_len as nat, old(self).limits.max_file_bytes as nat)
                } else {
                    r is Ok
                }
            }),
    {
        self.sessions.ensure_editor_session(session_token, now, self.limits.session_ttl_secs)?;
        if !is_directory {
            check_write_allowed(true, payload_len, self.limits.max_file_bytes)?;
        }
        Ok(())
    }

    /// After the entry `path` was created on disk by a session: a file is
    /// tracked with its content (see `created`), and the creation is audited.
    pub fn finish_create(&mut self, session_token: &str, path: &str, is_directory: bool, content: &str, now: u64) -> (r: IdeFsResult)
        requires
            old(self).wf(),
        ensures
            final(self).wf(),
            final(self).limits == old(self).limits,
            final(self).sessions.view_seq() == old(self).sessions.view_seq(),
            r.path@ == path@,
            r.kind@ == entry_kind(is_directory),
            is_directory ==> {
                &&& r.version is None
                &&& final(self).documents.view_seq() == old(self).documents.view_seq()
                &&& audit_log_view(final(self).audit@) == appended(audit_log_view(old(self).audit@),
                    audit_entry(now, session_token@, "create_directory"@, path@), MAX_FS_AUDIT_EVENTS as nat)
            },
            !is_directory ==> {
                let d = final(self).documents.view_seq();
                &&& d == created(old(self).documents.view_seq(), path@, content@, session_token@)
                &&& r.version == Some(d[doc_index(d, path@)].2)
                &&& audit_log_view(final(self).audit@) == appended(audit_log_view(old(self).audit@),
                    audit_entry(now, session_token@, "create_file"@, path@), MAX_FS_AUDIT_EVENTS as nat)
            },
    {
        if is_directory {
            record_fs_audit_event(&mut self.audit, session_token, "create_directory", path, now);
            return IdeFsResult { path: path.to_owned(), kind: entry_kind_exec(true), version: None };
        }
        let version = self.documents.track_created(session_token, path, content);
        record_fs_audit_event(&mut self.audit, session_token, "create_file", path, now);
        IdeFsResult { path: path.to_owned(), kind: entry_kind_exec(false), version: Some(version) }
    }

    /// After the entry `from` (a directory when `is_dir`) was renamed to `to` on
    /// disk by a session: the documents follow it (see `renamed_docs`), and the
    /// rename is audited as `from -> to`.
    pub fn finish_rename(&mut self, session_token: &str, from: &str, to: &str, is_dir: bool, now: u64) -> (r: IdeFsResult)
        requires
            old(self).wf(),
        ensures
            final(self).wf(),
            final(self).limits == old(self).limits,
            final(self).sessions.view_seq() == old(self).sessions.view_seq(),
            final(self).documents.view_seq() == renamed_docs(
                old(self).documents.view_seq(), old(self).documents.view_seq(), from@, to@, is_dir),
            audit_log_view(final(self).audit@) == appended(audit_log_view(old(self).audit@),
                audit_entry(now, session_token@, "rename_path"@, from@ + " -> "@ + to@), MAX_FS_AUDIT_EVENTS as nat),
            r.path@ == to@,
            r.kind@ == entry_kind(is_dir),
            r.version is None,
    {
        self.documents.rename(from, to, is_dir);
        let mut subject = from.to_owned();
        push_str(&mut subject, " -> ");
        push_str(&mut subject, to);
        record_fs_audit_event(&mut self.audit, session_token, "rename_path", subject.as_str(), now);
        IdeFsResult { path: to.to_owned(), kind: entry_kind_exec(is_dir), version: None }
    }

    /// After the entry `path` (a directory when `is_dir`) was deleted on disk by
    /// a session: its documents are forgotten (see `forgotten`), and the
    /// deletion is audited.
    pub fn finish_delete(&mut self, session_token: &str, path: &str, is_dir: bool, now: u64) -> (r: IdeFsResult)
        requires
            old(self).wf(),
        ensures
            final(self).wf(),
            final(self).limits == old(self).limits,
            final(self).sessions.view_seq() == old(self).sessions.view_seq(),
            final(self).documents.view_seq() == forgotten(old(self).documents.view_seq(), path@, is_dir),
            audit_log_view(final(self).audit@) == appended(audit_log_view(old(self).audit@),
                audit_entry(now, session_token@, "delete_path"@, path@), MAX_FS_AUDIT_EVENTS as nat),
            r.path@ == path@,
            r.kind@ == entry_kind(is_dir),
            r.version is None,
    {
        self.documents.forget(path, is_dir);
        record_fs_audit_event(&mut self.audit, session_token, "delete_path", path, now);
        IdeFsResult { path: path.to_owned(), kind: entry_kind_exec(is_dir), version: None }
    }

    /// The newest audit events, newest first, for a live session.
    pub fn fs_audit(&mut self, session_token: &str, limit: usize, now: u64) -> (r: Result<Vec<IdeFsAuditRecord>, IdeError>)
        requires
            old(self).wf(),
        ensures
            final(self).wf(),
            final(self).limits == old(self).limits,
            final(self).audit@ == old(self).audit@,
            final(self).documents.view_seq() == old(self).documents.view_seq(),
            ({
                let p = live_sessions(old(self).sessions.view_seq(), now);
                let i = session_index(p, session_token@);
                match r {
                    Ok(events) => i >= 0 && audit_log_view(events@) == recent_events(audit_log_view(old(self).audit@), limit),
                    Err(e) => i < 0 && e.kind_spec() == IdeErrorKind::Unauthorized,
                }
            }),
    {
        self.sessions.ensure_session(session_token, now, self.limits.session_ttl_secs)?;
        Ok(recent_audit_events(&self.audit, limit))
    }

    /// A snapshot of the IDE for a live session, taken after expired sessions
    /// are dropped and the caller's session renewed: how many sessions are live
    /// and how many of them are editors', how many documents are tracked and
    /// open, how many file changes were logged, the limits, and the total of the
    /// browsers' latest reports.
    pub fn health(&mut self, session_token: &str, telemetry: &TelemetryBySession, now: u64) -> (r: Result<WebIdeHealth, IdeError>)
        requires
            old(self).wf(),
            open_handle_count(old(self).documents.view_seq()) <= usize::MAX,
        ensures
            final(self).wf(),
            final(self).limits == old(self).limits,
            final(self).audit@ == old(self).audit@,
            final(self).documents.view_seq() == old(self).documents.view_seq(),
            ({
                let p = live_sessions(old(self).sessions.view_seq(), now);
                let i = session_index(p, session_token@);
                let docs = old(self).documents.view_seq();
                match r {
                    Ok(h) => {
                        &&& i >= 0
                        &&& final(self).sessions.view_seq() == p.update(i, (p[i].0, p[i].1, renewed(now, old(self).limits.session_ttl_secs)))
                        &&& h.active_sessions == p.len()
                        &&& h.editor_sessions == editor_count(p)
                        &&& h.tracked_documents == docs.len()
                        &&& h.open_document_handles == open_handle_count(docs)
                        &&& h.fs_mutation_events == old(self).audit@.len()
                        &&& h.limits == old(self).limits
                        &&& h.frontend_telemetry == total_spec(telemetry.reports_spec())
                    },
                    Err(e) => i < 0 && e.kind_spec() == IdeErrorKind::Unauthorized,
                }
            }),
    {
        let ghost p = live_sessions(self.sessions.view_seq(), now);
        let ghost i = session_index(p, session_token@);
        self.sessions.ensure_session(session_token, now, self.limits.session_ttl_secs)?;
        proof {
            lemma_session_index(p, session_token@);
            lemma_editor_count_renewed(p, i, renewed(now, self.limits.session_ttl_secs));
        }
        let limits = WebIdeLimits {
            session_ttl_secs: self.limits.session_ttl_secs,
            max_sessions: self.limits.max_sessions,
            max_file_bytes: self.limits.max_file_bytes,
        };
        Ok(WebIdeHealth {
            active_sessions: self.sessions.len(),
            editor_sessions: self.sessions.editor_count(),
            tracked_documents: self.documents.len(),
            open_document_handles: self.documents.open_handles(),
            fs_mutation_events: self.audit.len(),
            limits,
            frontend_telemetry: telemetry.total(),
        })
    }

    /// Refuses a session that is not a live editor's.
    pub fn require_editor_session(&mut self, session_token: &str, now: u64) -> (r: Result<(), IdeError>)
        requires
            old(self).wf(),
        ensures
            final(self).wf(),
            final(self).limits == old(self).limits,
            final(self).audit@ == old(self).audit@,
            final(self).documents.view_seq() == old(self).documents.view_seq(),
            ({
                let p = live_sessions(old(self).sessions.view_seq(), now);
                let i = session_index(p, session_token@);
                r is Ok <==> (i >= 0 && p[i].1 == IdeRole::Editor)
            }),
    {
        self.sessions.ensure_editor_session(session_token, now, self.limits.session_ttl_secs)
    }
}

/// A read gives back what a write wrote: once `content` was written over the
/// document at `path`, opening the file (which now reads `content`) finds the
/// document at the version the write returned, with that content, and changes
/// nothing.
pub proof fn law_read_after_write(
    s: Seq<(Seq<char>, Seq<char>, u64, Set<Seq<char>>)>,
    path: Seq<char>,
    disk: Seq<char>,
    content: Seq<char>,
    writer: Seq<char>,
)
    requires
        crate::ide::documents::distinct_paths(s),
    ensures
        ({
            let o = observed(s, path, disk);
            let i = doc_index(o, path);
            let w = o.update(i, (o[i].0, content, bump(o[i].2), o[i].3.insert(writer)));
            &&& doc_index(w, path) == i
            &&& w[i].1 == content
            &&& w[i].2 == bump(o[i].2)
            &&& observed(w, path, content) == w
        }),
{
    let o = observed(s, path, disk);
    crate::ide::documents::lemma_observed_index(s, path, disk);
    crate::ide::documents::lemma_doc_index(o, path);
    let i = doc_index(o, path);
    let w = o.update(i, (o[i].0, content, bump(o[i].2), o[i].3.insert(writer)));
    assert forall|k: int| 0 <= k < o.len() implies (#[trigger] o[k]).0 == w[k].0 by {}
    lemma_doc_index_same_paths(o, w, path);
}

} // verus!
