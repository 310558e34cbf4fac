//! Web IDE roles, errors and the records its operations return.
use vstd::prelude::*;

use crate::text::{chars_eq_str, chars_of, decimal, decimal_chars, lower, lower_chars, push_chars, trim, trim_chars};

verus! {

/// Time a session stays valid without activity.
pub const SESSION_TTL_SECS: u64 = 900;

/// Most concurrent sessions.
pub const MAX_SESSIONS: usize = 16;

/// Largest source file the IDE reads or writes.
pub const MAX_FILE_BYTES: usize = 262_144;

/// Most filesystem audit events kept.
pub const MAX_FS_AUDIT_EVENTS: usize = 1024;

/// Access level of an IDE session.
#[derive(Debug, Clone, Copy, PartialEq, Eq, Structural)]
pub enum IdeRole {
    Viewer,
    Editor,
}

/// The role named by `text`, matched after trimming and ASCII case folding.
pub open spec fn ide_role_spec(text: Seq<char>) -> Option<IdeRole> {
    let key = lower(trim(text));
    if key == "viewer"@ || key == "read_only"@ || key == "readonly"@ {
        Some(IdeRole::Viewer)
    } else if key == "editor"@ || key == "authoring"@ {
        Some(IdeRole::Editor)
    } else {
        None
    }
}

impl IdeRole {
    pub fn parse(text: &str) -> (r: Option<Self>)
        ensures
            r == ide_role_spec(text@),
    {
        let raw = chars_of(text);
        let t = trim_chars(raw.as_slice());
        let key = lower_chars(t.as_slice());
        if chars_eq_str(key.as_slice(), "viewer") || chars_eq_str(key.as_slice(), "read_only")
            || chars_eq_str(key.as_slice(), "readonly") {
            Some(Self::Viewer)
        } else if chars_eq_str(key.as_slice(), "editor") || chars_eq_str(
            key.as_slice(),
            "authoring",
        ) {
            Some(Self::Editor)
        } else {
            None
        }
    }

    pub fn as_str(self) -> (r: &'static str)
        ensures
            r@ == (match self {
                IdeRole::Viewer => "viewer"@,
                IdeRole::Editor => "editor"@,
            }),
    {
        match self {
            Self::Viewer => "viewer",
            Self::Editor => "editor",
        }
    }
}

/// Kinds of IDE failures; each maps to one HTTP status.
#[derive(Debug, Clone, Copy, PartialEq, Eq, Structural)]
pub enum IdeErrorKind {
    Unauthorized,
    Forbidden,
    NotFound,
    Conflict,
    InvalidInput,
    TooLarge,
    LimitExceeded,
    Internal,
}

pub open spec fn status_for(kind: IdeErrorKind) -> u16 {
    match kind {
        IdeErrorKind::Unauthorized => 401,
        IdeErrorKind::Forbidden => 403,
        IdeErrorKind::NotFound => 404,
        IdeErrorKind::Conflict => 409,
        IdeErrorKind::InvalidInput => 400,
        IdeErrorKind::TooLarge => 413,
        IdeErrorKind::LimitExceeded => 429,
        IdeErrorKind::Internal => 500,
    }
}

/// An IDE failure: its kind, a message, and for an edit conflict the version the
/// document is at.
#[derive(Debug)]
pub struct IdeError {
    kind: IdeErrorKind,
    message: String,
    current_version: Option<u64>,
}

/// The message of a conflict at `version`.
pub open spec fn conflict_message(version: u64) -> Seq<char> {
    "edit conflict: current version is "@ + decimal(version as nat)
}

impl IdeError {
    pub closed spec fn kind_spec(&self) -> IdeErrorKind {
        self.kind
    }

    pub closed spec fn message_spec(&self) -> Seq<char> {
        self.message@
    }

    pub closed spec fn version_spec(&self) -> Option<u64> {
        self.current_version
    }

    pub fn new(kind: IdeErrorKind, message: String) -> (r: Self)
        ensures
            r.kind_spec() == kind,
            r.message_spec() == message@,
            r.version_spec().is_none(),
    {
        IdeError { kind, message, current_version: None }
    }

    pub fn conflict(current_version: u64) -> (r: Self)
        ensures
            r.kind_spec() == IdeErrorKind::Conflict,
            r.message_spec() == conflict_message(current_version),
            r.version_spec() == Some(current_version),
    {
        let mut message = String::new();
        push_chars(&mut message, chars_of("edit conflict: current version is ").as_slice());
        push_chars(&mut message, decimal_chars(current_version).as_slice());
        IdeError { kind: IdeErrorKind::Conflict, message, current_version: Some(current_version) }
    }

    pub fn kind(&self) -> (r: IdeErrorKind)
        ensures
            r == self.kind_spec(),
    {
        self.kind
    }

    /// The HTTP status answering this error.
    pub fn status_code(&self) -> (r: u16)
        ensures
            r == status_for(self.kind_spec()),
    {
        match self.kind {
            IdeErrorKind::Unauthorized => 401,
            IdeErrorKind::Forbidden => 403,
            IdeErrorKind::NotFound => 404,
            IdeErrorKind::Conflict => 409,
            IdeErrorKind::InvalidInput => 400,
            IdeErrorKind::TooLarge => 413,
            IdeErrorKind::LimitExceeded => 429,
            IdeErrorKind::Internal => 500,
        }
    }

    pub fn current_version(&self) -> (r: Option<u64>)
        ensures
            r == self.version_spec(),
    {
        self.current_version
    }

    /// The error's message (what it displays as).
    pub fn message(&self) -> (r: String)
        ensures
            r@ == self.message_spec(),
    {
        self.message.clone()
    }
}

/// An error whose message is a string literal.
pub fn ide_error(kind: IdeErrorKind, message: &str) -> (r: IdeError)
    ensures
        r.kind_spec() == kind,
        r.message_spec() == message@,
        r.version_spec().is_none(),
{
    let mut m = String::new();
    push_chars(&mut m, chars_of(message).as_slice());
    IdeError::new(kind, m)
}

/// Every kind of error answers with a client-error or server-error status, and
/// only `Internal` with a server error.
pub proof fn law_error_status_classes(kind: IdeErrorKind)
    ensures
        400 <= status_for(kind) < 600,
        status_for(kind) >= 500 <==> kind == IdeErrorKind::Internal,
{
}

#[derive(Debug)]
pub struct WebIdeLimits {
    pub session_ttl_secs: u64,
    pub max_sessions: usize,
    pub max_file_bytes: usize,
}

#[derive(Debug)]
pub struct WebIdeCapabilities {
    pub enabled: bool,
    pub mode: String,
    pub diagnostics_source: String,
    pub deployment_boundaries: Vec<String>,
    pub security_model: Vec<String>,
    pub limits: WebIdeLimits,
}

#[derive(Debug)]
pub struct IdeSession {
    pub token: String,
    pub role: String,
    pub expires_at: u64,
}

#[derive(Debug)]
pub struct IdeFileSnapshot {
    pub path: String,
    pub content: String,
    pub version: u64,
    pub read_only: bool,
}

#[derive(Debug)]
pub struct IdeWriteResult {
    pub path: String,
    pub version: u64,
}

#[derive(Debug)]
pub struct IdeFormatResult {
    pub path: String,
    pub content: String,
    pub changed: bool,
}

#[derive(Debug)]
pub struct IdeTreeNode {
    pub name: String,
    pub path: String,
    pub kind: String,
    pub children: Vec<IdeTreeNode>,
}

#[derive(Debug)]
pub struct IdeFsResult {
    pub path: String,
    pub kind: String,
    pub version: Option<u64>,
}

#[derive(Debug, Clone, Copy, PartialEq, Eq, Structural)]
pub struct IdePosition {
    pub line: u32,
    pub character: u32,
}

#[derive(Debug, Clone, Copy, PartialEq, Eq, Structural)]
pub struct IdeRange {
    pub start: IdePosition,
    pub end: IdePosition,
}

#[derive(Debug)]
pub struct IdeLocation {
    pub path: String,
    pub range: IdeRange,
}

#[derive(Debug)]
pub struct IdeSearchHit {
    pub path: String,
    pub line: u32,
    pub character: u32,
    pub preview: String,
}

#[derive(Debug)]
pub struct IdeSymbolHit {
    pub path: String,
    pub name: String,
    pub kind: String,
    pub line: u32,
    pub character: u32,
}

#[derive(Debug)]
pub struct IdeRenameResult {
    pub edit_count: usize,
    pub changed_files: Vec<IdeWriteResult>,
}

#[derive(Debug)]
pub struct IdeFsAuditRecord {
    pub ts_secs: u64,
    pub session: String,
    pub action: String,
    pub path: String,
}

#[derive(Debug, Clone, Copy, PartialEq, Eq, Structural)]
pub struct WebIdeFrontendTelemetry {
    pub bootstrap_failures: u64,
    pub analysis_timeouts: u64,
    pub worker_restarts: u64,
    pub autosave_failures: u64,
}

#[derive(Debug)]
pub struct WebIdeHealth {
    pub active_sessions: usize,
    pub editor_sessions: usize,
    pub tracked_documents: usize,
    pub open_document_handles: usize,
    pub fs_mutation_events: usize,
    pub limits: WebIdeLimits,
    pub frontend_telemetry: WebIdeFrontendTelemetry,
}

#[derive(Debug)]
pub struct IdeProjectSelection {
    pub active_project: Option<String>,
    pub startup_project: Option<String>,
}

#[derive(Debug)]
pub struct IdeBrowseEntry {
    pub name: String,
    pub path: String,
    pub kind: String,
    pub size: u64,
    pub st_count: Option<u32>,
}

#[derive(Debug)]
pub struct IdeBrowseResult {
    pub current_path: String,
    pub parent_path: Option<String>,
    pub entries: Vec<IdeBrowseEntry>,
}

} // verus!
