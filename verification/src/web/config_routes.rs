//! The project-configuration API of the standalone IDE server: which request
//! reaches which route and what role it needs, the answer to a request that
//! may not proceed, the stale-write check of a configuration write, and the
//! error answers of a failed write.
use vstd::prelude::*;
use vstd::string::StringSliceAdditionalSpecFns;

use crate::pairing::PairingStore;
use crate::security::AccessRole;
use crate::text::{chars_of, chars_eq_str, starts_with, starts_with_str, trim, trim_chars};
use crate::web::auth::{check_auth_spec, check_auth_with_role, auth_error_status, opt_string_view, opt_view, resolve_role_spec};
use crate::web::config_ui::{lower_hex, sha256, text_revision};
use crate::web::server::WebServerMode;

verus! {

/// The method of a request, as far as the routes tell methods apart.
#[derive(Debug, Clone, Copy, PartialEq, Eq, Structural)]
pub enum HttpMethod {
    Get,
    Post,
    Other,
}

/// The routes of the project-configuration API.
#[derive(Debug, Clone, Copy, PartialEq, Eq, Structural)]
pub enum ConfigUiRoute {
    RuntimeCloudState,
    RuntimeCloudConfig,
    RuntimeCloudRollouts,
    LifecycleState,
    LifecycleApply,
    LiveTargetsList,
    LiveTargetUpsert,
    LiveTargetRemove,
    RuntimeCloudIoConfigRead,
    RuntimeCloudIoConfigWrite,
    IoConfigRead,
    IoConfigWrite,
    ProjectState,
    RuntimeCreate,
    RuntimeDelete,
    RuntimeConfigRead,
    RuntimeConfigWrite,
    RuntimeIoConfigRead,
    RuntimeIoConfigWrite,
    SourceList,
    SourceRead,
    SourceWrite,
    SourceValidate,
    TopologyProjected,
    LiveConnect,
    LiveState,
}

/// The request is `want` and its URL is `pattern` (or, for a `prefix` route,
/// starts with it).
pub open spec fn hit(method: HttpMethod, url: Seq<char>, want: HttpMethod, pattern: Seq<char>, prefix: bool) -> bool {
    method == want && (if prefix { starts_with(url, pattern) } else { url == pattern })
}

pub(crate) fn hit_exec(method: HttpMethod, url: &[char], want: HttpMethod, pattern: &str, prefix: bool) -> (r: bool)
    ensures
        r == hit(method, url@, want, pattern@, prefix),
{
    if method != want {
        return false;
    }
    if prefix {
        starts_with_str(url, pattern)
    } else {
        chars_eq_str(url, pattern)
    }
}

/// The route a request reaches and the role it needs; only a standalone IDE
/// server serves these routes. The first matching route wins.
pub open spec fn config_ui_route_spec(mode: WebServerMode, method: HttpMethod, url: Seq<char>) -> Option<(ConfigUiRoute, AccessRole)> {
    if mode != WebServerMode::StandaloneIde {
        None
    } else {
        routes_table(method, url)
    }
}

pub open spec fn routes_table(method: HttpMethod, url: Seq<char>) -> Option<(ConfigUiRoute, AccessRole)> {
    if hit(method, url, HttpMethod::Get, "/api/runtime-cloud/state"@, false) {
        Some((ConfigUiRoute::RuntimeCloudState, AccessRole::Viewer))
    } else if hit(method, url, HttpMethod::Get, "/api/runtime-cloud/config"@, false) {
        Some((ConfigUiRoute::RuntimeCloudConfig, AccessRole::Viewer))
    } else if hit(method, url, HttpMethod::Get, "/api/runtime-cloud/rollouts"@, false) {
        Some((ConfigUiRoute::RuntimeCloudRollouts, AccessRole::Viewer))
    } else if hit(method, url, HttpMethod::Get, "/api/config-ui/runtime/lifecycle"@, true) {
        Some((ConfigUiRoute::LifecycleState, AccessRole::Viewer))
    } else if hit(method, url, HttpMethod::Post, "/api/config-ui/runtime/lifecycle"@, false) {
        Some((ConfigUiRoute::LifecycleApply, AccessRole::Engineer))
    } else if hit(method, url, HttpMethod::Get, "/api/config-ui/live/targets"@, false) {
        Some((ConfigUiRoute::LiveTargetsList, AccessRole::Viewer))
    } else if hit(method, url, HttpMethod::Post, "/api/config-ui/live/targets"@, false) {
        Some((ConfigUiRoute::LiveTargetUpsert, AccessRole::Engineer))
    } else if hit(method, url, HttpMethod::Post, "/api/config-ui/live/targets/remove"@, false) {
        Some((ConfigUiRoute::LiveTargetRemove, AccessRole::Engineer))
    } else if hit(method, url, HttpMethod::Get, "/api/runtime-cloud/io/config"@, true) {
        Some((ConfigUiRoute::RuntimeCloudIoConfigRead, AccessRole::Viewer))
    } else if hit(method, url, HttpMethod::Post, "/api/runtime-cloud/io/config"@, false) {
        Some((ConfigUiRoute::RuntimeCloudIoConfigWrite, AccessRole::Engineer))
    } else if hit(method, url, HttpMethod::Get, "/api/io/config"@, false) {
        Some((ConfigUiRoute::IoConfigRead, AccessRole::Viewer))
    } else if hit(method, url, HttpMethod::Post, "/api/io/config"@, false) {
        Some((ConfigUiRoute::IoConfigWrite, AccessRole::Engineer))
    } else if hit(method, url, HttpMethod::Get, "/api/config-ui/project/state"@, false) {
        Some((ConfigUiRoute::ProjectState, AccessRole::Viewer))
    } else if hit(method, url, HttpMethod::Post, "/api/config-ui/runtime/create"@, false) {
        Some((ConfigUiRoute::RuntimeCreate, AccessRole::Engineer))
    } else if hit(method, url, HttpMethod::Post, "/api/config-ui/runtime/delete"@, false) {
        Some((ConfigUiRoute::RuntimeDelete, AccessRole::Engineer))
    } else if hit(method, url, HttpMethod::Get, "/api/config-ui/runtime/config"@, true) {
        Some((ConfigUiRoute::RuntimeConfigRead, AccessRole::Viewer))
    } else if hit(method, url, HttpMethod::Post, "/api/config-ui/runtime/config"@, false) {
        Some((ConfigUiRoute::RuntimeConfigWrite, AccessRole::Engineer))
    } else if hit(method, url, HttpMethod::Get, "/api/config-ui/io/config"@, true) {
        Some((ConfigUiRoute::RuntimeIoConfigRead, AccessRole::Viewer))
    } else if hit(method, url, HttpMethod::Post, "/api/config-ui/io/config"@, false) {
        Some((ConfigUiRoute::RuntimeIoConfigWrite, AccessRole::Engineer))
    } else if hit(method, url, HttpMethod::Get, "/api/config-ui/st/files"@, true) {
        Some((ConfigUiRoute::SourceList, AccessRole::Viewer))
    } else if hit(method, url, HttpMethod::Get, "/api/config-ui/st/file"@, true) {
        Some((ConfigUiRoute::SourceRead, AccessRole::Viewer))
    } else if hit(method, url, HttpMethod::Post, "/api/config-ui/st/file"@, false) {
        Some((ConfigUiRoute::SourceWrite, AccessRole::Engineer))
    } else if hit(method, url, HttpMethod::Post, "/api/config-ui/st/validate"@, false) {
        Some((ConfigUiRoute::SourceValidate, AccessRole::Engineer))
    } else if hit(method, url, HttpMethod::Get, "/api/config-ui/topology/projected"@, false) {
        Some((ConfigUiRoute::TopologyProjected, AccessRole::Viewer))
    } else if hit(method, url, HttpMethod::Post, "/api/config-ui/live/connect"@, false) {
        Some((ConfigUiRoute::LiveConnect, AccessRole::Engineer))
    } else if hit(method, url, HttpMethod::Get, "/api/config-ui/live/state"@, true) {
        Some((ConfigUiRoute::LiveState, AccessRole::Viewer))
    } else {
        None
    }
}

fn routes_table_exec(method: HttpMethod, u: &Vec<char>) -> (r: Option<(ConfigUiRoute, AccessRole)>)
    ensures
        r == routes_table(method, u@),
{
    if hit_exec(method, u.as_slice(), HttpMethod::Get, "/api/runtime-cloud/state", false) {
        Some((ConfigUiRoute::RuntimeCloudState, AccessRole::Viewer))
    } else if hit_exec(method, u.as_slice(), HttpMethod::Get, "/api/runtime-cloud/config", false) {
        Some((ConfigUiRoute::RuntimeCloudConfig, AccessRole::Viewer))
    } else if hit_exec(method, u.as_slice(), HttpMethod::Get, "/api/runtime-cloud/rollouts", false) {
        Some((ConfigUiRoute::RuntimeCloudRollouts, AccessRole::Viewer))
    } else if hit_exec(method, u.as_slice(), HttpMethod::Get, "/api/config-ui/runtime/lifecycle", true) {
        Some((ConfigUiRoute::LifecycleState, AccessRole::Viewer))
    } else if hit_exec(method, u.as_slice(), HttpMethod::Post, "/api/config-ui/runtime/lifecycle", false) {
        Some((ConfigUiRoute::LifecycleApply, AccessRole::Engineer))
    } else if hit_exec(method, u.as_slice(), HttpMethod::Get, "/api/config-ui/live/targets", false) {
        Some((ConfigUiRoute::LiveTargetsList, AccessRole::Viewer))
    } else if hit_exec(method, u.as_slice(), HttpMethod::Post, "/api/config-ui/live/targets", false) {
        Some((ConfigUiRoute::LiveTargetUpsert, AccessRole::Engineer))
    } else if hit_exec(method, u.as_slice(), HttpMethod::Post, "/api/config-ui/live/targets/remove", false) {
        Some((ConfigUiRoute::LiveTargetRemove, AccessRole::Engineer))
    } else if hit_exec(method, u.as_slice(), HttpMethod::Get, "/api/runtime-cloud/io/config", true) {
        Some((ConfigUiRoute::RuntimeCloudIoConfigRead, AccessRole::Viewer))
    } else if hit_exec(method, u.as_slice(), HttpMethod::Post, "/api/runtime-cloud/io/config", false) {
        Some((ConfigUiRoute::RuntimeCloudIoConfigWrite, AccessRole::Engineer))
    } else if hit_exec(method, u.as_slice(), HttpMethod::Get, "/api/io/config", false) {
        Some((ConfigUiRoute::IoConfigRead, AccessRole::Viewer))
    } else if hit_exec(method, u.as_slice(), HttpMethod::Post, "/api/io/config", false) {
        Some((ConfigUiRoute::IoConfigWrite, AccessRole::Engineer))
    } else if hit_exec(method, u.as_slice(), HttpMethod::Get, "/api/config-ui/project/state", false) {
        Some((ConfigUiRoute::ProjectState, AccessRole::Viewer))
    } else if hit_exec(method, u.as_slice(), HttpMethod::Post, "/api/config-ui/runtime/create", false) {
        Some((ConfigUiRoute::RuntimeCreate, AccessRole::Engineer))
    } else if hit_exec(method, u.as_slice(), HttpMethod::Post, "/api/config-ui/runtime/delete", false) {
        Some((ConfigUiRoute::RuntimeDelete, AccessRole::Engineer))
    } else if hit_exec(method, u.as_slice(), HttpMethod::Get, "/api/config-ui/runtime/config", true) {
        Some((ConfigUiRoute::RuntimeConfigRead, AccessRole::Viewer))
    } else if hit_exec(method, u.as_slice(), HttpMethod::Post, "/api/config-ui/runtime/config", false) {
        Some((ConfigUiRoute::RuntimeConfigWrite, AccessRole::Engineer))
    } else if hit_exec(method, u.as_slice(), HttpMethod::Get, "/api/config-ui/io/config", true) {
        Some((ConfigUiRoute::RuntimeIoConfigRead, AccessRole::Viewer))
    } else if hit_exec(method, u.as_slice(), HttpMethod::Post, "/api/config-ui/io/config", false) {
        Some((ConfigUiRoute::RuntimeIoConfigWrite, AccessRole::Engineer))
    } else if hit_exec(method, u.as_slice(), HttpMethod::Get, "/api/config-ui/st/files", true) {
        Some((ConfigUiRoute::SourceList, AccessRole::Viewer))
    } else if hit_exec(method, u.as_slice(), HttpMethod::Get, "/api/config-ui/st/file", true) {
        Some((ConfigUiRoute::SourceRead, AccessRole::Viewer))
    } else if hit_exec(method, u.as_slice(), HttpMethod::Post, "/api/config-ui/st/file", false) {
        Some((ConfigUiRoute::SourceWrite, AccessRole::Engineer))
    } else if hit_exec(method, u.as_slice(), HttpMethod::Post, "/api/config-ui/st/validate", false) {
        Some((ConfigUiRoute::SourceValidate, AccessRole::Engineer))
    } else if hit_exec(method, u.as_slice(), HttpMethod::Get, "/api/config-ui/topology/projected", false) {
        Some((ConfigUiRoute::TopologyProjected, AccessRole::Viewer))
    } else if hit_exec(method, u.as_slice(), HttpMethod::Post, "/api/config-ui/live/connect", false) {
        Some((ConfigUiRoute::LiveConnect, AccessRole::Engineer))
    } else if hit_exec(method, u.as_slice(), HttpMethod::Get, "/api/config-ui/live/state", true) {
        Some((ConfigUiRoute::LiveState, AccessRole::Viewer))
    } else {
        None
    }
}

/// The route that `method` and `url` reach on a server in `mode`, with the role
/// it needs; `None` where the request is not one of this API.
pub fn config_ui_route_access(mode: WebServerMode, method: HttpMethod, url: &str) -> (r: Option<(ConfigUiRoute, AccessRole)>)
    ensures
        r == config_ui_route_spec(mode, method, url@),
{
    if mode != WebServerMode::StandaloneIde {
        return None;
    }
    let u = chars_of(url);
    routes_table_exec(method, &u)
}

/// What becomes of a request to the configuration API before its body is read.
#[derive(Debug)]
pub enum ConfigUiDecision {
    /// Not a route of this API: another handler takes it.
    NotHandled,
    /// Answered at once with this status: 401 without a role, 403 with one too low.
    Refused(u16),
    /// Goes on to the route, acting with this role and token.
    Proceed(ConfigUiRoute, AccessRole, Option<String>),
}

/// Routes a request and authenticates it: the route decides the role needed,
/// and a request without that role is answered 401 or 403 before anything else
/// happens.
pub fn config_ui_authorize(
    mode: WebServerMode,
    method: HttpMethod,
    url: &str,
    local: bool,
    expected: Option<&str>,
    provided: Option<&str>,
    pairing: Option<&mut PairingStore>,
    now: u64,
) -> (r: ConfigUiDecision)
    ensures
        match config_ui_route_spec(mode, method, url@) {
            None => r is NotHandled,
            Some((route, required)) => match check_auth_spec(
                resolve_role_spec(
                    local,
                    opt_view(expected),
                    opt_view(provided),
                    match pairing { Some(p) => Some(p.tokens_spec()), None => None },
                    now,
                ),
                required,
            ) {
                Ok((role, tok)) => r matches ConfigUiDecision::Proceed(rr, ro, t)
                    && rr == route && ro == role && opt_string_view(t) == tok,
                Err(e) => r == ConfigUiDecision::Refused(if e == "forbidden"@ { 403u16 } else { 401u16 }),
            },
        },
{
    match config_ui_route_access(mode, method, url) {
        None => ConfigUiDecision::NotHandled,
        Some((route, required)) => match check_auth_with_role(local, expected, provided, pairing, now, required) {
            Ok((role, tok)) => ConfigUiDecision::Proceed(route, role, tok),
            Err(e) => ConfigUiDecision::Refused(auth_error_status(e)),
        },
    }
}

/// The stale-write check of a configuration write: the writer's expected
/// revision (trimmed) must be the revision of the text on disk. Without an
/// expected revision the write goes ahead; so does a blank one where
/// `skip_blank` (the runtime and I/O configuration files) but not for a source
/// file. A refusal carries the current revision.
pub open spec fn revision_check_spec(expected: Option<Seq<char>>, current: Seq<char>, skip_blank: bool) -> Result<(), Seq<char>> {
    match expected {
        None => Ok(()),
        Some(e) => if skip_blank && trim(e).len() == 0 {
            Ok(())
        } else if trim(e) == current {
            Ok(())
        } else {
            Err(current)
        },
    }
}

/// Checks the expected revision of a write against the text now on disk.
pub fn expected_revision_check(expected: Option<&str>, current_text: &str, skip_blank: bool) -> (r: Result<(), String>)
    ensures
        match (r, revision_check_spec(opt_view(expected), lower_hex(sha256(current_text.spec_bytes())), skip_blank)) {
            (Ok(()), Ok(())) => true,
            (Err(a), Err(b)) => a@ == b,
            _ => false,
        },
        r matches Err(c) ==> c@.len() == 64,
{
    let current = text_revision(current_text);
    match expected {
        None => Ok(()),
        Some(e) => {
            let t = trim_chars(chars_of(e).as_slice());
            if skip_blank && t.len() == 0 {
                Ok(())
            } else if chars_eq_str(t.as_slice(), current.as_str()) {
                Ok(())
            } else {
                Err(current)
            }
        },
    }
}

/// Why a configuration write failed: a stale revision (with the current one),
/// or another failure with its message.
#[derive(Debug)]
pub enum ConfigWriteError {
    Conflict(String),
    Failed(String),
}

/// A structured error answer: status, code, message, the field it concerns with
/// a hint, and the current revision of a conflict.
#[derive(Debug)]
pub struct StructuredErrorReply {
    pub status: u16,
    pub code: &'static str,
    pub message: String,
    pub field: Option<(&'static str, &'static str)>,
    pub current_revision: Option<String>,
}

/// The answer to a failed write: a conflict is 409 `conflict` naming the
/// expected revision and carrying the current one; any other failure is 400
/// with `failure_code` and its message, naming the path where `path_hint`.
pub fn config_write_error_reply(err: ConfigWriteError, failure_code: &'static str, path_hint: bool) -> (r: StructuredErrorReply)
    ensures
        match err {
            ConfigWriteError::Conflict(rev) => {
                &&& r.status == 409
                &&& r.code@ == "conflict"@
                &&& r.message@ == "stale write conflict"@
                &&& r.field matches Some((p, h)) && p@ == "expected_revision"@ && h@ == "refresh and retry"@
                &&& r.current_revision matches Some(c) && c@ == rev@
            },
            ConfigWriteError::Failed(m) => {
                &&& r.status == 400
                &&& r.code@ == failure_code@
                &&& r.message@ == m@
                &&& (path_hint ==> (r.field matches Some((p, h)) && p@ == "path"@
                    && h@ == "Path must stay under src/ and end with .st"@))
                &&& (!path_hint ==> r.field is None)
                &&& r.current_revision is None
            },
        },
{
    match err {
        ConfigWriteError::Conflict(rev) => StructuredErrorReply {
            status: 409,
            code: "conflict",
            message: "stale write conflict".to_owned(),
            field: Some(("expected_revision", "refresh and retry")),
            current_revision: Some(rev),
        },
        ConfigWriteError::Failed(m) => StructuredErrorReply {
            status: 400,
            code: failure_code,
            message: m,
            field: if path_hint { Some(("path", "Path must stay under src/ and end with .st")) } else { None },
            current_revision: None,
        },
    }
}

} // verus!
