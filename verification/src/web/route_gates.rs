//! Which requests the IDE and operations APIs serve and what each must show
//! first: nothing, a web role, or a live IDE session; and the role of a new IDE
//! session.
use vstd::prelude::*;

use crate::ide::model::{ide_role_spec, IdeRole};
use crate::security::{role_rank, AccessRole};
use crate::web::config_routes::{hit, hit_exec, HttpMethod};
use crate::text::chars_of;

verus! {

/// What a request must show before a route serves it.
#[derive(Debug, Clone, Copy, PartialEq, Eq, Structural)]
pub enum RouteGate {
    /// Nothing: the route is open.
    Open,
    /// A web role at least this high.
    WebRole(AccessRole),
    /// A live IDE session, named in the `X-Trust-Ide-Session` header.
    IdeSession,
}

/// The routes of the IDE API.
#[derive(Debug, Clone, Copy, PartialEq, Eq, Structural)]
pub enum IdeRoute {
    Program,
    Source,
    Capabilities,
    CreateSession,
    ProjectInfo,
    IoConfigRead,
    IoConfigWrite,
    ProjectCreate,
    ProjectOpen,
    ListFiles,
    Tree,
    Browse,
    ReadFile,
    WriteFile,
    CreateEntry,
    RenameEntry,
    DeleteEntry,
    FsAudit,
    Health,
    FrontendTelemetry,
    PresenceModel,
    Diagnostics,
    Hover,
    Completion,
    Definition,
    References,
    RenameSymbol,
    Search,
    Symbols,
    Format,
    Build,
    Test,
    Validate,
    TaskStatus,
}

/// The routes of the operations API.
#[derive(Debug, Clone, Copy, PartialEq, Eq, Structural)]
pub enum OpsRoute {
    ListPairings,
    StartPairing,
    ClaimPairing,
    Invite,
    Events,
    Faults,
    Deploy,
    Rollback,
    Control,
}

/// The IDE route a request reaches and what it must show; the first matching
/// route wins.
pub open spec fn ide_route_spec(method: HttpMethod, url: Seq<char>) -> Option<(IdeRoute, RouteGate)> {
    if hit(method, url, HttpMethod::Get, "/api/program"@, false) {
        Some((IdeRoute::Program, RouteGate::Open))
    } else if hit(method, url, HttpMethod::Get, "/api/source"@, true) {
        Some((IdeRoute::Source, RouteGate::Open))
    } else if hit(method, url, HttpMethod::Get, "/api/ide/capabilities"@, false) {
        Some((IdeRoute::Capabilities, RouteGate::WebRole(AccessRole::Viewer)))
    } else if hit(method, url, HttpMethod::Post, "/api/ide/session"@, false) {
        Some((IdeRoute::CreateSession, RouteGate::WebRole(AccessRole::Viewer)))
    } else if hit(method, url, HttpMethod::Get, "/api/ide/project"@, false) {
        Some((IdeRoute::ProjectInfo, RouteGate::IdeSession))
    } else if hit(method, url, HttpMethod::Get, "/api/ide/io/config"@, false) {
        Some((IdeRoute::IoConfigRead, RouteGate::IdeSession))
    } else if hit(method, url, HttpMethod::Post, "/api/ide/io/config"@, false) {
        Some((IdeRoute::IoConfigWrite, RouteGate::IdeSession))
    } else if hit(method, url, HttpMethod::Post, "/api/ide/project/create"@, false) {
        Some((IdeRoute::ProjectCreate, RouteGate::IdeSession))
    } else if hit(method, url, HttpMethod::Post, "/api/ide/project/open"@, false) {
        Some((IdeRoute::ProjectOpen, RouteGate::IdeSession))
    } else if hit(method, url, HttpMethod::Get, "/api/ide/files"@, false) {
        Some((IdeRoute::ListFiles, RouteGate::IdeSession))
    } else if hit(method, url, HttpMethod::Get, "/api/ide/tree"@, false) {
        Some((IdeRoute::Tree, RouteGate::IdeSession))
    } else if hit(method, url, HttpMethod::Get, "/api/ide/browse"@, true) {
        Some((IdeRoute::Browse, RouteGate::IdeSession))
    } else if hit(method, url, HttpMethod::Get, "/api/ide/file"@, true) {
        Some((IdeRoute::ReadFile, RouteGate::IdeSession))
    } else if hit(method, url, HttpMethod::Post, "/api/ide/file"@, false) {
        Some((IdeRoute::WriteFile, RouteGate::IdeSession))
    } else if hit(method, url, HttpMethod::Post, "/api/ide/fs/create"@, false) {
        Some((IdeRoute::CreateEntry, RouteGate::IdeSession))
    } else if hit(method, url, HttpMethod::Post, "/api/ide/fs/rename"@, false) {
        Some((IdeRoute::RenameEntry, RouteGate::IdeSession))
    } else if hit(method, url, HttpMethod::Post, "/api/ide/fs/move"@, false) {
        Some((IdeRoute::RenameEntry, RouteGate::IdeSession))
    } else if hit(method, url, HttpMethod::Post, "/api/ide/fs/delete"@, false) {
        Some((IdeRoute::DeleteEntry, RouteGate::IdeSession))
    } else if hit(method, url, HttpMethod::Get, "/api/ide/fs/audit"@, true) {
        Some((IdeRoute::FsAudit, RouteGate::IdeSession))
    } else if hit(method, url, HttpMethod::Get, "/api/ide/health"@, false) {
        Some((IdeRoute::Health, RouteGate::IdeSession))
    } else if hit(method, url, HttpMethod::Post, "/api/ide/frontend-telemetry"@, false) {
        Some((IdeRoute::FrontendTelemetry, RouteGate::IdeSession))
    } else if hit(method, url, HttpMethod::Get, "/api/ide/presence-model"@, false) {
        Some((IdeRoute::PresenceModel, RouteGate::IdeSession))
    } else if hit(method, url, HttpMethod::Post, "/api/ide/diagnostics"@, false) {
        Some((IdeRoute::Diagnostics, RouteGate::IdeSession))
    } else if hit(method, url, HttpMethod::Post, "/api/ide/hover"@, false) {
        Some((IdeRoute::Hover, RouteGate::IdeSession))
    } else if hit(method, url, HttpMethod::Post, "/api/ide/completion"@, false) {
        Some((IdeRoute::Completion, RouteGate::IdeSession))
    } else if hit(method, url, HttpMethod::Post, "/api/ide/definition"@, false) {
        Some((IdeRoute::Definition, RouteGate::IdeSession))
    } else if hit(method, url, HttpMethod::Post, "/api/ide/references"@, false) {
        Some((IdeRoute::References, RouteGate::IdeSession))
    } else if hit(method, url, HttpMethod::Post, "/api/ide/rename"@, false) {
        Some((IdeRoute::RenameSymbol, RouteGate::IdeSession))
    } else if hit(method, url, HttpMethod::Get, "/api/ide/search"@, true) {
        Some((IdeRoute::Search, RouteGate::IdeSession))
    } else if hit(method, url, HttpMethod::Get, "/api/ide/symbols"@, true) {
        Some((IdeRoute::Symbols, RouteGate::IdeSession))
    } else if hit(method, url, HttpMethod::Post, "/api/ide/format"@, false) {
        Some((IdeRoute::Format, RouteGate::IdeSession))
    } else if hit(method, url, HttpMethod::Post, "/api/ide/build"@, false) {
        Some((IdeRoute::Build, RouteGate::IdeSession))
    } else if hit(method, url, HttpMethod::Post, "/api/ide/test"@, false) {
        Some((IdeRoute::Test, RouteGate::IdeSession))
    } else if hit(method, url, HttpMethod::Post, "/api/ide/validate"@, false) {
        Some((IdeRoute::Validate, RouteGate::IdeSession))
    } else if hit(method, url, HttpMethod::Get, "/api/ide/task"@, true) {
        Some((IdeRoute::TaskStatus, RouteGate::IdeSession))
    } else {
        None
    }
}

/// The operations route a request reaches and what it must show.
pub open spec fn ops_route_spec(method: HttpMethod, url: Seq<char>) -> Option<(OpsRoute, RouteGate)> {
    if hit(method, url, HttpMethod::Get, "/api/pairings"@, false) {
        Some((OpsRoute::ListPairings, RouteGate::WebRole(AccessRole::Admin)))
    } else if hit(method, url, HttpMethod::Post, "/api/pair/start"@, false) {
        Some((OpsRoute::StartPairing, RouteGate::WebRole(AccessRole::Admin)))
    } else if hit(method, url, HttpMethod::Post, "/api/pair/claim"@, false) {
        Some((OpsRoute::ClaimPairing, RouteGate::Open))
    } else if hit(method, url, HttpMethod::Get, "/api/invite"@, false) {
        Some((OpsRoute::Invite, RouteGate::WebRole(AccessRole::Admin)))
    } else if hit(method, url, HttpMethod::Get, "/api/events"@, true) {
        Some((OpsRoute::Events, RouteGate::WebRole(AccessRole::Viewer)))
    } else if hit(method, url, HttpMethod::Get, "/api/faults"@, true) {
        Some((OpsRoute::Faults, RouteGate::WebRole(AccessRole::Viewer)))
    } else if hit(method, url, HttpMethod::Post, "/api/deploy"@, false) {
        Some((OpsRoute::Deploy, RouteGate::WebRole(AccessRole::Admin)))
    } else if hit(method, url, HttpMethod::Post, "/api/rollback"@, false) {
        Some((OpsRoute::Rollback, RouteGate::WebRole(AccessRole::Admin)))
    } else if hit(method, url, HttpMethod::Post, "/api/control"@, false) {
        Some((OpsRoute::Control, RouteGate::WebRole(AccessRole::Viewer)))
    } else {
        None
    }
}

fn ide_route_exec(method: HttpMethod, u: &[char]) -> (r: Option<(IdeRoute, RouteGate)>)
    ensures
        r == ide_route_spec(method, u@),
{
    if hit_exec(method, u, HttpMethod::Get, "/api/program", false) {
        Some((IdeRoute::Program, RouteGate::Open))
    } else if hit_exec(method, u, HttpMethod::Get, "/api/source", true) {
        Some((IdeRoute::Source, RouteGate::Open))
    } else if hit_exec(method, u, HttpMethod::Get, "/api/ide/capabilities", false) {
        Some((IdeRoute::Capabilities, RouteGate::WebRole(AccessRole::Viewer)))
    } else if hit_exec(method, u, HttpMethod::Post, "/api/ide/session", false) {
        Some((IdeRoute::CreateSession, RouteGate::WebRole(AccessRole::Viewer)))
    } else if hit_exec(method, u, HttpMethod::Get, "/api/ide/project", false) {
        Some((IdeRoute::ProjectInfo, RouteGate::IdeSession))
    } else if hit_exec(method, u, HttpMethod::Get, "/api/ide/io/config", false) {
        Some((IdeRoute::IoConfigRead, RouteGate::IdeSession))
    } else if hit_exec(method, u, HttpMethod::Post, "/api/ide/io/config", false) {
        Some((IdeRoute::IoConfigWrite, RouteGate::IdeSession))
    } else if hit_exec(method, u, HttpMethod::Post, "/api/ide/project/create", false) {
        Some((IdeRoute::ProjectCreate, RouteGate::IdeSession))
    } else if hit_exec(method, u, HttpMethod::Post, "/api/ide/project/open", false) {
        Some((IdeRoute::ProjectOpen, RouteGate::IdeSession))
    } else if hit_exec(method, u, HttpMethod::Get, "/api/ide/files", false) {
        Some((IdeRoute::ListFiles, RouteGate::IdeSession))
    } else if hit_exec(method, u, HttpMethod::Get, "/api/ide/tree", false) {
        Some((IdeRoute::Tree, RouteGate::IdeSession))
    } else if hit_exec(method, u, HttpMethod::Get, "/api/ide/browse", true) {
        Some((IdeRoute::Browse, RouteGate::IdeSession))
    } else if hit_exec(method, u, HttpMethod::Get, "/api/ide/file", true) {
        Some((IdeRoute::ReadFile, RouteGate::IdeSession))
    } else if hit_exec(method, u, HttpMethod::Post, "/api/ide/file", false) {
        Some((IdeRoute::WriteFile, RouteGate::IdeSession))
    } else if hit_exec(method, u, HttpMethod::Post, "/api/ide/fs/create", false) {
        Some((IdeRoute::CreateEntry, RouteGate::IdeSession))
    } else if hit_exec(method, u, HttpMethod::Post, "/api/ide/fs/rename", false) {
        Some((IdeRoute::RenameEntry, RouteGate::IdeSession))
    } else if hit_exec(method, u, HttpMethod::Post, "/api/ide/fs/move", false) {
        Some((IdeRoute::RenameEntry, RouteGate::IdeSession))
    } else if hit_exec(method, u, HttpMethod::Post, "/api/ide/fs/delete", false) {
        Some((IdeRoute::DeleteEntry, RouteGate::IdeSession))
    } else if hit_exec(method, u, HttpMethod::Get, "/api/ide/fs/audit", true) {
        Some((IdeRoute::FsAudit, RouteGate::IdeSession))
    } else if hit_exec(method, u, HttpMethod::Get, "/api/ide/health", false) {
        Some((IdeRoute::Health, RouteGate::IdeSession))
    } else if hit_exec(method, u, HttpMethod::Post, "/api/ide/frontend-telemetry", false) {
        Some((IdeRoute::FrontendTelemetry, RouteGate::IdeSession))
    } else if hit_exec(method, u, HttpMethod::Get, "/api/ide/presence-model", false) {
        Some((IdeRoute::PresenceModel, RouteGate::IdeSession))
    } else if hit_exec(method, u, HttpMethod::Post, "/api/ide/diagnostics", false) {
        Some((IdeRoute::Diagnostics, RouteGate::IdeSession))
    } else if hit_exec(method, u, HttpMethod::Post, "/api/ide/hover", false) {
        Some((IdeRoute::Hover, RouteGate::IdeSession))
    } else if hit_exec(method, u, HttpMethod::Post, "/api/ide/completion", false) {
        Some((IdeRoute::Completion, RouteGate::IdeSession))
    } else if hit_exec(method, u, HttpMethod::Post, "/api/ide/definition", false) {
        Some((IdeRoute::Definition, RouteGate::IdeSession))
    } else if hit_exec(method, u, HttpMethod::Post, "/api/ide/references", false) {
        Some((IdeRoute::References, RouteGate::IdeSession))
    } else if hit_exec(method, u, HttpMethod::Post, "/api/ide/rename", false) {
        Some((IdeRoute::RenameSymbol, RouteGate::IdeSession))
    } else if hit_exec(method, u, HttpMethod::Get, "/api/ide/search", true) {
        Some((IdeRoute::Search, RouteGate::IdeSession))
    } else if hit_exec(method, u, HttpMethod::Get, "/api/ide/symbols", true) {
        Some((IdeRoute::Symbols, RouteGate::IdeSession))
    } else if hit_exec(method, u, HttpMethod::Post, "/api/ide/format", false) {
        Some((IdeRoute::Format, RouteGate::IdeSession))
    } else if hit_exec(method, u, HttpMethod::Post, "/api/ide/build", false) {
        Some((IdeRoute::Build, RouteGate::IdeSession))
    } else if hit_exec(method, u, HttpMethod::Post, "/api/ide/test", false) {
        Some((IdeRoute::Test, RouteGate::IdeSession))
    } else if hit_exec(method, u, HttpMethod::Post, "/api/ide/validate", false) {
        Some((IdeRoute::Validate, RouteGate::IdeSession))
    } else if hit_exec(method, u, HttpMethod::Get, "/api/ide/task", true) {
        Some((IdeRoute::TaskStatus, RouteGate::IdeSession))
    } else {
        None
    }
}

fn ops_route_exec(method: HttpMethod, u: &[char]) -> (r: Option<(OpsRoute, RouteGate)>)
    ensures
        r == ops_route_spec(method, u@),
{
    if hit_exec(method, u, HttpMethod::Get, "/api/pairings", false) {
        Some((OpsRoute::ListPairings, RouteGate::WebRole(AccessRole::Admin)))
    } else if hit_exec(method, u, HttpMethod::Post, "/api/pair/start", false) {
        Some((OpsRoute::StartPairing, RouteGate::WebRole(AccessRole::Admin)))
    } else if hit_exec(method, u, HttpMethod::Post, "/api/pair/claim", false) {
        Some((OpsRoute::ClaimPairing, RouteGate::Open))
    } else if hit_exec(method, u, HttpMethod::Get, "/api/invite", false) {
        Some((OpsRoute::Invite, RouteGate::WebRole(AccessRole::Admin)))
    } else if hit_exec(method, u, HttpMethod::Get, "/api/events", true) {
        Some((OpsRoute::Events, RouteGate::WebRole(AccessRole::Viewer)))
    } else if hit_exec(method, u, HttpMethod::Get, "/api/faults", true) {
        Some((OpsRoute::Faults, RouteGate::WebRole(AccessRole::Viewer)))
    } else if hit_exec(method, u, HttpMethod::Post, "/api/deploy", false) {
        Some((OpsRoute::Deploy, RouteGate::WebRole(AccessRole::Admin)))
    } else if hit_exec(method, u, HttpMethod::Post, "/api/rollback", false) {
        Some((OpsRoute::Rollback, RouteGate::WebRole(AccessRole::Admin)))
    } else if hit_exec(method, u, HttpMethod::Post, "/api/control", false) {
        Some((OpsRoute::Control, RouteGate::WebRole(AccessRole::Viewer)))
    } else {
        None
    }
}

/// The IDE route of a request, with what it must show.
pub fn ide_route_gate(method: HttpMethod, url: &str) -> (r: Option<(IdeRoute, RouteGate)>)
    ensures
        r == ide_route_spec(method, url@),
{
    let u = chars_of(url);
    ide_route_exec(method, u.as_slice())
}

/// The operations route of a request, with what it must show.
pub fn ops_route_gate(method: HttpMethod, url: &str) -> (r: Option<(OpsRoute, RouteGate)>)
    ensures
        r == ops_route_spec(method, url@),
{
    let u = chars_of(url);
    ops_route_exec(method, u.as_slice())
}

/// The routes of the auxiliary API: mode, metrics, QR codes, discovery, probes,
/// proxies, setup and I/O configuration.
#[derive(Debug, Clone, Copy, PartialEq, Eq, Structural)]
pub enum AuxRoute {
    UiMode,
    Metrics,
    QrCode,
    Discovery,
    Probe,
    ControlProxy,
    DeployProxy,
    SetupDefaults,
    SetupApply,
    IoConfigRead,
    IoConfigWrite,
    ModbusTest,
    MqttTest,
}

/// The auxiliary route a request reaches and what it must show; `metrics` is
/// the path under which the historian publishes its metrics, if it does.
pub open spec fn aux_route_spec(method: HttpMethod, url: Seq<char>, metrics: Option<Seq<char>>) -> Option<(AuxRoute, RouteGate)> {
    if hit(method, url, HttpMethod::Get, "/api/ui/mode"@, false) {
        Some((AuxRoute::UiMode, RouteGate::Open))
    } else if method == HttpMethod::Get && metrics == Some(url) {
        Some((AuxRoute::Metrics, RouteGate::WebRole(AccessRole::Viewer)))
    } else if hit(method, url, HttpMethod::Get, "/api/qr"@, true) {
        Some((AuxRoute::QrCode, RouteGate::Open))
    } else if hit(method, url, HttpMethod::Get, "/api/discovery"@, false) {
        Some((AuxRoute::Discovery, RouteGate::Open))
    } else if hit(method, url, HttpMethod::Get, "/api/probe"@, true) {
        Some((AuxRoute::Probe, RouteGate::Open))
    } else if hit(method, url, HttpMethod::Post, "/api/control/proxy"@, false) {
        Some((AuxRoute::ControlProxy, RouteGate::WebRole(AccessRole::Viewer)))
    } else if hit(method, url, HttpMethod::Post, "/api/deploy/proxy"@, false) {
        Some((AuxRoute::DeployProxy, RouteGate::WebRole(AccessRole::Admin)))
    } else if hit(method, url, HttpMethod::Get, "/api/setup/defaults"@, false) {
        Some((AuxRoute::SetupDefaults, RouteGate::Open))
    } else if hit(method, url, HttpMethod::Post, "/api/setup/apply"@, false) {
        Some((AuxRoute::SetupApply, RouteGate::WebRole(AccessRole::Engineer)))
    } else if hit(method, url, HttpMethod::Get, "/api/io/config"@, false) {
        Some((AuxRoute::IoConfigRead, RouteGate::Open))
    } else if hit(method, url, HttpMethod::Post, "/api/io/config"@, false) {
        Some((AuxRoute::IoConfigWrite, RouteGate::WebRole(AccessRole::Engineer)))
    } else if hit(method, url, HttpMethod::Post, "/api/io/modbus-test"@, false) {
        Some((AuxRoute::ModbusTest, RouteGate::WebRole(AccessRole::Viewer)))
    } else if hit(method, url, HttpMethod::Post, "/api/io/mqtt-test"@, false) {
        Some((AuxRoute::MqttTest, RouteGate::WebRole(AccessRole::Viewer)))
    } else {
        None
    }
}

/// The auxiliary route of a request, with what it must show.
pub fn aux_route_gate(method: HttpMethod, url: &str, metrics_path: Option<&str>) -> (r: Option<(AuxRoute, RouteGate)>)
    ensures
        r == aux_route_spec(method, url@, match metrics_path { Some(p) => Some(p@), None => None }),
{
    let uv = chars_of(url);
    let u = uv.as_slice();
    let is_metrics = match metrics_path {
        Some(p) => crate::text::str_eq(p, url),
        None => false,
    };
    if hit_exec(method, u, HttpMethod::Get, "/api/ui/mode", false) {
        Some((AuxRoute::UiMode, RouteGate::Open))
    } else if method == HttpMethod::Get && is_metrics {
        Some((AuxRoute::Metrics, RouteGate::WebRole(AccessRole::Viewer)))
    } else if hit_exec(method, u, HttpMethod::Get, "/api/qr", true) {
        Some((AuxRoute::QrCode, RouteGate::Open))
    } else if hit_exec(method, u, HttpMethod::Get, "/api/discovery", false) {
        Some((AuxRoute::Discovery, RouteGate::Open))
    } else if hit_exec(method, u, HttpMethod::Get, "/api/probe", true) {
        Some((AuxRoute::Probe, RouteGate::Open))
    } else if hit_exec(method, u, HttpMethod::Post, "/api/control/proxy", false) {
        Some((AuxRoute::ControlProxy, RouteGate::WebRole(AccessRole::Viewer)))
    } else if hit_exec(method, u, HttpMethod::Post, "/api/deploy/proxy", false) {
        Some((AuxRoute::DeployProxy, RouteGate::WebRole(AccessRole::Admin)))
    } else if hit_exec(method, u, HttpMethod::Get, "/api/setup/defaults", false) {
        Some((AuxRoute::SetupDefaults, RouteGate::Open))
    } else if hit_exec(method, u, HttpMethod::Post, "/api/setup/apply", false) {
        Some((AuxRoute::SetupApply, RouteGate::WebRole(AccessRole::Engineer)))
    } else if hit_exec(method, u, HttpMethod::Get, "/api/io/config", false) {
        Some((AuxRoute::IoConfigRead, RouteGate::Open))
    } else if hit_exec(method, u, HttpMethod::Post, "/api/io/config", false) {
        Some((AuxRoute::IoConfigWrite, RouteGate::WebRole(AccessRole::Engineer)))
    } else if hit_exec(method, u, HttpMethod::Post, "/api/io/modbus-test", false) {
        Some((AuxRoute::ModbusTest, RouteGate::WebRole(AccessRole::Viewer)))
    } else if hit_exec(method, u, HttpMethod::Post, "/api/io/mqtt-test", false) {
        Some((AuxRoute::MqttTest, RouteGate::WebRole(AccessRole::Viewer)))
    } else {
        None
    }
}

/// A route behind an IDE session needs the session header: without it the
/// request is answered 401 before anything else.
pub fn ide_session_gate(header: Option<&str>) -> (r: Result<String, (u16, &'static str)>)
    ensures
        match header {
            Some(t) => r matches Ok(s) && s@ == t@,
            None => r matches Err((status, m)) && status == 401 && m@ == "missing X-Trust-Ide-Session"@,
        },
{
    match header {
        Some(t) => Ok(t.to_owned()),
        None => Err((401, "missing X-Trust-Ide-Session")),
    }
}

/// The role of a new IDE session: the one asked for, read as a session role,
/// else viewer; an editor session needs a web role of engineer or above.
pub open spec fn session_role_spec(requested: Option<Seq<char>>, web_role: AccessRole) -> Result<IdeRole, (u16, Seq<char>)> {
    let role = match requested {
        Some(t) => match ide_role_spec(t) {
            Some(r) => r,
            None => IdeRole::Viewer,
        },
        None => IdeRole::Viewer,
    };
    if role == IdeRole::Editor && role_rank(web_role) < role_rank(AccessRole::Engineer) {
        Err((403, "editor session requires engineer/admin web role"@))
    } else {
        Ok(role)
    }
}

/// Decides the role of a new IDE session for a request acting with `web_role`.
pub fn ide_session_role(requested: Option<&str>, web_role: AccessRole) -> (r: Result<IdeRole, (u16, &'static str)>)
    ensures
        match (r, session_role_spec(match requested { Some(t) => Some(t@), None => None }, web_role)) {
            (Ok(a), Ok(b)) => a == b,
            (Err((s, m)), Err((t, n))) => s == t && m@ == n,
            _ => false,
        },
{
    let role = match requested {
        Some(t) => match IdeRole::parse(t) {
            Some(r) => r,
            None => IdeRole::Viewer,
        },
        None => IdeRole::Viewer,
    };
    if role == IdeRole::Editor && !web_role.allows(AccessRole::Engineer) {
        Err((403, "editor session requires engineer/admin web role"))
    } else {
        Ok(role)
    }
}

} // verus!
