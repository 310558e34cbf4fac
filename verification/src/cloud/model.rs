//! Runtime-cloud request, decision and target-status model.
use vstd::prelude::*;

verus! {

/// Reason codes attached to a denied runtime-cloud action.
#[derive(Debug, Clone, Copy, PartialEq, Eq, Structural)]
pub enum ReasonCode {
    NotConfigured,
    PermissionDenied,
    AclDeniedCfgWrite,
    RevisionConflict,
    SchemaMismatch,
    ContractViolation,
    TransportFailure,
    Timeout,
    LeaseUnavailable,
}

/// Authentication mode of the embedded web server.
#[derive(Debug, Clone, Copy, PartialEq, Eq, Structural)]
pub enum WebAuthMode {
    Local,
    Token,
}

/// What the policy reads of a configured runtime-cloud profile.
#[derive(Debug)]
pub struct RuntimeCloudProfile {
    /// The profile's configuration name (`profile.as_str()`).
    pub name: String,
    /// Whether the profile demands token auth and TLS (`requires_secure_transport()`).
    pub requires_secure_transport: bool,
    /// Whether this is the `wan` profile.
    pub is_wan: bool,
}

/// One `runtime.cloud.wan.allow_write` rule.
#[derive(Debug)]
pub struct RuntimeCloudWanAllowRule {
    pub action: String,
    pub target: String,
}

/// What the policy reads of a runtime-cloud action request.
#[derive(Debug)]
pub struct RuntimeCloudActionRequest {
    pub api_version: String,
    pub request_id: String,
    pub connected_via: String,
    pub target_runtimes: Vec<String>,
    pub actor: String,
    pub action_type: String,
    pub query_budget_ms: Option<u64>,
    pub dry_run: bool,
}

/// Reachability of one target runtime.
#[derive(Debug, Clone, Copy, PartialEq, Eq, Structural)]
pub struct RuntimeCloudTargetStatus {
    pub reachable: bool,
    pub stale: bool,
    pub supports_secure_transport: bool,
}

/// The decision for one target runtime of an action.
#[derive(Debug)]
pub struct RuntimeCloudTargetDecision {
    pub runtime_id: String,
    pub allowed: bool,
    pub denial_code: Option<ReasonCode>,
    pub denial_reason: Option<String>,
}

/// The preflight report of an action: per-target decisions and their summary.
#[derive(Debug)]
pub struct RuntimeCloudActionPreflight {
    pub api_version: String,
    pub request_id: String,
    pub connected_via: String,
    pub acting_on: Vec<String>,
    pub allowed: bool,
    pub denial_code: Option<ReasonCode>,
    pub denial_reason: Option<String>,
    pub decisions: Vec<RuntimeCloudTargetDecision>,
}

/// The result of dispatching an action to one target.
#[derive(Debug)]
pub struct RuntimeCloudDispatchTargetResult {
    pub runtime_id: String,
    pub ok: bool,
    pub denial_code: Option<ReasonCode>,
    pub denial_reason: Option<String>,
    pub audit_id: Option<String>,
}

pub open spec fn opt_view(o: Option<String>) -> Option<Seq<char>> {
    match o {
        Some(s) => Some(s@),
        None => None,
    }
}

pub fn clone_opt_string(o: &Option<String>) -> (r: Option<String>)
    ensures
        r == *o,
{
    match o {
        Some(s) => Some(s.clone()),
        None => None,
    }
}

pub fn clone_decision(d: &RuntimeCloudTargetDecision) -> (r: RuntimeCloudTargetDecision)
    ensures
        r == *d,
{
    RuntimeCloudTargetDecision {
        runtime_id: d.runtime_id.clone(),
        allowed: d.allowed,
        denial_code: d.denial_code,
        denial_reason: clone_opt_string(&d.denial_reason),
    }
}

/// The first decision that is not allowed, if any.
pub open spec fn first_denied(ds: Seq<RuntimeCloudTargetDecision>) -> Option<
    RuntimeCloudTargetDecision,
>
    decreases ds.len(),
{
    if ds.len() == 0 {
        None
    } else if !ds[0].allowed {
        Some(ds[0])
    } else {
        first_denied(ds.drop_first())
    }
}

/// Whether every decision allows its target.
pub open spec fn all_allowed(ds: Seq<RuntimeCloudTargetDecision>) -> bool {
    forall|i: int| 0 <= i < ds.len() ==> (#[trigger] ds[i]).allowed
}

/// The summary of a preflight agrees with its decisions: allowed iff all are, and the
/// denial of the report is that of its first denied decision.
pub open spec fn summary_matches(p: RuntimeCloudActionPreflight) -> bool {
    &&& p.allowed == all_allowed(p.decisions@)
    &&& match first_denied(p.decisions@) {
        Some(d) => p.denial_code == d.denial_code && p.denial_reason == d.denial_reason,
        None => p.denial_code.is_none() && p.denial_reason.is_none(),
    }
}

pub proof fn lemma_first_denied(ds: Seq<RuntimeCloudTargetDecision>)
    ensures
        first_denied(ds) is None <==> all_allowed(ds),
    decreases ds.len(),
{
    if ds.len() > 0 && ds[0].allowed {
        lemma_first_denied(ds.drop_first());
        if all_allowed(ds.drop_first()) {
            assert forall|i: int| 0 <= i < ds.len() implies (#[trigger] ds[i]).allowed by {
                if i > 0 {
                    assert(ds[i] == ds.drop_first()[i - 1]);
                }
            }
        }
        if all_allowed(ds) {
            assert forall|i: int| 0 <= i < ds.drop_first().len() implies (
            #[trigger] ds.drop_first()[i]).allowed by {
                assert(ds.drop_first()[i] == ds[i + 1]);
            }
        }
    } else if ds.len() > 0 {
        assert(!ds[0].allowed);
    }
}

/// `first_denied` of a sequence whose first `i` entries are allowed.
pub proof fn lemma_first_denied_skip(ds: Seq<RuntimeCloudTargetDecision>, i: int)
    requires
        0 <= i <= ds.len(),
        forall|k: int| 0 <= k < i ==> (#[trigger] ds[k]).allowed,
    ensures
        first_denied(ds) == first_denied(ds.skip(i)),
    decreases i,
{
    if i > 0 {
        assert(ds.skip(i) == ds.drop_first().skip(i - 1));
        assert forall|k: int| 0 <= k < i - 1 implies (#[trigger] ds.drop_first()[k]).allowed by {
            assert(ds.drop_first()[k] == ds[k + 1]);
        }
        lemma_first_denied_skip(ds.drop_first(), i - 1);
        assert(ds[0].allowed);
    } else {
        assert(ds.skip(0) == ds);
    }
}

/// Recomputes `allowed`, `denial_code` and `denial_reason` of a preflight from its
/// decisions.
pub fn runtime_cloud_update_preflight_summary(preflight: &mut RuntimeCloudActionPreflight)
    ensures
        final(preflight).decisions == old(preflight).decisions,
        final(preflight).api_version == old(preflight).api_version,
        final(preflight).request_id == old(preflight).request_id,
        final(preflight).connected_via == old(preflight).connected_via,
        final(preflight).acting_on == old(preflight).acting_on,
        summary_matches(*final(preflight)),
{
    let n = preflight.decisions.len();
    let mut i: usize = 0;
    while i < n && preflight.decisions[i].allowed
        invariant
            n == preflight.decisions.len(),
            i <= n,
            forall|k: int| 0 <= k < i ==> (#[trigger] preflight.decisions@[k]).allowed,
        decreases n - i,
    {
        i = i + 1;
    }
    proof {
        lemma_first_denied_skip(preflight.decisions@, i as int);
        lemma_first_denied(preflight.decisions@);
    }
    if i < n {
        let code = preflight.decisions[i].denial_code;
        let reason = clone_opt_string(&preflight.decisions[i].denial_reason);
        preflight.allowed = false;
        preflight.denial_code = code;
        preflight.denial_reason = reason;
        proof {
            assert(!all_allowed(preflight.decisions@)) by {
                assert(!preflight.decisions@[i as int].allowed);
            }
        }
    } else {
        assert(preflight.decisions@.skip(i as int).len() == 0);
        preflight.allowed = true;
        preflight.denial_code = None;
        preflight.denial_reason = None;
    }
}

/// Denies every decision of a preflight with the same code and reason.
pub fn runtime_cloud_apply_global_denial(
    preflight: RuntimeCloudActionPreflight,
    denial_code: ReasonCode,
    denial_reason: String,
) -> (r: RuntimeCloudActionPreflight)
    ensures
        r.api_version == preflight.api_version,
        r.request_id == preflight.request_id,
        r.connected_via == preflight.connected_via,
        r.acting_on == preflight.acting_on,
        r.decisions.len() == preflight.decisions.len(),
        forall|i: int|
            0 <= i < r.decisions.len() ==> {
                &&& (#[trigger] r.decisions@[i]).runtime_id == preflight.decisions@[i].runtime_id
                &&& !r.decisions@[i].allowed
                &&& r.decisions@[i].denial_code == Some(denial_code)
                &&& r.decisions@[i].denial_reason == Some(denial_reason)
            },
        !r.allowed,
        r.denial_code == Some(denial_code),
        r.denial_reason == Some(denial_reason),
{
    let RuntimeCloudActionPreflight {
        api_version,
        request_id,
        connected_via,
        acting_on,
        allowed: _,
        denial_code: _,
        denial_reason: _,
        decisions,
    } = preflight;
    let mut out: Vec<RuntimeCloudTargetDecision> = Vec::new();
    let mut i: usize = 0;
    while i < decisions.len()
        invariant
            i <= decisions.len(),
            out.len() == i,
            forall|k: int|
                0 <= k < i ==> {
                    &&& (#[trigger] out@[k]).runtime_id == decisions@[k].runtime_id
                    &&& !out@[k].allowed
                    &&& out@[k].denial_code == Some(denial_code)
                    &&& out@[k].denial_reason == Some(denial_reason)
                },
        decreases decisions.len() - i,
    {
        out.push(
            RuntimeCloudTargetDecision {
                runtime_id: decisions[i].runtime_id.clone(),
                allowed: false,
                denial_code: Some(denial_code),
                denial_reason: Some(denial_reason.clone()),
            },
        );
        i = i + 1;
    }
    RuntimeCloudActionPreflight {
        api_version,
        request_id,
        connected_via,
        acting_on,
        allowed: false,
        denial_code: Some(denial_code),
        denial_reason: Some(denial_reason),
        decisions: out,
    }
}

/// The dispatch results of a preflight that is not dispatched: one per decision,
/// carrying its outcome, with no audit id.
pub fn runtime_cloud_denied_results(preflight: &RuntimeCloudActionPreflight) -> (r: Vec<
    RuntimeCloudDispatchTargetResult,
>)
    ensures
        r.len() == preflight.decisions.len(),
        forall|i: int|
            0 <= i < r.len() ==> {
                &&& (#[trigger] r@[i]).runtime_id == preflight.decisions@[i].runtime_id
                &&& r@[i].ok == preflight.decisions@[i].allowed
                &&& r@[i].denial_code == preflight.decisions@[i].denial_code
                &&& r@[i].denial_reason == preflight.decisions@[i].denial_reason
                &&& r@[i].audit_id.is_none()
            },
{
    let mut out: Vec<RuntimeCloudDispatchTargetResult> = Vec::new();
    let mut i: usize = 0;
    while i < preflight.decisions.len()
        invariant
            i <= preflight.decisions.len(),
            out.len() == i,
            forall|k: int|
                0 <= k < i ==> {
                    &&& (#[trigger] out@[k]).runtime_id == preflight.decisions@[k].runtime_id
                    &&& out@[k].ok == preflight.decisions@[k].allowed
                    &&& out@[k].denial_code == preflight.decisions@[k].denial_code
                    &&& out@[k].denial_reason == preflight.decisions@[k].denial_reason
                    &&& out@[k].audit_id.is_none()
                },
        decreases preflight.decisions.len() - i,
    {
        let d = &preflight.decisions[i];
        out.push(
            RuntimeCloudDispatchTargetResult {
                runtime_id: d.runtime_id.clone(),
                ok: d.allowed,
                denial_code: d.denial_code,
                denial_reason: clone_opt_string(&d.denial_reason),
                audit_id: None,
            },
        );
        i = i + 1;
    }
    out
}

} // verus!
