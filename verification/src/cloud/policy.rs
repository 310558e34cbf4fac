//! Runtime-cloud profile policy evaluation.
use vstd::prelude::*;

use crate::cloud::model::{
    clone_decision, opt_view, runtime_cloud_apply_global_denial,
    runtime_cloud_update_preflight_summary, summary_matches, ReasonCode,
    RuntimeCloudActionPreflight, RuntimeCloudActionRequest, RuntimeCloudProfile,
    RuntimeCloudTargetDecision, RuntimeCloudWanAllowRule, WebAuthMode,
};
use crate::cloud::status::TargetStatusMap;
use crate::text::{
    before_char, char_index, chars_eq, chars_of, ends_with, find_char, has_char, has_char_exec,
    lemma_char_index, occurs_at_exec, push_chars, push_str, slice_chars, split_once,
    starts_with, starts_with_chars, string_of, trim, trim_chars,
};

verus! {

/// The site a runtime belongs to when nothing names one.
pub const RUNTIME_CLOUD_DEFAULT_SITE: &'static str = "default-site";

pub open spec fn default_site() -> Seq<char> {
    "default-site"@
}

/// Actions that change a runtime.
pub open spec fn is_write_action(action_type: Seq<char>) -> bool {
    action_type == "cfg_apply"@ || action_type == "cmd_invoke"@
}

/// The site in a `spiffe://trust/<site>/...` actor identity.
pub open spec fn site_from_actor(actor: Seq<char>) -> Option<Seq<char>> {
    let prefix = "spiffe://trust/"@;
    if starts_with(actor, prefix) {
        let site = trim(before_char(actor.skip(prefix.len() as int), '/'));
        if site.len() == 0 {
            None
        } else {
            Some(site)
        }
    } else {
        None
    }
}

/// The site of a `<site>/<runtime>` runtime id.
pub open spec fn site_from_runtime_id(runtime_id: Seq<char>) -> Option<Seq<char>> {
    match split_once(runtime_id, '/') {
        Some((site, runtime)) => if trim(site).len() == 0 || trim(runtime).len() == 0 {
            None
        } else {
            Some(trim(site))
        },
        None => None,
    }
}

/// The site the action is issued from.
pub open spec fn local_site(connected_via: Seq<char>, actor: Seq<char>) -> Seq<char> {
    match site_from_runtime_id(connected_via) {
        Some(site) => site,
        None => match site_from_actor(actor) {
            Some(site) => site,
            None => default_site(),
        },
    }
}

/// The site of a target runtime, `fallback` when its id names none.
pub open spec fn target_site(runtime_id: Seq<char>, fallback: Seq<char>) -> Seq<char> {
    match site_from_runtime_id(runtime_id) {
        Some(site) => site,
        None => fallback,
    }
}

pub open spec fn is_cross_site(connected_via: Seq<char>, actor: Seq<char>, runtime_id: Seq<char>) -> bool {
    let local = local_site(connected_via, actor);
    target_site(runtime_id, local) != local
}

/// A WAN allowlist target pattern: `*`, `prefix*`, `*suffix` or an exact id.
pub open spec fn wan_target_matches(pattern: Seq<char>, runtime_id: Seq<char>) -> bool {
    if pattern == "*"@ {
        true
    } else if pattern.len() > 0 && pattern.last() == '*' {
        starts_with(runtime_id, pattern.drop_last())
    } else if pattern.len() > 0 && pattern[0] == '*' {
        ends_with(runtime_id, pattern.drop_first())
    } else if has_char(pattern, '*') {
        false
    } else {
        pattern == runtime_id
    }
}

/// Some rule allows `action_type` on `runtime_id`.
pub open spec fn allowlist_allows(
    action_type: Seq<char>,
    runtime_id: Seq<char>,
    rules: Seq<RuntimeCloudWanAllowRule>,
) -> bool {
    exists|i: int|
        0 <= i < rules.len() && (#[trigger] rules[i]).action@ == action_type
            && wan_target_matches(rules[i].target@, runtime_id)
}

/// Why a profile refuses every action, if it does.
pub open spec fn profile_precondition_spec(
    profile: RuntimeCloudProfile,
    auth_mode: WebAuthMode,
    web_tls_enabled: bool,
) -> Option<(ReasonCode, Seq<char>)> {
    if !profile.requires_secure_transport {
        None
    } else if auth_mode != WebAuthMode::Token {
        Some(
            (
                ReasonCode::NotConfigured,
                "runtime cloud profile '"@ + profile.name@ + "' requires runtime.web.auth='token'"@,
            ),
        )
    } else if !web_tls_enabled {
        Some(
            (
                ReasonCode::NotConfigured,
                "runtime cloud profile '"@ + profile.name@ + "' requires runtime.web.tls=true"@,
            ),
        )
    } else {
        None
    }
}

/// Why the profile refuses the action on one target, if it does.
pub open spec fn target_denial_spec(
    action: RuntimeCloudActionRequest,
    runtime_id: Seq<char>,
    targets: Map<Seq<char>, crate::cloud::model::RuntimeCloudTargetStatus>,
    profile: RuntimeCloudProfile,
    rules: Seq<RuntimeCloudWanAllowRule>,
) -> Option<(ReasonCode, Seq<char>)> {
    let action_type = action.action_type@;
    let write = is_write_action(action_type);
    let allowed_by_rule = allowlist_allows(action_type, runtime_id, rules);
    if runtime_id == action.connected_via@ {
        None
    } else if profile.requires_secure_transport && !(targets.contains_key(runtime_id)
        && targets[runtime_id].supports_secure_transport) {
        Some(
            (
                ReasonCode::NotConfigured,
                "target runtime '"@ + runtime_id
                    + "' does not advertise secure web transport metadata"@,
            ),
        )
    } else if write && is_cross_site(action.connected_via@, action.actor@, runtime_id)
        && !allowed_by_rule {
        let local = local_site(action.connected_via@, action.actor@);
        Some(
            (
                ReasonCode::PermissionDenied,
                "cross-site write action '"@ + action_type + "' from site '"@ + local
                    + "' to runtime '"@ + runtime_id + "' (site '"@ + target_site(
                    runtime_id,
                    local,
                ) + "') requires explicit runtime.cloud.wan.allow_write policy"@,
            ),
        )
    } else if profile.is_wan && write && !allowed_by_rule {
        Some(
            (
                ReasonCode::PermissionDenied,
                "runtime cloud profile 'wan' denies action '"@ + action_type + "' for target '"@
                    + runtime_id + "' without explicit allowlist rule"@,
            ),
        )
    } else {
        None
    }
}

pub fn runtime_cloud_is_write_action(action_type: &str) -> (r: bool)
    ensures
        r == is_write_action(action_type@),
{
    let v = chars_of(action_type);
    let a = chars_of("cfg_apply");
    let b = chars_of("cmd_invoke");
    chars_eq(v.as_slice(), a.as_slice()) || chars_eq(v.as_slice(), b.as_slice())
}

pub fn runtime_cloud_site_from_actor(actor: &str) -> (r: Option<Vec<char>>)
    ensures
        match r {
            Some(v) => site_from_actor(actor@) == Some(v@),
            None => site_from_actor(actor@).is_none(),
        },
{
    let a = chars_of(actor);
    let prefix = chars_of("spiffe://trust/");
    if !starts_with_chars(a.as_slice(), prefix.as_slice()) {
        return None;
    }
    let subject = slice_chars(a.as_slice(), prefix.len(), a.len());
    assert(subject@ == a@.skip(prefix@.len() as int));
    let cut = find_char(subject.as_slice(), '/');
    let first = slice_chars(subject.as_slice(), 0, cut);
    assert(first@ == before_char(subject@, '/'));
    let site = trim_chars(first.as_slice());
    if site.len() == 0 {
        None
    } else {
        Some(site)
    }
}

pub fn runtime_cloud_site_from_runtime_id(runtime_id: &str) -> (r: Option<Vec<char>>)
    ensures
        match r {
            Some(v) => site_from_runtime_id(runtime_id@) == Some(v@),
            None => site_from_runtime_id(runtime_id@).is_none(),
        },
{
    let id = chars_of(runtime_id);
    let cut = find_char(id.as_slice(), '/');
    if cut >= id.len() {
        return None;
    }
    let site_raw = slice_chars(id.as_slice(), 0, cut);
    let runtime_raw = slice_chars(id.as_slice(), cut + 1, id.len());
    assert(site_raw@ == id@.take(cut as int));
    assert(runtime_raw@ == id@.skip(cut + 1));
    let site = trim_chars(site_raw.as_slice());
    let runtime = trim_chars(runtime_raw.as_slice());
    if site.len() == 0 || runtime.len() == 0 {
        return None;
    }
    Some(site)
}

/// The site the action is issued from.
pub fn runtime_cloud_local_site(action: &RuntimeCloudActionRequest) -> (r: Vec<char>)
    ensures
        r@ == local_site(action.connected_via@, action.actor@),
{
    match runtime_cloud_site_from_runtime_id(action.connected_via.as_str()) {
        Some(site) => site,
        None => match runtime_cloud_site_from_actor(action.actor.as_str()) {
            Some(site) => site,
            None => chars_of(RUNTIME_CLOUD_DEFAULT_SITE),
        },
    }
}

/// The site of a target runtime, `fallback_site` when its id names none.
pub fn runtime_cloud_target_site(runtime_id: &str, fallback_site: &[char]) -> (r: Vec<char>)
    ensures
        r@ == target_site(runtime_id@, fallback_site@),
{
    match runtime_cloud_site_from_runtime_id(runtime_id) {
        Some(site) => site,
        None => slice_chars(fallback_site, 0, fallback_site.len()),
    }
}

pub fn runtime_cloud_is_cross_site_target(
    action: &RuntimeCloudActionRequest,
    runtime_id: &str,
) -> (r: bool)
    ensures
        r == is_cross_site(action.connected_via@, action.actor@, runtime_id@),
{
    let local = runtime_cloud_local_site(action);
    let target = runtime_cloud_target_site(runtime_id, local.as_slice());
    !chars_eq(target.as_slice(), local.as_slice())
}

pub fn runtime_cloud_wan_target_matches(pattern: &str, runtime_id: &str) -> (r: bool)
    ensures
        r == wan_target_matches(pattern@, runtime_id@),
{
    let p = chars_of(pattern);
    let id = chars_of(runtime_id);
    let star = chars_of("*");
    if chars_eq(p.as_slice(), star.as_slice()) {
        return true;
    }
    if p.len() > 0 && p[p.len() - 1] == '*' {
        let prefix = slice_chars(p.as_slice(), 0, p.len() - 1);
        assert(prefix@ == p@.drop_last());
        return starts_with_chars(id.as_slice(), prefix.as_slice());
    }
    if p.len() > 0 && p[0] == '*' {
        let suffix = slice_chars(p.as_slice(), 1, p.len());
        assert(suffix@ == p@.drop_first());
        if suffix.len() > id.len() {
            return false;
        }
        return occurs_at_exec(id.as_slice(), suffix.as_slice(), id.len() - suffix.len());
    }
    if has_char_exec(p.as_slice(), '*') {
        return false;
    }
    chars_eq(p.as_slice(), id.as_slice())
}

pub fn runtime_cloud_wan_allowlist_allows(
    action_type: &str,
    runtime_id: &str,
    rules: &[RuntimeCloudWanAllowRule],
) -> (r: bool)
    ensures
        r == allowlist_allows(action_type@, runtime_id@, rules@),
{
    let mut i: usize = 0;
    while i < rules.len()
        invariant
            i <= rules.len(),
            forall|k: int|
                0 <= k < i ==> !((#[trigger] rules@[k]).action@ == action_type@
                    && wan_target_matches(rules@[k].target@, runtime_id@)),
        decreases rules.len() - i,
    {
        let a = chars_of(rules[i].action.as_str());
        let t = chars_of(action_type);
        if chars_eq(a.as_slice(), t.as_slice()) && runtime_cloud_wan_target_matches(
            rules[i].target.as_str(),
            runtime_id,
        ) {
            return true;
        }
        i = i + 1;
    }
    false
}

pub fn runtime_cloud_profile_precondition(
    profile: &RuntimeCloudProfile,
    auth_mode: WebAuthMode,
    web_tls_enabled: bool,
) -> (r: Option<(ReasonCode, String)>)
    ensures
        match r {
            Some((c, m)) => profile_precondition_spec(*profile, auth_mode, web_tls_enabled)
                == Some((c, m@)),
            None => profile_precondition_spec(*profile, auth_mode, web_tls_enabled).is_none(),
        },
{
    if !profile.requires_secure_transport {
        return None;
    }
    if auth_mode != WebAuthMode::Token {
        let mut m = String::new();
        push_str(&mut m, "runtime cloud profile '");
        push_str(&mut m, profile.name.as_str());
        push_str(&mut m, "' requires runtime.web.auth='token'");
        return Some((ReasonCode::NotConfigured, m));
    }
    if !web_tls_enabled {
        let mut m = String::new();
        push_str(&mut m, "runtime cloud profile '");
        push_str(&mut m, profile.name.as_str());
        push_str(&mut m, "' requires runtime.web.tls=true");
        return Some((ReasonCode::NotConfigured, m));
    }
    None
}

pub fn runtime_cloud_profile_target_denial(
    action: &RuntimeCloudActionRequest,
    runtime_id: &str,
    targets: &TargetStatusMap,
    profile: &RuntimeCloudProfile,
    wan_allow_write: &[RuntimeCloudWanAllowRule],
) -> (r: Option<(ReasonCode, String)>)
    requires
        targets.wf(),
    ensures
        match r {
            Some((c, m)) => target_denial_spec(
                *action,
                runtime_id@,
                targets@,
                *profile,
                wan_allow_write@,
            ) == Some((c, m@)),
            None => target_denial_spec(
                *action,
                runtime_id@,
                targets@,
                *profile,
                wan_allow_write@,
            ).is_none(),
        },
{
    let id = chars_of(runtime_id);
    let via = chars_of(action.connected_via.as_str());
    if chars_eq(id.as_slice(), via.as_slice()) {
        return None;
    }
    if profile.requires_secure_transport {
        let secure = match targets.get(runtime_id) {
            Some(status) => status.supports_secure_transport,
            None => false,
        };
        if !secure {
            let mut m = String::new();
            push_str(&mut m, "target runtime '");
            push_str(&mut m, runtime_id);
            push_str(&mut m, "' does not advertise secure web transport metadata");
            return Some((ReasonCode::NotConfigured, m));
        }
    }
    let write = runtime_cloud_is_write_action(action.action_type.as_str());
    let allowed_by_rule = runtime_cloud_wan_allowlist_allows(
        action.action_type.as_str(),
        runtime_id,
        wan_allow_write,
    );
    if write && runtime_cloud_is_cross_site_target(action, runtime_id) && !allowed_by_rule {
        let local = runtime_cloud_local_site(action);
        let target = runtime_cloud_target_site(runtime_id, local.as_slice());
        let mut m = String::new();
        push_str(&mut m, "cross-site write action '");
        push_str(&mut m, action.action_type.as_str());
        push_str(&mut m, "' from site '");
        push_chars(&mut m, local.as_slice());
        push_str(&mut m, "' to runtime '");
        push_str(&mut m, runtime_id);
        push_str(&mut m, "' (site '");
        push_chars(&mut m, target.as_slice());
        push_str(&mut m, "') requires explicit runtime.cloud.wan.allow_write policy");
        return Some((ReasonCode::PermissionDenied, m));
    }
    if profile.is_wan && write && !allowed_by_rule {
        let mut m = String::new();
        push_str(&mut m, "runtime cloud profile 'wan' denies action '");
        push_str(&mut m, action.action_type.as_str());
        push_str(&mut m, "' for target '");
        push_str(&mut m, runtime_id);
        push_str(&mut m, "' without explicit allowlist rule");
        return Some((ReasonCode::PermissionDenied, m));
    }
    None
}

/// A decision after the profile policy: an allowed decision whose target the
/// profile refuses becomes a denial with the profile's code and reason; any other
/// decision is kept.
pub open spec fn decision_after_policy(
    d: RuntimeCloudTargetDecision,
    action: RuntimeCloudActionRequest,
    targets: Map<Seq<char>, crate::cloud::model::RuntimeCloudTargetStatus>,
    profile: RuntimeCloudProfile,
    rules: Seq<RuntimeCloudWanAllowRule>,
    result: RuntimeCloudTargetDecision,
) -> bool {
    match target_denial_spec(action, d.runtime_id@, targets, profile, rules) {
        Some((code, reason)) if d.allowed => {
            &&& result.runtime_id == d.runtime_id
            &&& !result.allowed
            &&& result.denial_code == Some(code)
            &&& opt_view(result.denial_reason) == Some(reason)
        },
        _ => result == d,
    }
}

/// Applies the runtime-cloud profile to a preflight report.
///
/// When the profile's transport precondition fails, every target is denied with
/// its reason. Otherwise every allowed target that the profile refuses is denied,
/// and the summary is recomputed from the decisions.
pub fn runtime_cloud_apply_profile_policy(
    preflight: RuntimeCloudActionPreflight,
    action: &RuntimeCloudActionRequest,
    targets: &TargetStatusMap,
    profile: &RuntimeCloudProfile,
    wan_allow_write: &[RuntimeCloudWanAllowRule],
    auth_mode: WebAuthMode,
    web_tls_enabled: bool,
) -> (r: RuntimeCloudActionPreflight)
    requires
        targets.wf(),
    ensures
        r.api_version == preflight.api_version,
        r.request_id == preflight.request_id,
        r.connected_via == preflight.connected_via,
        r.acting_on == preflight.acting_on,
        r.decisions.len() == preflight.decisions.len(),
        match profile_precondition_spec(*profile, auth_mode, web_tls_enabled) {
            Some((code, reason)) => {
                &&& !r.allowed
                &&& r.denial_code == Some(code)
                &&& opt_view(r.denial_reason) == Some(reason)
                &&& forall|i: int|
                    0 <= i < r.decisions.len() ==> {
                        &&& (#[trigger] r.decisions@[i]).runtime_id
                            == preflight.decisions@[i].runtime_id
                        &&& !r.decisions@[i].allowed
                        &&& r.decisions@[i].denial_code == Some(code)
                        &&& opt_view(r.decisions@[i].denial_reason) == Some(reason)
                    }
            },
            None => {
                &&& summary_matches(r)
                &&& forall|i: int|
                    0 <= i < r.decisions.len() ==> decision_after_policy(
                        preflight.decisions@[i],
                        *action,
                        targets@,
                        *profile,
                        wan_allow_write@,
                        #[trigger] r.decisions@[i],
                    )
            },
        },
{
    if let Some((denial_code, denial_reason)) = runtime_cloud_profile_precondition(
        profile,
        auth_mode,
        web_tls_enabled,
    ) {
        return runtime_cloud_apply_global_denial(preflight, denial_code, denial_reason);
    }
    let mut out: Vec<RuntimeCloudTargetDecision> = Vec::new();
    let mut i: usize = 0;
    while i < preflight.decisions.len()
        invariant
            targets.wf(),
            i <= preflight.decisions.len(),
            out.len() == i,
            forall|k: int|
                0 <= k < i ==> decision_after_policy(
                    preflight.decisions@[k],
                    *action,
                    targets@,
                    *profile,
                    wan_allow_write@,
                    #[trigger] out@[k],
                ),
        decreases preflight.decisions.len() - i,
    {
        let d = &preflight.decisions[i];
        if !d.allowed {
            out.push(clone_decision(d));
        } else {
            match runtime_cloud_profile_target_denial(
                action,
                d.runtime_id.as_str(),
                targets,
                profile,
                wan_allow_write,
            ) {
                Some((code, reason)) => {
                    out.push(
                        RuntimeCloudTargetDecision {
                            runtime_id: d.runtime_id.clone(),
                            allowed: false,
                            denial_code: Some(code),
                            denial_reason: Some(reason),
                        },
                    );
                },
                None => {
                    out.push(clone_decision(d));
                },
            }
        }
        i = i + 1;
    }
    let RuntimeCloudActionPreflight {
        api_version,
        request_id,
        connected_via,
        acting_on,
        allowed,
        denial_code,
        denial_reason,
        decisions: _,
    } = preflight;
    let mut result = RuntimeCloudActionPreflight {
        api_version,
        request_id,
        connected_via,
        acting_on,
        allowed,
        denial_code,
        denial_reason,
        decisions: out,
    };
    runtime_cloud_update_preflight_summary(&mut result);
    result
}

/// The profile policy only ever narrows a preflight: a target it leaves allowed
/// was allowed before, and no target changes identity.
pub proof fn law_policy_only_narrows(
    d: RuntimeCloudTargetDecision,
    action: RuntimeCloudActionRequest,
    targets: Map<Seq<char>, crate::cloud::model::RuntimeCloudTargetStatus>,
    profile: RuntimeCloudProfile,
    rules: Seq<RuntimeCloudWanAllowRule>,
    result: RuntimeCloudTargetDecision,
)
    requires
        decision_after_policy(d, action, targets, profile, rules, result),
    ensures
        result.allowed ==> d.allowed,
        result.runtime_id == d.runtime_id,
{
}

/// The runtime a request arrives through is never refused by the profile.
pub proof fn law_connected_runtime_never_refused(
    action: RuntimeCloudActionRequest,
    targets: Map<Seq<char>, crate::cloud::model::RuntimeCloudTargetStatus>,
    profile: RuntimeCloudProfile,
    rules: Seq<RuntimeCloudWanAllowRule>,
)
    ensures
        target_denial_spec(action, action.connected_via@, targets, profile, rules) is None,
{
}

/// A `*` rule for an action lets that action reach every target that meets the
/// transport requirement, on any profile and across sites.
pub proof fn law_wildcard_rule_allows_everywhere(
    action: RuntimeCloudActionRequest,
    runtime_id: Seq<char>,
    targets: Map<Seq<char>, crate::cloud::model::RuntimeCloudTargetStatus>,
    profile: RuntimeCloudProfile,
    rules: Seq<RuntimeCloudWanAllowRule>,
    i: int,
)
    requires
        0 <= i < rules.len(),
        rules[i].action@ == action.action_type@,
        rules[i].target@ == "*"@,
        !profile.requires_secure_transport || (targets.contains_key(runtime_id)
            && targets[runtime_id].supports_secure_transport),
    ensures
        target_denial_spec(action, runtime_id, targets, profile, rules) is None,
{
    assert(wan_target_matches(rules[i].target@, runtime_id));
    assert(allowlist_allows(action.action_type@, runtime_id, rules));
}

/// On the WAN profile a write to another runtime that no rule allows is refused
/// with `PermissionDenied`.
pub proof fn law_wan_write_needs_rule(
    action: RuntimeCloudActionRequest,
    runtime_id: Seq<char>,
    targets: Map<Seq<char>, crate::cloud::model::RuntimeCloudTargetStatus>,
    profile: RuntimeCloudProfile,
    rules: Seq<RuntimeCloudWanAllowRule>,
)
    requires
        profile.is_wan,
        is_write_action(action.action_type@),
        !allowlist_allows(action.action_type@, runtime_id, rules),
        runtime_id != action.connected_via@,
    ensures
        target_denial_spec(action, runtime_id, targets, profile, rules) is Some,
        (target_denial_spec(action, runtime_id, targets, profile, rules)->0).0 == ReasonCode::PermissionDenied
            || (target_denial_spec(action, runtime_id, targets, profile, rules)->0).0 == ReasonCode::NotConfigured,
{
}

/// Reads are never refused for want of an allowlist rule: only a missing secure
/// transport refuses them.
pub proof fn law_reads_need_no_rule(
    action: RuntimeCloudActionRequest,
    runtime_id: Seq<char>,
    targets: Map<Seq<char>, crate::cloud::model::RuntimeCloudTargetStatus>,
    profile: RuntimeCloudProfile,
    rules: Seq<RuntimeCloudWanAllowRule>,
)
    requires
        !is_write_action(action.action_type@),
    ensures
        target_denial_spec(action, runtime_id, targets, profile, rules) is Some ==> (target_denial_spec(
            action,
            runtime_id,
            targets,
            profile,
            rules,
        )->0).0 == ReasonCode::NotConfigured,
{
}

} // verus!
