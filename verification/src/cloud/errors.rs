//! Mapping of remote control failures to runtime-cloud reason codes.
use vstd::prelude::*;

use crate::cloud::model::ReasonCode;
use crate::text::{chars_of, chars_eq_str, contains, contains_str, lower, lower_chars};

verus! {

/// The reason code for a failed control request, read from its error text.
pub open spec fn control_error_code(reason: Seq<char>, action_type: Seq<char>) -> ReasonCode {
    let l = lower(reason);
    if contains(l, "forbidden"@) {
        if action_type == "cfg_apply"@ {
            ReasonCode::AclDeniedCfgWrite
        } else {
            ReasonCode::PermissionDenied
        }
    } else if contains(l, "conflict"@) || contains(l, "etag"@) || contains(l, "revision"@) {
        ReasonCode::RevisionConflict
    } else if contains(l, "schema"@) {
        ReasonCode::SchemaMismatch
    } else if contains(l, "unsupported"@) || contains(l, "invalid"@) {
        ReasonCode::ContractViolation
    } else {
        ReasonCode::TransportFailure
    }
}

/// The reason code for a failed control request, read from its error text.
pub fn runtime_cloud_map_control_error(reason: &str, action_type: &str) -> (r: ReasonCode)
    ensures
        r == control_error_code(reason@, action_type@),
{
    let raw = chars_of(reason);
    let l = lower_chars(raw.as_slice());
    let t = chars_of(action_type);
    if contains_str(l.as_slice(), "forbidden") {
        return if chars_eq_str(t.as_slice(), "cfg_apply") {
            ReasonCode::AclDeniedCfgWrite
        } else {
            ReasonCode::PermissionDenied
        };
    }
    if contains_str(l.as_slice(), "conflict") || contains_str(l.as_slice(), "etag")
        || contains_str(l.as_slice(), "revision") {
        return ReasonCode::RevisionConflict;
    }
    if contains_str(l.as_slice(), "schema") {
        return ReasonCode::SchemaMismatch;
    }
    if contains_str(l.as_slice(), "unsupported") || contains_str(l.as_slice(), "invalid") {
        return ReasonCode::ContractViolation;
    }
    ReasonCode::TransportFailure
}

/// The reason code for an HTTP status returned by a remote runtime.
pub open spec fn remote_http_status_code(status: u16, action_type: Seq<char>) -> ReasonCode {
    if status == 401 || status == 403 {
        if action_type == "cfg_apply"@ {
            ReasonCode::AclDeniedCfgWrite
        } else {
            ReasonCode::PermissionDenied
        }
    } else if status == 408 {
        ReasonCode::Timeout
    } else {
        ReasonCode::TransportFailure
    }
}

pub fn runtime_cloud_map_remote_http_status(status: u16, action_type: &str) -> (r: ReasonCode)
    ensures
        r == remote_http_status_code(status, action_type@),
{
    match status {
        401 | 403 => {
            let t = chars_of(action_type);
            if chars_eq_str(t.as_slice(), "cfg_apply") {
                ReasonCode::AclDeniedCfgWrite
            } else {
                ReasonCode::PermissionDenied
            }
        },
        408 => ReasonCode::Timeout,
        _ => ReasonCode::TransportFailure,
    }
}

} // verus!
