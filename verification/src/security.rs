//! Security roles and authorization helpers.
use vstd::prelude::*;
use vstd::string::StringSliceAdditionalSpecFns;

use crate::text::{chars_eq_str, chars_of, lower, lower_chars, trim, trim_chars, trim_end, trim_start};

verus! {

/// Access roles, ordered from least to most privileged.
#[derive(Debug, Clone, Copy, PartialEq, Eq, Structural, PartialOrd, Ord)]
pub enum AccessRole {
    Viewer,
    Operator,
    Engineer,
    Admin,
}

/// Position of a role in the privilege order.
pub open spec fn role_rank(role: AccessRole) -> int {
    match role {
        AccessRole::Viewer => 0,
        AccessRole::Operator => 1,
        AccessRole::Engineer => 2,
        AccessRole::Admin => 3,
    }
}

/// The role named by `text`, matched after trimming and ASCII case folding.
pub open spec fn parse_role_spec(text: Seq<char>) -> Option<AccessRole> {
    let key = lower(trim(text));
    if key == "viewer"@ {
        Some(AccessRole::Viewer)
    } else if key == "operator"@ {
        Some(AccessRole::Operator)
    } else if key == "engineer"@ {
        Some(AccessRole::Engineer)
    } else if key == "admin"@ {
        Some(AccessRole::Admin)
    } else {
        None
    }
}

/// The lowercase name of a role.
pub open spec fn role_name(role: AccessRole) -> Seq<char> {
    match role {
        AccessRole::Viewer => "viewer"@,
        AccessRole::Operator => "operator"@,
        AccessRole::Engineer => "engineer"@,
        AccessRole::Admin => "admin"@,
    }
}

impl AccessRole {
    pub fn parse(text: &str) -> (r: Option<Self>)
        ensures
            r == parse_role_spec(text@),
    {
        let raw = chars_of(text);
        let trimmed = trim_chars(raw.as_slice());
        let key = lower_chars(trimmed.as_slice());
        if chars_eq_str(key.as_slice(), "viewer") {
            Some(Self::Viewer)
        } else if chars_eq_str(key.as_slice(), "operator") {
            Some(Self::Operator)
        } else if chars_eq_str(key.as_slice(), "engineer") {
            Some(Self::Engineer)
        } else if chars_eq_str(key.as_slice(), "admin") {
            Some(Self::Admin)
        } else {
            None
        }
    }

    pub fn as_str(self) -> (r: &'static str)
        ensures
            r@ == role_name(self),
    {
        match self {
            Self::Viewer => "viewer",
            Self::Operator => "operator",
            Self::Engineer => "engineer",
            Self::Admin => "admin",
        }
    }

    /// Whether this role carries at least the privileges of `required`.
    pub fn allows(self, required: Self) -> (r: bool)
        ensures
            r == (role_rank(self) >= role_rank(required)),
    {
        self.rank() >= required.rank()
    }

    fn rank(self) -> (r: u8)
        ensures
            r == role_rank(self),
    {
        match self {
            Self::Viewer => 0,
            Self::Operator => 1,
            Self::Engineer => 2,
            Self::Admin => 3,
        }
    }
}

/// Every role has the privileges of itself and of every role below it, and
/// privileges compose: the order of roles is a total preorder.
pub proof fn law_roles_totally_ordered(a: AccessRole, b: AccessRole, c: AccessRole)
    ensures
        role_rank(a) >= role_rank(a),
        role_rank(a) >= role_rank(b) || role_rank(b) >= role_rank(a),
        role_rank(a) >= role_rank(b) && role_rank(b) >= role_rank(c) ==> role_rank(a) >= role_rank(
            c,
        ),
        role_rank(a) >= role_rank(b) && role_rank(b) >= role_rank(a) ==> a == b,
        role_rank(AccessRole::Admin) >= role_rank(a),
        role_rank(a) >= role_rank(AccessRole::Viewer),
{
}

/// Parsing the name of a role gives the role back.
pub proof fn law_role_name_parses_back(role: AccessRole)
    ensures
        parse_role_spec(role_name(role)) == Some(role),
{
    reveal_strlit("viewer");
    reveal_strlit("operator");
    reveal_strlit("engineer");
    reveal_strlit("admin");
    let n = role_name(role);
    assert(trim_start(n) == n);
    assert(trim_end(n) == n);
    assert(lower(n) =~= n);
}

/// Compare two secrets in constant time with respect to `expected` length.
///
/// The result is `true` exactly when both strings have the same bytes, hence the
/// same characters.
pub fn constant_time_eq(expected: &str, provided: &str) -> (r: bool)
    ensures
        r == (expected.spec_bytes() == provided.spec_bytes()),
        r == (expected@ == provided@),
{
    let expected_bytes = expected.as_bytes();
    let provided_bytes = provided.as_bytes();
    let el = expected_bytes.len();
    let pl = provided_bytes.len();
    let mut diff: usize = el ^ pl;
    assert(diff == 0 <==> el == pl) by (bit_vector)
        requires
            diff == el ^ pl,
    ;
    let mut idx: usize = 0;
    while idx < el
        invariant
            el == expected_bytes@.len(),
            pl == provided_bytes@.len(),
            idx <= el,
            diff == 0 <==> (el == pl && forall|k: int|
                0 <= k < idx ==> expected_bytes@[k] == provided_bytes@[k]),
        decreases el - idx,
    {
        let e: u8 = expected_bytes[idx];
        let p: u8 = if idx < pl {
            provided_bytes[idx]
        } else {
            0
        };
        let x: u8 = e ^ p;
        let old_diff = diff;
        diff = diff | (x as usize);
        assert(x == 0 <==> e == p) by (bit_vector)
            requires
                x == e ^ p,
        ;
        assert(diff == 0 <==> (old_diff == 0 && x == 0)) by (bit_vector)
            requires
                diff == old_diff | (x as usize),
        ;
        proof {
            if diff == 0 {
                assert(el == pl);
                assert(expected_bytes@[idx as int] == provided_bytes@[idx as int]);
            }
            if el == pl && forall|k: int|
                0 <= k < idx + 1 ==> expected_bytes@[k] == provided_bytes@[k] {
                assert(expected_bytes@[idx as int] == provided_bytes@[idx as int]);
            }
        }
        idx = idx + 1;
    }
    let r = diff == 0;
    proof {
        if r {
            assert(expected_bytes@ =~= provided_bytes@);
        }
        vstd::utf8::encode_utf8_decode_utf8(expected@);
        vstd::utf8::encode_utf8_decode_utf8(provided@);
    }
    r
}

/// The certificate material of the web server: where each PEM file was read from
/// and its bytes. Without a CA file the certificate itself is the CA.
#[derive(Debug, Clone)]
pub struct TlsMaterials {
    pub cert_path: String,
    pub key_path: String,
    pub ca_path: Option<String>,
    pub certificate_pem: Vec<u8>,
    pub private_key_pem: Vec<u8>,
    pub ca_pem: Vec<u8>,
}

/// `Path::join` on Unix: an absolute path replaces the base; otherwise it is
/// appended after a `/` unless the base is empty or already ends with one.
pub open spec fn join_path(root: Seq<char>, path: Seq<char>) -> Seq<char> {
    if path.len() > 0 && path[0] == '/' {
        path
    } else if root.len() == 0 || root.last() == '/' {
        root + path
    } else {
        root + seq!['/'] + path
    }
}

/// Where a configured TLS file is read from: an absolute path as is, a relative
/// one under the project root, which it then needs.
pub open spec fn tls_path_spec(path: Seq<char>, project_root: Option<Seq<char>>) -> Result<Seq<char>, Seq<char>> {
    if path.len() > 0 && path[0] == '/' {
        Ok(path)
    } else {
        match project_root {
            None => Err("relative tls path requires project root"@),
            Some(root) => Ok(join_path(root, path)),
        }
    }
}

pub fn resolve_tls_path(path: &str, project_root: Option<&str>) -> (r: Result<String, String>)
    ensures
        match r {
            Ok(p) => tls_path_spec(path@, match project_root { Some(x) => Some(x@), None => None })
                == Ok::<Seq<char>, Seq<char>>(p@),
            Err(e) => tls_path_spec(path@, match project_root { Some(x) => Some(x@), None => None })
                == Err::<Seq<char>, Seq<char>>(e@),
        },
{
    let pv = chars_of(path);
    if pv.len() > 0 && pv[0] == '/' {
        return Ok(path.to_owned());
    }
    let root = match project_root {
        None => return Err("relative tls path requires project root".to_owned()),
        Some(r) => r,
    };
    let rv = chars_of(root);
    let mut out = root.to_owned();
    if !(rv.len() == 0 || rv[rv.len() - 1] == '/') {
        crate::text::push_char(&mut out, '/');
    }
    crate::text::push_str(&mut out, path);
    assert(out@ =~= join_path(root@, path@));
    Ok(out)
}

} // verus!
