//! Input checks and file texts of the configuration UI: runtime ids, host groups,
//! live targets, source paths, the template of a new runtime, and the revision of
//! a text.
use vstd::prelude::*;
use vstd::string::StringSliceAdditionalSpecFns;

use sha2::Digest;

use crate::ide::order::{lemma_is_sorted_listing, lex_lt, lex_lt_exec, sorted_listing, strictly_sorted};
use crate::ide::paths::{split_all, split_chars};
use crate::text::{hex_digit, hex_digit_exec, 
    chars_eq_str, chars_of, ends_with, ends_with_str, is_word_char, is_word_char_exec, lower,
    lower_char, lower_chars, push_chars, push_str, slice_chars, starts_with, starts_with_str,
    string_of, to_lower_char, trim, trim_chars, trim_end_char, trim_end_char_exec,
    trim_start_char, trim_start_char_exec,
};

verus! {

/// A configuration request that cannot be carried out, with the reason.
#[derive(Debug)]
pub enum ConfigError {
    InvalidConfig(String),
}

pub open spec fn config_error_message(e: ConfigError) -> Seq<char> {
    match e {
        ConfigError::InvalidConfig(m) => m@,
    }
}

fn invalid(message: &str) -> (e: ConfigError)
    ensures
        config_error_message(e) == message@,
{
    ConfigError::InvalidConfig(message.to_owned())
}

/// Characters allowed in runtime ids and host groups.
pub open spec fn is_id_char(c: char) -> bool {
    is_word_char(c) || c == '-'
}

/// A runtime id: trimmed, non-empty, of `[a-zA-Z0-9-_]` only, and lowercased.
pub open spec fn runtime_id_spec(raw: Seq<char>) -> Result<Seq<char>, Seq<char>> {
    let t = trim(raw);
    if t.len() == 0 {
        Err("runtime_id is required"@)
    } else if exists|i: int| 0 <= i < t.len() && !is_id_char(#[trigger] t[i]) {
        Err("runtime_id may only contain [a-zA-Z0-9-_]"@)
    } else {
        Ok(lower(t))
    }
}

pub fn normalize_runtime_id(raw: &str) -> (r: Result<String, ConfigError>)
    ensures
        match r {
            Ok(id) => runtime_id_spec(raw@) == Ok::<Seq<char>, Seq<char>>(id@),
            Err(e) => runtime_id_spec(raw@) == Err::<Seq<char>, Seq<char>>(config_error_message(e)),
        },
{
    let v = chars_of(raw);
    let t = trim_chars(v.as_slice());
    if t.len() == 0 {
        return Err(invalid("runtime_id is required"));
    }
    let mut i: usize = 0;
    while i < t.len()
        invariant
            i <= t.len(),
            t@ == trim(raw@),
            t@.len() > 0,
            forall|k: int| 0 <= k < i ==> is_id_char(#[trigger] t@[k]),
        decreases t.len() - i,
    {
        if !(is_word_char_exec(t[i]) || t[i] == '-') {
            assert(!is_id_char(t@[i as int]));
            return Err(invalid("runtime_id may only contain [a-zA-Z0-9-_]"));
        }
        i = i + 1;
    }
    let l = lower_chars(t.as_slice());
    Ok(string_of(l.as_slice()))
}

/// A host group as stored: characters outside `[a-zA-Z0-9-_]` become `-`, the
/// rest are lowercased, and dashes at either end are dropped; blank groups and
/// groups of dashes only are none.
pub open spec fn host_group_spec(raw: Option<Seq<char>>) -> Option<Seq<char>> {
    match raw {
        None => None,
        Some(s) => {
            let t = trim(s);
            if t.len() == 0 {
                None
            } else {
                let mapped = t.map_values(|c: char| if is_id_char(c) { lower_char(c) } else { '-' });
                let g = trim_end_char(trim_start_char(mapped, '-'), '-');
                if g.len() == 0 { None } else { Some(g) }
            }
        },
    }
}

pub fn normalize_host_group(raw: Option<&str>) -> (r: Option<String>)
    ensures
        match r {
            Some(g) => host_group_spec(match raw { Some(s) => Some(s@), None => None }) == Some(g@),
            None => host_group_spec(match raw { Some(s) => Some(s@), None => None }) is None,
        },
{
    let s = match raw {
        None => return None,
        Some(s) => s,
    };
    let v = chars_of(s);
    let t = trim_chars(v.as_slice());
    if t.len() == 0 {
        return None;
    }
    let mut mapped: Vec<char> = Vec::new();
    let mut i: usize = 0;
    while i < t.len()
        invariant
            i <= t.len(),
            mapped@ =~= t@.take(i as int).map_values(|c: char| if is_id_char(c) { lower_char(c) } else { '-' }),
        decreases t.len() - i,
    {
        let c = t[i];
        let m = if is_word_char_exec(c) || c == '-' { to_lower_char(c) } else { '-' };
        mapped.push(m);
        assert(t@.take(i + 1).map_values(|c: char| if is_id_char(c) { lower_char(c) } else { '-' })
            =~= t@.take(i as int).map_values(|c: char| if is_id_char(c) { lower_char(c) } else { '-' }).push(m));
        i = i + 1;
    }
    assert(t@.take(t@.len() as int) =~= t@);
    let a = trim_start_char_exec(mapped.as_slice(), '-');
    let g = trim_end_char_exec(a.as_slice(), '-');
    if g.len() == 0 {
        None
    } else {
        Some(string_of(g.as_slice()))
    }
}

/// A live or proxy target as a base URL: trimmed, `http://` added when no scheme
/// is given, trailing slashes dropped; it must name a host.
pub open spec fn http_target_spec(raw: Seq<char>) -> Result<Seq<char>, Seq<char>> {
    let t = trim(raw);
    if t.len() == 0 {
        Err("target is required"@)
    } else {
        let with_scheme = if starts_with(t, "http://"@) || starts_with(t, "https://"@) {
            t
        } else {
            "http://"@ + t
        };
        let n = trim_end_char(with_scheme, '/');
        if n == "http:"@ || n == "https:"@ || ends_with(n, "://"@) {
            Err("target must include host"@)
        } else {
            Ok(n)
        }
    }
}

fn normalize_http_target(raw: &str) -> (r: Result<String, ConfigError>)
    ensures
        match r {
            Ok(t) => http_target_spec(raw@) == Ok::<Seq<char>, Seq<char>>(t@),
            Err(e) => http_target_spec(raw@) == Err::<Seq<char>, Seq<char>>(config_error_message(e)),
        },
{
    let v = chars_of(raw);
    let t = trim_chars(v.as_slice());
    if t.len() == 0 {
        return Err(invalid("target is required"));
    }
    let with_scheme: Vec<char> = if starts_with_str(t.as_slice(), "http://") || starts_with_str(t.as_slice(), "https://") {
        t
    } else {
        let p = chars_of("http://");
        crate::text::concat_chars(p.as_slice(), t.as_slice())
    };
    let n = trim_end_char_exec(with_scheme.as_slice(), '/');
    if chars_eq_str(n.as_slice(), "http:") || chars_eq_str(n.as_slice(), "https:") || ends_with_str(n.as_slice(), "://") {
        return Err(invalid("target must include host"));
    }
    Ok(string_of(n.as_slice()))
}

/// The base URL of a live runtime to connect the configuration UI to.
pub fn normalize_live_target(raw: &str) -> (r: Result<String, ConfigError>)
    ensures
        match r {
            Ok(t) => http_target_spec(raw@) == Ok::<Seq<char>, Seq<char>>(t@),
            Err(e) => http_target_spec(raw@) == Err::<Seq<char>, Seq<char>>(config_error_message(e)),
        },
{
    normalize_http_target(raw)
}

/// The base URL of a remote runtime that requests are proxied to.
pub fn normalize_proxy_target(raw: &str) -> (r: Result<String, ConfigError>)
    ensures
        match r {
            Ok(t) => http_target_spec(raw@) == Ok::<Seq<char>, Seq<char>>(t@),
            Err(e) => http_target_spec(raw@) == Err::<Seq<char>, Seq<char>>(config_error_message(e)),
        },
{
    normalize_http_target(raw)
}

/// A normalized target never ends with a slash.
pub proof fn law_target_has_no_trailing_slash(raw: Seq<char>)
    requires
        http_target_spec(raw) is Ok,
    ensures
        ({
            let n = http_target_spec(raw)->Ok_0;
            n.len() > 0 && n.last() != '/'
        }),
{
    let t = trim(raw);
    let with_scheme = if starts_with(t, "http://"@) || starts_with(t, "https://"@) {
        t
    } else {
        "http://"@ + t
    };
    lemma_trim_end_char_last(with_scheme, '/');
    reveal_strlit("http://");
    reveal_strlit("https://");
    if starts_with(t, "http://"@) {
        assert(t.subrange(0, 7)[0] == t[0]);
    } else if starts_with(t, "https://"@) {
        assert(t.subrange(0, 8)[0] == t[0]);
    }
    assert(with_scheme[0] == 'h');
    lemma_trim_end_char_keeps_first(with_scheme, '/');
}

/// Dropping trailing `c`s keeps a first character that is not `c`.
pub proof fn lemma_trim_end_char_keeps_first(s: Seq<char>, c: char)
    requires
        s.len() > 0,
        s[0] != c,
    ensures
        trim_end_char(s, c).len() > 0,
    decreases s.len(),
{
    if s.len() > 0 && s.last() == c {
        assert(s.len() > 1);
        assert(s.drop_last()[0] == s[0]);
        lemma_trim_end_char_keeps_first(s.drop_last(), c);
    }
}

/// After dropping trailing `c`s, the text is empty or does not end with `c`.
pub proof fn lemma_trim_end_char_last(s: Seq<char>, c: char)
    ensures
        trim_end_char(s, c).len() == 0 || trim_end_char(s, c).last() != c,
    decreases s.len(),
{
    if s.len() > 0 && s.last() == c {
        lemma_trim_end_char_last(s.drop_last(), c);
    }
}

/// The named components of a relative path: its `/`-separated pieces without
/// empty ones and `.`.
pub open spec fn normal_segments(path: Seq<char>) -> Seq<Seq<char>> {
    split_all(path, '/').filter(|p: Seq<char>| p.len() > 0 && p != "."@)
}

/// Index of the last `c` in `s`, or -1.
pub open spec fn last_index_of(s: Seq<char>, c: char) -> int
    decreases s.len(),
{
    if s.len() == 0 {
        -1
    } else if s.last() == c {
        s.len() - 1
    } else {
        last_index_of(s.drop_last(), c)
    }
}

/// `Path::extension` of a relative path: the text after the last dot of its
/// last named component, when that dot is not the component's first character.
pub open spec fn path_extension(path: Seq<char>) -> Option<Seq<char>> {
    let n = normal_segments(path);
    if n.len() == 0 {
        None
    } else {
        let name = n.last();
        let d = last_index_of(name, '.');
        if d <= 0 { None } else { Some(name.skip(d + 1)) }
    }
}

/// A Structured Text source path under `src/`: trimmed, non-empty, relative,
/// without `..`, and ending in `.st` in any case.
pub open spec fn st_relative_path_spec(path: Seq<char>) -> Result<Seq<char>, Seq<char>> {
    let t = trim(path);
    if t.len() == 0 {
        Err("path is required"@)
    } else if t[0] == '/' {
        Err("path must be relative to src/"@)
    } else if split_all(t, '/').contains(".."@) {
        Err("path must stay under src/"@)
    } else if lower(match path_extension(t) { Some(e) => e, None => Seq::empty() }) != "st"@ {
        Err("path must reference a .st file"@)
    } else {
        Ok(t)
    }
}

proof fn lemma_last_index_of_bounds(s: Seq<char>, c: char)
    ensures
        -1 <= last_index_of(s, c) < s.len(),
        last_index_of(s, c) >= 0 ==> s[last_index_of(s, c)] == c,
        forall|k: int| last_index_of(s, c) < k < s.len() ==> s[k] != c,
    decreases s.len(),
{
    if s.len() > 0 && s.last() != c {
        lemma_last_index_of_bounds(s.drop_last(), c);
        assert forall|k: int| last_index_of(s, c) < k < s.len() implies s[k] != c by {
            if k < s.len() - 1 {
                assert(s.drop_last()[k] == s[k]);
            }
        }
        if last_index_of(s, c) >= 0 {
            assert(s.drop_last()[last_index_of(s, c)] == s[last_index_of(s, c)]);
        }
    }
}

fn last_index_of_exec(s: &[char], c: char) -> (r: Option<usize>)
    ensures
        match r {
            Some(i) => i == last_index_of(s@, c),
            None => last_index_of(s@, c) == -1,
        },
{
    let mut k: usize = s.len();
    assert(s@.take(k as int) =~= s@);
    while k > 0
        invariant
            k <= s.len(),
            last_index_of(s@, c) == last_index_of(s@.take(k as int), c),
        decreases k,
    {
        assert(s@.take(k as int).drop_last() =~= s@.take(k - 1));
        assert(s@.take(k as int).last() == s@[k - 1]);
        if s[k - 1] == c {
            return Some(k - 1);
        }
        k = k - 1;
    }
    None
}

/// Checks a source path given relative to `src/`.
pub fn normalize_st_relative_path(path: &str) -> (r: Result<String, ConfigError>)
    ensures
        match r {
            Ok(p) => st_relative_path_spec(path@) == Ok::<Seq<char>, Seq<char>>(p@),
            Err(e) => st_relative_path_spec(path@) == Err::<Seq<char>, Seq<char>>(config_error_message(e)),
        },
{
    let v = chars_of(path);
    let t = trim_chars(v.as_slice());
    if t.len() == 0 {
        return Err(invalid("path is required"));
    }
    if t[0] == '/' {
        return Err(invalid("path must be relative to src/"));
    }
    let pieces = split_chars(t.as_slice(), '/');
    let ghost all = split_all(t@, '/');
    let mut i: usize = 0;
    while i < pieces.len()
        invariant
            i <= pieces.len(),
            t@ == trim(path@),
            t@.len() > 0,
            t@[0] != '/',
            all == split_all(t@, '/'),
            pieces@.len() == all.len(),
            forall|k: int| 0 <= k < pieces@.len() ==> (#[trigger] pieces@[k])@ == all[k],
            forall|k: int| 0 <= k < i ==> all[k] != ".."@,
        decreases pieces.len() - i,
    {
        if chars_eq_str(pieces[i].as_slice(), "..") {
            assert(all[i as int] == ".."@);
            return Err(invalid("path must stay under src/"));
        }
        i = i + 1;
    }
    assert(!all.contains(".."@)) by {
        if all.contains(".."@) {
            let k = choose|k: int| 0 <= k < all.len() && all[k] == ".."@;
            assert(pieces@[k]@ == all[k]);
        }
    }
    // the last named component
    let ghost pred = |p: Seq<char>| p.len() > 0 && p != "."@;
    let mut name: Option<usize> = None;
    let mut j: usize = 0;
    while j < pieces.len()
        invariant
            j <= pieces.len(),
            t@ == trim(path@),
            all == split_all(t@, '/'),
            pieces@.len() == all.len(),
            forall|k: int| 0 <= k < pieces@.len() ==> (#[trigger] pieces@[k])@ == all[k],
            pred == (|p: Seq<char>| p.len() > 0 && p != "."@),
            match name {
                None => all.take(j as int).filter(pred).len() == 0,
                Some(k) => k < j && all.take(j as int).filter(pred).len() > 0
                    && all.take(j as int).filter(pred).last() == all[k as int],
            },
        decreases pieces.len() - j,
    {
        proof {
            crate::ui::catalog::lemma_filter_take_step(all, pred, j as int);
        }
        if pieces[j].len() > 0 && !chars_eq_str(pieces[j].as_slice(), ".") {
            name = Some(j);
        }
        j = j + 1;
    }
    assert(all.take(all.len() as int) =~= all);
    let ext: Vec<char> = match name {
        None => Vec::new(),
        Some(k) => {
            let nm = pieces[k].as_slice();
            proof {
                lemma_last_index_of_bounds(nm@, '.');
            }
            match last_index_of_exec(nm, '.') {
                None => Vec::new(),
                Some(d) => if d == 0 {
                    Vec::new()
                } else {
                    let n = nm.len();
                    assert(d < n);
                    let r = slice_chars(nm, d + 1, nm.len());
                    assert(r@ =~= nm@.skip(d + 1));
                    r
                },
            }
        },
    };
    assert(ext@ == (match path_extension(t@) { Some(e) => e, None => Seq::<char>::empty() }));
    let e = lower_chars(ext.as_slice());
    proof {
        if ext@.len() == 0 {
            assert(lower(ext@) =~= Seq::<char>::empty());
        }
    }
    if !chars_eq_str(e.as_slice(), "st") {
        return Err(invalid("path must reference a .st file"));
    }
    Ok(string_of(t.as_slice()))
}

/// The SHA-256 digest of some bytes.
pub uninterp spec fn sha256(data: Seq<u8>) -> Seq<u8>;

/// `sha2::Sha256::digest`: the result is the SHA-256 digest of the bytes, 32 bytes
/// long (the hasher's output size).
#[verifier::external_body]
fn sha256_digest(data: &[u8]) -> (r: Vec<u8>)
    ensures
        r@ == sha256(data@),
        r@.len() == 32,
{
    sha2::Sha256::digest(data).to_vec()
}

/// `format!("{:x}", bytes)` of a digest: two lowercase hex digits per byte.
pub open spec fn lower_hex(bytes: Seq<u8>) -> Seq<char>
    decreases bytes.len(),
{
    if bytes.len() == 0 {
        Seq::empty()
    } else {
        lower_hex(bytes.drop_last()) + seq![
            hex_digit((bytes.last() / 16) as nat),
            hex_digit((bytes.last() % 16) as nat),
        ]
    }
}

/// Two hex digits per byte.
pub proof fn lemma_lower_hex_len(bytes: Seq<u8>)
    ensures
        lower_hex(bytes).len() == 2 * bytes.len(),
    decreases bytes.len(),
{
    if bytes.len() > 0 {
        lemma_lower_hex_len(bytes.drop_last());
    }
}

fn hex_of(digest: &[u8]) -> (r: String)
    ensures
        r@ == lower_hex(digest@),
{
    let mut out: Vec<char> = Vec::new();
    let mut i: usize = 0;
    while i < digest.len()
        invariant
            i <= digest.len(),
            out@ == lower_hex(digest@.take(i as int)),
        decreases digest.len() - i,
    {
        let b = digest[i];
        assert(digest@.take(i + 1).drop_last() =~= digest@.take(i as int));
        out.push(hex_digit_exec(b / 16));
        out.push(hex_digit_exec(b % 16));
        assert(out@ =~= lower_hex(digest@.take(i + 1)));
        i = i + 1;
    }
    assert(digest@.take(digest@.len() as int) =~= digest@);
    string_of(out.as_slice())
}

/// The revision of a text: the lowercase hex SHA-256 of its UTF-8 bytes.
pub fn text_revision(text: &str) -> (r: String)
    ensures
        r@ == lower_hex(sha256(text.spec_bytes())),
        r@.len() == 64,
{
    let digest = sha256_digest(text.as_bytes());
    proof {
        lemma_lower_hex_len(digest@);
    }
    hex_of(digest.as_slice())
}

/// What a runtime of the project contributes to the project's revision: its
/// id, its `runtime.toml` and `io.toml` texts, and the paths of its sources.
#[derive(Debug)]
pub struct RuntimeSources {
    pub runtime_id: String,
    pub runtime_toml: String,
    pub io_toml: String,
    pub st_files: Vec<String>,
}

/// The UTF-8 bytes of the strings one after another.
pub open spec fn utf8_concat(files: Seq<Seq<char>>) -> Seq<u8>
    decreases files.len(),
{
    if files.len() == 0 {
        Seq::empty()
    } else {
        utf8_concat(files.drop_last()) + vstd::utf8::encode_utf8(files.last())
    }
}

pub open spec fn sources_view(r: RuntimeSources) -> (Seq<char>, Seq<char>, Seq<char>, Seq<Seq<char>>) {
    (r.runtime_id@, r.runtime_toml@, r.io_toml@, r.st_files@.map_values(|f: String| f@))
}

/// The bytes a runtime feeds into the project hash.
pub open spec fn runtime_bytes(r: (Seq<char>, Seq<char>, Seq<char>, Seq<Seq<char>>)) -> Seq<u8> {
    vstd::utf8::encode_utf8(r.0) + vstd::utf8::encode_utf8(r.1) + vstd::utf8::encode_utf8(r.2) + utf8_concat(r.3)
}

/// The bytes of all the runtimes, in workspace order.
pub open spec fn project_bytes(rs: Seq<(Seq<char>, Seq<char>, Seq<char>, Seq<Seq<char>>)>) -> Seq<u8>
    decreases rs.len(),
{
    if rs.len() == 0 {
        Seq::empty()
    } else {
        project_bytes(rs.drop_last()) + runtime_bytes(rs.last())
    }
}

fn append_str_bytes(out: &mut Vec<u8>, s: &str)
    ensures
        final(out)@ == old(out)@ + vstd::utf8::encode_utf8(s@),
{
    let b = s.as_bytes();
    let mut i: usize = 0;
    let ghost start = out@;
    while i < b.len()
        invariant
            i <= b.len(),
            b@ == vstd::utf8::encode_utf8(s@),
            out@ == start + b@.take(i as int),
        decreases b.len() - i,
    {
        out.push(b[i]);
        assert(b@.take(i + 1) =~= b@.take(i as int).push(b@[i as int]));
        i = i + 1;
    }
    assert(b@.take(b.len() as int) =~= b@);
}

/// The revision of a whole project: the lowercase hex SHA-256 of, for each
/// runtime in turn, its id, its `runtime.toml`, its `io.toml` and its source
/// paths, all as UTF-8 bytes.
pub fn project_revision(runtimes: &[RuntimeSources]) -> (r: String)
    ensures
        r@ == lower_hex(sha256(project_bytes(runtimes@.map_values(|x: RuntimeSources| sources_view(x))))),
{
    let ghost rv = runtimes@.map_values(|x: RuntimeSources| sources_view(x));
    let mut bytes: Vec<u8> = Vec::new();
    let mut i: usize = 0;
    assert(rv.take(0) =~= Seq::<(Seq<char>, Seq<char>, Seq<char>, Seq<Seq<char>>)>::empty());
    while i < runtimes.len()
        invariant
            i <= runtimes.len(),
            rv == runtimes@.map_values(|x: RuntimeSources| sources_view(x)),
            bytes@ == project_bytes(rv.take(i as int)),
        decreases runtimes.len() - i,
    {
        let rt = &runtimes[i];
        let ghost v = sources_view(*rt);
        assert(rv[i as int] == v);
        let ghost before = bytes@;
        append_str_bytes(&mut bytes, rt.runtime_id.as_str());
        append_str_bytes(&mut bytes, rt.runtime_toml.as_str());
        append_str_bytes(&mut bytes, rt.io_toml.as_str());
        let ghost mid = bytes@;
        let mut k: usize = 0;
        assert(v.3.take(0) =~= Seq::<Seq<char>>::empty());
        while k < rt.st_files.len()
            invariant
                k <= rt.st_files.len(),
                v == sources_view(*rt),
                v.3.len() == rt.st_files.len(),
                bytes@ == mid + utf8_concat(v.3.take(k as int)),
            decreases rt.st_files.len() - k,
        {
            assert(v.3.take(k + 1).drop_last() =~= v.3.take(k as int));
            assert(v.3.take(k + 1).last() == rt.st_files@[k as int]@);
            append_str_bytes(&mut bytes, rt.st_files[k].as_str());
            assert(bytes@ =~= mid + utf8_concat(v.3.take(k + 1)));
            k = k + 1;
        }
        assert(v.3.take(v.3.len() as int) =~= v.3);
        assert(rv.take(i + 1).drop_last() =~= rv.take(i as int));
        assert(bytes@ =~= project_bytes(rv.take(i + 1)));
        i = i + 1;
    }
    assert(rv.take(runtimes.len() as int) =~= rv);
    let digest = sha256_digest(bytes.as_slice());
    hex_of(digest.as_slice())
}

// The fixed parts of a new runtime's `runtime.toml`, between the runtime id
// (three times) and the host group.
pub const TOML_BEFORE_NAME: &'static str = "[bundle]\nversion = 1\n\n[resource]\nname = \"";
pub const TOML_BEFORE_ENDPOINT_ID: &'static str = "\"\ncycle_interval_ms = 20\n\n[runtime.control]\nendpoint = \"unix:///tmp/";
pub const TOML_BEFORE_SERVICE_NAME: &'static str = ".sock\"\nmode = \"production\"\ndebug_enabled = false\n\n[runtime.log]\nlevel = \"info\"\n\n[runtime.retain]\nmode = \"none\"\nsave_interval_ms = 1000\n\n[runtime.watchdog]\nenabled = false\ntimeout_ms = 5000\naction = \"halt\"\n\n[runtime.fault]\npolicy = \"halt\"\n\n[runtime.web]\nenabled = true\nlisten = \"127.0.0.1:0\"\nauth = \"local\"\ntls = false\n\n[runtime.discovery]\nenabled = true\nservice_name = \"";
pub const TOML_BEFORE_HOST_GROUP: &'static str = "\"\nadvertise = true\ninterfaces = [\"lo\"]\nhost_group = \"";
pub const TOML_TAIL: &'static str = "\"\n\n[runtime.mesh]\nenabled = true\nrole = \"peer\"\nlisten = \"127.0.0.1:0\"\nconnect = []\ntls = false\npublish = []\nsubscribe = {}\n\n[runtime.cloud]\nprofile = \"dev\"\n\n[runtime.cloud.wan]\nallow_write = []\n\n[runtime.cloud.links]\ntransports = []\n";

/// The host group written for a new runtime: the given one trimmed, or
/// `default-host` when none or blank is given.
pub open spec fn template_group(host_group: Option<Seq<char>>) -> Seq<char> {
    match host_group {
        Some(g) => if trim(g).len() > 0 { trim(g) } else { "default-host"@ },
        None => "default-host"@,
    }
}

/// The `runtime.toml` of a new runtime: the fixed template with the runtime id as
/// resource name, control socket name and service name, and the host group.
pub open spec fn runtime_toml_spec(runtime_id: Seq<char>, host_group: Option<Seq<char>>) -> Seq<char> {
    TOML_BEFORE_NAME@ + runtime_id + TOML_BEFORE_ENDPOINT_ID@ + runtime_id + TOML_BEFORE_SERVICE_NAME@
        + runtime_id + TOML_BEFORE_HOST_GROUP@ + template_group(host_group) + TOML_TAIL@
}

pub fn render_new_runtime_toml(runtime_id: &str, host_group: Option<&str>) -> (r: String)
    ensures
        r@ == runtime_toml_spec(runtime_id@, match host_group { Some(g) => Some(g@), None => None }),
{
    let group: Vec<char> = match host_group {
        Some(g) => {
            let v = chars_of(g);
            let t = trim_chars(v.as_slice());
            if t.len() > 0 { t } else { chars_of("default-host") }
        },
        None => chars_of("default-host"),
    };
    let mut r = TOML_BEFORE_NAME.to_owned();
    push_str(&mut r, runtime_id);
    push_str(&mut r, TOML_BEFORE_ENDPOINT_ID);
    push_str(&mut r, runtime_id);
    push_str(&mut r, TOML_BEFORE_SERVICE_NAME);
    push_str(&mut r, runtime_id);
    push_str(&mut r, TOML_BEFORE_HOST_GROUP);
    push_chars(&mut r, group.as_slice());
    push_str(&mut r, TOML_TAIL);
    r
}

// ---------------------------------------------------------------------------
// Host groups
// ---------------------------------------------------------------------------

/// Where a runtime of the workspace is placed: its id and configured host group.
#[derive(Debug)]
pub struct RuntimePlacement {
    pub runtime_id: String,
    pub host_group: Option<String>,
}

pub open spec fn placement_view(p: RuntimePlacement) -> (Seq<char>, Option<Seq<char>>) {
    (p.runtime_id@, match p.host_group { Some(h) => Some(h@), None => None })
}

pub open spec fn placements_view(s: Seq<RuntimePlacement>) -> Seq<(Seq<char>, Option<Seq<char>>)> {
    s.map_values(|p: RuntimePlacement| placement_view(p))
}

/// The group a runtime belongs to: its host group when one is set and not blank,
/// else a group of its own named `host-<id>`.
pub open spec fn group_key(p: (Seq<char>, Option<Seq<char>>)) -> Seq<char> {
    match p.1 {
        Some(h) => if trim(h).len() > 0 { h } else { "host-"@ + p.0 },
        None => "host-"@ + p.0,
    }
}

pub open spec fn group_keys(s: Seq<(Seq<char>, Option<Seq<char>>)>) -> Set<Seq<char>> {
    s.map_values(|p: (Seq<char>, Option<Seq<char>>)| group_key(p)).to_set()
}

/// `x` placed in the non-decreasing `s` after every string not greater than it.
pub open spec fn insert_str(s: Seq<Seq<char>>, x: Seq<char>) -> Seq<Seq<char>>
    decreases s.len(),
{
    if s.len() == 0 {
        seq![x]
    } else if lex_lt(x, s.last()) {
        insert_str(s.drop_last(), x).push(s.last())
    } else {
        s.push(x)
    }
}

/// `slice::sort` on strings.
pub open spec fn sort_strs(s: Seq<Seq<char>>) -> Seq<Seq<char>>
    decreases s.len(),
{
    if s.len() == 0 { s } else { insert_str(sort_strs(s.drop_last()), s.last()) }
}

/// The ids of the runtimes in group `key`, in workspace order.
pub open spec fn ids_in_group(s: Seq<(Seq<char>, Option<Seq<char>>)>, key: Seq<char>) -> Seq<Seq<char>> {
    s.filter(|p: (Seq<char>, Option<Seq<char>>)| group_key(p) == key).map_values(
        |p: (Seq<char>, Option<Seq<char>>)| p.0,
    )
}

/// The runtimes of a workspace grouped by host: one list of sorted ids per group,
/// the groups in increasing order of their names.
pub open spec fn host_groups_spec(s: Seq<(Seq<char>, Option<Seq<char>>)>) -> Seq<Seq<Seq<char>>> {
    let keys = sorted_listing(group_keys(s));
    Seq::new(keys.len(), |i: int| sort_strs(ids_in_group(s, keys[i])))
}

fn group_key_exec(p: &RuntimePlacement) -> (r: Vec<char>)
    ensures
        r@ == group_key(placement_view(*p)),
{
    let own = {
        let mut v = chars_of("host-");
        let id = chars_of(p.runtime_id.as_str());
        crate::text::concat_chars(v.as_slice(), id.as_slice())
    };
    match &p.host_group {
        Some(h) => {
            let hv = chars_of(h.as_str());
            let t = trim_chars(hv.as_slice());
            if t.len() > 0 { hv } else { own }
        },
        None => own,
    }
}

fn insert_str_exec(sorted: &mut Vec<String>, x: String)
    ensures
        final(sorted)@.map_values(|s: String| s@) == insert_str(old(sorted)@.map_values(|s: String| s@), x@),
{
    let ghost s = sorted@.map_values(|t: String| t@);
    let xv = chars_of(x.as_str());
    let mut k: usize = sorted.len();
    assert(s.take(k as int) =~= s);
    assert(s.skip(k as int) =~= Seq::<Seq<char>>::empty());
    while k > 0 && lex_lt_exec(xv.as_slice(), chars_of(sorted[k - 1].as_str()).as_slice())
        invariant
            k <= sorted@.len(),
            sorted@ == old(sorted)@,
            s == sorted@.map_values(|t: String| t@),
            xv@ == x@,
            insert_str(s, x@) == insert_str(s.take(k as int), x@) + s.skip(k as int),
        decreases k,
    {
        assert(s.take(k as int).drop_last() =~= s.take(k - 1));
        assert(s.take(k as int).last() == s[k - 1]);
        assert(s.skip(k - 1) =~= seq![s[k - 1]] + s.skip(k as int));
        assert(insert_str(s.take(k - 1), x@).push(s[k - 1]) + s.skip(k as int) =~= insert_str(
            s.take(k - 1),
            x@,
        ) + s.skip(k - 1));
        k = k - 1;
    }
    proof {
        if k > 0 {
            assert(s.take(k as int).last() == s[k - 1]);
        }
    }
    sorted.insert(k, x);
    assert(sorted@.map_values(|t: String| t@) =~= s.take(k as int).push(x@) + s.skip(k as int));
}

/// The runtimes of the workspace grouped by host, each group's ids sorted, the
/// groups ordered by name.
pub fn host_groups_from_workspace(runtimes: &[RuntimePlacement]) -> (r: Vec<Vec<String>>)
    ensures
        r@.map_values(|g: Vec<String>| g@.map_values(|s: String| s@)) == host_groups_spec(placements_view(runtimes@)),
{
    let ghost pv = placements_view(runtimes@);
    // the group names, increasing
    let mut keys: Vec<String> = Vec::new();
    let mut i: usize = 0;
    assert(strictly_sorted(crate::ide::analysis::names_view(keys@))) by {
        assert(crate::ide::analysis::names_view(keys@).len() == 0);
    }
    while i < runtimes.len()
        invariant
            i <= runtimes.len(),
            pv == placements_view(runtimes@),
            strictly_sorted(crate::ide::analysis::names_view(keys@)),
            crate::ide::analysis::string_set(keys@) == group_keys(pv.take(i as int)),
        decreases runtimes.len() - i,
    {
        let k = group_key_exec(&runtimes[i]);
        assert(pv[i as int] == placement_view(runtimes@[i as int]));
        crate::ide::analysis::add_symbol(&mut keys, k.as_slice());
        assert(group_keys(pv.take(i + 1)) =~= group_keys(pv.take(i as int)).insert(group_key(pv[i as int]))) by {
            let a = pv.take(i as int).map_values(|p: (Seq<char>, Option<Seq<char>>)| group_key(p));
            let b = pv.take(i + 1).map_values(|p: (Seq<char>, Option<Seq<char>>)| group_key(p));
            assert(b =~= a.push(group_key(pv[i as int])));
            broadcast use vstd::seq_lib::group_seq_properties;
        }
        i = i + 1;
    }
    assert(pv.take(pv.len() as int) =~= pv);
    let ghost kv = crate::ide::analysis::names_view(keys@);
    proof {
        lemma_is_sorted_listing(kv);
        assert(crate::ide::analysis::string_set(keys@) == kv.to_set());
    }
    let mut out: Vec<Vec<String>> = Vec::new();
    let mut g: usize = 0;
    while g < keys.len()
        invariant
            g <= keys.len(),
            pv == placements_view(runtimes@),
            kv == crate::ide::analysis::names_view(keys@),
            kv == sorted_listing(group_keys(pv)),
            out@.map_values(|x: Vec<String>| x@.map_values(|s: String| s@)) =~= Seq::new(
                g as nat,
                |j: int| sort_strs(ids_in_group(pv, kv[j])),
            ),
        decreases keys.len() - g,
    {
        let key = chars_of(keys[g].as_str());
        assert(key@ == kv[g as int]);
        let ghost pred = |p: (Seq<char>, Option<Seq<char>>)| group_key(p) == kv[g as int];
        let mut ids: Vec<String> = Vec::new();
        let mut j: usize = 0;
        while j < runtimes.len()
            invariant
                j <= runtimes.len(),
                pv == placements_view(runtimes@),
                key@ == kv[g as int],
                pred == (|p: (Seq<char>, Option<Seq<char>>)| group_key(p) == kv[g as int]),
                ids@.map_values(|s: String| s@) == sort_strs(
                    pv.take(j as int).filter(pred).map_values(|p: (Seq<char>, Option<Seq<char>>)| p.0),
                ),
            decreases runtimes.len() - j,
        {
            proof {
                crate::ui::catalog::lemma_filter_take_step(pv, pred, j as int);
            }
            assert(pv[j as int] == placement_view(runtimes@[j as int]));
            let k = group_key_exec(&runtimes[j]);
            if crate::text::chars_eq(k.as_slice(), key.as_slice()) {
                let ghost f = pv.take(j as int).filter(pred).map_values(|p: (Seq<char>, Option<Seq<char>>)| p.0);
                insert_str_exec(&mut ids, runtimes[j].runtime_id.clone());
                assert(pv.take(j + 1).filter(pred).map_values(|p: (Seq<char>, Option<Seq<char>>)| p.0) =~= f.push(
                    pv[j as int].0,
                ));
                assert(f.push(pv[j as int].0).drop_last() =~= f);
            }
            j = j + 1;
        }
        assert(pv.take(pv.len() as int) =~= pv);
        let ghost before = out@;
        out.push(ids);
        assert(out@.map_values(|x: Vec<String>| x@.map_values(|s: String| s@)) =~= before.map_values(
            |x: Vec<String>| x@.map_values(|s: String| s@),
        ).push(sort_strs(ids_in_group(pv, kv[g as int]))));
        g = g + 1;
    }
    out
}

// ---------------------------------------------------------------------------
// Choosing the runtime a request is about
// ---------------------------------------------------------------------------

/// The first runtime of the workspace with this id.
pub open spec fn runtime_index(s: Seq<(Seq<char>, Option<Seq<char>>)>, id: Seq<char>) -> Option<int>
    decreases s.len(),
{
    if s.len() == 0 {
        None
    } else {
        match runtime_index(s.drop_last(), id) {
            Some(i) => Some(i),
            None => if s.last().0 == id { Some(s.len() - 1) } else { None },
        }
    }
}

/// The runtime with id `id`, or the error naming the unknown id.
pub open spec fn runtime_by_id_spec(s: Seq<(Seq<char>, Option<Seq<char>>)>, id: Seq<char>) -> Result<int, Seq<char>> {
    match runtime_index(s, id) {
        Some(i) => Ok(i),
        None => Err("unknown runtime_id '"@ + id + "'"@),
    }
}

proof fn lemma_runtime_index_step(s: Seq<(Seq<char>, Option<Seq<char>>)>, id: Seq<char>, i: int)
    requires
        0 <= i < s.len(),
        runtime_index(s.take(i), id) is None,
    ensures
        runtime_index(s.take(i + 1), id) == (if s[i].0 == id { Some(i) } else { None::<int> }),
{
    assert(s.take(i + 1).drop_last() =~= s.take(i));
}

proof fn lemma_runtime_index_found(s: Seq<(Seq<char>, Option<Seq<char>>)>, id: Seq<char>, k: int)
    requires
        0 <= k <= s.len(),
        runtime_index(s.take(k), id) is Some,
    ensures
        runtime_index(s, id) == runtime_index(s.take(k), id),
    decreases s.len() - k,
{
    if k < s.len() {
        assert(s.take(k + 1).drop_last() =~= s.take(k));
        lemma_runtime_index_found(s, id, k + 1);
    } else {
        assert(s.take(k) =~= s);
    }
}

/// Finds the runtime with id `runtime_id`; its position in the workspace.
pub fn resolve_runtime_by_id(runtimes: &[RuntimePlacement], runtime_id: &str) -> (r: Result<usize, ConfigError>)
    ensures
        match (r, runtime_by_id_spec(placements_view(runtimes@), runtime_id@)) {
            (Ok(i), Ok(j)) => i == j,
            (Err(e), Err(m)) => config_error_message(e) == m,
            _ => false,
        },
{
    let ghost pv = placements_view(runtimes@);
    let mut i: usize = 0;
    assert(pv.take(0) =~= Seq::<(Seq<char>, Option<Seq<char>>)>::empty());
    while i < runtimes.len()
        invariant
            i <= runtimes.len(),
            pv == placements_view(runtimes@),
            pv.len() == runtimes.len(),
            runtime_index(pv.take(i as int), runtime_id@) is None,
        decreases runtimes.len() - i,
    {
        proof {
            lemma_runtime_index_step(pv, runtime_id@, i as int);
        }
        assert(pv[i as int] == placement_view(runtimes@[i as int]));
        if crate::text::str_eq(runtimes[i].runtime_id.as_str(), runtime_id) {
            proof {
                lemma_runtime_index_found(pv, runtime_id@, i + 1);
            }
            return Ok(i);
        }
        i = i + 1;
    }
    assert(pv.take(runtimes.len() as int) =~= pv);
    let mut m = "unknown runtime_id '".to_owned();
    push_str(&mut m, runtime_id);
    push_str(&mut m, "'");
    Err(ConfigError::InvalidConfig(m))
}

/// The runtime a request is about: the one it names (trimmed), else the one the
/// server is connected through when the workspace has it, else the first.
pub open spec fn runtime_target_spec(
    s: Seq<(Seq<char>, Option<Seq<char>>)>,
    requested: Option<Seq<char>>,
    connected_via: Seq<char>,
) -> Result<int, Seq<char>> {
    if requested is Some && trim(requested->0).len() > 0 {
        runtime_by_id_spec(s, trim(requested->0))
    } else if connected_via.len() > 0 && runtime_index(s, connected_via) is Some {
        Ok(runtime_index(s, connected_via)->0)
    } else if s.len() > 0 {
        Ok(0)
    } else {
        Err("workspace has no runtimes"@)
    }
}

/// Chooses the runtime a request is about; its position in the workspace.
pub fn resolve_runtime_target(
    runtimes: &[RuntimePlacement],
    requested_runtime_id: Option<&str>,
    connected_via: &str,
) -> (r: Result<usize, ConfigError>)
    ensures
        match (r, runtime_target_spec(
            placements_view(runtimes@),
            match requested_runtime_id { Some(x) => Some(x@), None => None },
            connected_via@,
        )) {
            (Ok(i), Ok(j)) => i == j,
            (Err(e), Err(m)) => config_error_message(e) == m,
            _ => false,
        },
{
    if let Some(requested) = requested_runtime_id {
        let raw = chars_of(requested);
        let t = trim_chars(raw.as_slice());
        if t.len() > 0 {
            let id = string_of(t.as_slice());
            return resolve_runtime_by_id(runtimes, id.as_str());
        }
    }
    if !connected_via.is_empty() {
        if let Ok(i) = resolve_runtime_by_id(runtimes, connected_via) {
            return Ok(i);
        }
    }
    if runtimes.len() > 0 {
        Ok(0)
    } else {
        Err(invalid("workspace has no runtimes"))
    }
}

} // verus!
