//! Filename templates: `{hostname}`, `{os}`, `{platform}`, `{distro}` and
//! `{user}` placeholders.

use vstd::prelude::*;
use crate::text::{
    chars_eq, chars_of, contains, extend_chars, has_infix, has_prefix, slice_to_vec, starts_with,
    string_of,
};

verus! {

/// A `{...}` placeholder that the template language does not know.
#[derive(Debug)]
pub struct UnknownPlaceholder {
    pub name: String,
}

pub open spec fn hostname_name() -> Seq<char> {
    seq!['h', 'o', 's', 't', 'n', 'a', 'm', 'e']
}

pub open spec fn os_name() -> Seq<char> {
    seq!['o', 's']
}

pub open spec fn platform_name() -> Seq<char> {
    seq!['p', 'l', 'a', 't', 'f', 'o', 'r', 'm']
}

pub open spec fn distro_name() -> Seq<char> {
    seq!['d', 'i', 's', 't', 'r', 'o']
}

pub open spec fn user_name() -> Seq<char> {
    seq!['u', 's', 'e', 'r']
}

/// The placeholder names the template language knows.
pub open spec fn known_placeholder(name: Seq<char>) -> bool {
    ||| name == hostname_name()
    ||| name == os_name()
    ||| name == platform_name()
    ||| name == distro_name()
    ||| name == user_name()
}

/// The values that replace the placeholders.
pub struct PlaceholderValues {
    pub hostname: String,
    pub os: String,
    pub platform: String,
    pub distro: String,
    pub user: String,
}

/// `{name}` as text.
pub open spec fn braced(name: Seq<char>) -> Seq<char> {
    seq!['{'] + name + seq!['}']
}

/// The first index at or after `k` where `s` holds `c`, or `s.len()`.
pub open spec fn find_from(s: Seq<char>, c: char, k: int) -> int
    decreases s.len() - k,
{
    if k >= s.len() {
        s.len() as int
    } else if k >= 0 && s[k] == c {
        k
    } else if k < 0 {
        find_from(s, c, 0)
    } else {
        find_from(s, c, k + 1)
    }
}

pub proof fn lemma_find_from(s: Seq<char>, c: char, k: int)
    requires
        0 <= k <= s.len(),
    ensures
        k <= find_from(s, c, k) <= s.len(),
        find_from(s, c, k) < s.len() ==> s[find_from(s, c, k)] == c,
        forall|i: int| k <= i < find_from(s, c, k) ==> s[i] != c,
    decreases s.len() - k,
{
    if k < s.len() && s[k] != c {
        lemma_find_from(s, c, k + 1);
    }
}

/// Scanning `s` from `k`: the name of the first `{name}` pair whose name is
/// neither empty nor known.  Each `{` is matched with the first `}` after
/// it; scanning stops at a `{` with no `}` after it.
pub open spec fn unknown_from(s: Seq<char>, k: int) -> Option<Seq<char>>
    decreases s.len() - k,
{
    if k < 0 || k >= s.len() {
        None
    } else {
        let i = find_from(s, '{', k);
        if i >= s.len() {
            None
        } else {
            let j = find_from(s, '}', i + 1);
            if j >= s.len() {
                None
            } else {
                let name = s.subrange(i + 1, j);
                if name.len() > 0 && !known_placeholder(name) {
                    Some(name)
                } else {
                    proof {
                        lemma_find_from(s, '{', k);
                        lemma_find_from(s, '}', i + 1);
                    }
                    unknown_from(s, j + 1)
                }
            }
        }
    }
}

/// The first unknown placeholder of a template, if any.
pub open spec fn first_unknown(t: Seq<char>) -> Option<Seq<char>> {
    unknown_from(t, 0)
}

/// Every non-overlapping occurrence of `pat` in `s`, leftmost first,
/// replaced by `rep`, as `str::replace` does for a non-empty pattern.  For an
/// empty pattern `s` is returned unchanged (where `str::replace` would put
/// `rep` between every two characters); only non-empty patterns are used here.
pub open spec fn replace_all(s: Seq<char>, pat: Seq<char>, rep: Seq<char>) -> Seq<char>
    decreases s.len(),
{
    if pat.len() == 0 || s.len() < pat.len() {
        s
    } else if s.take(pat.len() as int) == pat {
        rep + replace_all(s.skip(pat.len() as int), pat, rep)
    } else {
        seq![s[0]] + replace_all(s.drop_first(), pat, rep)
    }
}

/// The template with `{hostname}`, then `{os}`, `{platform}`, `{distro}` and
/// `{user}` replaced, in that order.
pub open spec fn substitute(t: Seq<char>, v: PlaceholderValues) -> Seq<char> {
    let a = replace_all(t, braced(hostname_name()), v.hostname@);
    let b = replace_all(a, braced(os_name()), v.os@);
    let c = replace_all(b, braced(platform_name()), v.platform@);
    let d = replace_all(c, braced(distro_name()), v.distro@);
    replace_all(d, braced(user_name()), v.user@)
}

/// What expanding `t` gives for the given values: the first unknown
/// placeholder's name as the error, or the substituted template.
pub open spec fn expand_spec(t: Seq<char>, v: PlaceholderValues) -> Result<Seq<char>, Seq<char>> {
    match first_unknown(t) {
        Some(name) => Err(name),
        None => Ok(substitute(t, v)),
    }
}

/// The text of the error for an unknown placeholder.
pub open spec fn unknown_message(name: Seq<char>) -> Seq<char> {
    "unknown template placeholder '{"@ + name
        + "}'. Valid placeholders: {hostname}, {os}, {platform}, {distro}, {user}"@
}

impl UnknownPlaceholder {
    /// The error's text: the unknown placeholder and the valid ones.
    pub fn message(&self) -> (r: String)
        ensures
            r@ == unknown_message(self.name@),
    {
        let mut out = chars_of("unknown template placeholder '{");
        let name = chars_of(self.name.as_str());
        extend_chars(&mut out, name.as_slice());
        let tail = chars_of("}'. Valid placeholders: {hostname}, {os}, {platform}, {distro}, {user}");
        extend_chars(&mut out, tail.as_slice());
        string_of(out.as_slice())
    }
}

fn is_known(name: &[char]) -> (r: bool)
    ensures
        r == known_placeholder(name@),
{
    let h: [char; 8] = ['h', 'o', 's', 't', 'n', 'a', 'm', 'e'];
    let o: [char; 2] = ['o', 's'];
    let p: [char; 8] = ['p', 'l', 'a', 't', 'f', 'o', 'r', 'm'];
    let d: [char; 6] = ['d', 'i', 's', 't', 'r', 'o'];
    let u: [char; 4] = ['u', 's', 'e', 'r'];
    let a = chars_eq(name, &h);
    let b = chars_eq(name, &o);
    let c = chars_eq(name, &p);
    let e = chars_eq(name, &d);
    let f = chars_eq(name, &u);
    assert(h@ =~= hostname_name());
    assert(o@ =~= os_name());
    assert(p@ =~= platform_name());
    assert(d@ =~= distro_name());
    assert(u@ =~= user_name());
    a || b || c || e || f
}

fn find_from_exec(s: &[char], c: char, k: usize) -> (r: usize)
    requires
        k <= s.len(),
    ensures
        r == find_from(s@, c, k as int),
{
    let mut i = k;
    while i < s.len()
        invariant
            k <= i <= s.len(),
            find_from(s@, c, i as int) == find_from(s@, c, k as int),
        decreases s.len() - i,
    {
        if s[i] == c {
            return i;
        }
        i = i + 1;
    }
    i
}

/// The first unknown placeholder of `template`, if any.
pub fn find_unknown_placeholder(template: &str) -> (r: Option<String>)
    ensures
        match r {
            Some(n) => first_unknown(template@) == Some(n@),
            None => first_unknown(template@) is None,
        },
{
    let s = chars_of(template);
    let mut k: usize = 0;
    while k < s.len()
        invariant
            k <= s.len(),
            s@ == template@,
            unknown_from(s@, k as int) == first_unknown(template@),
        decreases s.len() - k,
    {
        let i = find_from_exec(s.as_slice(), '{', k);
        if i >= s.len() {
            return None;
        }
        proof {
            lemma_find_from(s@, '{', k as int);
        }
        let j = find_from_exec(s.as_slice(), '}', i + 1);
        if j >= s.len() {
            return None;
        }
        proof {
            lemma_find_from(s@, '}', i + 1);
        }
        let name = slice_to_vec(s.as_slice(), i + 1, j);
        if name.len() > 0 && !is_known(name.as_slice()) {
            return Some(string_of(name.as_slice()));
        }
        k = j + 1;
    }
    None
}

/// `s` with every occurrence of `pat` replaced by `rep`.
pub fn replace_all_exec(s: &[char], pat: &[char], rep: &[char]) -> (out: Vec<char>)
    requires
        pat.len() > 0,
    ensures
        out@ == replace_all(s@, pat@, rep@),
{
    let mut out: Vec<char> = Vec::new();
    let mut i: usize = 0;
    assert(s@.skip(0) =~= s@);
    while i < s.len()
        invariant
            i <= s.len(),
            pat.len() > 0,
            replace_all(s@, pat@, rep@) == out@ + replace_all(s@.skip(i as int), pat@, rep@),
        decreases s.len() - i,
    {
        let ghost rest = s@.skip(i as int);
        let tail = slice_to_vec(s, i, s.len());
        assert(tail@ =~= rest);
        if starts_with(tail.as_slice(), pat) {
            extend_chars(&mut out, rep);
            assert(rest.skip(pat.len() as int) =~= s@.skip(i + pat.len()));
            i = i + pat.len();
        } else {
            out.push(s[i]);
            assert(rest.drop_first() =~= s@.skip(i + 1));
            proof {
                if rest.len() < pat@.len() {
                    assert(replace_all(rest, pat@, rep@) == rest);
                    assert(replace_all(rest.drop_first(), pat@, rep@) == rest.drop_first());
                    assert(rest =~= seq![s@[i as int]] + rest.drop_first());
                }
            }
            i = i + 1;
        }
    }
    assert(s@.skip(i as int) =~= Seq::<char>::empty());
    assert(out@ + Seq::<char>::empty() =~= out@);
    out
}

/// The template with every known placeholder replaced by its value.
pub fn substitute_placeholders(template: &str, v: &PlaceholderValues) -> (r: String)
    ensures
        r@ == substitute(template@, *v),
{
    let t = chars_of(template);
    let ph: [char; 10] = ['{', 'h', 'o', 's', 't', 'n', 'a', 'm', 'e', '}'];
    let po: [char; 4] = ['{', 'o', 's', '}'];
    let pp: [char; 10] = ['{', 'p', 'l', 'a', 't', 'f', 'o', 'r', 'm', '}'];
    let pd: [char; 8] = ['{', 'd', 'i', 's', 't', 'r', 'o', '}'];
    let pu: [char; 6] = ['{', 'u', 's', 'e', 'r', '}'];
    assert(ph@ =~= braced(hostname_name()));
    assert(po@ =~= braced(os_name()));
    assert(pp@ =~= braced(platform_name()));
    assert(pd@ =~= braced(distro_name()));
    assert(pu@ =~= braced(user_name()));
    let a = replace_all_exec(t.as_slice(), &ph, chars_of(v.hostname.as_str()).as_slice());
    let b = replace_all_exec(a.as_slice(), &po, chars_of(v.os.as_str()).as_slice());
    let c = replace_all_exec(b.as_slice(), &pp, chars_of(v.platform.as_str()).as_slice());
    let d = replace_all_exec(c.as_slice(), &pd, chars_of(v.distro.as_str()).as_slice());
    let e = replace_all_exec(d.as_slice(), &pu, chars_of(v.user.as_str()).as_slice());
    string_of(e.as_slice())
}

/// Expand the template with the given values: an error names the first
/// unknown placeholder, otherwise every known placeholder is replaced.
pub fn expand_filename_with(template: &str, v: &PlaceholderValues) -> (r: Result<
    String,
    UnknownPlaceholder,
>)
    ensures
        match r {
            Ok(s) => expand_spec(template@, *v) == Ok::<Seq<char>, Seq<char>>(s@),
            Err(e) => expand_spec(template@, *v) == Err::<Seq<char>, Seq<char>>(e.name@),
        },
{
    match find_unknown_placeholder(template) {
        Some(name) => Err(UnknownPlaceholder { name }),
        None => Ok(substitute_placeholders(template, v)),
    }
}

// ---------------------------------------------------------------------------
// Platform and distribution
// ---------------------------------------------------------------------------

pub open spec fn linux_name() -> Seq<char> {
    seq!['l', 'i', 'n', 'u', 'x']
}

pub open spec fn wsl_name() -> Seq<char> {
    seq!['w', 's', 'l']
}

/// Whether the kernel version text is that of Windows Subsystem for Linux.
pub open spec fn wsl_kernel(proc_version: Seq<char>) -> bool {
    has_infix(proc_version, microsoft_lower()) || has_infix(proc_version, microsoft_upper())
}

pub open spec fn microsoft_lower() -> Seq<char> {
    seq!['m', 'i', 'c', 'r', 'o', 's', 'o', 'f', 't']
}

pub open spec fn microsoft_upper() -> Seq<char> {
    seq!['M', 'i', 'c', 'r', 'o', 's', 'o', 'f', 't']
}

/// `{platform}`: the operating system, except `wsl` on Linux under Windows
/// Subsystem for Linux (recognised by the kernel version text, when known).
pub open spec fn platform_spec(os: Seq<char>, proc_version: Option<Seq<char>>) -> Seq<char> {
    match proc_version {
        Some(v) => if os == linux_name() && wsl_kernel(v) {
            wsl_name()
        } else {
            os
        },
        None => os,
    }
}

/// The platform name for `{platform}`, from the operating-system name and
/// the kernel version text (`/proc/version`) when it could be read.
pub fn platform_of(os: &str, proc_version: Option<&str>) -> (r: String)
    ensures
        r@ == platform_spec(os@, match proc_version {
            Some(v) => Some(v@),
            None => None,
        }),
{
    let o = chars_of(os);
    let lx: [char; 5] = ['l', 'i', 'n', 'u', 'x'];
    assert(lx@ =~= linux_name());
    match proc_version {
        Some(v) => {
            if chars_eq(o.as_slice(), &lx) {
                let vc = chars_of(v);
                let m1: [char; 9] = ['m', 'i', 'c', 'r', 'o', 's', 'o', 'f', 't'];
                let m2: [char; 9] = ['M', 'i', 'c', 'r', 'o', 's', 'o', 'f', 't'];
                assert(m1@ =~= seq!['m', 'i', 'c', 'r', 'o', 's', 'o', 'f', 't']);
                assert(m2@ =~= seq!['M', 'i', 'c', 'r', 'o', 's', 'o', 'f', 't']);
                if contains(vc.as_slice(), &m1) || contains(vc.as_slice(), &m2) {
                    let w: [char; 3] = ['w', 's', 'l'];
                    assert(w@ =~= wsl_name());
                    return string_of(&w);
                }
            }
            string_of(o.as_slice())
        },
        None => string_of(o.as_slice()),
    }
}

pub open spec fn id_key() -> Seq<char> {
    seq!['I', 'D', '=']
}

/// A value without one pair of matching surrounding quotes (`"` or `'`).
pub open spec fn unquote(v: Seq<char>) -> Seq<char> {
    if v.len() >= 2 && (v[0] == '"' || v[0] == '\'') && v.last() == v[0] {
        v.subrange(1, v.len() - 1)
    } else {
        v
    }
}

/// The value of the first line at or after `k` that starts with `ID=`.
pub open spec fn id_from(s: Seq<char>, k: int) -> Option<Seq<char>>
    decreases s.len() - k,
{
    if k < 0 || k > s.len() {
        None
    } else {
        let e = find_from(s, '\n', k);
        let line = s.subrange(k, e);
        if has_prefix(line, id_key()) {
            Some(unquote(line.skip(3)))
        } else if e >= s.len() {
            None
        } else {
            proof {
                lemma_find_from(s, '\n', k);
            }
            id_from(s, e + 1)
        }
    }
}

/// `{distro}`: the `ID` of the os-release text, or `unknown` when it has
/// none or could not be read.
pub open spec fn distro_spec(os_release: Option<Seq<char>>) -> Seq<char> {
    match os_release {
        Some(s) => match id_from(s, 0) {
            Some(id) => id,
            None => "unknown"@,
        },
        None => "unknown"@,
    }
}

/// The distribution `ID` in os-release text (`/etc/os-release`), if any.
pub fn os_release_id(os_release: &str) -> (r: Option<String>)
    ensures
        match r {
            Some(id) => id_from(os_release@, 0) == Some(id@),
            None => id_from(os_release@, 0) is None,
        },
{
    let s = chars_of(os_release);
    let key: [char; 3] = ['I', 'D', '='];
    assert(key@ =~= id_key());
    let mut k: usize = 0;
    loop
        invariant
            k <= s.len(),
            s@ == os_release@,
            key@ == id_key(),
            id_from(s@, k as int) == id_from(os_release@, 0),
        decreases s.len() - k,
    {
        let e = find_from_exec(s.as_slice(), '\n', k);
        proof {
            lemma_find_from(s@, '\n', k as int);
        }
        let line = slice_to_vec(s.as_slice(), k, e);
        if starts_with(line.as_slice(), &key) {
            let v = slice_to_vec(line.as_slice(), 3, line.len());
            assert(v@ =~= line@.skip(3));
            let n = v.len();
            assert(id_from(s@, k as int) == Some(unquote(v@)));
            if n >= 2 && (v[0] == '"' || v[0] == '\'') && v[n - 1] == v[0] {
                let inner = slice_to_vec(v.as_slice(), 1, n - 1);
                assert(inner@ =~= unquote(v@));
                return Some(string_of(inner.as_slice()));
            }
            assert(unquote(v@) == v@);
            return Some(string_of(v.as_slice()));
        }
        if e >= s.len() {
            return None;
        }
        k = e + 1;
    }
}

/// `hostname::get`, converted to text; `None` when the lookup fails.  It reads
/// the machine, so nothing is promised of what comes back.
#[verifier::external_body]
fn machine_hostname() -> Option<String> {
    match hostname::get() {
        Ok(h) => Some(h.to_string_lossy().into_owned()),
        Err(_) => None,
    }
}

/// `whoami::username`; `None` when the lookup fails.  It reads the machine,
/// so nothing is promised of what comes back.
#[verifier::external_body]
fn machine_username() -> Option<String> {
    match whoami::username() {
        Ok(u) => Some(u),
        Err(_) => None,
    }
}

/// Whether `v` holds the values given by the operating-system name, the
/// kernel version text and the os-release text (the host name and user name
/// are whatever the machine reports).
pub open spec fn machine_values(
    v: PlaceholderValues,
    os: Seq<char>,
    proc_version: Option<Seq<char>>,
    os_release: Option<Seq<char>>,
) -> bool {
    &&& v.os@ == os
    &&& v.platform@ == platform_spec(os, proc_version)
    &&& v.distro@ == distro_spec(os_release)
}

/// Expand template placeholders in a filename string, on this machine:
/// `{hostname}` (or `unknown` when the lookup fails), `{os}` (the given
/// operating-system name), `{platform}` (the same, or `wsl` when the kernel
/// version text `proc_version` names Microsoft on Linux), `{distro}` (the `ID`
/// of the os-release text, or `unknown`) and `{user}` (or `unknown`).
/// Returns an error if an unknown `{...}` placeholder is found.
pub fn expand_filename(
    template: &str,
    os: &str,
    proc_version: Option<&str>,
    os_release: Option<&str>,
) -> (r: Result<String, UnknownPlaceholder>)
    ensures
        match r {
            Ok(s) => first_unknown(template@) is None && exists|v: PlaceholderValues|
                machine_values(
                    v,
                    os@,
                    match proc_version {
                        Some(x) => Some(x@),
                        None => None,
                    },
                    match os_release {
                        Some(x) => Some(x@),
                        None => None,
                    },
                ) && s@ == #[trigger] substitute(template@, v),
            Err(e) => first_unknown(template@) == Some(e.name@),
        },
{
    match find_unknown_placeholder(template) {
        Some(name) => return Err(UnknownPlaceholder { name }),
        None => {},
    }
    let host = match machine_hostname() {
        Some(h) => h,
        None => "unknown".to_string(),
    };
    let user = match machine_username() {
        Some(u) => u,
        None => "unknown".to_string(),
    };
    let distro = match os_release {
        Some(text) => match os_release_id(text) {
            Some(id) => id,
            None => "unknown".to_string(),
        },
        None => "unknown".to_string(),
    };
    let v = PlaceholderValues {
        hostname: host,
        os: os.to_string(),
        platform: platform_of(os, proc_version),
        distro,
        user,
    };
    let s = substitute_placeholders(template, &v);
    assert(machine_values(
        v,
        os@,
        match proc_version {
            Some(x) => Some(x@),
            None => None,
        },
        match os_release {
            Some(x) => Some(x@),
            None => None,
        },
    ));
    Ok(s)
}

// ---------------------------------------------------------------------------
// Laws
// ---------------------------------------------------------------------------

proof fn lemma_replace_absent(s: Seq<char>, pat: Seq<char>, rep: Seq<char>)
    requires
        pat.len() > 0,
        forall|i: int| 0 <= i < s.len() ==> s[i] != pat[0],
    ensures
        replace_all(s, pat, rep) == s,
    decreases s.len(),
{
    if s.len() >= pat.len() {
        assert(s.take(pat.len() as int)[0] == s[0]);
        assert(s.take(pat.len() as int) != pat);
        lemma_replace_absent(s.drop_first(), pat, rep);
        assert(s =~= seq![s[0]] + s.drop_first());
    }
}

/// A template without `{` expands to itself, whatever the machine values:
/// a literal file name is used as it is.
pub proof fn law_literal_template_unchanged(t: Seq<char>, v: PlaceholderValues)
    requires
        forall|i: int| 0 <= i < t.len() ==> t[i] != '{',
    ensures
        expand_spec(t, v) == Ok::<Seq<char>, Seq<char>>(t),
{
    if t.len() > 0 {
        lemma_find_from(t, '{', 0);
    }
    assert(first_unknown(t) is None);
    lemma_replace_absent(t, braced(hostname_name()), v.hostname@);
    lemma_replace_absent(t, braced(os_name()), v.os@);
    lemma_replace_absent(t, braced(platform_name()), v.platform@);
    lemma_replace_absent(t, braced(distro_name()), v.distro@);
    lemma_replace_absent(t, braced(user_name()), v.user@);
}

proof fn lemma_unknown_from_found(s: Seq<char>, k: int)
    requires
        0 <= k,
        unknown_from(s, k) is Some,
    ensures
        ({
            let n = unknown_from(s, k)->0;
            &&& n.len() > 0
            &&& !known_placeholder(n)
            &&& forall|m: int| 0 <= m < n.len() ==> n[m] != '}'
            &&& exists|i: int|
                k <= i && i + n.len() + 2 <= s.len() && #[trigger] s.subrange(i, i + n.len() + 2)
                    == braced(n)
        }),
    decreases s.len() - k,
{
    lemma_find_from(s, '{', k);
    let i = find_from(s, '{', k);
    assert(k < s.len() && i < s.len());
    lemma_find_from(s, '}', i + 1);
    let j = find_from(s, '}', i + 1);
    assert(j < s.len());
    let name = s.subrange(i + 1, j);
    if name.len() > 0 && !known_placeholder(name) {
        assert(unknown_from(s, k) == Some(name));
        assert(s.subrange(i, j + 1) =~= braced(name));
        assert(s.subrange(i, i + name.len() + 2) == braced(name));
        assert forall|m: int| 0 <= m < name.len() implies name[m] != '}' by {
            assert(name[m] == s[i + 1 + m]);
        }
    } else {
        assert(unknown_from(s, k) == unknown_from(s, j + 1));
        lemma_unknown_from_found(s, j + 1);
    }
}

/// An unknown-placeholder error names a real placeholder of the template: a
/// non-empty name without `}` that is not one of the known ones, standing
/// between braces in the template.
pub proof fn law_unknown_placeholder_is_in_template(t: Seq<char>)
    requires
        first_unknown(t) is Some,
    ensures
        ({
            let n = first_unknown(t)->0;
            &&& n.len() > 0
            &&& !known_placeholder(n)
            &&& forall|m: int| 0 <= m < n.len() ==> n[m] != '}'
            &&& exists|i: int|
                0 <= i && i + n.len() + 2 <= t.len() && #[trigger] t.subrange(i, i + n.len() + 2)
                    == braced(n)
        }),
{
    lemma_unknown_from_found(t, 0);
}

/// `{platform}` is the operating-system name itself, except on Linux when the
/// kernel version text is known and names Microsoft, where it is `wsl`: with
/// no kernel version text, and on any other operating system, it is the
/// operating-system name.
pub proof fn law_platform_is_os_except_wsl(os: Seq<char>, proc_version: Option<Seq<char>>)
    ensures
        platform_spec(os, None) == os,
        os != seq!['l', 'i', 'n', 'u', 'x'] ==> platform_spec(os, proc_version) == os,
        platform_spec(os, proc_version) == os || (os == seq!['l', 'i', 'n', 'u', 'x']
            && platform_spec(os, proc_version) == seq!['w', 's', 'l']),
        forall|v: Seq<char>|
            #[trigger] has_infix(v, microsoft_upper())
                ==> platform_spec(seq!['l', 'i', 'n', 'u', 'x'], Some(v)) == seq!['w', 's', 'l'],
        forall|v: Seq<char>|
            #[trigger] has_infix(v, microsoft_lower())
                ==> platform_spec(seq!['l', 'i', 'n', 'u', 'x'], Some(v)) == seq!['w', 's', 'l'],
{
}

} // verus!
