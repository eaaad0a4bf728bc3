//! Targets: a plain host, or an `icmp://` URL; other schemes are refused.

use vstd::prelude::*;
use vstd::string::StrSliceExecFns;

use crate::text::{chars_of, push_char, push_str, string_of};

verus! {

/// What to probe and how to name it in the output.
#[derive(Debug)]
pub enum TargetSpec {
    Icmp { host: String, label: String },
}

impl TargetSpec {
    /// The host to resolve.
    pub open spec fn spec_host(&self) -> Seq<char> {
        match self {
            TargetSpec::Icmp { host, .. } => host@,
        }
    }

    /// The name that progress lines carry.
    pub open spec fn spec_label(&self) -> Seq<char> {
        match self {
            TargetSpec::Icmp { label, .. } => label@,
        }
    }

    /// The host to resolve.
    pub fn host(&self) -> (h: &str)
        ensures
            h@ == self.spec_host(),
    {
        match self {
            TargetSpec::Icmp { host, .. } => host.as_str(),
        }
    }

    /// The name that progress lines carry.
    pub fn label(&self) -> (l: &str)
        ensures
            l@ == self.spec_label(),
    {
        match self {
            TargetSpec::Icmp { label, .. } => label.as_str(),
        }
    }
}

/// `s` holds `"://"` at `i`.
pub open spec fn sep_at(s: Seq<char>, i: int) -> bool {
    &&& 0 <= i
    &&& i + 3 <= s.len()
    &&& s[i] == ':'
    &&& s[i + 1] == '/'
    &&& s[i + 2] == '/'
}

/// Where `"://"` first occurs in `s`, if it does.
pub open spec fn first_sep(s: Seq<char>) -> Option<int> {
    if exists|i: int| sep_at(s, i) {
        Some(choose|i: int| sep_at(s, i) && forall|j: int| 0 <= j < i ==> !sep_at(s, j))
    } else {
        None
    }
}

/// `"://"` first occurs in `s` at `i`.
pub open spec fn separated_at(s: Seq<char>, i: usize) -> bool {
    first_sep(s) == Some(i as int) && sep_at(s, i as int)
}

/// The scheme before a `"://"` at `i`, in lower case.
pub open spec fn scheme_before(s: Seq<char>, i: usize) -> Seq<char> {
    lower(s.take(i as int))
}

/// ASCII upper case to lower case; other characters stay.
pub open spec fn lower_char(c: char) -> char {
    if 'A' <= c && c <= 'Z' {
        ((c as u32) + 32) as char
    } else {
        c
    }
}

pub open spec fn lower(s: Seq<char>) -> Seq<char> {
    s.map_values(|c: char| lower_char(c))
}

/// `s` is `[` followed by what is inside and `]`.
pub open spec fn bracketed(s: Seq<char>) -> bool {
    s.len() >= 2 && s[0] == '[' && s[s.len() - 1] == ']'
}

/// The host that a host text names: brackets are stripped from an IPv6 literal.
pub open spec fn normalized_host(s: Seq<char>) -> Result<Seq<char>, Seq<char>> {
    if s.len() == 0 {
        Err("target host cannot be empty"@)
    } else if bracketed(s) {
        if s.len() == 2 {
            Err("target host cannot be empty"@)
        } else {
            Ok(s.subrange(1, s.len() - 1))
        }
    } else if s[0] == '[' || s[s.len() - 1] == ']' {
        Err("IPv6 target brackets are malformed"@)
    } else {
        Ok(s)
    }
}

/// The host that the rest of an `icmp://` URL names.
pub open spec fn url_host(s: Seq<char>) -> Result<Seq<char>, Seq<char>> {
    if s.len() == 0 {
        Err("target URL is missing a host"@)
    } else if s.contains('/') || s.contains('?') || s.contains('#') {
        Err("icmp:// targets must not include a path, query, or fragment"@)
    } else if s[0] == '[' && s[s.len() - 1] != ']' {
        Err("icmp:// IPv6 targets must be bracketed and must not include a port"@)
    } else if s[0] != '[' && s.contains(':') {
        Err(
            "icmp:// targets must not include a port; use tcp:// for TCP probes when that backend is available"@,
        )
    } else {
        normalized_host(s)
    }
}

/// The schemes kept for probe backends that do not exist yet.
pub open spec fn reserved_scheme(s: Seq<char>) -> bool {
    s == seq!['t', 'c', 'p'] || s == seq!['h', 't', 't', 'p'] || s == seq!['h', 't', 't', 'p', 's']
}

/// What a URL with scheme `scheme` (in lower case) and `rest` after `"://"` denotes.
pub open spec fn scheme_target(scheme: Seq<char>, rest: Seq<char>) -> Result<(Seq<char>, Seq<char>), Seq<char>> {
    if scheme == seq!['i', 'c', 'm', 'p'] {
        match url_host(rest) {
            Ok(h) => Ok((h, h)),
            Err(e) => Err(e),
        }
    } else if reserved_scheme(scheme) {
        Err(
            scheme + "://"@
                + " targets are reserved for a future probe backend and are not implemented yet"@,
        )
    } else {
        Err("unsupported target scheme '"@ + scheme + "'; use a plain host or icmp://host"@)
    }
}

/// What a target text denotes: `(host, label)`, or the message that refuses it.
pub open spec fn target_of(s: Seq<char>) -> Result<(Seq<char>, Seq<char>), Seq<char>> {
    if s.len() == 0 {
        Err("target cannot be empty"@)
    } else {
        match first_sep(s) {
            None => match normalized_host(s) {
                Ok(h) => Ok((h, s)),
                Err(e) => Err(e),
            },
            Some(i) => scheme_target(lower(s.take(i)), s.skip(i + 3)),
        }
    }
}

/// `tcp://`, `http://` and `https://` are reserved: a URL with one of these schemes (in
/// any case; `target_of` passes the scheme in lower case) is refused, naming the scheme.
pub proof fn lemma_reserved_schemes_refused(scheme: Seq<char>, rest: Seq<char>)
    requires
        reserved_scheme(scheme),
    ensures
        scheme_target(scheme, rest) == Err::<(Seq<char>, Seq<char>), Seq<char>>(
            scheme + "://"@ + " targets are reserved for a future probe backend and are not implemented yet"@,
        ),
{
    let icmp = seq!['i', 'c', 'm', 'p'];
    if scheme == icmp {
        assert(scheme[0] == 'i' && scheme.len() == 4);
        assert(seq!['h', 't', 't', 'p'][0] == 'h');
    }
}

/// A target without `"://"` is probed over ICMP and labelled as written.
pub proof fn lemma_plain_target_keeps_label(s: Seq<char>)
    requires
        s.len() > 0,
        first_sep(s) is None,
        normalized_host(s) matches Ok(g),
    ensures
        target_of(s) matches Ok((h, l)) && l == s && normalized_host(s) == Ok::<Seq<char>, Seq<char>>(h),
{
}

/// A host written plainly (not empty, neither starting with `[` nor ending with `]`) is
/// taken as written, whatever it holds: names, IPv4 and unbracketed IPv6 addresses alike.
/// A bracketed one loses its brackets.
pub proof fn lemma_plain_hosts_taken_as_written(s: Seq<char>)
    requires
        s.len() > 0,
    ensures
        s[0] != '[' && s[s.len() - 1] != ']' ==> normalized_host(s) == Ok::<Seq<char>, Seq<char>>(s),
        s.len() > 2 && s[0] == '[' && s[s.len() - 1] == ']' ==> normalized_host(s) == Ok::<
            Seq<char>,
            Seq<char>,
        >(s.subrange(1, s.len() - 1)),
{
}

/// A target without `"://"` that is not empty and neither starts with `[` nor ends with
/// `]` is probed over ICMP as written: host and label are the text itself.
pub proof fn lemma_plain_target_as_written(s: Seq<char>)
    requires
        s.len() > 0,
        forall|i: int| !sep_at(s, i),
        s[0] != '[',
        s[s.len() - 1] != ']',
    ensures
        target_of(s) == Ok::<(Seq<char>, Seq<char>), Seq<char>>((s, s)),
{
}

/// Whether `c` occurs in `s`.
fn has_char(s: &Vec<char>, c: char) -> (b: bool)
    ensures
        b == s@.contains(c),
{
    let mut i: usize = 0;
    while i < s.len()
        invariant
            i <= s@.len(),
            forall|j: int| 0 <= j < i ==> s@[j] != c,
        decreases s.len() - i,
    {
        if s[i] == c {
            return true;
        }
        i = i + 1;
    }
    false
}

/// Strips the brackets from an IPv6 literal and refuses an empty or half-bracketed host.
pub fn normalize_host(raw: &str) -> (res: Result<String, String>)
    ensures
        match (res, normalized_host(raw@)) {
            (Ok(h), Ok(g)) => h@ == g,
            (Err(e), Err(f)) => e@ == f,
            _ => false,
        },
{
    let s = chars_of(raw);
    let n = s.len();
    if n == 0 {
        return Err(string_of("target host cannot be empty"));
    }
    if n >= 2 && s[0] == '[' && s[n - 1] == ']' {
        if n == 2 {
            return Err(string_of("target host cannot be empty"));
        }
        return Ok(string_of(raw.substring_char(1, n - 1)));
    }
    if s[0] == '[' || s[n - 1] == ']' {
        return Err(string_of("IPv6 target brackets are malformed"));
    }
    Ok(string_of(raw))
}

/// The host of the rest of an `icmp://` URL: no path, query, fragment or port.
pub fn parse_url_host(rest: &str) -> (res: Result<String, String>)
    ensures
        match (res, url_host(rest@)) {
            (Ok(h), Ok(g)) => h@ == g,
            (Err(e), Err(f)) => e@ == f,
            _ => false,
        },
{
    let s = chars_of(rest);
    let n = s.len();
    if n == 0 {
        return Err(string_of("target URL is missing a host"));
    }
    if has_char(&s, '/') || has_char(&s, '?') || has_char(&s, '#') {
        return Err(string_of("icmp:// targets must not include a path, query, or fragment"));
    }
    if s[0] == '[' {
        if s[n - 1] != ']' {
            return Err(
                string_of("icmp:// IPv6 targets must be bracketed and must not include a port"),
            );
        }
    } else if has_char(&s, ':') {
        return Err(
            string_of(
                "icmp:// targets must not include a port; use tcp:// for TCP probes when that backend is available",
            ),
        );
    }
    normalize_host(rest)
}

/// Where `"://"` first occurs in `s`.
fn find_sep(s: &Vec<char>) -> (r: Option<usize>)
    ensures
        r matches Some(i) ==> first_sep(s@) == Some(i as int) && sep_at(s@, i as int),
        r is None ==> first_sep(s@) is None,
{
    let n = s.len();
    if n < 3 {
        assert forall|j: int| !sep_at(s@, j) by {}
        return None;
    }
    let mut i: usize = 0;
    while i <= n - 3
        invariant
            n == s@.len(),
            n >= 3,
            forall|j: int| 0 <= j < i ==> !sep_at(s@, j),
        decreases n - i,
    {
        if s[i] == ':' && s[i + 1] == '/' && s[i + 2] == '/' {
            assert(sep_at(s@, i as int));
            let ghost k = choose|k: int| sep_at(s@, k) && forall|j: int| 0 <= j < k ==> !sep_at(s@, j);
            assert(k == i) by {
                if k < i {
                    assert(!sep_at(s@, k));
                }
                if k > i {
                    assert(!sep_at(s@, i as int));
                }
            }
            return Some(i);
        }
        i = i + 1;
    }
    assert forall|j: int| !sep_at(s@, j) by {}
    None
}

/// The first `to` characters with ASCII letters in lower case, as a `String` and as
/// characters.
fn lower_prefix(chars: &Vec<char>, to: usize) -> (r: (String, Vec<char>))
    requires
        to <= chars@.len(),
    ensures
        r.0@ == lower(chars@.take(to as int)),
        r.1@ == lower(chars@.take(to as int)),
{
    let mut s = String::new();
    let mut v: Vec<char> = Vec::new();
    let mut i: usize = 0;
    while i < to
        invariant
            i <= to <= chars@.len(),
            s@ == lower(chars@.take(i as int)),
            v@ == s@,
        decreases to - i,
    {
        let c = chars[i];
        let l = if 'A' <= c && c <= 'Z' {
            ((c as u8) + 32) as char
        } else {
            c
        };
        assert(l == lower_char(c)) by {
            if 'A' <= c && c <= 'Z' {
                assert((c as u8) as int == c as u32);
            }
        }
        push_char(&mut s, l);
        v.push(l);
        i = i + 1;
        assert(s@ =~= lower(chars@.take(i as int)));
    }
    (s, v)
}

/// What follows the `"://"` that starts at `i`.
fn after_sep(raw: &str, i: usize) -> (rest: &str)
    requires
        sep_at(raw@, i as int),
    ensures
        rest@ == raw@.skip(i + 3),
{
    let n = raw.unicode_len();
    let rest = raw.substring_char(i + 3, n);
    assert(rest@ =~= raw@.skip(i + 3));
    rest
}

/// Whether `v` is exactly the characters of `w`.
fn chars_equal(v: &Vec<char>, w: &[char]) -> (b: bool)
    ensures
        b == (v@ == w@),
{
    if v.len() != w.len() {
        return false;
    }
    let mut i: usize = 0;
    while i < v.len()
        invariant
            v@.len() == w@.len(),
            i <= v@.len(),
            forall|j: int| 0 <= j < i ==> v@[j] == w@[j],
        decreases v.len() - i,
    {
        if v[i] != w[i] {
            return false;
        }
        i = i + 1;
    }
    assert(v@ =~= w@);
    true
}

/// A target written as a URL whose `"://"` starts at `i`.
fn parse_url_target(raw: &str, s: &Vec<char>, i: usize) -> (res: Result<TargetSpec, String>)
    requires
        s@ == raw@,
        raw@.len() > 0,
        separated_at(raw@, i),
    ensures
        match (res, scheme_target(scheme_before(raw@, i), raw@.skip(i + 3))) {
            (Ok(t), Ok((h, l))) => t.spec_host() == h && t.spec_label() == l,
            (Err(e), Err(f)) => e@ == f,
            _ => false,
        },
{
    let (scheme, scheme_chars) = lower_prefix(s, i);
    let rest = after_sep(raw, i);
    if chars_equal(&scheme_chars, &['i', 'c', 'm', 'p']) {
        match parse_url_host(rest) {
            Ok(host) => {
                let label = host.clone();
                Ok(TargetSpec::Icmp { host, label })
            },
            Err(e) => Err(e),
        }
    } else if chars_equal(&scheme_chars, &['t', 'c', 'p']) || chars_equal(
        &scheme_chars,
        &['h', 't', 't', 'p'],
    ) || chars_equal(&scheme_chars, &['h', 't', 't', 'p', 's']) {
        let mut e = scheme;
        push_str(&mut e, "://");
        push_str(
            &mut e,
            " targets are reserved for a future probe backend and are not implemented yet",
        );
        Err(e)
    } else {
        let mut e = string_of("unsupported target scheme '");
        push_str(&mut e, scheme.as_str());
        push_str(&mut e, "'; use a plain host or icmp://host");
        Err(e)
    }
}

/// Reads a target: a plain host (ICMP), `icmp://host` or `icmp://[v6]`; `tcp://`,
/// `http://` and `https://` are reserved, other schemes unsupported.
pub fn parse_target(raw: &str) -> (res: Result<TargetSpec, String>)
    ensures
        match (res, target_of(raw@)) {
            (Ok(t), Ok((h, l))) => t.spec_host() == h && t.spec_label() == l,
            (Err(e), Err(f)) => e@ == f,
            _ => false,
        },
{
    let s = chars_of(raw);
    let n = s.len();
    if n == 0 {
        return Err(string_of("target cannot be empty"));
    }
    match find_sep(&s) {
        None => {
            match normalize_host(raw) {
                Ok(host) => Ok(TargetSpec::Icmp { host, label: string_of(raw) }),
                Err(e) => Err(e),
            }
        },
        Some(i) => parse_url_target(raw, &s, i),
    }
}

} // verus!
