//! Scraping of authentication artifacts out of inlined script text. The
//! provider embeds a configuration object — a correlation token and a
//! header manifest — as literal script text with no stable schema; these
//! scanners pattern-match it, tolerate absent or reordered fields, and
//! return an explicit not-found outcome instead of failing.

use vstd::prelude::*;
use crate::text::{chars_to_string, find_sub, occurs_at, str_chars, sub_chars};

verus! {

/// Script whitespace, as the patterns skip it.
pub open spec fn is_ws(c: char) -> bool {
    c == ' ' || c == '\t' || c == '\r' || c == '\n'
}

/// A single or double quote.
pub open spec fn is_quote(c: char) -> bool {
    c == '\'' || c == '"'
}

/// The first position at or after `i` holding a non-whitespace character,
/// or the end of the text.
pub open spec fn spec_skip_ws(s: Seq<char>, i: int) -> int
    decreases s.len() - i,
{
    if i < 0 {
        0
    } else if i >= s.len() {
        s.len() as int
    } else if is_ws(s[i]) {
        spec_skip_ws(s, i + 1)
    } else {
        i
    }
}

/// The first position at or after `i` holding a quote, or the end.
pub open spec fn spec_find_quote(s: Seq<char>, i: int) -> int
    decreases s.len() - i,
{
    if i < 0 {
        0
    } else if i >= s.len() {
        s.len() as int
    } else if is_quote(s[i]) {
        i
    } else {
        spec_find_quote(s, i + 1)
    }
}

/// The first position at or after `i` holding `c`, or the end.
pub open spec fn spec_find_char(s: Seq<char>, c: char, i: int) -> int
    decreases s.len() - i,
{
    if i < 0 {
        0
    } else if i >= s.len() {
        s.len() as int
    } else if s[i] == c {
        i
    } else {
        spec_find_char(s, c, i + 1)
    }
}

fn skip_ws(v: &Vec<char>, i: usize) -> (r: usize)
    requires
        i <= v@.len(),
    ensures
        r == spec_skip_ws(v@, i as int),
        i <= r <= v@.len(),
{
    let mut j = i;
    while j < v.len() && (v[j] == ' ' || v[j] == '\t' || v[j] == '\r' || v[j] == '\n')
        invariant
            i <= j <= v@.len(),
            spec_skip_ws(v@, i as int) == spec_skip_ws(v@, j as int),
        decreases v@.len() - j,
    {
        j += 1;
    }
    j
}

fn find_quote(v: &Vec<char>, i: usize) -> (r: usize)
    requires
        i <= v@.len(),
    ensures
        r == spec_find_quote(v@, i as int),
        i <= r <= v@.len(),
{
    let mut j = i;
    while j < v.len() && !(v[j] == '\'' || v[j] == '"')
        invariant
            i <= j <= v@.len(),
            spec_find_quote(v@, i as int) == spec_find_quote(v@, j as int),
        decreases v@.len() - j,
    {
        j += 1;
    }
    j
}

pub fn find_char(v: &Vec<char>, c: char, i: usize) -> (r: usize)
    requires
        i <= v@.len(),
    ensures
        r == spec_find_char(v@, c, i as int),
        i <= r <= v@.len(),
{
    let mut j = i;
    while j < v.len() && v[j] != c
        invariant
            i <= j <= v@.len(),
            spec_find_char(v@, c, i as int) == spec_find_char(v@, c, j as int),
        decreases v@.len() - j,
    {
        j += 1;
    }
    j
}

/// The token a `name : 'value'` pattern yields when anchored with its
/// name ending at `after`: optional whitespace, a colon, optional
/// whitespace, a quoted non-empty body free of quotes.
pub open spec fn spec_quoted_value_at(s: Seq<char>, after: int) -> Option<Seq<char>> {
    let i = spec_skip_ws(s, after);
    if i < s.len() && s[i] == ':' {
        let j = spec_skip_ws(s, i + 1);
        if j < s.len() && is_quote(s[j]) {
            let e = spec_find_quote(s, j + 1);
            if e < s.len() && e > j + 1 {
                Some(s.subrange(j + 1, e))
            } else {
                None
            }
        } else {
            None
        }
    } else {
        None
    }
}

/// Reads a `: 'value'` tail starting at `after`.
fn quoted_value_at(v: &Vec<char>, after: usize) -> (r: Option<Vec<char>>)
    requires
        after <= v@.len(),
    ensures
        match r {
            Some(t) => spec_quoted_value_at(v@, after as int) == Some(t@),
            None => spec_quoted_value_at(v@, after as int) is None,
        },
{
    let i = skip_ws(v, after);
    if i >= v.len() || v[i] != ':' {
        return None;
    }
    let j = skip_ws(v, i + 1);
    if j >= v.len() || !(v[j] == '\'' || v[j] == '"') {
        return None;
    }
    let e = find_quote(v, j + 1);
    if e < v.len() && e > j + 1 {
        Some(sub_chars(v, j + 1, e))
    } else {
        None
    }
}

/// The correlation token the script text yields: at the first `scid`
/// occurrence followed by a colon and a quoted value, that value.
pub open spec fn spec_scid_scan(s: Seq<char>, i: int) -> Option<Seq<char>>
    decreases s.len() - i,
{
    if i < 0 || i + 4 > s.len() {
        None
    } else if occurs_at(s, "scid"@, i) && spec_quoted_value_at(s, i + 4) is Some {
        spec_quoted_value_at(s, i + 4)
    } else {
        spec_scid_scan(s, i + 1)
    }
}

/// Skipping a stretch with no `scid` occurrence does not change the scan.
proof fn lemma_scid_scan_gap(s: Seq<char>, a: int, b: int)
    requires
        0 <= a <= b,
        forall|p: int| a <= p < b ==> !occurs_at(s, "scid"@, p),
    ensures
        spec_scid_scan(s, a) == spec_scid_scan(s, b),
    decreases b - a,
{
    if a < b {
        lemma_scid_scan_gap(s, a + 1, b);
    }
}

/// Scans script text for the embedded correlation token: the first
/// `scid : '...'` pattern wins; absent patterns yield an explicit
/// not-found outcome.
pub fn scan_scid(v: &Vec<char>) -> (r: Option<String>)
    ensures
        match r {
            Some(t) => spec_scid_scan(v@, 0) == Some(t@),
            None => spec_scid_scan(v@, 0) is None,
        },
{
    let pat = str_chars("scid");
    proof {
        reveal_strlit("scid");
    }
    let mut pos: usize = 0;
    loop
        invariant
            pos <= v@.len(),
            pat@ == "scid"@,
            pat@.len() == 4,
            spec_scid_scan(v@, 0) == spec_scid_scan(v@, pos as int),
        decreases v@.len() - pos,
    {
        match find_sub(v, &pat, pos) {
            Some(p) => {
                let n = v.len();
                proof {
                    lemma_scid_scan_gap(v@, pos as int, p as int);
                    assert(p + 4 <= n);
                }
                match quoted_value_at(v, p + 4) {
                    Some(t) => {
                        proof {
                            assert(spec_scid_scan(v@, p as int) == spec_quoted_value_at(
                                v@,
                                p + 4,
                            ));
                        }
                        return Some(chars_to_string(&t));
                    },
                    None => {
                        proof {
                            assert(spec_scid_scan(v@, p as int) == spec_scid_scan(v@, p + 1));
                        }
                        pos = p + 1;
                    },
                }
            },
            None => {
                proof {
                    lemma_scid_scan_gap(v@, pos as int, v@.len() as int);
                }
                return None;
            },
        }
    }
}

/// The CSRF-style token the script text yields: at the first
/// `x-xsrf-token` occurrence (ignoring case) whose tail is an optional
/// quote, a colon and a quoted value, that value.
pub open spec fn spec_xsrf_scan(s: Seq<char>, i: int) -> Option<Seq<char>>
    decreases s.len() - i,
{
    if i < 0 || i + 12 > s.len() {
        None
    } else if occurs_at(crate::text::lower_seq(s), "x-xsrf-token"@, i) && spec_xsrf_tail(s, i + 12)
        is Some {
        spec_xsrf_tail(s, i + 12)
    } else {
        spec_xsrf_scan(s, i + 1)
    }
}

/// The tail of the CSRF pattern: an optional closing quote after the
/// name, then a colon and a quoted value.
pub open spec fn spec_xsrf_tail(s: Seq<char>, after: int) -> Option<Seq<char>> {
    let q = if 0 <= after < s.len() && is_quote(s[after]) {
        after + 1
    } else {
        after
    };
    spec_quoted_value_at(s, q)
}

proof fn lemma_xsrf_scan_gap(s: Seq<char>, a: int, b: int)
    requires
        0 <= a <= b,
        forall|p: int| a <= p < b ==> !occurs_at(crate::text::lower_seq(s), "x-xsrf-token"@, p),
    ensures
        spec_xsrf_scan(s, a) == spec_xsrf_scan(s, b),
    decreases b - a,
{
    if a < b {
        lemma_xsrf_scan_gap(s, a + 1, b);
    }
}

/// Scans script text for the CSRF-style header token — the fallback used
/// when the primary manifest did not carry it.
pub fn scan_xsrf_token(v: &Vec<char>) -> (r: Option<String>)
    ensures
        match r {
            Some(t) => spec_xsrf_scan(v@, 0) == Some(t@),
            None => spec_xsrf_scan(v@, 0) is None,
        },
{
    let lower = crate::text::lowered(v);
    let pat = str_chars("x-xsrf-token");
    proof {
        reveal_strlit("x-xsrf-token");
    }
    let mut pos: usize = 0;
    loop
        invariant
            pos <= v@.len(),
            lower@ == crate::text::lower_seq(v@),
            pat@ == "x-xsrf-token"@,
            pat@.len() == 12,
            spec_xsrf_scan(v@, 0) == spec_xsrf_scan(v@, pos as int),
        decreases v@.len() - pos,
    {
        match find_sub(&lower, &pat, pos) {
            Some(p) => {
                let n = v.len();
                proof {
                    lemma_xsrf_scan_gap(v@, pos as int, p as int);
                    assert(p + 12 <= n);
                }
                let after = p + 12;
                let q = if after < v.len() && (v[after] == '\'' || v[after] == '"') {
                    after + 1
                } else {
                    after
                };
                match quoted_value_at(v, q) {
                    Some(t) => {
                        proof {
                            assert(spec_xsrf_tail(v@, after as int) == spec_quoted_value_at(
                                v@,
                                q as int,
                            ));
                            assert(spec_xsrf_scan(v@, p as int) == spec_xsrf_tail(
                                v@,
                                after as int,
                            ));
                        }
                        return Some(chars_to_string(&t));
                    },
                    None => {
                        proof {
                            assert(spec_xsrf_tail(v@, after as int) is None);
                            assert(spec_xsrf_scan(v@, p as int) == spec_xsrf_scan(v@, p + 1));
                        }
                        pos = p + 1;
                    },
                }
            },
            None => {
                proof {
                    lemma_xsrf_scan_gap(v@, pos as int, v@.len() as int);
                }
                return None;
            },
        }
    }
}


/// The value and end position of a `: 'value'` tail anchored at `after`:
/// like `spec_quoted_value_at`, with the position just past the closing
/// quote.
pub open spec fn spec_quoted_span(s: Seq<char>, after: int) -> Option<(Seq<char>, int)> {
    let i = spec_skip_ws(s, after);
    if i < s.len() && s[i] == ':' {
        let j = spec_skip_ws(s, i + 1);
        if j < s.len() && is_quote(s[j]) {
            let e = spec_find_quote(s, j + 1);
            if e < s.len() && e > j + 1 {
                Some((s.subrange(j + 1, e), e + 1))
            } else {
                None
            }
        } else {
            None
        }
    } else {
        None
    }
}

/// Reads a `: 'value'` tail and reports where it ends.
fn quoted_span(v: &Vec<char>, after: usize) -> (r: Option<(Vec<char>, usize)>)
    requires
        after <= v@.len(),
    ensures
        match r {
            Some((t, end)) => spec_quoted_span(v@, after as int) == Some((t@, end as int))
                && after < end <= v@.len(),
            None => spec_quoted_span(v@, after as int) is None,
        },
{
    let i = skip_ws(v, after);
    if i >= v.len() || v[i] != ':' {
        return None;
    }
    let j = skip_ws(v, i + 1);
    if j >= v.len() || !(v[j] == '\'' || v[j] == '"') {
        return None;
    }
    let e = find_quote(v, j + 1);
    if e < v.len() && e > j + 1 {
        Some((sub_chars(v, j + 1, e), e + 1))
    } else {
        None
    }
}

/// One `{ key : 'K' , value : 'V' }` manifest entry anchored at `pos`:
/// its key, its value, and the position just past the closing brace.
pub open spec fn spec_kv_try(s: Seq<char>, pos: int) -> Option<(Seq<char>, Seq<char>, int)> {
    if 0 <= pos < s.len() && s[pos] == '{' {
        let i = spec_skip_ws(s, pos + 1);
        if i + 3 <= s.len() && s.subrange(i, i + 3) == "key"@ {
            match spec_quoted_span(s, i + 3) {
                Some((k, e1)) => {
                    let c = spec_skip_ws(s, e1);
                    if c < s.len() && s[c] == ',' {
                        let d = spec_skip_ws(s, c + 1);
                        if d + 5 <= s.len() && s.subrange(d, d + 5) == "value"@ {
                            match spec_quoted_span(s, d + 5) {
                                Some((w, e2)) => {
                                    let z = spec_skip_ws(s, e2);
                                    if z < s.len() && s[z] == '}' {
                                        Some((k, w, z + 1))
                                    } else {
                                        None
                                    }
                                },
                                None => None,
                            }
                        } else {
                            None
                        }
                    } else {
                        None
                    }
                },
                None => None,
            }
        } else {
            None
        }
    } else {
        None
    }
}

/// Reads one manifest entry anchored at `pos`.
fn kv_try(v: &Vec<char>, pos: usize) -> (r: Option<(Vec<char>, Vec<char>, usize)>)
    requires
        pos <= v@.len(),
    ensures
        match r {
            Some((k, w, end)) => spec_kv_try(v@, pos as int) == Some((k@, w@, end as int))
                && pos < end <= v@.len(),
            None => spec_kv_try(v@, pos as int) is None,
        },
{
    if pos >= v.len() || v[pos] != '{' {
        return None;
    }
    let i = skip_ws(v, pos + 1);
    if v.len() < 3 || i > v.len() - 3 || !crate::text::matches_at(v, &key_word(), i) {
        proof {
            reveal_strlit("key");
        }
        return None;
    }
    proof {
        reveal_strlit("key");
    }
    let (k, e1) = match quoted_span(v, i + 3) {
        Some(x) => x,
        None => { return None },
    };
    let c = skip_ws(v, e1);
    if c >= v.len() || v[c] != ',' {
        return None;
    }
    let d = skip_ws(v, c + 1);
    if v.len() < 5 || d > v.len() - 5 || !crate::text::matches_at(v, &value_word(), d) {
        proof {
            reveal_strlit("value");
        }
        return None;
    }
    proof {
        reveal_strlit("value");
    }
    let (w, e2) = match quoted_span(v, d + 5) {
        Some(x) => x,
        None => { return None },
    };
    let z = skip_ws(v, e2);
    if z < v.len() && v[z] == '}' {
        Some((k, w, z + 1))
    } else {
        None
    }
}

fn key_word() -> (r: Vec<char>)
    ensures
        r@ == "key"@,
        r@.len() == 3,
{
    proof {
        reveal_strlit("key");
    }
    str_chars("key")
}

fn value_word() -> (r: Vec<char>)
    ensures
        r@ == "value"@,
        r@.len() == 5,
{
    proof {
        reveal_strlit("value");
    }
    str_chars("value")
}

/// Every manifest entry of the text from `i` on, in order.
pub open spec fn spec_kv_scan(s: Seq<char>, i: int) -> Seq<(Seq<char>, Seq<char>)>
    decreases s.len() - i,
{
    if i < 0 || i >= s.len() {
        Seq::empty()
    } else {
        match spec_kv_try(s, i) {
            Some((k, w, end)) => seq![(k, w)] + spec_kv_scan(
                s,
                if end > i {
                    end
                } else {
                    i + 1
                },
            ),
            None => spec_kv_scan(s, i + 1),
        }
    }
}

/// Collects every `{key: '…', value: '…'}` entry of the given text.
pub fn scan_kv_entries(v: &Vec<char>) -> (r: Vec<(String, String)>)
    ensures
        crate::headers::header_view(r@) == spec_kv_scan(v@, 0),
{
    let mut out: Vec<(String, String)> = Vec::new();
    let mut pos: usize = 0;
    while pos < v.len()
        invariant
            pos <= v@.len(),
            crate::headers::header_view(out@) + spec_kv_scan(v@, pos as int) == spec_kv_scan(
                v@,
                0,
            ),
        decreases v@.len() - pos,
    {
        match kv_try(v, pos) {
            Some((k, w, end)) => {
                let ghost before = crate::headers::header_view(out@);
                out.push((chars_to_string(&k), chars_to_string(&w)));
                proof {
                    assert(crate::headers::header_view(out@) =~= before + seq![(k@, w@)]);
                    assert(spec_kv_scan(v@, pos as int) == seq![(k@, w@)] + spec_kv_scan(
                        v@,
                        end as int,
                    ));
                    assert(crate::headers::header_view(out@) + spec_kv_scan(v@, end as int)
                        =~= before + spec_kv_scan(v@, pos as int));
                }
                pos = end;
            },
            None => {
                pos = pos + 1;
            },
        }
    }
    proof {
        assert(spec_kv_scan(v@, pos as int) =~= Seq::<(Seq<char>, Seq<char>)>::empty());
        assert(crate::headers::header_view(out@) =~= spec_kv_scan(v@, 0));
    }
    out
}

/// A manifest header worth keeping: the provider's own `x-zm-` prefix or
/// the CSRF token header; everything else an ordinary browser sends is
/// not hoarded.
pub open spec fn spec_interesting_header(k: Seq<char>) -> bool {
    crate::text::starts_with(crate::text::lower_seq(k), "x-zm-"@) || crate::text::lower_seq(k)
        == "x-xsrf-token"@
}

/// The predicate over pairs, for filtering.
pub open spec fn interesting_pred() -> spec_fn((Seq<char>, Seq<char>)) -> bool {
    |p: (Seq<char>, Seq<char>)| spec_interesting_header(p.0)
}

/// Keeps the security-relevant manifest entries.
pub fn filter_interesting(entries: &Vec<(String, String)>) -> (r: Vec<(String, String)>)
    ensures
        crate::headers::header_view(r@) == crate::headers::header_view(entries@).filter(
            interesting_pred(),
        ),
{
    let mut out: Vec<(String, String)> = Vec::new();
    let n = entries.len();
    let mut i: usize = 0;
    while i < n
        invariant
            i <= n,
            n == entries@.len(),
            crate::headers::header_view(out@) == crate::headers::header_view(
                entries@.subrange(0, i as int),
            ).filter(interesting_pred()),
        decreases n - i,
    {
        let keep = {
            let low = crate::text::lowered(&str_chars(entries[i].0.as_str()));
            crate::text::has_prefix(&low, &str_chars("x-zm-")) || crate::text::chars_eq(
                &low,
                &str_chars("x-xsrf-token"),
            )
        };
        proof {
            let hv = crate::headers::header_view(entries@.subrange(0, i + 1));
            let pre = crate::headers::header_view(entries@.subrange(0, i as int));
            let one = seq![(entries@[i as int].0@, entries@[i as int].1@)];
            assert(hv =~= pre + one);
            Seq::filter_distributes_over_add(pre, one, interesting_pred());
            reveal_with_fuel(Seq::filter, 2);
            assert(one.drop_last() =~= Seq::<(Seq<char>, Seq<char>)>::empty());
            assert(keep == spec_interesting_header(entries@[i as int].0@));
        }
        if keep {
            out.push((entries[i].0.clone(), entries[i].1.clone()));
            proof {
                assert(crate::headers::header_view(out@) =~= crate::headers::header_view(
                    entries@.subrange(0, i + 1),
                ).filter(interesting_pred()));
            }
        } else {
            proof {
                assert(crate::headers::header_view(out@) =~= crate::headers::header_view(
                    entries@.subrange(0, i + 1),
                ).filter(interesting_pred()));
            }
        }
        i += 1;
    }
    proof {
        assert(entries@.subrange(0, n as int) =~= entries@);
    }
    out
}

/// The filtered header manifest the script text yields: at the first
/// `ajaxHeaders : [ … ]` pattern, the security-relevant entries of the
/// bracketed body; `None` when no such pattern closes.
pub open spec fn spec_manifest_scan(s: Seq<char>, i: int) -> Option<Seq<(Seq<char>, Seq<char>)>>
    decreases s.len() - i,
{
    if i < 0 || i + 11 > s.len() {
        None
    } else if occurs_at(s, "ajaxHeaders"@, i) && spec_manifest_body(s, i + 11) is Some {
        spec_manifest_body(s, i + 11)
    } else {
        spec_manifest_scan(s, i + 1)
    }
}

/// The entries of one bracketed manifest body anchored after the name.
pub open spec fn spec_manifest_body(s: Seq<char>, after: int) -> Option<
    Seq<(Seq<char>, Seq<char>)>,
> {
    let i = spec_skip_ws(s, after);
    if i < s.len() && s[i] == ':' {
        let b = spec_skip_ws(s, i + 1);
        if b < s.len() && s[b] == '[' {
            let e = spec_find_char(s, ']', b + 1);
            if e < s.len() {
                Some(spec_kv_scan(s.subrange(b + 1, e), 0).filter(interesting_pred()))
            } else {
                None
            }
        } else {
            None
        }
    } else {
        None
    }
}

proof fn lemma_manifest_scan_gap(s: Seq<char>, a: int, b: int)
    requires
        0 <= a <= b,
        forall|p: int| a <= p < b ==> !occurs_at(s, "ajaxHeaders"@, p),
    ensures
        spec_manifest_scan(s, a) == spec_manifest_scan(s, b),
    decreases b - a,
{
    if a < b {
        lemma_manifest_scan_gap(s, a + 1, b);
    }
}

/// Scans script text for the embedded header manifest and keeps its
/// security-relevant entries.
pub fn scan_header_manifest(v: &Vec<char>) -> (r: Option<Vec<(String, String)>>)
    ensures
        match r {
            Some(hs) => spec_manifest_scan(v@, 0) == Some(crate::headers::header_view(hs@)),
            None => spec_manifest_scan(v@, 0) is None,
        },
{
    let pat = str_chars("ajaxHeaders");
    proof {
        reveal_strlit("ajaxHeaders");
    }
    let mut pos: usize = 0;
    loop
        invariant
            pos <= v@.len(),
            pat@ == "ajaxHeaders"@,
            pat@.len() == 11,
            spec_manifest_scan(v@, 0) == spec_manifest_scan(v@, pos as int),
        decreases v@.len() - pos,
    {
        match find_sub(v, &pat, pos) {
            Some(p) => {
                let n = v.len();
                proof {
                    lemma_manifest_scan_gap(v@, pos as int, p as int);
                    assert(p + 11 <= n);
                }
                let i = skip_ws(v, p + 11);
                let mut ok = false;
                if i < v.len() && v[i] == ':' {
                    let b = skip_ws(v, i + 1);
                    if b < v.len() && v[b] == '[' {
                        let e = find_char(v, ']', b + 1);
                        if e < v.len() {
                            let body = sub_chars(v, b + 1, e);
                            let entries = scan_kv_entries(&body);
                            let kept = filter_interesting(&entries);
                            proof {
                                assert(spec_manifest_body(v@, p + 11) == Some(
                                    crate::headers::header_view(kept@),
                                ));
                                assert(spec_manifest_scan(v@, p as int) == spec_manifest_body(
                                    v@,
                                    p + 11,
                                ));
                            }
                            return Some(kept);
                        }
                    }
                }
                proof {
                    assert(spec_manifest_body(v@, p + 11) is None);
                    assert(spec_manifest_scan(v@, p as int) == spec_manifest_scan(v@, p + 1));
                }
                pos = p + 1;
            },
            None => {
                proof {
                    lemma_manifest_scan_gap(v@, pos as int, v@.len() as int);
                }
                return None;
            },
        }
    }
}

} // verus!
