//! Header-set utilities: case-insensitive lookup, insert-or-replace
//! semantics, hop-by-hop filtering for captured request headers, canonical
//! header-name casing, and parsing of raw header text.

use vstd::prelude::*;
use crate::text::{
    chars_to_string, chars_eq, lower_char, lower_seq, lowered, str_chars, sub_chars, upper_char,
};

verus! {

/// The view of a header list: names and values as character sequences.
pub open spec fn header_view(hs: Seq<(String, String)>) -> Seq<(Seq<char>, Seq<char>)> {
    hs.map_values(|p: (String, String)| (p.0@, p.1@))
}

/// Two header names are the same, ignoring ASCII case.
pub open spec fn name_ieq(a: Seq<char>, b: Seq<char>) -> bool {
    lower_seq(a) == lower_seq(b)
}

/// A captured request-header name (already lowercased) that must not be
/// replayed: pseudo-headers and hop-by-hop transport headers.
pub open spec fn spec_skip_capture_header(name: Seq<char>) -> bool {
    ||| (name.len() > 0 && name[0] == ':')
    ||| name == "content-length"@
    ||| name == "accept-encoding"@
    ||| name == "transfer-encoding"@
    ||| name == "connection"@
    ||| name == "upgrade"@
}

/// Whether a lowercased captured header name is dropped before storage.
pub fn skip_capture_header(name: &Vec<char>) -> (r: bool)
    ensures
        r == spec_skip_capture_header(name@),
{
    if name.len() > 0 && name[0] == ':' {
        return true;
    }
    let r = chars_eq(name, &str_chars("content-length")) || chars_eq(
        name,
        &str_chars("accept-encoding"),
    ) || chars_eq(name, &str_chars("transfer-encoding")) || chars_eq(
        name,
        &str_chars("connection"),
    ) || chars_eq(name, &str_chars("upgrade"));
    r
}

/// A header name (in any case) that a rebuilt transfer must not copy
/// verbatim: pseudo-headers, body-framing and connection-control headers.
pub open spec fn spec_skip_transfer_header(name: Seq<char>) -> bool {
    let lower = lower_seq(name);
    ||| (lower.len() > 0 && lower[0] == ':')
    ||| lower == "content-length"@
    ||| lower == "content-type"@
    ||| lower == "transfer-encoding"@
    ||| lower == "connection"@
    ||| lower == "keep-alive"@
    ||| lower == "upgrade"@
}

/// Whether a transfer rebuilt from captured headers drops this header.
pub fn should_skip_header(name: &str) -> (r: bool)
    ensures
        r == spec_skip_transfer_header(name@),
{
    let lower = lowered(&str_chars(name));
    if lower.len() > 0 && lower[0] == ':' {
        return true;
    }
    let r = chars_eq(&lower, &str_chars("content-length")) || chars_eq(
        &lower,
        &str_chars("content-type"),
    ) || chars_eq(&lower, &str_chars("transfer-encoding")) || chars_eq(
        &lower,
        &str_chars("connection"),
    ) || chars_eq(&lower, &str_chars("keep-alive")) || chars_eq(&lower, &str_chars("upgrade"));
    r
}

/// The first position holding a header with this name, ignoring case.
pub fn find_header(hs: &Vec<(String, String)>, name: &str) -> (r: Option<usize>)
    ensures
        match r {
            Some(i) => i < hs@.len() && name_ieq(hs@[i as int].0@, name@) && forall|j: int|
                0 <= j < i ==> !name_ieq(hs@[j].0@, name@),
            None => forall|j: int| 0 <= j < hs@.len() ==> !name_ieq(hs@[j].0@, name@),
        },
{
    let target = lowered(&str_chars(name));
    let mut i: usize = 0;
    while i < hs.len()
        invariant
            i <= hs@.len(),
            target@ == lower_seq(name@),
            forall|j: int| 0 <= j < i ==> !name_ieq(hs@[j].0@, name@),
        decreases hs@.len() - i,
    {
        let cand = lowered(&str_chars(hs[i].0.as_str()));
        if chars_eq(&cand, &target) {
            return Some(i);
        }
        i += 1;
    }
    None
}

/// Appends the header only when no header of that name (ignoring case) is
/// present; an existing one is left untouched.
pub fn ensure_header(headers: &mut Vec<(String, String)>, name: &str, value: &str)
    ensures
        (exists|j: int|
            0 <= j < old(headers)@.len() && name_ieq(#[trigger] old(headers)@[j].0@, name@))
            ==> final(headers)@ == old(headers)@,
        (forall|j: int|
            0 <= j < old(headers)@.len() ==> !name_ieq(#[trigger] old(headers)@[j].0@, name@))
            ==> header_view(final(headers)@) == header_view(old(headers)@) + seq![
            (name@, value@),
        ],
{
    match find_header(headers, name) {
        Some(_) => {},
        None => {
            headers.push((name.to_owned(), value.to_owned()));
            proof {
                assert(header_view(headers@) =~= header_view(old(headers)@) + seq![
                    (name@, value@),
                ]);
            }
        },
    }
}

/// Replaces the value of the first header with this name (ignoring case,
/// keeping the stored spelling of the name), or appends the header when
/// none is present.
pub fn apply_or_replace(headers: &mut Vec<(String, String)>, name: &str, value: &str)
    ensures
        match spec_first_header(header_view(old(headers)@), name@) {
            Some(i) => header_view(final(headers)@) == header_view(old(headers)@).update(
                i,
                (old(headers)@[i].0@, value@),
            ),
            None => header_view(final(headers)@) == header_view(old(headers)@) + seq![
                (name@, value@),
            ],
        },
{
    let found = find_header(headers, name);
    proof {
        lemma_first_header(header_view(old(headers)@), name@);
        assert(forall|j: int|
            0 <= j < old(headers)@.len() ==> (#[trigger] header_view(old(headers)@)[j]).0 == old(
                headers,
            )@[j].0@);
    }
    match found {
        Some(i) => {
            let kept = headers[i].0.clone();
            headers.set(i, (kept, value.to_owned()));
            proof {
                let hv = header_view(old(headers)@);
                assert(name_ieq(hv[i as int].0, name@));
                assert(forall|j: int| 0 <= j < i ==> !name_ieq(#[trigger] hv[j].0, name@));
                assert(spec_first_header(hv, name@) == Some(i as int));
                assert(header_view(headers@) =~= header_view(old(headers)@).update(
                    i as int,
                    (old(headers)@[i as int].0@, value@),
                ));
            }
        },
        None => {
            headers.push((name.to_owned(), value.to_owned()));
            proof {
                let hv = header_view(old(headers)@);
                assert(forall|j: int| 0 <= j < hv.len() ==> !name_ieq(#[trigger] hv[j].0, name@));
                assert(spec_first_header(hv, name@) is None);
                assert(header_view(headers@) =~= header_view(old(headers)@) + seq![
                    (name@, value@),
                ]);
            }
        },
    }
}

/// The first position holding a header with this name, ignoring case.
pub open spec fn spec_first_header(hs: Seq<(Seq<char>, Seq<char>)>, name: Seq<char>) -> Option<
    int,
>
    decreases hs.len(),
{
    if hs.len() == 0 {
        None
    } else if name_ieq(hs[0].0, name) {
        Some(0int)
    } else {
        match spec_first_header(hs.drop_first(), name) {
            Some(i) => Some(i + 1),
            None => None,
        }
    }
}

/// `spec_first_header` finds exactly the first case-insensitive match.
pub proof fn lemma_first_header(hs: Seq<(Seq<char>, Seq<char>)>, name: Seq<char>)
    ensures
        match spec_first_header(hs, name) {
            Some(i) => 0 <= i < hs.len() && name_ieq(hs[i].0, name) && forall|j: int|
                0 <= j < i ==> !name_ieq(hs[j].0, name),
            None => forall|j: int| 0 <= j < hs.len() ==> !name_ieq(hs[j].0, name),
        },
    decreases hs.len(),
{
    if hs.len() > 0 {
        lemma_first_header(hs.drop_first(), name);
        if !name_ieq(hs[0].0, name) {
            match spec_first_header(hs.drop_first(), name) {
                Some(i) => {
                    assert forall|j: int| 0 <= j < i + 1 implies !name_ieq(hs[j].0, name) by {
                        if j > 0 {
                            assert(hs.drop_first()[j - 1] == hs[j]);
                        }
                    }
                },
                None => {
                    assert forall|j: int| 0 <= j < hs.len() implies !name_ieq(hs[j].0, name) by {
                        if j > 0 {
                            assert(hs.drop_first()[j - 1] == hs[j]);
                        }
                    }
                },
            }
        }
    }
}

/// One step of merging captured headers: a skipped name leaves the set
/// unchanged; any other is stored under its lowercased name, replacing a
/// prior value.
pub open spec fn spec_merge_step(
    t: Seq<(Seq<char>, Seq<char>)>,
    p: (Seq<char>, Seq<char>),
) -> Seq<(Seq<char>, Seq<char>)> {
    let key = lower_seq(p.0);
    if spec_skip_capture_header(key) {
        t
    } else {
        match spec_first_header(t, key) {
            Some(i) => t.update(i, (t[i].0, p.1)),
            None => t + seq![(key, p.1)],
        }
    }
}

/// Merging a whole observed header list, in order.
pub open spec fn spec_merge_headers(
    t: Seq<(Seq<char>, Seq<char>)>,
    inc: Seq<(Seq<char>, Seq<char>)>,
) -> Seq<(Seq<char>, Seq<char>)>
    decreases inc.len(),
{
    if inc.len() == 0 {
        t
    } else {
        spec_merge_headers(spec_merge_step(t, inc[0]), inc.drop_first())
    }
}

/// Merges an observed header list into the captured set: each name is
/// lowercased, transport headers are dropped, and a repeated name
/// overwrites the captured value.
pub fn merge_headers_into(target: &mut Vec<(String, String)>, incoming: &Vec<(String, String)>)
    ensures
        header_view(final(target)@) == spec_merge_headers(
            header_view(old(target)@),
            header_view(incoming@),
        ),
{
    let n = incoming.len();
    proof {
        assert(header_view(incoming@).subrange(0, n as int) =~= header_view(incoming@));
    }
    let mut i: usize = 0;
    while i < n
        invariant
            i <= n,
            n == incoming@.len(),
            spec_merge_headers(header_view(target@), header_view(incoming@).subrange(
                i as int,
                n as int,
            )) == spec_merge_headers(header_view(old(target)@), header_view(incoming@)),
        decreases n - i,
    {
        proof {
            assert(header_view(incoming@).subrange(i as int, n as int)[0] == header_view(
                incoming@,
            )[i as int]);
            let p = incoming@[i as int];
            assert(header_view(incoming@)[i as int] == (p.0@, p.1@));
        }
        let ghost pre = header_view(target@);
        let ghost rest = header_view(incoming@).subrange(i as int, n as int);
        let key_chars = lowered(&str_chars(incoming[i].0.as_str()));
        if !skip_capture_header(&key_chars) {
            let key = chars_to_string(&key_chars);
            let ghost t0 = target@;
            apply_or_replace(target, key.as_str(), incoming[i].1.as_str());
            proof {
                assert(forall|j: int|
                    0 <= j < t0.len() ==> #[trigger] header_view(t0)[j] == (t0[j].0@, t0[j].1@));
                assert(key@ == lower_seq(rest[0].0));
                assert(!spec_skip_capture_header(lower_seq(rest[0].0)));
                lemma_first_header(pre, key@);
                match spec_first_header(pre, key@) {
                    Some(k) => {
                        assert(0 <= k < t0.len());
                        assert(header_view(target@) == pre.update(k, (t0[k].0@, incoming@[i as int].1@)));
                        assert(rest[0].1 == incoming@[i as int].1@);
                        assert(pre[k].0 == t0[k].0@);
                        assert(header_view(target@) =~= spec_merge_step(pre, rest[0]));
                    },
                    None => {
                        assert(header_view(target@) =~= spec_merge_step(pre, rest[0]));
                    },
                }
            }
        } else {
            proof {
                assert(header_view(target@) =~= spec_merge_step(pre, rest[0]));
            }
        }
        proof {
            assert(rest.drop_first() =~= header_view(incoming@).subrange(i + 1, n as int));
        }
        i += 1;
    }
    proof {
        assert(header_view(incoming@).subrange(n as int, n as int) =~= Seq::<
            (Seq<char>, Seq<char>),
        >::empty());
    }
}

/// One step of extending a captured header set from the embedded
/// manifest: replace the value of the first header of that name
/// (ignoring case), else append.
pub open spec fn spec_apply_step(
    t: Seq<(Seq<char>, Seq<char>)>,
    p: (Seq<char>, Seq<char>),
) -> Seq<(Seq<char>, Seq<char>)> {
    match spec_first_header(t, p.0) {
        Some(i) => t.update(i, (t[i].0, p.1)),
        None => t + seq![p],
    }
}

/// Extending a captured header set with a whole list, in order.
pub open spec fn spec_apply_all(
    t: Seq<(Seq<char>, Seq<char>)>,
    inc: Seq<(Seq<char>, Seq<char>)>,
) -> Seq<(Seq<char>, Seq<char>)>
    decreases inc.len(),
{
    if inc.len() == 0 {
        t
    } else {
        spec_apply_all(spec_apply_step(t, inc[0]), inc.drop_first())
    }
}

/// Extends a header set with the given pairs, later pairs overwriting
/// earlier values of the same name; names and values are kept verbatim.
pub fn extend_headers(target: &mut Vec<(String, String)>, incoming: &Vec<(String, String)>)
    ensures
        header_view(final(target)@) == spec_apply_all(
            header_view(old(target)@),
            header_view(incoming@),
        ),
{
    let n = incoming.len();
    proof {
        assert(header_view(incoming@).subrange(0, n as int) =~= header_view(incoming@));
    }
    let mut i: usize = 0;
    while i < n
        invariant
            i <= n,
            n == incoming@.len(),
            spec_apply_all(header_view(target@), header_view(incoming@).subrange(
                i as int,
                n as int,
            )) == spec_apply_all(header_view(old(target)@), header_view(incoming@)),
        decreases n - i,
    {
        proof {
            assert(header_view(incoming@).subrange(i as int, n as int)[0] == header_view(
                incoming@,
            )[i as int]);
            let p = incoming@[i as int];
            assert(header_view(incoming@)[i as int] == (p.0@, p.1@));
        }
        let ghost pre = header_view(target@);
        let ghost rest = header_view(incoming@).subrange(i as int, n as int);
        let ghost t0 = target@;
        apply_or_replace(target, incoming[i].0.as_str(), incoming[i].1.as_str());
        proof {
            assert(forall|j: int|
                0 <= j < t0.len() ==> #[trigger] header_view(t0)[j] == (t0[j].0@, t0[j].1@));
            lemma_first_header(pre, rest[0].0);
            match spec_first_header(pre, rest[0].0) {
                Some(k) => {
                    assert(0 <= k < t0.len());
                    assert(header_view(target@) == pre.update(
                        k,
                        (t0[k].0@, incoming@[i as int].1@),
                    ));
                    assert(pre[k].0 == t0[k].0@);
                    assert(header_view(target@) =~= spec_apply_step(pre, rest[0]));
                },
                None => {
                    assert(header_view(target@) =~= spec_apply_step(pre, rest[0]));
                },
            }
            assert(rest.drop_first() =~= header_view(incoming@).subrange(i + 1, n as int));
        }
        i += 1;
    }
    proof {
        assert(header_view(incoming@).subrange(n as int, n as int) =~= Seq::<
            (Seq<char>, Seq<char>),
        >::empty());
    }
}

/// The canonical spelling of a header name: each `-`-separated segment
/// starts upper-case and continues lower-case.
pub open spec fn spec_canonical_name(s: Seq<char>) -> Seq<char> {
    Seq::new(
        s.len(),
        |i: int|
            if s[i] == '-' {
                '-'
            } else if i == 0 || s[i - 1] == '-' {
                upper_char(s[i])
            } else {
                lower_char(s[i])
            },
    )
}

/// Rewrites a header name into its canonical spelling.
pub fn canonical_header_name(name: &str) -> (r: String)
    ensures
        r@ == spec_canonical_name(name@),
{
    let v = str_chars(name);
    let mut out: Vec<char> = Vec::new();
    let mut i: usize = 0;
    while i < v.len()
        invariant
            i <= v@.len(),
            v@ == name@,
            out@ == spec_canonical_name(name@).subrange(0, i as int),
        decreases v@.len() - i,
    {
        let c = v[i];
        if c == '-' {
            out.push('-');
        } else if i == 0 || v[i - 1] == '-' {
            out.push(crate::text::ascii_upper(c));
        } else {
            out.push(crate::text::ascii_lower(c));
        }
        proof {
            assert(out@ =~= spec_canonical_name(name@).subrange(0, i + 1));
        }
        i += 1;
    }
    proof {
        assert(spec_canonical_name(name@).subrange(0, name@.len() as int) =~= spec_canonical_name(
            name@,
        ));
    }
    chars_to_string(&out)
}

/// A blank character, as trimming counts them.
pub open spec fn is_blank(c: char) -> bool {
    c == ' ' || c == '\t' || c == '\r' || c == '\n'
}

/// `s` without leading blanks.
pub open spec fn spec_trim_left_blank(s: Seq<char>) -> Seq<char>
    decreases s.len(),
{
    if s.len() > 0 && is_blank(s[0]) {
        spec_trim_left_blank(s.drop_first())
    } else {
        s
    }
}

/// `s` without trailing blanks.
pub open spec fn spec_trim_right_blank(s: Seq<char>) -> Seq<char>
    decreases s.len(),
{
    if s.len() > 0 && is_blank(s.last()) {
        spec_trim_right_blank(s.drop_last())
    } else {
        s
    }
}

/// `s` without leading and trailing blanks.
pub open spec fn spec_trimmed_blank(s: Seq<char>) -> Seq<char> {
    spec_trim_right_blank(spec_trim_left_blank(s))
}

/// Removes leading and trailing blanks.
pub fn trim_blanks(v: &Vec<char>) -> (r: Vec<char>)
    ensures
        r@ == spec_trimmed_blank(v@),
{
    let n = v.len();
    proof {
        assert(v@.subrange(0, n as int) =~= v@);
    }
    let mut a: usize = 0;
    while a < n && (v[a] == ' ' || v[a] == '\t' || v[a] == '\r' || v[a] == '\n')
        invariant
            a <= n,
            n == v@.len(),
            spec_trim_left_blank(v@) == spec_trim_left_blank(v@.subrange(a as int, n as int)),
        decreases n - a,
    {
        proof {
            let cur = v@.subrange(a as int, n as int);
            assert(cur.drop_first() =~= v@.subrange(a + 1, n as int));
        }
        a += 1;
    }
    proof {
        let cur = v@.subrange(a as int, n as int);
        assert(spec_trim_left_blank(v@) == cur);
    }
    let mut b: usize = n;
    while b > a && (v[b - 1] == ' ' || v[b - 1] == '\t' || v[b - 1] == '\r' || v[b - 1] == '\n')
        invariant
            a <= b <= n,
            n == v@.len(),
            spec_trim_left_blank(v@) == v@.subrange(a as int, n as int),
            spec_trim_right_blank(v@.subrange(a as int, n as int)) == spec_trim_right_blank(
                v@.subrange(a as int, b as int),
            ),
        decreases b,
    {
        proof {
            let cur = v@.subrange(a as int, b as int);
            assert(cur.drop_last() =~= v@.subrange(a as int, b - 1));
        }
        b -= 1;
    }
    let r = sub_chars(v, a, b);
    proof {
        assert(spec_trim_right_blank(v@.subrange(a as int, b as int)) == v@.subrange(
            a as int,
            b as int,
        ));
    }
    r
}


/// Lines joined by a newline.
pub open spec fn spec_joined_lines(lines: Seq<Seq<char>>) -> Seq<char>
    decreases lines.len(),
{
    if lines.len() == 0 {
        Seq::empty()
    } else if lines.len() == 1 {
        lines[0]
    } else {
        spec_joined_lines(lines.drop_last()) + seq!['\n'] + lines.last()
    }
}

/// `lines` is the split of `s` on newlines: newline-free parts whose
/// newline-joining restores `s`. These two properties determine the
/// split uniquely.
pub open spec fn spec_lines_of(s: Seq<char>, lines: Seq<Seq<char>>) -> bool {
    &&& lines.len() >= 1
    &&& spec_joined_lines(lines) == s
    &&& forall|i: int| 0 <= i < lines.len() ==> !(#[trigger] lines[i]).contains('\n')
}

/// The split is unique: two line lists that both split the same text
/// are the same list, so a contract over "the split" determines one
/// outcome.
pub proof fn lemma_lines_unique(s: Seq<char>, l1: Seq<Seq<char>>, l2: Seq<Seq<char>>)
    requires
        spec_lines_of(s, l1),
        spec_lines_of(s, l2),
    ensures
        l1 == l2,
    decreases l1.len(),
{
    if l1.len() == 1 && l2.len() == 1 {
        assert(l1 =~= l2);
    } else if l1.len() == 1 {
        // joined(l2) then holds a newline that joined(l1) cannot
        let a = spec_joined_lines(l2.drop_last());
        assert(spec_joined_lines(l2) == a + seq!['\n'] + l2.last());
        assert(s[a.len() as int] == '\n');
        assert(l1[0].contains('\n')) by {
            assert(l1[0][a.len() as int] == '\n');
        }
    } else if l2.len() == 1 {
        let a = spec_joined_lines(l1.drop_last());
        assert(spec_joined_lines(l1) == a + seq!['\n'] + l1.last());
        assert(s[a.len() as int] == '\n');
        assert(l2[0].contains('\n')) by {
            assert(l2[0][a.len() as int] == '\n');
        }
    } else {
        let a1 = spec_joined_lines(l1.drop_last());
        let a2 = spec_joined_lines(l2.drop_last());
        let t1 = l1.last();
        let t2 = l2.last();
        assert(s == a1 + seq!['\n'] + t1);
        assert(s == a2 + seq!['\n'] + t2);
        // the final lines have the same length: a shorter one would put a
        // newline inside the other
        if t1.len() < t2.len() {
            let k = t2.len() - t1.len() - 1;
            assert(t2[k] == s[a1.len() as int]);
            assert(t2.contains('\n'));
            assert(false);
        }
        if t2.len() < t1.len() {
            let k = t1.len() - t2.len() - 1;
            assert(t1[k] == s[a2.len() as int]);
            assert(t1.contains('\n'));
            assert(false);
        }
        assert(t1 =~= t2) by {
            assert forall|k: int| 0 <= k < t1.len() implies t1[k] == t2[k] by {
                assert(t1[k] == s[a1.len() + 1 + k]);
                assert(t2[k] == s[a2.len() + 1 + k]);
            }
        }
        assert(t1.len() == t2.len());
        assert(a1.len() == a2.len());
        assert(a1 =~= a2) by {
            assert forall|k: int| 0 <= k < a1.len() implies a1[k] == a2[k] by {
                assert(a1[k] == s[k]);
                assert(a2[k] == s[k]);
            }
        }
        assert(spec_lines_of(a1, l1.drop_last())) by {
            assert(forall|i: int|
                0 <= i < l1.drop_last().len() ==> !(#[trigger] l1.drop_last()[i]).contains(
                    '\n',
                ));
        }
        assert(spec_lines_of(a2, l2.drop_last())) by {
            assert(forall|i: int|
                0 <= i < l2.drop_last().len() ==> !(#[trigger] l2.drop_last()[i]).contains(
                    '\n',
                ));
        }
        lemma_lines_unique(a1, l1.drop_last(), l2.drop_last());
        assert(l1 =~= l1.drop_last().push(t1));
        assert(l2 =~= l2.drop_last().push(t2));
        assert(l1 == l2);
    }
}

/// Splits text into its lines.
pub fn split_lines(v: &Vec<char>) -> (r: Vec<Vec<char>>)
    ensures
        spec_lines_of(v@, r@.map_values(|l: Vec<char>| l@)),
{
    let mut done: Vec<Vec<char>> = Vec::new();
    let mut cur: Vec<char> = Vec::new();
    let n = v.len();
    let mut i: usize = 0;
    while i < n
        invariant
            i <= n,
            n == v@.len(),
            spec_joined_lines(done@.map_values(|l: Vec<char>| l@).push(cur@)) == v@.subrange(
                0,
                i as int,
            ),
            !cur@.contains('\n'),
            forall|k: int| 0 <= k < done@.len() ==> !(#[trigger] done@[k])@.contains('\n'),
        decreases n - i,
    {
        let c = v[i];
        let ghost dv = done@.map_values(|l: Vec<char>| l@);
        if c == '\n' {
            let finished = cur;
            cur = Vec::new();
            done.push(finished);
            proof {
                let dv2 = done@.map_values(|l: Vec<char>| l@);
                assert(dv2 =~= dv.push(dv2.last()));
                assert(dv2.push(cur@).drop_last() =~= dv2);
                assert(dv2.push(cur@).len() >= 2);
                assert(spec_joined_lines(dv2.push(cur@)) == spec_joined_lines(dv2) + seq!['\n']
                    + cur@);
                assert(spec_joined_lines(dv2.push(cur@)) =~= v@.subrange(0, i + 1));
            }
        } else {
            let ghost cur0 = cur@;
            cur.push(c);
            proof {
                if dv.len() == 0 {
                    assert(spec_joined_lines(dv.push(cur@)) =~= v@.subrange(0, i + 1));
                } else {
                    assert(dv.push(cur@).drop_last() =~= dv);
                    assert(dv.push(cur0).drop_last() =~= dv);
                    assert(spec_joined_lines(dv.push(cur@)) == spec_joined_lines(dv)
                        + seq!['\n'] + cur@);
                    assert(spec_joined_lines(dv.push(cur@)) =~= v@.subrange(0, i + 1));
                }
                assert(!cur@.contains('\n'));
            }
        }
        i += 1;
    }
    let ghost dv0 = done@.map_values(|l: Vec<char>| l@);
    let ghost curv = cur@;
    done.push(cur);
    proof {
        assert(v@.subrange(0, n as int) =~= v@);
        let dv = done@.map_values(|l: Vec<char>| l@);
        assert(dv =~= dv0.push(curv));
        assert(spec_joined_lines(dv) == v@);
        assert forall|k: int| 0 <= k < dv.len() implies !(#[trigger] dv[k]).contains('\n') by {
            assert(dv[k] == done@[k]@);
        }
        assert(spec_lines_of(v@, dv));
    }
    done
}

/// What one raw header line contributes: the text up to the first colon
/// is the name (trimmed, lowercased), the rest the value (trimmed); a
/// blank line, a line without a colon, or a dropped transport header
/// contributes nothing.
pub open spec fn spec_parsed_line(line: Seq<char>) -> Option<(Seq<char>, Seq<char>)> {
    let t = spec_trimmed_blank(line);
    if t.len() == 0 {
        None
    } else {
        let e = crate::scan::spec_find_char(t, ':', 0);
        if e >= t.len() {
            None
        } else {
            let key = lower_seq(spec_trimmed_blank(t.subrange(0, e)));
            if spec_skip_capture_header(key) {
                None
            } else {
                Some((key, spec_trimmed_blank(t.subrange(e + 1, t.len() as int))))
            }
        }
    }
}

/// Parses one raw header line.
pub fn parse_header_line(line: &Vec<char>) -> (r: Option<(String, String)>)
    ensures
        match r {
            Some((k, v)) => spec_parsed_line(line@) == Some((k@, v@)),
            None => spec_parsed_line(line@) is None,
        },
{
    let t = trim_blanks(line);
    if t.len() == 0 {
        return None;
    }
    let e = crate::scan::find_char(&t, ':', 0);
    if e >= t.len() {
        return None;
    }
    let key = lowered(&trim_blanks(&sub_chars(&t, 0, e)));
    if skip_capture_header(&key) {
        return None;
    }
    let value = trim_blanks(&sub_chars(&t, e + 1, t.len()));
    Some((chars_to_string(&key), chars_to_string(&value)))
}

/// One step of merging raw header text: a parsed line is stored under
/// its lowercased name, replacing a prior value; anything else leaves
/// the set unchanged.
pub open spec fn spec_raw_step(
    t: Seq<(Seq<char>, Seq<char>)>,
    line: Seq<char>,
) -> Seq<(Seq<char>, Seq<char>)> {
    match spec_parsed_line(line) {
        Some(p) => spec_apply_step(t, p),
        None => t,
    }
}

/// Merging a whole raw header text, line by line.
pub open spec fn spec_merge_raw(
    t: Seq<(Seq<char>, Seq<char>)>,
    lines: Seq<Seq<char>>,
) -> Seq<(Seq<char>, Seq<char>)>
    decreases lines.len(),
{
    if lines.len() == 0 {
        t
    } else {
        spec_merge_raw(spec_raw_step(t, lines[0]), lines.drop_first())
    }
}

/// Merges raw header text — `name: value` lines, as the browser reports
/// late headers — into the captured set. The text's line split is
/// unique, so the stated outcome is fully determined by the inputs.
pub fn merge_raw_headers_into(target: &mut Vec<(String, String)>, text: &str)
    ensures
        exists|lines: Seq<Seq<char>>|
            spec_lines_of(text@, lines) && header_view(final(target)@) == #[trigger] spec_merge_raw(
                header_view(old(target)@),
                lines,
            ),
{
    let v = str_chars(text);
    let lines = split_lines(&v);
    let ghost lv = lines@.map_values(|l: Vec<char>| l@);
    let n = lines.len();
    proof {
        assert(lv.subrange(0, n as int) =~= lv);
    }
    let mut i: usize = 0;
    while i < n
        invariant
            i <= n,
            n == lines@.len(),
            lv == lines@.map_values(|l: Vec<char>| l@),
            spec_merge_raw(header_view(target@), lv.subrange(i as int, n as int))
                == spec_merge_raw(header_view(old(target)@), lv),
        decreases n - i,
    {
        let ghost pre = header_view(target@);
        let ghost rest = lv.subrange(i as int, n as int);
        proof {
            assert(rest[0] == lv[i as int]);
            assert(lv[i as int] == lines@[i as int]@);
        }
        match parse_header_line(&lines[i]) {
            Some((key, value)) => {
                let ghost t0 = target@;
                apply_or_replace(target, key.as_str(), value.as_str());
                proof {
                    assert(forall|j: int|
                        0 <= j < t0.len() ==> #[trigger] header_view(t0)[j] == (
                            t0[j].0@,
                            t0[j].1@,
                        ));
                    lemma_first_header(pre, key@);
                    match spec_first_header(pre, key@) {
                        Some(k) => {
                            assert(0 <= k < t0.len());
                            assert(header_view(target@) == pre.update(
                                k,
                                (t0[k].0@, value@),
                            ));
                            assert(pre[k].0 == t0[k].0@);
                            assert(header_view(target@) =~= spec_raw_step(pre, rest[0]));
                        },
                        None => {
                            assert(header_view(target@) =~= spec_raw_step(pre, rest[0]));
                        },
                    }
                }
            },
            None => {
                proof {
                    assert(header_view(target@) =~= spec_raw_step(pre, rest[0]));
                }
            },
        }
        proof {
            assert(rest.drop_first() =~= lv.subrange(i + 1, n as int));
        }
        i += 1;
    }
    proof {
        assert(lv.subrange(n as int, n as int) =~= Seq::<Seq<char>>::empty());
        assert(spec_lines_of(text@, lv));
        assert(header_view(target@) == spec_merge_raw(header_view(old(target)@), lv));
    }
}

} // verus!
