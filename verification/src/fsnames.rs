//! Safe on-disk names: transliteration to a strict ASCII charset with a
//! preserved, cleaned extension. The transliteration itself and the
//! removal of OS-invalid characters are the outside crates' work; every
//! rule built on them is verified.

use vstd::prelude::*;
use crate::text::{chars_to_string, str_chars, sub_chars};

verus! {

/// What deunicode's transliteration yields; a function of the text
/// alone. Its documentation guarantees ASCII output.
pub uninterp spec fn spec_deunicoded(s: Seq<char>) -> Seq<char>;

/// Relies on `deunicode::deunicode`: transliterates text to ASCII.
#[verifier::external_body]
pub fn deunicode_text(s: &str) -> (r: String)
    ensures
        r@ == spec_deunicoded(s@),
        forall|i: int| 0 <= i < r@.len() ==> (r@[i] as u32) < 128,
{
    deunicode::deunicode(s)
}

/// What the sanitize-filename crate yields; a function of the text
/// alone within any one build: its default options are fixed at compile
/// time and include a platform switch, so a build for another platform
/// may clean differently.
pub uninterp spec fn spec_os_sanitized(s: Seq<char>) -> Seq<char>;

/// Relies on `sanitize_filename::sanitize`: removes characters that are
/// invalid in file names on common platforms. Its default options are
/// chosen at compile time (the reserved-name rules apply only in a
/// build for the platform that has them).
#[verifier::external_body]
pub fn os_sanitize(s: &str) -> (r: String)
    ensures
        r@ == spec_os_sanitized(s@),
{
    sanitize_filename::sanitize(s)
}

/// An ASCII letter or digit.
pub open spec fn is_alnum(c: char) -> bool {
    ('0' <= c && c <= '9') || ('a' <= c && c <= 'z') || ('A' <= c && c <= 'Z')
}

/// Every character that is not an ASCII letter or digit becomes an
/// underscore.
pub open spec fn spec_underscored(s: Seq<char>) -> Seq<char> {
    s.map_values(|c: char| if is_alnum(c) { c } else { '_' })
}

/// Runs of underscores collapse to one. `prev` records whether the
/// previous kept character was an underscore.
pub open spec fn spec_collapsed_from(s: Seq<char>, i: int, prev: bool) -> Seq<char>
    decreases s.len() - i,
{
    if i < 0 || i >= s.len() {
        Seq::empty()
    } else if s[i] == '_' {
        if prev {
            spec_collapsed_from(s, i + 1, true)
        } else {
            seq!['_'] + spec_collapsed_from(s, i + 1, true)
        }
    } else {
        seq![s[i]] + spec_collapsed_from(s, i + 1, false)
    }
}

/// Leading and trailing underscores are dropped.
pub open spec fn spec_trim_us(s: Seq<char>) -> Seq<char>
    decreases s.len(),
{
    if s.len() > 0 && s[0] == '_' {
        spec_trim_us(s.drop_first())
    } else if s.len() > 0 && s.last() == '_' {
        spec_trim_us(s.drop_last())
    } else {
        s
    }
}

/// The strict ASCII skeleton of transliterated text: non-alphanumerics
/// become underscores, runs collapse, and the ends are trimmed.
pub open spec fn spec_skeleton(s: Seq<char>) -> Seq<char> {
    spec_trim_us(spec_collapsed_from(spec_underscored(spec_deunicoded(s)), 0, false))
}

fn collapse_underscores(v: &Vec<char>) -> (r: Vec<char>)
    ensures
        r@ == spec_collapsed_from(v@, 0, false),
{
    let mut out: Vec<char> = Vec::new();
    let mut prev: bool = false;
    let mut i: usize = 0;
    while i < v.len()
        invariant
            i <= v@.len(),
            out@ + spec_collapsed_from(v@, i as int, prev) == spec_collapsed_from(v@, 0, false),
        decreases v@.len() - i,
    {
        let c = v[i];
        if c == '_' {
            if !prev {
                out.push('_');
            }
            prev = true;
        } else {
            out.push(c);
            prev = false;
        }
        i += 1;
    }
    proof {
        assert(spec_collapsed_from(v@, v@.len() as int, prev) =~= Seq::<char>::empty());
        assert(out@ =~= spec_collapsed_from(v@, 0, false));
    }
    out
}

fn trim_underscores(v: &Vec<char>) -> (r: Vec<char>)
    ensures
        r@ == spec_trim_us(v@),
{
    let mut a: usize = 0;
    let n = v.len();
    proof {
        assert(v@.subrange(0, n as int) =~= v@);
    }
    while a < n && v[a] == '_'
        invariant
            a <= n,
            n == v@.len(),
            spec_trim_us(v@) == spec_trim_us(v@.subrange(a as int, n as int)),
        decreases n - a,
    {
        proof {
            let cur = v@.subrange(a as int, n as int);
            assert(cur.drop_first() =~= v@.subrange(a + 1, n as int));
        }
        a += 1;
    }
    let mut b: usize = n;
    while b > a && v[b - 1] == '_'
        invariant
            a <= b <= n,
            n == v@.len(),
            a < n ==> v@[a as int] != '_',
            spec_trim_us(v@) == spec_trim_us(v@.subrange(a as int, b as int)),
        decreases b,
    {
        proof {
            let cur = v@.subrange(a as int, b as int);
            assert(cur.drop_last() =~= v@.subrange(a as int, b - 1));
        }
        b -= 1;
    }
    let r = sub_chars(v, a, b);
    proof {
        assert(spec_trim_us(v@.subrange(a as int, b as int)) == v@.subrange(a as int, b as int));
    }
    r
}

fn underscored(v: &Vec<char>) -> (r: Vec<char>)
    ensures
        r@ == spec_underscored(v@),
{
    let mut out: Vec<char> = Vec::new();
    let mut i: usize = 0;
    while i < v.len()
        invariant
            i <= v@.len(),
            out@ == spec_underscored(v@.subrange(0, i as int)),
        decreases v@.len() - i,
    {
        let c = v[i];
        let keep = ('0' <= c && c <= '9') || ('a' <= c && c <= 'z') || ('A' <= c && c <= 'Z');
        out.push(if keep { c } else { '_' });
        proof {
            assert(v@.subrange(0, i + 1).map_values(
                |c: char| if is_alnum(c) { c } else { '_' },
            ) =~= v@.subrange(0, i as int).map_values(|c: char| if is_alnum(c) { c } else { '_' })
                .push(if is_alnum(v@[i as int]) { v@[i as int] } else { '_' }));
        }
        i += 1;
    }
    proof {
        assert(v@.subrange(0, v@.len() as int) =~= v@);
    }
    out
}

/// The ASCII skeleton of the text, as a character vector.
pub fn skeleton_chars(s: &str) -> (r: Vec<char>)
    ensures
        r@ == spec_skeleton(s@),
{
    let d = deunicode_text(s);
    let u = underscored(&str_chars(d.as_str()));
    let c = collapse_underscores(&u);
    trim_underscores(&c)
}

/// The first `n` characters of `s`, or all of it when shorter.
pub open spec fn spec_truncated(s: Seq<char>, n: int) -> Seq<char> {
    if s.len() > n {
        s.subrange(0, n)
    } else {
        s
    }
}

/// A sanitized stem: OS-invalid characters removed, then the ASCII
/// skeleton.
pub open spec fn spec_stem(s: Seq<char>) -> Seq<char> {
    spec_skeleton(spec_os_sanitized(s))
}

fn sanitize_stem_chars(s: &str) -> (r: Vec<char>)
    ensures
        r@ == spec_stem(s@),
{
    let s1 = os_sanitize(s);
    skeleton_chars(s1.as_str())
}

/// A safe path component for one name: blank input and input whose
/// skeleton vanishes become `untitled`; anything longer than `120`
/// characters is cut there.
pub open spec fn spec_component(s: Seq<char>) -> Seq<char> {
    let t = crate::headers::spec_trimmed_blank(s);
    if t.len() == 0 {
        "untitled"@
    } else {
        let k = spec_stem(t);
        if k.len() == 0 {
            "untitled"@
        } else {
            spec_truncated(k, 120)
        }
    }
}

/// Makes one path component safe for the file system.
pub fn sanitize_component(s: &str) -> (r: String)
    ensures
        r@ == spec_component(s@),
{
    let t = crate::headers::trim_blanks(&str_chars(s));
    if t.len() == 0 {
        return "untitled".to_owned();
    }
    let k = sanitize_stem_chars(chars_to_string(&t).as_str());
    if k.len() == 0 {
        return "untitled".to_owned();
    }
    let cut = if k.len() > 120 {
        sub_chars(&k, 0, 120)
    } else {
        k
    };
    chars_to_string(&cut)
}

/// The position after the last `.` of `s`, or `0` when it has none.
pub open spec fn spec_after_last_dot(s: Seq<char>) -> int
    decreases s.len(),
{
    if s.len() == 0 {
        0
    } else if s.last() == '.' {
        s.len() as int
    } else {
        spec_after_last_dot(s.drop_last())
    }
}

fn after_last_dot(v: &Vec<char>) -> (r: usize)
    ensures
        r == spec_after_last_dot(v@),
        r <= v@.len(),
{
    let mut b = v.len();
    proof {
        assert(v@.subrange(0, v@.len() as int) =~= v@);
    }
    while b > 0 && v[b - 1] != '.'
        invariant
            b <= v@.len(),
            spec_after_last_dot(v@) == spec_after_last_dot(v@.subrange(0, b as int)),
        decreases b,
    {
        proof {
            assert(v@.subrange(0, b as int).drop_last() =~= v@.subrange(0, b - 1));
        }
        b -= 1;
    }
    proof {
        if b > 0 {
            assert(v@.subrange(0, b as int).last() == v@[b - 1]);
        }
        assert(v@.subrange(0, v@.len() as int) =~= v@);
    }
    b
}

/// A cleaned extension: transliterated, lowercased, letters and digits
/// only.
pub open spec fn spec_clean_ext(e: Seq<char>) -> Seq<char> {
    crate::text::lower_seq(spec_deunicoded(e)).filter(alnum_pred())
}

/// The letter-or-digit predicate, for filtering.
pub open spec fn alnum_pred() -> spec_fn(char) -> bool {
    |c: char| is_alnum(c)
}

fn clean_ext_chars(e: &str) -> (r: Vec<char>)
    ensures
        r@ == spec_clean_ext(e@),
{
    let d = deunicode_text(e);
    let low = crate::text::lowered(&str_chars(d.as_str()));
    let mut out: Vec<char> = Vec::new();
    let mut i: usize = 0;
    while i < low.len()
        invariant
            i <= low@.len(),
            out@ == low@.subrange(0, i as int).filter(alnum_pred()),
        decreases low@.len() - i,
    {
        let c = low[i];
        let keep = ('0' <= c && c <= '9') || ('a' <= c && c <= 'z') || ('A' <= c && c <= 'Z');
        proof {
            let pre = low@.subrange(0, i as int);
            let one = seq![low@[i as int]];
            assert(low@.subrange(0, i + 1) =~= pre + one);
            Seq::filter_distributes_over_add(pre, one, alnum_pred());
            reveal_with_fuel(Seq::filter, 2);
            assert(one.drop_last() =~= Seq::<char>::empty());
            assert(keep == is_alnum(low@[i as int]));
        }
        if keep {
            out.push(c);
        }
        i += 1;
    }
    proof {
        assert(low@.subrange(0, low@.len() as int) =~= low@);
    }
    out
}

/// The sanitized file name with its last extension preserved: the stem
/// made safe (or `untitled`), the extension transliterated, lowercased
/// and reduced to letters and digits, the whole cut at `180` characters.
pub open spec fn spec_preserve_ext(s: Seq<char>) -> Seq<char> {
    let t = crate::headers::spec_trimmed_blank(s);
    if t.len() == 0 {
        "untitled"@
    } else {
        let cut = spec_after_last_dot(t);
        let has_ext = cut > 1;
        let stem_raw = if has_ext {
            t.subrange(0, cut - 1)
        } else {
            t
        };
        let ext_raw = if has_ext {
            t.subrange(cut, t.len() as int)
        } else {
            Seq::empty()
        };
        let stem = if spec_stem(stem_raw).len() == 0 {
            "untitled"@
        } else {
            spec_stem(stem_raw)
        };
        let ext = spec_clean_ext(ext_raw);
        let full = if ext.len() > 0 {
            stem + seq!['.'] + ext
        } else {
            stem
        };
        spec_truncated(full, 180)
    }
}

/// Makes a file name safe while preserving its extension.
pub fn sanitize_filename_preserve_ext(s: &str) -> (r: String)
    ensures
        r@ == spec_preserve_ext(s@),
{
    let t = crate::headers::trim_blanks(&str_chars(s));
    if t.len() == 0 {
        return "untitled".to_owned();
    }
    let cut = after_last_dot(&t);
    let has_ext = cut > 1;
    let stem_raw = if has_ext {
        sub_chars(&t, 0, cut - 1)
    } else {
        sub_chars(&t, 0, t.len())
    };
    let ext_raw = if has_ext {
        sub_chars(&t, cut, t.len())
    } else {
        Vec::new()
    };
    proof {
        if !has_ext {
            assert(t@.subrange(0, t@.len() as int) =~= t@);
        }
        assert(ext_raw@ =~= (if spec_after_last_dot(t@) > 1 {
            t@.subrange(spec_after_last_dot(t@), t@.len() as int)
        } else {
            Seq::<char>::empty()
        }));
    }
    let mut stem = sanitize_stem_chars(chars_to_string(&stem_raw).as_str());
    if stem.len() == 0 {
        stem = str_chars("untitled");
    }
    let ext = clean_ext_chars(chars_to_string(&ext_raw).as_str());
    let mut full = stem;
    if ext.len() > 0 {
        full.push('.');
        let mut i: usize = 0;
        let ghost base = full@;
        while i < ext.len()
            invariant
                i <= ext@.len(),
                full@ == base + ext@.subrange(0, i as int),
            decreases ext@.len() - i,
        {
            full.push(ext[i]);
            proof {
                assert(base + ext@.subrange(0, i + 1) =~= (base + ext@.subrange(0, i as int)).push(
                    ext@[i as int],
                ));
            }
            i += 1;
        }
        proof {
            assert(ext@.subrange(0, ext@.len() as int) =~= ext@);
        }
    }
    let cutlen = if full.len() > 180 {
        sub_chars(&full, 0, 180)
    } else {
        full
    };
    chars_to_string(&cutlen)
}

} // verus!
