//! The store's payload framing: cached listings and captured replay-asset
//! headers are persisted as JSON text. This module is the crate's own
//! framing of flat objects whose values are strings or null — the encoder
//! emits one canonical form, and the decoder accepts exactly that form.

use vstd::prelude::*;
use crate::models::{RecordingSummary, ZoomRecordingFile};
use crate::text::{chars_to_string, str_chars};

verus! {

/// The hex digit character for `d < 16` (lower case).
pub open spec fn hex_digit(d: nat) -> char
    recommends
        d < 16,
{
    if d < 10 {
        ((d + 48) as u8) as char
    } else {
        ((d + 87) as u8) as char
    }
}

/// The canonical escape of one character inside a JSON string: quote and
/// backslash get a two-character escape, control characters a `\u00..`
/// escape, everything else stands for itself.
pub open spec fn esc_char(c: char) -> Seq<char> {
    if c == '"' {
        seq!['\\', '"']
    } else if c == '\\' {
        seq!['\\', '\\']
    } else if (c as u32) < 32 {
        seq!['\\', 'u', '0', '0', hex_digit(((c as u32) as nat) / 16), hex_digit(
            ((c as u32) as nat) % 16,
        )]
    } else {
        seq![c]
    }
}

/// The canonical escape of a whole string body.
pub open spec fn esc(s: Seq<char>) -> Seq<char>
    decreases s.len(),
{
    if s.len() == 0 {
        Seq::empty()
    } else {
        esc(s.drop_last()) + esc_char(s.last())
    }
}

/// One encoded string, quotes included.
pub open spec fn json_string(s: Seq<char>) -> Seq<char> {
    seq!['"'] + esc(s) + seq!['"']
}

/// One encoded value: a string or `null`.
pub open spec fn json_value(v: Option<Seq<char>>) -> Seq<char> {
    match v {
        Some(s) => json_string(s),
        None => "null"@,
    }
}

/// One encoded `"key":value` member.
pub open spec fn json_member(k: Seq<char>, v: Option<Seq<char>>) -> Seq<char> {
    json_string(k) + seq![':'] + json_value(v)
}

/// The members of an object, comma-separated.
pub open spec fn json_body(ps: Seq<(Seq<char>, Option<Seq<char>>)>) -> Seq<char>
    decreases ps.len(),
{
    if ps.len() == 0 {
        Seq::empty()
    } else if ps.len() == 1 {
        json_member(ps[0].0, ps[0].1)
    } else {
        json_body(ps.drop_last()) + seq![','] + json_member(ps.last().0, ps.last().1)
    }
}

/// A whole encoded object.
pub open spec fn json_object(ps: Seq<(Seq<char>, Option<Seq<char>>)>) -> Seq<char> {
    seq!['{'] + json_body(ps) + seq!['}']
}

/// The view of a pair list: keys and values as character sequences.
pub open spec fn pairs_view(ps: Seq<(String, Option<String>)>) -> Seq<
    (Seq<char>, Option<Seq<char>>),
> {
    ps.map_values(
        |p: (String, Option<String>)|
            (
                p.0@,
                match p.1 {
                    Some(s) => Some(s@),
                    None => None,
                },
            ),
    )
}

/// Appends the canonical escape of `s` to `out`.
fn escape_into(out: &mut Vec<char>, s: &Vec<char>)
    ensures
        final(out)@ == old(out)@ + esc(s@),
{
    let ghost out0 = out@;
    let mut i: usize = 0;
    while i < s.len()
        invariant
            i <= s@.len(),
            out@ == out0 + esc(s@.subrange(0, i as int)),
        decreases s@.len() - i,
    {
        let c = s[i];
        proof {
            assert(s@.subrange(0, i + 1).drop_last() =~= s@.subrange(0, i as int));
            assert(esc(s@.subrange(0, i + 1)) == esc(s@.subrange(0, i as int)) + esc_char(
                s@[i as int],
            ));
        }
        if c == '"' {
            out.push('\\');
            out.push('"');
        } else if c == '\\' {
            out.push('\\');
            out.push('\\');
        } else if (c as u32) < 32 {
            let b32 = c as u32;
            out.push('\\');
            out.push('u');
            out.push('0');
            out.push('0');
            let hi = (b32 / 16) as u8;
            let lo = (b32 % 16) as u8;
            out.push(if hi < 10 { (hi + 48) as char } else { (hi + 87) as char });
            out.push(if lo < 10 { (lo + 48) as char } else { (lo + 87) as char });
            proof {
                assert(hi as nat == ((c as u32) as nat) / 16);
                assert(lo as nat == ((c as u32) as nat) % 16);
                assert((if hi < 10 { (hi + 48) as char } else { (hi + 87) as char })
                    == hex_digit(((c as u32) as nat) / 16));
                assert((if lo < 10 { (lo + 48) as char } else { (lo + 87) as char })
                    == hex_digit(((c as u32) as nat) % 16));
            }
        } else {
            out.push(c);
        }
        proof {
            assert(out@ =~= out0 + esc(s@.subrange(0, i + 1)));
        }
        i += 1;
    }
    proof {
        assert(s@.subrange(0, s@.len() as int) =~= s@);
    }
}

/// Appends one encoded string, quotes included.
fn string_into(out: &mut Vec<char>, s: &String)
    ensures
        final(out)@ == old(out)@ + json_string(s@),
{
    out.push('"');
    let cs = str_chars(s.as_str());
    escape_into(out, &cs);
    out.push('"');
    proof {
        assert(out@ =~= old(out)@ + json_string(s@));
    }
}

/// Encodes a flat object over the given pairs, in order.
pub fn encode_object(ps: &Vec<(String, Option<String>)>) -> (r: String)
    ensures
        r@ == json_object(pairs_view(ps@)),
{
    let mut out: Vec<char> = Vec::new();
    out.push('{');
    let mut i: usize = 0;
    while i < ps.len()
        invariant
            i <= ps@.len(),
            out@ == seq!['{'] + json_body(pairs_view(ps@.subrange(0, i as int))),
        decreases ps@.len() - i,
    {
        if i > 0 {
            out.push(',');
        }
        string_into(&mut out, &ps[i].0);
        out.push(':');
        match &ps[i].1 {
            Some(v) => {
                string_into(&mut out, v);
            },
            None => {
                out.push('n');
                out.push('u');
                out.push('l');
                out.push('l');
                proof {
                    reveal_strlit("null");
                }
            },
        }
        proof {
            let pv = pairs_view(ps@);
            assert(pairs_view(ps@.subrange(0, i + 1)) =~= pairs_view(ps@).subrange(0, i + 1));
            assert(pairs_view(ps@.subrange(0, i as int)) =~= pairs_view(ps@).subrange(0, i as int));
            assert(pairs_view(ps@).subrange(0, i + 1).drop_last() =~= pairs_view(ps@).subrange(
                0,
                i as int,
            ));
            assert(pairs_view(ps@).subrange(0, i + 1).last() == pv[i as int]);
            assert(out@ =~= seq!['{'] + json_body(pairs_view(ps@.subrange(0, i + 1))));
        }
        i += 1;
    }
    out.push('}');
    proof {
        assert(ps@.subrange(0, ps@.len() as int) =~= ps@);
        assert(out@ =~= json_object(pairs_view(ps@)));
    }
    chars_to_string(&out)
}


/// The decimal or lower-case hex digit value of `h`, when `h` is one.
fn hex_val(h: char) -> (r: Option<u8>)
    ensures
        r matches Some(d) ==> d < 16 && hex_digit(d as nat) == h,
        r is None ==> forall|d: u8| d < 16 ==> hex_digit(d as nat) != h,
{
    match h {
        '0' => Some(0),
        '1' => Some(1),
        '2' => Some(2),
        '3' => Some(3),
        '4' => Some(4),
        '5' => Some(5),
        '6' => Some(6),
        '7' => Some(7),
        '8' => Some(8),
        '9' => Some(9),
        'a' => Some(10),
        'b' => Some(11),
        'c' => Some(12),
        'd' => Some(13),
        'e' => Some(14),
        'f' => Some(15),
        _ => {
            proof {
                assert forall|d: u8| d < 16 implies hex_digit(d as nat) != h by {
                    if d == 0 {
                        assert(hex_digit(0) == '0');
                    } else if d == 1 {
                        assert(hex_digit(1) == '1');
                    } else if d == 2 {
                        assert(hex_digit(2) == '2');
                    } else if d == 3 {
                        assert(hex_digit(3) == '3');
                    } else if d == 4 {
                        assert(hex_digit(4) == '4');
                    } else if d == 5 {
                        assert(hex_digit(5) == '5');
                    } else if d == 6 {
                        assert(hex_digit(6) == '6');
                    } else if d == 7 {
                        assert(hex_digit(7) == '7');
                    } else if d == 8 {
                        assert(hex_digit(8) == '8');
                    } else if d == 9 {
                        assert(hex_digit(9) == '9');
                    } else if d == 10 {
                        assert(hex_digit(10) == 'a');
                    } else if d == 11 {
                        assert(hex_digit(11) == 'b');
                    } else if d == 12 {
                        assert(hex_digit(12) == 'c');
                    } else if d == 13 {
                        assert(hex_digit(13) == 'd');
                    } else if d == 14 {
                        assert(hex_digit(14) == 'e');
                    } else {
                        assert(hex_digit(15) == 'f');
                    }
                }
            }
            None
        },
    }
}

/// `esc` read head-first: the escape of the first character, then the
/// escape of the rest.
proof fn lemma_esc_head(s: Seq<char>)
    requires
        s.len() > 0,
    ensures
        esc(s) == esc_char(s[0]) + esc(s.drop_first()),
    decreases s.len(),
{
    if s.len() == 1 {
        assert(s.drop_last() =~= Seq::<char>::empty());
        assert(s.drop_first() =~= Seq::<char>::empty());
        assert(esc(s) =~= esc_char(s[0]) + esc(s.drop_first()));
    } else {
        lemma_esc_head(s.drop_last());
        assert(s.drop_last()[0] == s[0]);
        assert(s.drop_last().drop_first() =~= s.drop_first().drop_last());
        assert(s.drop_first().last() == s.last());
        assert(esc(s.drop_first()) == esc(s.drop_first().drop_last()) + esc_char(s.last()));
        assert(esc(s) =~= esc_char(s[0]) + esc(s.drop_first()));
    }
}

/// Parses one canonically-encoded string starting at `pos` (which must
/// hold the opening quote). On success the consumed text is exactly the
/// canonical encoding of the returned characters; and on an input that
/// is a canonical encoding followed by anything (the ghost hint),
/// parsing succeeds and stops exactly where the encoding ends.
#[verifier::rlimit(100)]
fn parse_string(
    v: &Vec<char>,
    pos: usize,
    Ghost(hint): Ghost<Option<(Seq<char>, Seq<char>)>>,
) -> (r: Option<(Vec<char>, usize)>)
    requires
        hint is Some ==> pos <= v@.len() && v@.subrange(pos as int, v@.len() as int)
            == json_string((hint->0).0) + (hint->0).1,
    ensures
        r matches Some((out, j)) ==> pos < j <= v@.len() && v@.subrange(pos as int, j as int)
            == json_string(out@),
        hint is Some ==> (r matches Some((out, j)) && v@.subrange(j as int, v@.len() as int)
            == (hint->0).1),
{
    let n = v.len();
    if pos >= n || v[pos] != '"' {
        proof {
            if hint is Some {
                let full = v@.subrange(pos as int, n as int);
                assert(full.len() >= 2);
                assert(pos < n);
                assert(full[0] == '"');
                assert(v@[pos as int] == full[0]);
                assert(false);
            }
        }
        return None;
    }
    let mut out: Vec<char> = Vec::new();
    let mut i: usize = pos + 1;
    let ghost rest: Seq<char> = if hint is Some {
        (hint->0).1
    } else {
        Seq::empty()
    };
    let ghost mut xr: Seq<char> = if hint is Some {
        (hint->0).0
    } else {
        Seq::empty()
    };
    proof {
        if hint is Some {
            let x = (hint->0).0;
            lemma_subrange_split(v@, pos as int, pos + 1, n as int);
            assert(v@.subrange(pos as int, pos + 1) =~= seq!['"']);
            assert(json_string(x) + rest =~= seq!['"'] + (esc(x) + seq!['"'] + rest));
            lemma_concat_cancel(
                seq!['"'],
                v@.subrange(pos + 1, n as int),
                esc(x) + seq!['"'] + rest,
            );
        }
    }
    loop
        invariant
            pos + 1 <= i <= n,
            n == v@.len(),
            v@[pos as int] == '"',
            v@.subrange(pos + 1, i as int) == esc(out@),
            hint is Some ==> v@.subrange(i as int, n as int) == esc(xr) + seq!['"'] + rest,
            hint is Some ==> rest == (hint->0).1,
        decreases n - i,
    {
        proof {
            if hint is Some {
                assert(v@.subrange(i as int, n as int).len() >= 1);
                assert(i < n);
                if xr.len() > 0 {
                    lemma_esc_head(xr);
                    assert(esc_char(xr[0]).len() > 0);
                    assert(v@.subrange(i as int, n as int)[0] == esc_char(xr[0])[0]);
                    assert(v@[i as int] == v@.subrange(i as int, n as int)[0]);
                } else {
                    assert(esc(xr) =~= Seq::<char>::empty());
                    assert(v@.subrange(i as int, n as int)[0] == '"');
                    assert(v@[i as int] == v@.subrange(i as int, n as int)[0]);
                }
            }
        }
        if i >= n {
            proof {
                if hint is Some {
                    assert(false);
                }
            }
            return None;
        }
        let c = v[i];
        if c == '"' {
            proof {
                if hint is Some {
                    if xr.len() > 0 {
                        // no escape opens with a quote
                        assert(esc_char(xr[0])[0] != '"');
                        assert(false);
                    }
                    lemma_subrange_split(v@, i as int, i + 1, n as int);
                    assert(v@.subrange(i as int, i + 1) =~= seq!['"']);
                    assert(esc(xr) + seq!['"'] + rest =~= seq!['"'] + rest);
                    lemma_concat_cancel(seq!['"'], v@.subrange(i + 1, n as int), rest);
                }
                assert(v@.subrange(pos as int, i + 1) =~= seq!['"'] + esc(out@) + seq!['"']);
            }
            return Some((out, i + 1));
        }
        if c == '\\' {
            proof {
                if hint is Some {
                    if xr.len() == 0 {
                        assert(false);
                    }
                    // only escaped characters open with a backslash
                    if !(xr[0] == '"' || xr[0] == '\\' || (xr[0] as u32) < 32) {
                        assert(esc_char(xr[0]) =~= seq![xr[0]]);
                        assert(false);
                    }
                    assert(esc_char(xr[0]).len() >= 2);
                    assert(esc(xr).len() >= 2);
                    assert(v@.subrange(i as int, n as int).len() >= 3);
                }
            }
            if n - i < 2 {
                proof {
                    if hint is Some {
                        assert(false);
                    }
                }
                return None;
            }
            let e = v[i + 1];
            proof {
                if hint is Some {
                    assert(v@.subrange(i as int, n as int)[1] == esc_char(xr[0])[1]);
                    assert(v@[i + 1] == v@.subrange(i as int, n as int)[1]);
                    assert(e == esc_char(xr[0])[1]);
                }
            }
            if e == '"' || e == '\\' {
                let ghost before = out@;
                out.push(e);
                proof {
                    assert(out@.drop_last() =~= before);
                    assert(esc(out@) == esc(before) + esc_char(e));
                    assert(v@.subrange(pos + 1, i + 2) =~= v@.subrange(pos + 1, i as int)
                        + seq!['\\', e]);
                    assert(esc_char(e) =~= seq!['\\', e]);
                    if hint is Some {
                        // this escape is two characters: quote and
                        // backslash escapes name the escaped character
                        assert(esc_char(xr[0]) =~= seq!['\\', e]) by {
                            if (xr[0] as u32) < 32 && !(xr[0] == '"') && !(xr[0] == '\\') {
                                assert(esc_char(xr[0])[1] == 'u');
                            }
                        }
                        lemma_subrange_split(v@, i as int, i + 2, n as int);
                        assert(v@.subrange(i as int, i + 2) =~= seq!['\\', e]);
                        assert(esc(xr) + seq!['"'] + rest =~= seq!['\\', e] + (esc(
                            xr.drop_first(),
                        ) + seq!['"'] + rest));
                        lemma_concat_cancel(
                            seq!['\\', e],
                            v@.subrange(i + 2, n as int),
                            esc(xr.drop_first()) + seq!['"'] + rest,
                        );
                        xr = xr.drop_first();
                    }
                }
                i += 2;
            } else if e == 'u' {
                proof {
                    if hint is Some {
                        // only a control character escapes to `\u`
                        assert((xr[0] as u32) < 32) by {
                            if xr[0] == '"' || xr[0] == '\\' {
                                assert(esc_char(xr[0])[1] != 'u');
                            }
                        }
                        assert(esc_char(xr[0]).len() == 6);
                        assert(esc(xr).len() >= 6);
                        assert(v@.subrange(i as int, n as int).len() >= 7);
                    }
                }
                if n - i < 6 {
                    proof {
                        if hint is Some {
                            assert(false);
                        }
                    }
                    return None;
                }
                proof {
                    if hint is Some {
                        assert(v@.subrange(i as int, n as int)[2] == esc_char(xr[0])[2]);
                        assert(v@.subrange(i as int, n as int)[3] == esc_char(xr[0])[3]);
                        assert(v@.subrange(i as int, n as int)[4] == esc_char(xr[0])[4]);
                        assert(v@.subrange(i as int, n as int)[5] == esc_char(xr[0])[5]);
                        assert(v@[i + 2] == v@.subrange(i as int, n as int)[2]);
                        assert(v@[i + 3] == v@.subrange(i as int, n as int)[3]);
                        assert(v@[i + 4] == v@.subrange(i as int, n as int)[4]);
                        assert(v@[i + 5] == v@.subrange(i as int, n as int)[5]);
                    }
                }
                if v[i + 2] != '0' || v[i + 3] != '0' {
                    proof {
                        if hint is Some {
                            assert(false);
                        }
                    }
                    return None;
                }
                let d1 = match hex_val(v[i + 4]) {
                    Some(d) => d,
                    None => {
                        proof {
                            if hint is Some {
                                let hi = ((xr[0] as u32) as nat) / 16;
                                assert(hi < 16);
                                assert(hex_digit(hi) != v@[i + 4]);
                                assert(false);
                            }
                        }
                        return None;
                    },
                };
                let d2 = match hex_val(v[i + 5]) {
                    Some(d) => d,
                    None => {
                        proof {
                            if hint is Some {
                                let lo = ((xr[0] as u32) as nat) % 16;
                                assert(lo < 16);
                                assert(hex_digit(lo) != v@[i + 5]);
                                assert(false);
                            }
                        }
                        return None;
                    },
                };
                if d1 >= 2 {
                    proof {
                        if hint is Some {
                            let hi = ((xr[0] as u32) as nat) / 16;
                            lemma_hex_digit_codes(d1 as nat);
                            lemma_hex_digit_codes(hi);
                            assert(d1 as nat == hi);
                            assert(false);
                        }
                    }
                    return None;
                }
                let val: u8 = d1 * 16 + d2;
                let dc = val as char;
                proof {
                    assert(dc as u32 == val);
                    assert((dc as u32) < 32);
                    assert(dc != '"' && dc != '\\');
                    assert(((dc as u32) as nat) / 16 == d1 as nat);
                    assert(((dc as u32) as nat) % 16 == d2 as nat);
                    assert(esc_char(dc) =~= seq!['\\', 'u', '0', '0', hex_digit(d1 as nat),
                        hex_digit(d2 as nat)]);
                }
                let ghost before = out@;
                out.push(dc);
                proof {
                    assert(out@.drop_last() =~= before);
                    assert(esc(out@) == esc(before) + esc_char(dc));
                    assert(v@.subrange(pos + 1, i + 6) =~= v@.subrange(pos + 1, i as int)
                        + esc_char(dc));
                    if hint is Some {
                        lemma_subrange_split(v@, i as int, i + 6, n as int);
                        // the six consumed characters are this escape
                        assert(v@.subrange(i as int, i + 6) =~= esc_char(xr[0]));
                        assert(esc(xr) + seq!['"'] + rest =~= esc_char(xr[0]) + (esc(
                            xr.drop_first(),
                        ) + seq!['"'] + rest));
                        lemma_concat_cancel(
                            esc_char(xr[0]),
                            v@.subrange(i + 6, n as int),
                            esc(xr.drop_first()) + seq!['"'] + rest,
                        );
                        xr = xr.drop_first();
                    }
                }
                i += 6;
            } else {
                proof {
                    if hint is Some {
                        // the second escape character is one of the three
                        if xr[0] == '"' || xr[0] == '\\' {
                            assert(e == xr[0]);
                        } else {
                            assert(e == 'u');
                        }
                        assert(false);
                    }
                }
                return None;
            }
        } else {
            // a raw character is canonical only outside the escaped set
            proof {
                if hint is Some {
                    if xr.len() == 0 {
                        assert(c == '"');
                        assert(false);
                    }
                    assert(c == esc_char(xr[0])[0]);
                    assert(esc_char(xr[0]) =~= seq![c]) by {
                        if xr[0] == '"' || xr[0] == '\\' || (xr[0] as u32) < 32 {
                            assert(esc_char(xr[0])[0] == '\\');
                        } else {
                            assert(esc_char(xr[0]) =~= seq![xr[0]]);
                        }
                    }
                }
            }
            if (c as u32) < 32 {
                proof {
                    if hint is Some {
                        // the raw character equals the escaped one, which
                        // would have been escaped were it a control
                        assert(xr[0] == c);
                        assert(false);
                    }
                }
                return None;
            }
            let ghost before = out@;
            out.push(c);
            proof {
                assert(esc_char(c) =~= seq![c]);
                assert(out@.drop_last() =~= before);
                assert(esc(out@) == esc(before) + esc_char(c));
                assert(v@.subrange(pos + 1, i + 1) =~= v@.subrange(pos + 1, i as int) + seq![c]);
                if hint is Some {
                    lemma_subrange_split(v@, i as int, i + 1, n as int);
                    assert(v@.subrange(i as int, i + 1) =~= seq![c]);
                    assert(esc(xr) + seq!['"'] + rest =~= seq![c] + (esc(xr.drop_first())
                        + seq!['"'] + rest));
                    lemma_concat_cancel(
                        seq![c],
                        v@.subrange(i + 1, n as int),
                        esc(xr.drop_first()) + seq!['"'] + rest,
                    );
                    xr = xr.drop_first();
                }
            }
            i += 1;
        }
    }
}

/// A subrange split at an interior point.
proof fn lemma_subrange_split(s: Seq<char>, a: int, b: int, c: int)
    requires
        0 <= a <= b <= c <= s.len(),
    ensures
        s.subrange(a, c) == s.subrange(a, b) + s.subrange(b, c),
{
    assert(s.subrange(a, c) =~= s.subrange(a, b) + s.subrange(b, c));
}

/// Equal concatenations with the same head have the same tail.
proof fn lemma_concat_cancel(a: Seq<char>, b: Seq<char>, c: Seq<char>)
    requires
        a + b == a + c,
    ensures
        b == c,
{
    assert((a + b).len() == a.len() + b.len());
    assert((a + c).len() == a.len() + c.len());
    assert(b =~= c) by {
        assert forall|t: int| 0 <= t < b.len() implies b[t] == c[t] by {
            assert((a + b)[a.len() + t] == b[t]);
            assert((a + c)[a.len() + t] == c[t]);
        }
    }
}

/// The code of a hex digit character: decimal digits then letters, so
/// distinct digit values have distinct characters.
proof fn lemma_hex_digit_codes(d: nat)
    requires
        d < 16,
    ensures
        d < 10 ==> hex_digit(d) as u32 == d + 48,
        d >= 10 ==> hex_digit(d) as u32 == d + 87,
{
}

/// The members of an object from position `m` on: each member, separated
/// by commas.
pub open spec fn json_tail(ps: Seq<(Seq<char>, Option<Seq<char>>)>, m: int) -> Seq<char>
    decreases ps.len() - m,
{
    if m < 0 || m >= ps.len() {
        Seq::empty()
    } else {
        json_member(ps[m].0, ps[m].1) + if m + 1 < ps.len() {
            seq![','] + json_tail(ps, m + 1)
        } else {
            Seq::empty()
        }
    }
}

proof fn lemma_tail_snoc(ps: Seq<(Seq<char>, Option<Seq<char>>)>, m: int)
    requires
        0 <= m < ps.len() - 1,
    ensures
        json_tail(ps, m) == json_tail(ps.drop_last(), m) + seq![','] + json_member(
            ps.last().0,
            ps.last().1,
        ),
    decreases ps.len() - m,
{
    let dl = ps.drop_last();
    assert(dl[m] == ps[m]);
    if m == ps.len() - 2 {
        assert(json_tail(ps, m + 1) == json_member(ps[m + 1].0, ps[m + 1].1));
        assert(json_tail(dl, m) == json_member(dl[m].0, dl[m].1));
        assert(json_tail(ps, m) =~= json_tail(dl, m) + seq![','] + json_member(
            ps.last().0,
            ps.last().1,
        ));
    } else {
        lemma_tail_snoc(ps, m + 1);
        assert(dl[m] == ps[m]);
        assert(json_tail(ps, m) =~= json_tail(dl, m) + seq![','] + json_member(
            ps.last().0,
            ps.last().1,
        ));
    }
}

/// The comma-joined members are the same read whole or member by member.
proof fn lemma_body_is_tail(ps: Seq<(Seq<char>, Option<Seq<char>>)>)
    ensures
        json_body(ps) == json_tail(ps, 0),
    decreases ps.len(),
{
    if ps.len() == 0 {
    } else if ps.len() == 1 {
        assert(json_tail(ps, 0) =~= json_member(ps[0].0, ps[0].1));
    } else {
        lemma_body_is_tail(ps.drop_last());
        lemma_tail_snoc(ps, 0);
        assert(json_body(ps) =~= json_tail(ps, 0));
    }
}

/// Decodes one flat object: the whole input must be exactly the canonical
/// encoding of the returned pairs — nothing else is accepted — and every
/// canonically encoded object is accepted.
#[verifier::rlimit(100)]
pub fn decode_object(s: &str) -> (r: Option<Vec<(String, Option<String>)>>)
    ensures
        r matches Some(ps) ==> s@ == json_object(pairs_view(ps@)),
        (exists|want: Seq<(Seq<char>, Option<Seq<char>>)>| s@ == #[trigger] json_object(want))
            ==> r is Some,
{
    let v = str_chars(s);
    let n = v.len();
    let ghost has_w = exists|want: Seq<(Seq<char>, Option<Seq<char>>)>| s@ == json_object(want);
    let ghost w: Seq<(Seq<char>, Option<Seq<char>>)> = if has_w {
        choose|want: Seq<(Seq<char>, Option<Seq<char>>)>| s@ == json_object(want)
    } else {
        Seq::empty()
    };
    proof {
        if has_w {
            lemma_body_is_tail(w);
            assert(v@ == seq!['{'] + json_tail(w, 0) + seq!['}']);
        }
    }
    if n < 2 || v[0] != '{' {
        proof {
            if has_w {
                assert(v@.len() >= 2);
                assert(v@[0] == (seq!['{'] + json_tail(w, 0) + seq!['}'])[0]);
                assert(false);
            }
        }
        return None;
    }
    proof {
        if has_w && w.len() > 0 {
            // a member opens with the quote of its key
            assert(json_tail(w, 0) == json_member(w[0].0, w[0].1) + (if 1 < w.len() {
                seq![','] + json_tail(w, 1)
            } else {
                Seq::<char>::empty()
            }));
            assert(json_member(w[0].0, w[0].1) == json_string(w[0].0) + seq![':'] + json_value(
                w[0].1,
            ));
            assert(json_tail(w, 0)[0] == '"');
            assert(v@[1] == (seq!['{'] + json_tail(w, 0) + seq!['}'])[1]);
        }
    }
    if v[1] == '}' {
        if n == 2 {
            let ps: Vec<(String, Option<String>)> = Vec::new();
            proof {
                assert(pairs_view(ps@) =~= Seq::<(Seq<char>, Option<Seq<char>>)>::empty());
                assert(s@ =~= json_object(pairs_view(ps@)));
            }
            return Some(ps);
        }
        proof {
            if has_w {
                assert(w.len() == 0);
                assert(v@ =~= seq!['{', '}']);
                assert(false);
            }
        }
        return None;
    }
    proof {
        if has_w {
            assert(w.len() > 0);
            assert(v@.subrange(1, n as int) =~= json_tail(w, 0) + seq!['}']);
        }
    }
    let mut ps: Vec<(String, Option<String>)> = Vec::new();
    let mut pos: usize = 1;
    loop
        invariant
            1 <= pos <= n,
            n == v@.len(),
            v@ == s@,
            v@[0] == '{',
            ps@.len() == 0 ==> pos == 1,
            ps@.len() > 0 ==> v@.subrange(0, pos as int) == seq!['{'] + json_body(
                pairs_view(ps@),
            ) + seq![','],
            has_w == exists|want: Seq<(Seq<char>, Option<Seq<char>>)>| s@ == #[trigger] json_object(
                want,
            ),
            has_w ==> (ps@.len() < w.len() && v@.subrange(pos as int, n as int) == json_tail(
                w,
                ps@.len() as int,
            ) + seq!['}']),
        decreases n - pos,
    {
        let ghost m = ps@.len() as int;
        let ghost dtail: Seq<char> = if has_w && m + 1 < w.len() {
            seq![','] + json_tail(w, m + 1)
        } else {
            Seq::empty()
        };
        let ghost vrest: Seq<char> = if has_w {
            seq![':'] + json_value(w[m].1) + dtail + seq!['}']
        } else {
            Seq::empty()
        };
        proof {
            if has_w {
                assert(json_tail(w, m) == json_member(w[m].0, w[m].1) + dtail);
                assert(json_member(w[m].0, w[m].1) == json_string(w[m].0) + seq![':']
                    + json_value(w[m].1));
                assert(v@.subrange(pos as int, n as int) =~= json_string(w[m].0) + vrest);
            }
        }
        let ghost key_hint: Option<(Seq<char>, Seq<char>)> = if has_w {
            Some((w[m].0, vrest))
        } else {
            None
        };
        let (key, p1) = match parse_string(&v, pos, Ghost(key_hint)) {
            Some(kp) => kp,
            None => {
                proof {
                    if has_w {
                        assert(false);
                    }
                }
                return None;
            },
        };
        proof {
            if has_w {
                assert(v@.subrange(p1 as int, n as int) == vrest);
                assert(v@.subrange(p1 as int, n as int)[0] == ':');
                assert(v@[p1 as int] == v@.subrange(p1 as int, n as int)[0]);
            }
        }
        if p1 >= n || v[p1] != ':' {
            proof {
                if has_w {
                    assert(false);
                }
            }
            return None;
        }
        let p2 = p1 + 1;
        proof {
            if has_w {
                lemma_subrange_split(v@, p1 as int, p2 as int, n as int);
                assert(v@.subrange(p1 as int, p2 as int) =~= seq![':']);
                assert(vrest =~= seq![':'] + (json_value(w[m].1) + dtail + seq!['}']));
                lemma_concat_cancel(
                    seq![':'],
                    v@.subrange(p2 as int, n as int),
                    json_value(w[m].1) + dtail + seq!['}'],
                );
                reveal_strlit("null");
                if w[m].1 is None {
                    assert(json_value(w[m].1) =~= seq!['n', 'u', 'l', 'l']);
                } else {
                    assert(json_value(w[m].1)[0] == '"');
                    assert(v@.subrange(p2 as int, n as int)[0] == '"');
                    assert(v@[p2 as int] == v@.subrange(p2 as int, n as int)[0]);
                }
            }
        }
        let (value, p3): (Option<String>, usize) = if p2 < n && v[p2] == 'n' {
            proof {
                if has_w {
                    // a string value opens with a quote, so this is `null`
                    assert(w[m].1 is None);
                    assert(v@.subrange(p2 as int, n as int).len() >= 5);
                    assert(v@.subrange(p2 as int, n as int)[1] == 'u');
                    assert(v@.subrange(p2 as int, n as int)[2] == 'l');
                    assert(v@.subrange(p2 as int, n as int)[3] == 'l');
                    assert(v@[p2 + 1] == v@.subrange(p2 as int, n as int)[1]);
                    assert(v@[p2 + 2] == v@.subrange(p2 as int, n as int)[2]);
                    assert(v@[p2 + 3] == v@.subrange(p2 as int, n as int)[3]);
                }
            }
            if n - p2 < 4 {
                proof {
                    if has_w {
                        assert(false);
                    }
                }
                return None;
            }
            if v[p2 + 1] != 'u' || v[p2 + 2] != 'l' || v[p2 + 3] != 'l' {
                proof {
                    if has_w {
                        assert(false);
                    }
                }
                return None;
            }
            proof {
                reveal_strlit("null");
                assert(v@.subrange(p2 as int, p2 + 4) =~= "null"@);
                if has_w {
                    lemma_subrange_split(v@, p2 as int, p2 + 4, n as int);
                    assert(v@.subrange(p2 as int, p2 + 4) =~= seq!['n', 'u', 'l', 'l']);
                    assert(json_value(w[m].1) + dtail + seq!['}'] =~= seq!['n', 'u', 'l', 'l']
                        + (dtail + seq!['}']));
                    lemma_concat_cancel(
                        seq!['n', 'u', 'l', 'l'],
                        v@.subrange(p2 + 4, n as int),
                        dtail + seq!['}'],
                    );
                }
            }
            (None, p2 + 4)
        } else {
            proof {
                if has_w {
                    // `null` would have entered the branch above
                    assert(w[m].1 is Some) by {
                        if w[m].1 is None {
                            assert(v@.subrange(p2 as int, n as int)[0] == 'n');
                            assert(v@[p2 as int] == v@.subrange(p2 as int, n as int)[0]);
                            assert(v@.subrange(p2 as int, n as int).len() >= 1);
                            assert(p2 < n);
                        }
                    }
                    assert(json_value(w[m].1) + dtail + seq!['}'] =~= json_string(w[m].1->0)
                        + (dtail + seq!['}']));
                }
            }
            let ghost val_hint: Option<(Seq<char>, Seq<char>)> = if has_w {
                Some((w[m].1->0, dtail + seq!['}']))
            } else {
                None
            };
            match parse_string(&v, p2, Ghost(val_hint)) {
                Some((val, j)) => (Some(chars_to_string(&val)), j),
                None => {
                    proof {
                        if has_w {
                            assert(false);
                        }
                    }
                    return None;
                },
            }
        };
        proof {
            if has_w {
                assert(v@.subrange(p3 as int, n as int) == dtail + seq!['}']);
            }
        }
        let ghost prev = pairs_view(ps@);
        let ghost keyview = key@;
        ps.push((chars_to_string(&key), value));
        proof {
            let pv = pairs_view(ps@);
            assert(pv =~= prev.push(
                (
                    keyview,
                    match value {
                        Some(ref t) => Some(t@),
                        None => None,
                    },
                ),
            ));
            assert(pv.drop_last() =~= prev);
            assert(v@.subrange(pos as int, p3 as int) =~= json_member(pv.last().0, pv.last().1));
            if prev.len() == 0 {
                assert(v@.subrange(0, p3 as int) =~= seq!['{'] + json_body(pv));
            } else {
                assert(v@.subrange(0, p3 as int) =~= seq!['{'] + json_body(prev) + seq![',']
                    + json_member(pv.last().0, pv.last().1));
                assert(v@.subrange(0, p3 as int) =~= seq!['{'] + json_body(pv));
            }
        }
        if p3 < n && v[p3] == ',' {
            proof {
                if has_w {
                    // a comma comes exactly before a further member
                    assert(m + 1 < w.len()) by {
                        if m + 1 >= w.len() {
                            assert(dtail + seq!['}'] =~= seq!['}']);
                            assert(v@.subrange(p3 as int, n as int)[0] == '}');
                            assert(v@[p3 as int] == v@.subrange(p3 as int, n as int)[0]);
                        }
                    }
                    lemma_subrange_split(v@, p3 as int, p3 + 1, n as int);
                    assert(v@.subrange(p3 as int, p3 + 1) =~= seq![',']);
                    assert(dtail + seq!['}'] =~= seq![','] + (json_tail(w, m + 1) + seq!['}']));
                    lemma_concat_cancel(
                        seq![','],
                        v@.subrange(p3 + 1, n as int),
                        json_tail(w, m + 1) + seq!['}'],
                    );
                }
            }
            pos = p3 + 1;
            proof {
                assert(v@.subrange(0, pos as int) =~= seq!['{'] + json_body(pairs_view(ps@))
                    + seq![',']);
            }
            if pos >= n {
                proof {
                    if has_w {
                        assert(v@.subrange(pos as int, n as int).len() >= 1);
                        assert(false);
                    }
                }
                return None;
            }
        } else if p3 < n && n - p3 == 1 && v[p3] == '}' {
            proof {
                assert(v@ =~= seq!['{'] + json_body(pairs_view(ps@)) + seq!['}']);
                assert(s@ =~= json_object(pairs_view(ps@)));
            }
            return Some(ps);
        } else {
            proof {
                if has_w {
                    if m + 1 < w.len() {
                        assert(v@.subrange(p3 as int, n as int)[0] == ',');
                        assert(v@[p3 as int] == v@.subrange(p3 as int, n as int)[0]);
                        assert(v@.subrange(p3 as int, n as int).len() >= 2);
                        assert(p3 < n);
                    } else {
                        assert(dtail + seq!['}'] =~= seq!['}']);
                        assert(v@.subrange(p3 as int, n as int).len() == 1);
                        assert(v@.subrange(p3 as int, n as int)[0] == '}');
                        assert(v@[p3 as int] == v@.subrange(p3 as int, n as int)[0]);
                        assert(p3 < n && n - p3 == 1);
                    }
                    assert(false);
                }
            }
            return None;
        }
    }
}

/// The view of an optional string.
pub open spec fn opt_view(v: Option<String>) -> Option<Seq<char>> {
    match v {
        Some(s) => Some(s@),
        None => None,
    }
}

/// Copies an optional string.
pub fn clone_opt(v: &Option<String>) -> (r: Option<String>)
    ensures
        r == *v,
{
    match v {
        Some(s) => Some(s.clone()),
        None => None,
    }
}

/// The payload pairs that persist one meeting summary.
pub open spec fn summary_pairs(m: RecordingSummary) -> Seq<(Seq<char>, Option<Seq<char>>)> {
    seq![
        ("meetingId"@, Some(m.meeting_id@)),
        ("meetingNumber"@, opt_view(m.meeting_number)),
        ("topic"@, opt_view(m.topic)),
        ("startTime"@, opt_view(m.start_time)),
        ("timezone"@, opt_view(m.timezone)),
    ]
}

/// Builds the payload pairs for one meeting summary.
pub fn summary_to_pairs(m: &RecordingSummary) -> (r: Vec<(String, Option<String>)>)
    ensures
        pairs_view(r@) =~= summary_pairs(*m),
{
    let mut r: Vec<(String, Option<String>)> = Vec::new();
    r.push(("meetingId".to_owned(), Some(m.meeting_id.clone())));
    r.push(("meetingNumber".to_owned(), clone_opt(&m.meeting_number)));
    r.push(("topic".to_owned(), clone_opt(&m.topic)));
    r.push(("startTime".to_owned(), clone_opt(&m.start_time)));
    r.push(("timezone".to_owned(), clone_opt(&m.timezone)));
    r
}

/// Reads one meeting summary back from payload pairs: it accepts exactly
/// the shape that `summary_to_pairs` wrote, and succeeds on every list of
/// pairs of that shape.
pub fn pairs_to_summary(ps: &Vec<(String, Option<String>)>) -> (r: Option<RecordingSummary>)
    ensures
        r matches Some(m) ==> pairs_view(ps@) == summary_pairs(m),
        (exists|m: RecordingSummary| pairs_view(ps@) == #[trigger] summary_pairs(m)) ==> r
            is Some,
{
    proof {
        if exists|m: RecordingSummary| pairs_view(ps@) == summary_pairs(m) {
            let m0 = choose|m: RecordingSummary| pairs_view(ps@) == summary_pairs(m);
            assert(pairs_view(ps@).len() == 5);
            assert forall|i: int| 0 <= i < 5 implies #[trigger] pairs_view(ps@)[i] == (
            ps@[i].0@,
            opt_view(ps@[i].1),
            ) by {}
            assert(ps@[0].0@ == "meetingId"@ && opt_view(ps@[0].1) == Some(m0.meeting_id@));
            assert(ps@[1].0@ == "meetingNumber"@);
            assert(ps@[2].0@ == "topic"@);
            assert(ps@[3].0@ == "startTime"@);
            assert(ps@[4].0@ == "timezone"@);
        }
    }
    if ps.len() != 5 {
        return None;
    }
    if !(ps[0].0 == "meetingId".to_owned() && ps[1].0 == "meetingNumber".to_owned() && ps[2].0
        == "topic".to_owned() && ps[3].0 == "startTime".to_owned() && ps[4].0
        == "timezone".to_owned()) {
        return None;
    }
    let meeting_id = match &ps[0].1 {
        Some(s) => s.clone(),
        None => { return None },
    };
    let m = RecordingSummary {
        meeting_id,
        meeting_number: clone_opt(&ps[1].1),
        topic: clone_opt(&ps[2].1),
        start_time: clone_opt(&ps[3].1),
        timezone: clone_opt(&ps[4].1),
    };
    proof {
        assert(pairs_view(ps@) =~= summary_pairs(m));
    }
    Some(m)
}

/// The payload pairs that persist one recording file, keyed under the
/// given meeting id whatever the entry itself holds.
pub open spec fn file_pairs(mid: Seq<char>, f: ZoomRecordingFile) -> Seq<
    (Seq<char>, Option<Seq<char>>),
> {
    seq![
        ("meetingId"@, Some(mid)),
        ("playUrl"@, Some(f.play_url@)),
        ("downloadUrl"@, opt_view(f.download_url)),
        ("fileType"@, opt_view(f.file_type)),
        ("recordingStart"@, opt_view(f.recording_start)),
        ("topic"@, opt_view(f.topic)),
        ("startTime"@, opt_view(f.start_time)),
        ("timezone"@, opt_view(f.timezone)),
        ("meetingNumber"@, opt_view(f.meeting_number)),
    ]
}

/// Builds the payload pairs for one recording file. The stored meeting id
/// is the one given, whatever the entry holds: rows are keyed under their
/// own meeting.
pub fn file_to_pairs(f: &ZoomRecordingFile, meeting_id: &str) -> (r: Vec<
    (String, Option<String>),
>)
    ensures
        pairs_view(r@) =~= file_pairs(meeting_id@, *f),
{
    let mut r: Vec<(String, Option<String>)> = Vec::new();
    r.push(("meetingId".to_owned(), Some(meeting_id.to_owned())));
    r.push(("playUrl".to_owned(), Some(f.play_url.clone())));
    r.push(("downloadUrl".to_owned(), clone_opt(&f.download_url)));
    r.push(("fileType".to_owned(), clone_opt(&f.file_type)));
    r.push(("recordingStart".to_owned(), clone_opt(&f.recording_start)));
    r.push(("topic".to_owned(), clone_opt(&f.topic)));
    r.push(("startTime".to_owned(), clone_opt(&f.start_time)));
    r.push(("timezone".to_owned(), clone_opt(&f.timezone)));
    r.push(("meetingNumber".to_owned(), clone_opt(&f.meeting_number)));
    r
}

} // verus!
