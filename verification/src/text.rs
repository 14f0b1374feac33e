//! Character-level text utilities: conversion between strings and character
//! vectors, ASCII case folding, and verified substring search. All scanning
//! in this crate is specified over `Seq<char>` views.

use vstd::prelude::*;

verus! {

/// ASCII lowercase of one character; other characters are unchanged.
pub open spec fn lower_char(c: char) -> char {
    if 'A' <= c && c <= 'Z' {
        (c as u8 + 32) as char
    } else {
        c
    }
}

/// ASCII uppercase of one character; other characters are unchanged.
pub open spec fn upper_char(c: char) -> char {
    if 'a' <= c && c <= 'z' {
        (c as u8 - 32) as char
    } else {
        c
    }
}

/// The sequence with every character ASCII-lowercased.
pub open spec fn lower_seq(s: Seq<char>) -> Seq<char> {
    s.map_values(|c: char| lower_char(c))
}

/// The sequence with every character ASCII-uppercased.
pub open spec fn upper_seq(s: Seq<char>) -> Seq<char> {
    s.map_values(|c: char| upper_char(c))
}

/// `needle` occurs in `hay` starting at position `i`.
pub open spec fn occurs_at(hay: Seq<char>, needle: Seq<char>, i: int) -> bool {
    &&& 0 <= i
    &&& i + needle.len() <= hay.len()
    &&& hay.subrange(i, i + needle.len()) == needle
}

/// `needle` occurs somewhere in `hay`.
pub open spec fn contains_seq(hay: Seq<char>, needle: Seq<char>) -> bool {
    exists|i: int| occurs_at(hay, needle, i)
}

/// `pre` is a prefix of `s`.
pub open spec fn starts_with(s: Seq<char>, pre: Seq<char>) -> bool {
    pre.len() <= s.len() && s.subrange(0, pre.len() as int) == pre
}

/// `suf` is a suffix of `s`.
pub open spec fn ends_with(s: Seq<char>, suf: Seq<char>) -> bool {
    suf.len() <= s.len() && s.subrange(s.len() - suf.len(), s.len() as int) == suf
}

pub fn ascii_lower(c: char) -> (r: char)
    ensures
        r == lower_char(c),
{
    if 'A' <= c && c <= 'Z' {
        ((c as u8) + 32) as char
    } else {
        c
    }
}

pub fn ascii_upper(c: char) -> (r: char)
    ensures
        r == upper_char(c),
{
    if 'a' <= c && c <= 'z' {
        ((c as u8) - 32) as char
    } else {
        c
    }
}

/// The characters of a string, in order.
pub fn str_chars(s: &str) -> (v: Vec<char>)
    ensures
        v@ == s@,
{
    let n = s.unicode_len();
    let mut v: Vec<char> = Vec::new();
    let mut i: usize = 0;
    while i < n
        invariant
            i <= n,
            n == s@.len(),
            v@ == s@.subrange(0, i as int),
        decreases n - i,
    {
        v.push(s.get_char(i));
        i += 1;
    }
    proof {
        assert(v@ =~= s@);
    }
    v
}

/// Relies on `String: FromIterator<char>`: collecting characters yields the
/// string with exactly those characters in order.
#[verifier::external_body]
pub fn chars_to_string(v: &Vec<char>) -> (s: String)
    ensures
        s@ == v@,
{
    v.iter().collect()
}

/// A copy of `v` with every character ASCII-lowercased.
pub fn lowered(v: &Vec<char>) -> (r: Vec<char>)
    ensures
        r@ == lower_seq(v@),
{
    let mut r: Vec<char> = Vec::new();
    let mut i: usize = 0;
    while i < v.len()
        invariant
            i <= v@.len(),
            r@ == lower_seq(v@.subrange(0, i as int)),
        decreases v@.len() - i,
    {
        r.push(ascii_lower(v[i]));
        proof {
            assert(v@.subrange(0, i + 1 as int).map_values(|c: char| lower_char(c)) =~= v@
                .subrange(0, i as int).map_values(|c: char| lower_char(c)).push(
                lower_char(v@[i as int]),
            ));
        }
        i += 1;
    }
    proof {
        assert(v@.subrange(0, v@.len() as int) =~= v@);
    }
    r
}

/// A copy of `v` with every character ASCII-uppercased.
pub fn uppered(v: &Vec<char>) -> (r: Vec<char>)
    ensures
        r@ == upper_seq(v@),
{
    let mut r: Vec<char> = Vec::new();
    let mut i: usize = 0;
    while i < v.len()
        invariant
            i <= v@.len(),
            r@ == upper_seq(v@.subrange(0, i as int)),
        decreases v@.len() - i,
    {
        r.push(ascii_upper(v[i]));
        proof {
            assert(v@.subrange(0, i + 1 as int).map_values(|c: char| upper_char(c)) =~= v@
                .subrange(0, i as int).map_values(|c: char| upper_char(c)).push(
                upper_char(v@[i as int]),
            ));
        }
        i += 1;
    }
    proof {
        assert(v@.subrange(0, v@.len() as int) =~= v@);
    }
    r
}

/// Whether `needle` occurs in `hay` at exactly position `i`.
pub fn matches_at(hay: &Vec<char>, needle: &Vec<char>, i: usize) -> (r: bool)
    requires
        i + needle@.len() <= hay@.len(),
    ensures
        r == occurs_at(hay@, needle@, i as int),
{
    let hlen = hay.len();
    let mut j: usize = 0;
    while j < needle.len()
        invariant
            j <= needle@.len(),
            hlen == hay@.len(),
            i + needle@.len() <= hlen,
            forall|k: int| 0 <= k < j ==> hay@[i + k] == needle@[k],
        decreases needle@.len() - j,
    {
        if hay[i + j] != needle[j] {
            proof {
                assert(hay@.subrange(i as int, i + needle@.len()) != needle@) by {
                    assert(hay@.subrange(i as int, i + needle@.len())[j as int] != needle@[j as int]);
                }
            }
            return false;
        }
        j += 1;
    }
    proof {
        assert(hay@.subrange(i as int, i + needle@.len()) =~= needle@);
    }
    true
}

/// The first position at or after `from` where `needle` occurs in `hay`,
/// or `None` when there is none.
pub fn find_sub(hay: &Vec<char>, needle: &Vec<char>, from: usize) -> (r: Option<usize>)
    ensures
        match r {
            Some(p) => {
                &&& from <= p
                &&& occurs_at(hay@, needle@, p as int)
                &&& forall|j: int| from <= j < p ==> !occurs_at(hay@, needle@, j)
            },
            None => forall|j: int| from <= j ==> !occurs_at(hay@, needle@, j),
        },
{
    if needle.len() > hay.len() {
        return None;
    }
    let last = hay.len() - needle.len();
    if from > last {
        return None;
    }
    let mut i: usize = from;
    loop
        invariant
            needle@.len() <= hay@.len(),
            last == hay@.len() - needle@.len(),
            from <= i <= last,
            forall|j: int| from <= j < i ==> !occurs_at(hay@, needle@, j),
        decreases last - i,
    {
        if matches_at(hay, needle, i) {
            return Some(i);
        }
        if i == last {
            return None;
        }
        i += 1;
    }
}

/// Whether `needle` occurs anywhere in `hay`.
pub fn contains_sub(hay: &Vec<char>, needle: &Vec<char>) -> (r: bool)
    ensures
        r == contains_seq(hay@, needle@),
{
    match find_sub(hay, needle, 0) {
        Some(_) => true,
        None => false,
    }
}

/// Whether `pre` is a prefix of `s`.
pub fn has_prefix(s: &Vec<char>, pre: &Vec<char>) -> (r: bool)
    ensures
        r == starts_with(s@, pre@),
{
    if pre.len() > s.len() {
        return false;
    }
    matches_at(s, pre, 0)
}

/// Whether `suf` is a suffix of `s`.
pub fn has_suffix(s: &Vec<char>, suf: &Vec<char>) -> (r: bool)
    ensures
        r == ends_with(s@, suf@),
{
    if suf.len() > s.len() {
        return false;
    }
    let start = s.len() - suf.len();
    let r = matches_at(s, suf, start);
    proof {
        assert(occurs_at(s@, suf@, start as int) == ends_with(s@, suf@));
    }
    r
}

/// The characters of `v` from `from` (inclusive) to `to` (exclusive).
pub fn sub_chars(v: &Vec<char>, from: usize, to: usize) -> (r: Vec<char>)
    requires
        from <= to <= v@.len(),
    ensures
        r@ == v@.subrange(from as int, to as int),
{
    let mut r: Vec<char> = Vec::new();
    let mut i: usize = from;
    while i < to
        invariant
            from <= i <= to <= v@.len(),
            r@ == v@.subrange(from as int, i as int),
        decreases to - i,
    {
        r.push(v[i]);
        proof {
            assert(v@.subrange(from as int, i + 1 as int) =~= v@.subrange(
                from as int,
                i as int,
            ).push(v@[i as int]));
        }
        i += 1;
    }
    r
}

/// Two character vectors hold the same characters.
pub fn chars_eq(a: &Vec<char>, b: &Vec<char>) -> (r: bool)
    ensures
        r == (a@ == b@),
{
    if a.len() != b.len() {
        return false;
    }
    let mut i: usize = 0;
    while i < a.len()
        invariant
            i <= a@.len(),
            a@.len() == b@.len(),
            forall|k: int| 0 <= k < i ==> a@[k] == b@[k],
        decreases a@.len() - i,
    {
        if a[i] != b[i] {
            return false;
        }
        i += 1;
    }
    proof {
        assert(a@ =~= b@);
    }
    true
}

} // verus!
