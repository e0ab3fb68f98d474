//! Character sequences: conversion between strings and vectors of
//! characters, and literal substring search.

use vstd::prelude::*;

verus! {

/// `needle` stands in `hay` at position `i`.
pub open spec fn occurs_at(hay: Seq<char>, needle: Seq<char>, i: int) -> bool {
    0 <= i && i + needle.len() <= hay.len() && hay.subrange(i, i + needle.len()) == needle
}

/// The least position at or after `from` at which `needle` stands in `hay`.
pub open spec fn first_occurrence_from(hay: Seq<char>, needle: Seq<char>, from: int) -> Option<int>
    decreases hay.len() + 1 - from,
{
    if from < 0 || from + needle.len() > hay.len() {
        None
    } else if occurs_at(hay, needle, from) {
        Some(from)
    } else {
        first_occurrence_from(hay, needle, from + 1)
    }
}

/// The least position at which `needle` stands in `hay`.
pub open spec fn first_occurrence(hay: Seq<char>, needle: Seq<char>) -> Option<int> {
    first_occurrence_from(hay, needle, 0)
}

/// `needle` stands somewhere in `hay`.
pub open spec fn contains_text(hay: Seq<char>, needle: Seq<char>) -> bool {
    first_occurrence(hay, needle) is Some
}

/// `first_occurrence_from` finds an occurrence at or after `from`, skips none,
/// and finds nothing only where there is none.
pub proof fn lemma_first_occurrence_from(hay: Seq<char>, needle: Seq<char>, from: int)
    requires
        0 <= from,
    ensures
        match first_occurrence_from(hay, needle, from) {
            Some(i) => from <= i && occurs_at(hay, needle, i) && forall|j: int|
                from <= j < i ==> !occurs_at(hay, needle, j),
            None => forall|j: int| from <= j ==> !occurs_at(hay, needle, j),
        },
    decreases hay.len() + 1 - from,
{
    if from + needle.len() > hay.len() {
    } else if occurs_at(hay, needle, from) {
    } else {
        lemma_first_occurrence_from(hay, needle, from + 1);
    }
}

/// An occurrence at or after `from` with none before it is the one that
/// `first_occurrence_from` finds.
pub proof fn lemma_first_occurrence_is(hay: Seq<char>, needle: Seq<char>, from: int, i: int)
    requires
        0 <= from <= i,
        occurs_at(hay, needle, i),
        forall|j: int| from <= j < i ==> !occurs_at(hay, needle, j),
    ensures
        first_occurrence_from(hay, needle, from) == Some(i),
    decreases i - from,
{
    if from < i {
        lemma_first_occurrence_is(hay, needle, from + 1, i);
    }
}

/// Appends one character to a string (`String::push`).
#[verifier::external_body]
pub(crate) fn push_char(s: &mut String, c: char)
    ensures
        final(s)@ == old(s)@.push(c),
{
    s.push(c)
}

/// The characters of a string.
pub fn chars_of(s: &str) -> (v: Vec<char>)
    ensures
        v@ == s@,
{
    let mut v: Vec<char> = Vec::new();
    for c in it: s.chars()
        invariant
            it.seq() == s@,
            v@ == it.seq().take(it.index() as int),
    {
        v.push(c);
    }
    assert(v@ == s@);
    v
}

/// The string made of the characters `v[lo..hi]`.
pub fn string_of_range(v: &Vec<char>, lo: usize, hi: usize) -> (s: String)
    requires
        lo <= hi <= v.len(),
    ensures
        s@ == v@.subrange(lo as int, hi as int),
{
    let mut s = String::new();
    let mut i: usize = lo;
    while i < hi
        invariant
            lo <= i <= hi <= v.len(),
            s@ == v@.subrange(lo as int, i as int),
        decreases hi - i,
    {
        push_char(&mut s, v[i]);
        i += 1;
        assert(s@ == v@.subrange(lo as int, i as int));
    }
    s
}

/// The string made of the characters of `v`.
pub fn string_of(v: &Vec<char>) -> (s: String)
    ensures
        s@ == v@,
{
    let s = string_of_range(v, 0, v.len());
    assert(v@.subrange(0, v.len() as int) == v@);
    s
}

/// Appends the characters `src[lo..hi]` to `dst`.
pub fn push_range(dst: &mut Vec<char>, src: &Vec<char>, lo: usize, hi: usize)
    requires
        lo <= hi <= src.len(),
    ensures
        final(dst)@ == old(dst)@ + src@.subrange(lo as int, hi as int),
{
    let mut i: usize = lo;
    while i < hi
        invariant
            lo <= i <= hi <= src.len(),
            dst@ == old(dst)@ + src@.subrange(lo as int, i as int),
        decreases hi - i,
    {
        dst.push(src[i]);
        i += 1;
        assert(dst@ == old(dst)@ + src@.subrange(lo as int, i as int));
    }
}

/// Appends the characters of `src` to `dst`.
pub fn push_all(dst: &mut Vec<char>, src: &Vec<char>)
    ensures
        final(dst)@ == old(dst)@ + src@,
{
    assert(src@.subrange(0, src.len() as int) == src@);
    push_range(dst, src, 0, src.len());
}

/// Appends the characters of the string `src` to `dst`.
pub fn push_str(dst: &mut Vec<char>, src: &str)
    ensures
        final(dst)@ == old(dst)@ + src@,
{
    let chars = chars_of(src);
    push_all(dst, &chars);
}

/// The characters `src[lo..hi]`.
pub fn copy_range(src: &Vec<char>, lo: usize, hi: usize) -> (r: Vec<char>)
    requires
        lo <= hi <= src.len(),
    ensures
        r@ == src@.subrange(lo as int, hi as int),
{
    let mut r: Vec<char> = Vec::new();
    push_range(&mut r, src, lo, hi);
    r
}

/// Whether `needle` stands in `hay` at position `i`.
pub fn matches_at(hay: &Vec<char>, needle: &Vec<char>, i: usize) -> (r: bool)
    ensures
        r == occurs_at(hay@, needle@, i as int),
{
    if needle.len() > hay.len() || i > hay.len() - needle.len() {
        return false;
    }
    let mut k: usize = 0;
    while k < needle.len()
        invariant
            k <= needle.len(),
            i + needle.len() <= hay.len(),
            forall|j: int| 0 <= j < k ==> hay@[i + j] == needle@[j],
        decreases needle.len() - k,
    {
        if hay[i + k] != needle[k] {
            assert(hay@.subrange(i as int, i + needle.len())[k as int] != needle@[k as int]);
            return false;
        }
        k += 1;
    }
    assert(hay@.subrange(i as int, i + needle.len()) =~= needle@);
    true
}

/// The least position at or after `from` at which `needle` stands in `hay`.
pub fn find_from(hay: &Vec<char>, needle: &Vec<char>, from: usize) -> (r: Option<usize>)
    ensures
        match r {
            Some(i) => first_occurrence_from(hay@, needle@, from as int) == Some(i as int),
            None => first_occurrence_from(hay@, needle@, from as int) is None,
        },
{
    if needle.len() > hay.len() {
        return None;
    }
    let last: usize = hay.len() - needle.len();
    let mut i: usize = from;
    while i <= last
        invariant
            from <= i,
            last == hay.len() - needle.len(),
            first_occurrence_from(hay@, needle@, from as int) == first_occurrence_from(
                hay@,
                needle@,
                i as int,
            ),
        decreases last + 1 - i,
    {
        if matches_at(hay, needle, i) {
            return Some(i);
        }
        if i == last {
            assert(first_occurrence_from(hay@, needle@, i + 1) is None);
            return None;
        }
        i += 1;
    }
    None
}

/// The least position at which `needle` stands in `hay`.
pub fn find(hay: &Vec<char>, needle: &Vec<char>) -> (r: Option<usize>)
    ensures
        match r {
            Some(i) => first_occurrence(hay@, needle@) == Some(i as int),
            None => first_occurrence(hay@, needle@) is None,
        },
{
    find_from(hay, needle, 0)
}

} // verus!
