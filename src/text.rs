//! Character-level text helpers shared by the planners: conversion between
//! strings and character vectors, prefix and substring tests, path joining.
use vstd::prelude::*;

verus! {

broadcast use vstd::string::axiom_spec_iter;

/// `p` starts `s`.
pub open spec fn is_prefix(p: Seq<char>, s: Seq<char>) -> bool {
    p.len() <= s.len() && s.subrange(0, p.len() as int) == p
}

/// `p` ends `s`.
pub open spec fn is_suffix(p: Seq<char>, s: Seq<char>) -> bool {
    p.len() <= s.len() && s.subrange(s.len() - p.len(), s.len() as int) == p
}

/// `p` occurs in `s` starting at index `i`.
pub open spec fn occurs_at(s: Seq<char>, p: Seq<char>, i: int) -> bool {
    0 <= i && i + p.len() <= s.len() && s.subrange(i, i + p.len()) == p
}

/// `p` occurs somewhere in `s`.
pub open spec fn contains_seq(s: Seq<char>, p: Seq<char>) -> bool {
    exists|i: int| occurs_at(s, p, i)
}

/// The pieces of `s` between occurrences of `sep`; there is always one more
/// piece than there are separators.
pub open spec fn split_on(s: Seq<char>, sep: char) -> Seq<Seq<char>>
    decreases s.len(),
{
    if s.len() == 0 {
        seq![Seq::empty()]
    } else {
        let r = split_on(s.drop_last(), sep);
        if s.last() == sep {
            r.push(Seq::empty())
        } else {
            r.update(r.len() - 1, r.last().push(s.last()))
        }
    }
}

/// `name` appended to the directory `dir`, with one separator between them.
pub open spec fn joined(dir: Seq<char>, name: Seq<char>) -> Seq<char> {
    if dir.len() == 0 {
        name
    } else if dir.last() == '/' {
        dir + name
    } else {
        dir + seq!['/'] + name
    }
}

/// The name of the directory that holds C and C++ headers.
pub open spec fn headers_dir() -> Seq<char> {
    seq!['i', 'n', 'c', 'l', 'u', 'd', 'e']
}

/// The name of the directory that holds C and C++ headers.
pub fn headers_dir_name() -> (r: String)
    ensures
        r@ == headers_dir(),
{
    let v: Vec<char> = vec!['i', 'n', 'c', 'l', 'u', 'd', 'e'];
    let r = string_of(&v);
    assert(r@ =~= headers_dir());
    r
}

/// The characters of a string.
pub fn chars_of(s: &str) -> (r: Vec<char>)
    ensures
        r@ == s@,
{
    let mut r: Vec<char> = Vec::new();
    for c in it: s.chars()
        invariant
            it.seq() == s@,
            r@ == it.seq().take(it.index() as int),
    {
        r.push(c);
    }
    r
}

/// Relies on `String`'s `FromIterator<&char>`: the string holds the characters
/// in order.
#[verifier::external_body]
pub(crate) fn string_of(v: &[char]) -> (r: String)
    ensures
        r@ == v@,
{
    v.iter().collect()
}

/// A string holding the given literal.
pub fn owned(s: &str) -> (r: String)
    ensures
        r@ == s@,
{
    s.to_owned()
}

/// Whether `s` starts with `p`.
pub fn starts_with(s: &[char], p: &[char]) -> (r: bool)
    ensures
        r == is_prefix(p@, s@),
{
    if p.len() > s.len() {
        return false;
    }
    let mut i: usize = 0;
    while i < p.len()
        invariant
            p.len() <= s.len(),
            i <= p.len(),
            s@.subrange(0, i as int) == p@.subrange(0, i as int),
        decreases p.len() - i,
    {
        if s[i] != p[i] {
            assert(s@.subrange(0, p.len() as int)[i as int] != p@[i as int]);
            return false;
        }
        assert(s@.subrange(0, i + 1) == s@.subrange(0, i as int).push(s@[i as int]));
        assert(p@.subrange(0, i + 1) == p@.subrange(0, i as int).push(p@[i as int]));
        i = i + 1;
    }
    assert(p@.subrange(0, p.len() as int) == p@);
    true
}

/// Whether `p` occurs in `s` at index `at`.
pub fn occurs_at_index(s: &[char], p: &[char], at: usize) -> (r: bool)
    ensures
        r == occurs_at(s@, p@, at as int),
{
    if at > s.len() || p.len() > s.len() - at {
        return false;
    }
    let mut i: usize = 0;
    while i < p.len()
        invariant
            at + p.len() <= s.len(),
            i <= p.len(),
            s@.subrange(at as int, at + i) == p@.subrange(0, i as int),
        decreases p.len() - i,
    {
        if s[at + i] != p[i] {
            assert(s@.subrange(at as int, at + p.len())[i as int] != p@[i as int]);
            return false;
        }
        assert(s@.subrange(at as int, at + i + 1) == s@.subrange(at as int, at + i).push(
            s@[at + i],
        ));
        assert(p@.subrange(0, i + 1) == p@.subrange(0, i as int).push(p@[i as int]));
        i = i + 1;
    }
    assert(p@.subrange(0, p.len() as int) == p@);
    true
}

/// Whether `s` ends with `p`.
pub fn ends_with(s: &[char], p: &[char]) -> (r: bool)
    ensures
        r == is_suffix(p@, s@),
{
    if p.len() > s.len() {
        return false;
    }
    occurs_at_index(s, p, s.len() - p.len())
}

/// Whether `p` occurs anywhere in `s`.
pub fn contains(s: &[char], p: &[char]) -> (r: bool)
    ensures
        r == contains_seq(s@, p@),
{
    if p.len() > s.len() {
        assert(forall|i: int| !occurs_at(s@, p@, i));
        return false;
    }
    let last = s.len() - p.len();
    let mut i: usize = 0;
    while i < last
        invariant
            last == s.len() - p.len(),
            i <= last,
            forall|j: int| 0 <= j < i ==> !occurs_at(s@, p@, j),
        decreases last - i,
    {
        if occurs_at_index(s, p, i) {
            return true;
        }
        i = i + 1;
    }
    if occurs_at_index(s, p, last) {
        return true;
    }
    assert(forall|j: int| !occurs_at(s@, p@, j));
    false
}

/// The characters `from..to` of `v`, as a string.
pub fn sub_string(v: &[char], from: usize, to: usize) -> (r: String)
    requires
        from <= to <= v.len(),
    ensures
        r@ == v@.subrange(from as int, to as int),
{
    let mut out: Vec<char> = Vec::new();
    let mut i: usize = from;
    while i < to
        invariant
            from <= i <= to <= v.len(),
            out@ == v@.subrange(from as int, i as int),
        decreases to - i,
    {
        out.push(v[i]);
        i = i + 1;
        assert(out@ =~= v@.subrange(from as int, i as int));
    }
    string_of(&out)
}

/// The concatenation of two strings.
pub fn concat(a: &str, b: &str) -> (r: String)
    ensures
        r@ == a@ + b@,
{
    let mut v = chars_of(a);
    let w = chars_of(b);
    let mut i: usize = 0;
    while i < w.len()
        invariant
            i <= w.len(),
            w@ == b@,
            v@ == a@ + w@.take(i as int),
        decreases w.len() - i,
    {
        v.push(w[i]);
        i = i + 1;
    }
    assert(w@.take(w@.len() as int) == w@);
    string_of(&v)
}

/// Joins a file name onto a directory path.
pub fn join_path(dir: &str, name: &str) -> (r: String)
    ensures
        r@ == joined(dir@, name@),
{
    let d = chars_of(dir);
    let n = chars_of(name);
    let mut out = d.clone();
    if d.len() > 0 && d[d.len() - 1] != '/' {
        out.push('/');
    }
    let mut i: usize = 0;
    while i < n.len()
        invariant
            i <= n.len(),
            n@ == name@,
            d@ == dir@,
            out@ == (if d@.len() == 0 || d@.last() == '/' {
                d@
            } else {
                d@ + seq!['/']
            }) + n@.take(i as int),
        decreases n.len() - i,
    {
        out.push(n[i]);
        i = i + 1;
    }
    assert(n@.take(n@.len() as int) == n@);
    string_of(&out)
}

} // verus!
