//! A narrow textual patch of the generated build file: the C-runtime flags that
//! follow an alternative branch, and the multi-threaded runtime expressions, are
//! set to the chosen linkage mode. The text is handled as the pieces between its
//! newlines, so every line keeps its own ending, and patching a patched text
//! changes nothing.
use vstd::prelude::*;

use crate::text::{
    chars_of, contains, contains_seq, is_prefix, occurs_at, occurs_at_index, owned, split_on,
    string_of,
};

verus! {

/// A line without the carriage return that ended it.
pub open spec fn strip_cr(l: Seq<char>) -> Seq<char> {
    if l.len() > 0 && l.last() == '\r' {
        l.drop_last()
    } else {
        l
    }
}

/// The lines of a text: each ends at a newline, which a carriage return may
/// precede, and the last newline is optional.
pub open spec fn lines_of(s: Seq<char>) -> Seq<Seq<char>> {
    let p = split_on(s, '\n');
    let ended = p.drop_last().map_values(|l: Seq<char>| strip_cr(l));
    if p.last().len() == 0 {
        ended
    } else {
        ended.push(p.last())
    }
}

/// `s` with every occurrence of `p` replaced by `t`, scanning from the left.
pub open spec fn replace_all(s: Seq<char>, p: Seq<char>, t: Seq<char>) -> Seq<char>
    decreases s.len(),
{
    if p.len() == 0 || s.len() < p.len() {
        s
    } else if s.subrange(0, p.len() as int) == p {
        t + replace_all(s.subrange(p.len() as int, s.len() as int), p, t)
    } else {
        seq![s[0]] + replace_all(s.subrange(1, s.len() as int), p, t)
    }
}

/// The marker of the line before those that are patched.
pub open spec fn else_marker() -> Seq<char> {
    "else()"@
}

/// The runtime flag of a linkage mode.
pub open spec fn runtime_flag(use_md: bool) -> Seq<char> {
    if use_md {
        "/MD"@
    } else {
        "/MT"@
    }
}

/// The multi-threaded runtime expression of the dynamic runtime.
pub open spec fn mt_dll() -> Seq<char> {
    "\"MultiThreaded$<$<CONFIG:Debug>:Debug>DLL\""@
}

/// The multi-threaded runtime expression of the static runtime.
pub open spec fn mt_static() -> Seq<char> {
    "\"MultiThreaded$<$<CONFIG:Debug>:Debug>\""@
}

/// The multi-threaded runtime expression of a linkage mode.
pub open spec fn mt_expr(use_md: bool) -> Seq<char> {
    if use_md {
        mt_dll()
    } else {
        mt_static()
    }
}

pub open spec fn line_views(ls: Seq<Vec<char>>) -> Seq<Seq<char>> {
    ls.map_values(|l: Vec<char>| l@)
}

/// Splits a text into its lines.
pub fn split_lines(s: &Vec<char>) -> (r: Vec<Vec<char>>)
    ensures
        line_views(r@) == lines_of(s@),
{
    let mut done: Vec<Vec<char>> = Vec::new();
    let mut cur: Vec<char> = Vec::new();
    let mut i: usize = 0;
    while i < s.len()
        invariant
            i <= s.len(),
            split_on(s@.take(i as int), '\n') == line_views(done@).push(cur@),
        decreases s.len() - i,
    {
        let ghost before = s@.take(i as int);
        assert(s@.take(i + 1).drop_last() =~= before);
        assert(s@.take(i + 1).last() == s@[i as int]);
        if s[i] == '\n' {
            let ghost d = done@;
            done.push(cur);
            cur = Vec::new();
            assert(line_views(done@) =~= line_views(d).push(line_views(done@).last()));
        } else {
            let ghost c = cur@;
            cur.push(s[i]);
            let ghost r = split_on(before, '\n');
            assert(r.update(r.len() - 1, r.last().push(s@[i as int])) =~= line_views(done@).push(
                cur@,
            ));
        }
        i = i + 1;
    }
    assert(s@.take(s.len() as int) =~= s@);
    let ghost pieces = split_on(s@, '\n');
    let mut out: Vec<Vec<char>> = Vec::new();
    let mut j: usize = 0;
    while j < done.len()
        invariant
            j <= done.len(),
            pieces == line_views(done@).push(cur@),
            line_views(out@) == pieces.drop_last().map_values(|l: Seq<char>| strip_cr(l)).take(
                j as int,
            ),
        decreases done.len() - j,
    {
        let mut l = done[j].clone();
        if l.len() > 0 && l[l.len() - 1] == '\r' {
            l.pop();
        }
        assert(pieces.drop_last()[j as int] == done@[j as int]@);
        let ghost o = out@;
        out.push(l);
        assert(line_views(out@) =~= line_views(o).push(strip_cr(done@[j as int]@)));
        assert(pieces.drop_last().map_values(|l: Seq<char>| strip_cr(l)).take(j + 1) =~= pieces.drop_last().map_values(|l: Seq<char>| strip_cr(l)).take(j as int).push(strip_cr(done@[j as int]@)));
        j = j + 1;
    }
    assert(pieces.drop_last() =~= line_views(done@));
    assert(pieces.drop_last().map_values(|l: Seq<char>| strip_cr(l)).take(done.len() as int) =~= pieces.drop_last().map_values(|l: Seq<char>| strip_cr(l)));
    if cur.len() > 0 {
        let ghost o = out@;
        out.push(cur);
        assert(line_views(out@) =~= line_views(o).push(pieces.last()));
    }
    out
}

fn push_all(out: &mut Vec<char>, t: &Vec<char>)
    ensures
        final(out)@ == old(out)@ + t@,
{
    let mut k: usize = 0;
    while k < t.len()
        invariant
            k <= t.len(),
            out@ == old(out)@ + t@.take(k as int),
        decreases t.len() - k,
    {
        out.push(t[k]);
        k = k + 1;
    }
    assert(t@.take(t.len() as int) =~= t@);
}

/// Replaces every occurrence of `p` in `s` by `t`, scanning from the left.
pub fn replace_chars(s: &Vec<char>, p: &Vec<char>, t: &Vec<char>) -> (r: Vec<char>)
    requires
        p.len() > 0,
    ensures
        r@ == replace_all(s@, p@, t@),
{
    let mut out: Vec<char> = Vec::new();
    let mut i: usize = 0;
    assert(s@.subrange(0, s.len() as int) =~= s@);
    assert(out@ + s@ =~= s@);
    while i < s.len()
        invariant
            i <= s.len(),
            p.len() > 0,
            out@ + replace_all(s@.subrange(i as int, s.len() as int), p@, t@) == replace_all(
                s@,
                p@,
                t@,
            ),
        decreases s.len() - i,
    {
        let ghost rest = s@.subrange(i as int, s.len() as int);
        let ghost o = out@;
        if s.len() - i >= p.len() && occurs_at_index(s, p, i) {
            assert(rest.subrange(0, p.len() as int) =~= s@.subrange(i as int, i + p.len()));
            assert(rest.subrange(p.len() as int, rest.len() as int) =~= s@.subrange(
                i + p.len(),
                s.len() as int,
            ));
            push_all(&mut out, t);
            i = i + p.len();
            assert(o + (t@ + replace_all(s@.subrange(i as int, s.len() as int), p@, t@)) =~= out@
                + replace_all(s@.subrange(i as int, s.len() as int), p@, t@));
        } else {
            assert(rest.subrange(1, rest.len() as int) =~= s@.subrange(i + 1, s.len() as int));
            proof {
                if rest.len() >= p@.len() {
                    assert(rest.subrange(0, p@.len() as int) =~= s@.subrange(
                        i as int,
                        i + p@.len(),
                    ));
                } else {
                    assert(rest =~= seq![rest[0]] + rest.subrange(1, rest.len() as int));
                }
            }
            out.push(s[i]);
            i = i + 1;
            assert(o + (seq![rest[0]] + replace_all(s@.subrange(i as int, s.len() as int), p@, t@))
                =~= out@ + replace_all(s@.subrange(i as int, s.len() as int), p@, t@));
        }
    }
    assert(out@ + replace_all(s@.subrange(s.len() as int, s.len() as int), p@, t@) =~= out@);
    out
}

proof fn lemma_split_append(x: Seq<char>, l: Seq<char>, sep: char)
    requires
        forall|i: int| 0 <= i < l.len() ==> l[i] != sep,
    ensures
        split_on(x + l, sep) == split_on(x, sep).update(
            split_on(x, sep).len() - 1,
            split_on(x, sep).last() + l,
        ),
    decreases l.len(),
{
    lemma_split_nonempty(x, sep);
    let r = split_on(x, sep);
    if l.len() == 0 {
        assert(x + l =~= x);
        assert(r.last() + l =~= r.last());
        assert(r.update(r.len() - 1, r.last() + l) =~= r);
    } else {
        let l0 = l.drop_last();
        lemma_split_append(x, l0, sep);
        lemma_split_nonempty(x + l0, sep);
        assert((x + l).drop_last() =~= x + l0);
        assert((x + l).last() == l.last());
        let r0 = split_on(x + l0, sep);
        assert(r0.last() == r.last() + l0);
        assert(l =~= l0.push(l.last()));
        assert((r.last() + l0).push(l.last()) =~= r.last() + l);
        assert(r0.len() == r.len());
        assert(r0.update(r0.len() - 1, r0.last().push(l.last())) =~= r.update(
            r.len() - 1,
            r.last() + l,
        ));
    }
}

proof fn lemma_split_nonempty(s: Seq<char>, sep: char)
    ensures
        split_on(s, sep).len() >= 1,
    decreases s.len(),
{
    if s.len() > 0 {
        lemma_split_nonempty(s.drop_last(), sep);
    }
}

proof fn lemma_split_no_sep(s: Seq<char>, sep: char)
    ensures
        forall|i: int, j: int|
            0 <= i < split_on(s, sep).len() && 0 <= j < split_on(s, sep)[i].len() ==> split_on(
                s,
                sep,
            )[i][j] != sep,
    decreases s.len(),
{
    lemma_split_nonempty(s, sep);
    if s.len() > 0 {
        lemma_split_no_sep(s.drop_last(), sep);
        lemma_split_nonempty(s.drop_last(), sep);
        let r = split_on(s.drop_last(), sep);
        if s.last() != sep {
            let q = split_on(s, sep);
            assert forall|i: int, j: int| 0 <= i < q.len() && 0 <= j < q[i].len() implies q[i][j]
                != sep by {
                if i == q.len() - 1 {
                    assert(q[i] == r.last().push(s.last()));
                    if j < r.last().len() {
                        assert(q[i][j] == r[r.len() - 1][j]);
                    }
                } else {
                    assert(q[i] == r[i]);
                }
            }
        } else {
            let q = split_on(s, sep);
            assert forall|i: int, j: int| 0 <= i < q.len() && 0 <= j < q[i].len() implies q[i][j]
                != sep by {
                if i < r.len() {
                    assert(q[i] == r[i]);
                }
            }
        }
    }
}

/// The runtime flag that a linkage mode replaces.
pub open spec fn other_flag(use_md: bool) -> Seq<char> {
    if use_md {
        "/MT"@
    } else {
        "/MD"@
    }
}

/// `c` occurs nowhere in `s`.
pub open spec fn lacks(s: Seq<char>, c: char) -> bool {
    forall|i: int| 0 <= i < s.len() ==> s[i] != c
}

/// The shapes of the two runtime expressions: each is quoted, holds no other
/// quote, and the static one ends where the dynamic one goes on with `DLL"`.
proof fn lemma_expr_shapes()
    ensures
        mt_dll().len() == 42,
        mt_static().len() == 39,
        mt_dll()[0] == '"',
        mt_static()[0] == '"',
        mt_dll()[41] == '"',
        mt_static()[38] == '"',
        mt_dll()[38] == 'D',
        forall|i: int| 0 < i < 41 ==> mt_dll()[i] != '"',
        forall|i: int| 0 < i < 38 ==> mt_static()[i] != '"',
        lacks(mt_dll(), '\n'),
        lacks(mt_static(), '\n'),
        lacks(mt_dll(), '/'),
        lacks(mt_static(), '/'),
        lacks(mt_dll(), ')'),
        lacks(mt_static(), ')'),
{
    reveal_strlit("\"MultiThreaded$<$<CONFIG:Debug>:Debug>DLL\"");
    reveal_strlit("\"MultiThreaded$<$<CONFIG:Debug>:Debug>\"");
}

/// The text between the newlines of `s`, each piece kept byte for byte
/// (a carriage return before a newline stays in its piece).
pub open spec fn pieces_of(s: Seq<char>) -> Seq<Seq<char>> {
    split_on(s, '\n')
}

/// Pieces joined back with one newline between neighbours.
pub open spec fn join_pieces(ps: Seq<Seq<char>>) -> Seq<char>
    decreases ps.len(),
{
    if ps.len() == 0 {
        Seq::empty()
    } else if ps.len() == 1 {
        ps[0]
    } else {
        join_pieces(ps.drop_last()) + seq!['\n'] + ps.last()
    }
}

/// One left-to-right pass that replaces each multi-threaded runtime expression,
/// dynamic or static, by `m`.
pub open spec fn expr_replace(s: Seq<char>, m: Seq<char>) -> Seq<char>
    decreases s.len(),
{
    if s.len() == 0 {
        s
    } else if mt_dll().len() > 0 && is_prefix(mt_dll(), s) {
        m + expr_replace(s.subrange(mt_dll().len() as int, s.len() as int), m)
    } else if mt_static().len() > 0 && is_prefix(mt_static(), s) {
        m + expr_replace(s.subrange(mt_static().len() as int, s.len() as int), m)
    } else {
        seq![s[0]] + expr_replace(s.subrange(1, s.len() as int), m)
    }
}

/// Piece `i` after the flag fix: a piece right after one holding the marker has
/// the other runtime flag replaced by the chosen one; any other stays as it is.
pub open spec fn flag_piece(ps: Seq<Seq<char>>, i: int, use_md: bool) -> Seq<char> {
    if i > 0 && contains_seq(ps[i - 1], else_marker()) {
        replace_all(ps[i], other_flag(use_md), runtime_flag(use_md))
    } else {
        ps[i]
    }
}

/// The pieces with the flag fix, and, with `exprs`, the runtime expressions set.
pub open spec fn rewritten_pieces(ps: Seq<Seq<char>>, use_md: bool, exprs: bool) -> Seq<
    Seq<char>,
> {
    Seq::new(
        ps.len(),
        |i: int|
            if exprs {
                expr_replace(flag_piece(ps, i, use_md), mt_expr(use_md))
            } else {
                flag_piece(ps, i, use_md)
            },
    )
}

/// The text with the flag fix, and, with `exprs`, the runtime expressions set.
pub open spec fn rewritten(content: Seq<char>, use_md: bool, exprs: bool) -> Seq<char> {
    join_pieces(rewritten_pieces(pieces_of(content), use_md, exprs))
}

/// The whole patch of a build file's text.
pub open spec fn patched(content: Seq<char>, use_md: bool) -> Seq<char> {
    rewritten(content, use_md, true)
}

proof fn lemma_prefix_empty(y: Seq<char>)
    ensures
        is_prefix(Seq::<char>::empty(), y),
{
    assert(y.subrange(0, 0) =~= Seq::<char>::empty());
}

/// An occurrence in `c` followed by `z` starts at `c` or lies in `z`.
proof fn lemma_contains_cons(c: char, z: Seq<char>, q: Seq<char>)
    requires
        q.len() > 0,
    ensures
        contains_seq(seq![c] + z, q) == ((c == q[0] && is_prefix(q.subrange(1, q.len() as int), z))
            || contains_seq(z, q)),
{
    let s = seq![c] + z;
    let q1 = q.subrange(1, q.len() as int);
    if contains_seq(s, q) {
        let i = choose|i: int| occurs_at(s, q, i);
        if i == 0 {
            assert(s.subrange(0, q.len() as int)[0] == q[0]);
            assert(z.subrange(0, q1.len() as int) =~= q1) by {
                assert forall|k: int| 0 <= k < q1.len() implies z.subrange(0, q1.len() as int)[k]
                    == q1[k] by {
                    assert(s.subrange(0, q.len() as int)[k + 1] == q[k + 1]);
                }
            }
        } else {
            assert(z.subrange(i - 1, i - 1 + q.len()) =~= s.subrange(i, i + q.len()));
            assert(occurs_at(z, q, i - 1));
        }
    }
    if c == q[0] && is_prefix(q1, z) {
        assert(s.subrange(0, q.len() as int) =~= q) by {
            assert forall|k: int| 0 <= k < q.len() implies s.subrange(0, q.len() as int)[k]
                == q[k] by {
                if k > 0 {
                    assert(z.subrange(0, q1.len() as int)[k - 1] == q1[k - 1]);
                }
            }
        }
        assert(occurs_at(s, q, 0));
    }
    if contains_seq(z, q) {
        let i = choose|i: int| occurs_at(z, q, i);
        assert(z.subrange(i, i + q.len()) =~= s.subrange(i + 1, i + 1 + q.len()));
        assert(occurs_at(s, q, i + 1));
    }
}

/// No occurrence of `q` starts inside `p`, when `q` lacks the last character of
/// `p` and `p` lacks the character `q[k]`.
proof fn lemma_no_start_inside(p: Seq<char>, z: Seq<char>, q: Seq<char>, k: int)
    requires
        p.len() > 0,
        0 <= k < q.len(),
        lacks(p, q[k]),
        lacks(q, p.last()),
    ensures
        forall|j: int| 0 <= j < p.len() ==> !occurs_at(p + z, q, j),
{
    let s = p + z;
    assert forall|j: int| 0 <= j < p.len() implies !occurs_at(s, q, j) by {
        if occurs_at(s, q, j) {
            if j + q.len() <= p.len() {
                assert(s.subrange(j, j + q.len())[k] == q[k]);
                assert(s[j + k] == p[j + k]);
            } else {
                let idx = p.len() - 1 - j;
                assert(s.subrange(j, j + q.len())[idx] == q[idx]);
                assert(s[p.len() - 1] == p.last());
            }
        }
    }
}

/// When no occurrence of `q` starts inside `p`, `p` followed by `z` holds `q`
/// exactly when `z` does.
proof fn lemma_contains_skip(p: Seq<char>, z: Seq<char>, q: Seq<char>)
    requires
        forall|j: int| 0 <= j < p.len() ==> !occurs_at(p + z, q, j),
    ensures
        contains_seq(p + z, q) == contains_seq(z, q),
{
    let s = p + z;
    if contains_seq(s, q) {
        let i = choose|i: int| occurs_at(s, q, i);
        assert(i >= p.len());
        assert(z.subrange(i - p.len(), i - p.len() + q.len()) =~= s.subrange(i, i + q.len()));
        assert(occurs_at(z, q, i - p.len()));
    }
    if contains_seq(z, q) {
        let i = choose|i: int| occurs_at(z, q, i);
        assert(z.subrange(i, i + q.len()) =~= s.subrange(i + p.len(), i + p.len() + q.len()));
        assert(occurs_at(s, q, i + p.len()));
    }
}

proof fn lemma_er_unfold(s: Seq<char>, m: Seq<char>)
    ensures
        s.len() > 0 && is_prefix(mt_dll(), s) ==> expr_replace(s, m) == m + expr_replace(
            s.subrange(mt_dll().len() as int, s.len() as int),
            m,
        ),
        s.len() > 0 && !is_prefix(mt_dll(), s) && is_prefix(mt_static(), s) ==> expr_replace(s, m)
            == m + expr_replace(s.subrange(mt_static().len() as int, s.len() as int), m),
        s.len() > 0 && !is_prefix(mt_dll(), s) && !is_prefix(mt_static(), s) ==> expr_replace(
            s,
            m,
        ) == seq![s[0]] + expr_replace(s.subrange(1, s.len() as int), m),
        s.len() == 0 ==> expr_replace(s, m) == s,
{
    lemma_expr_shapes();
}

/// A prefix of the replaced text whose characters, but perhaps the last, are
/// no quotes is a prefix of the text.
proof fn lemma_er_prefix_back(w: Seq<char>, y: Seq<char>, m: Seq<char>)
    requires
        m == mt_dll() || m == mt_static(),
        forall|i: int| 0 <= i < w.len() - 1 ==> w[i] != '"',
        is_prefix(w, expr_replace(y, m)),
    ensures
        is_prefix(w, y),
    decreases y.len(),
{
    lemma_expr_shapes();
    lemma_er_unfold(y, m);
    let e = expr_replace(y, m);
    if w.len() == 0 {
        lemma_prefix_empty(y);
        assert(w =~= Seq::<char>::empty());
    } else if y.len() == 0 {
    } else if is_prefix(mt_dll(), y) || is_prefix(mt_static(), y) {
        assert(e.subrange(0, w.len() as int)[0] == w[0]);
        assert(e[0] == m[0]);
        assert(w.len() == 1);
        if is_prefix(mt_dll(), y) {
            assert(y.subrange(0, mt_dll().len() as int)[0] == mt_dll()[0]);
        } else {
            assert(y.subrange(0, mt_static().len() as int)[0] == mt_static()[0]);
        }
        assert(y.subrange(0, 1) =~= w);
        assert(is_prefix(w, y));
    } else {
        let y1 = y.subrange(1, y.len() as int);
        let e1 = expr_replace(y1, m);
        let w1 = w.subrange(1, w.len() as int);
        assert(e == seq![y[0]] + e1);
        assert(e1.subrange(0, w1.len() as int) =~= w1) by {
            assert forall|k: int| 0 <= k < w1.len() implies e1.subrange(0, w1.len() as int)[k]
                == w1[k] by {
                assert(e.subrange(0, w.len() as int)[k + 1] == w[k + 1]);
            }
        }
        lemma_er_prefix_back(w1, y1, m);
        assert(e.subrange(0, w.len() as int)[0] == w[0]);
        assert(y.subrange(0, w.len() as int) =~= w) by {
            assert forall|k: int| 0 <= k < w.len() implies y.subrange(0, w.len() as int)[k]
                == w[k] by {
                if k > 0 {
                    assert(y1.subrange(0, w1.len() as int)[k - 1] == w1[k - 1]);
                }
            }
        }
    }
}

/// A prefix of the text without quotes is a prefix of the replaced text.
proof fn lemma_er_prefix_fwd(w: Seq<char>, y: Seq<char>, m: Seq<char>)
    requires
        m == mt_dll() || m == mt_static(),
        lacks(w, '"'),
        is_prefix(w, y),
    ensures
        is_prefix(w, expr_replace(y, m)),
    decreases y.len(),
{
    lemma_expr_shapes();
    lemma_er_unfold(y, m);
    let e = expr_replace(y, m);
    if w.len() == 0 {
        lemma_prefix_empty(e);
        assert(w =~= Seq::<char>::empty());
    } else if is_prefix(mt_dll(), y) {
        assert(y.subrange(0, mt_dll().len() as int)[0] == mt_dll()[0]);
        assert(y.subrange(0, w.len() as int)[0] == w[0]);
        assert(w[0] != '"');
    } else if is_prefix(mt_static(), y) {
        assert(y.subrange(0, mt_static().len() as int)[0] == mt_static()[0]);
        assert(y.subrange(0, w.len() as int)[0] == w[0]);
        assert(w[0] != '"');
    } else {
        let y1 = y.subrange(1, y.len() as int);
        let e1 = expr_replace(y1, m);
        let w1 = w.subrange(1, w.len() as int);
        assert(y1.subrange(0, w1.len() as int) =~= w1) by {
            assert forall|k: int| 0 <= k < w1.len() implies y1.subrange(0, w1.len() as int)[k]
                == w1[k] by {
                assert(y.subrange(0, w.len() as int)[k + 1] == w[k + 1]);
            }
        }
        lemma_er_prefix_fwd(w1, y1, m);
        assert(y.subrange(0, w.len() as int)[0] == w[0]);
        assert(e.subrange(0, w.len() as int) =~= w) by {
            assert forall|k: int| 0 <= k < w.len() implies e.subrange(0, w.len() as int)[k]
                == w[k] by {
                if k > 0 {
                    assert(e1.subrange(0, w1.len() as int)[k - 1] == w1[k - 1]);
                }
            }
        }
    }
}

/// The replaced text holds `q` exactly when the text does, for a `q` without
/// quotes that holds a character neither expression has.
proof fn lemma_er_contains(x: Seq<char>, m: Seq<char>, q: Seq<char>, k: int)
    requires
        m == mt_dll() || m == mt_static(),
        0 <= k < q.len(),
        lacks(q, '"'),
        lacks(mt_dll(), q[k]),
        lacks(mt_static(), q[k]),
    ensures
        contains_seq(expr_replace(x, m), q) == contains_seq(x, q),
    decreases x.len(),
{
    lemma_expr_shapes();
    lemma_er_unfold(x, m);
    assert(mt_dll().last() == '"');
    assert(mt_static().last() == '"');
    if x.len() == 0 {
    } else if is_prefix(mt_dll(), x) || is_prefix(mt_static(), x) {
        let p = if is_prefix(mt_dll(), x) {
            mt_dll()
        } else {
            mt_static()
        };
        let x1 = x.subrange(p.len() as int, x.len() as int);
        assert(x =~= p + x1);
        let e1 = expr_replace(x1, m);
        assert(expr_replace(x, m) == m + e1);
        lemma_er_contains(x1, m, q, k);
        lemma_no_start_inside(p, x1, q, k);
        lemma_contains_skip(p, x1, q);
        lemma_no_start_inside(m, e1, q, k);
        lemma_contains_skip(m, e1, q);
    } else {
        let x1 = x.subrange(1, x.len() as int);
        let e1 = expr_replace(x1, m);
        assert(x =~= seq![x[0]] + x1);
        lemma_er_contains(x1, m, q, k);
        lemma_contains_cons(x[0], x1, q);
        lemma_contains_cons(x[0], e1, q);
        let q1 = q.subrange(1, q.len() as int);
        assert(lacks(q1, '"')) by {
            assert forall|i: int| 0 <= i < q1.len() implies q1[i] != '"' by {
                assert(q1[i] == q[i + 1]);
            }
        }
        if is_prefix(q1, x1) {
            lemma_er_prefix_fwd(q1, x1, m);
        }
        if is_prefix(q1, e1) {
            lemma_er_prefix_back(q1, x1, m);
        }
    }
}

/// A text that starts with the chosen expression is replaced from there on.
proof fn lemma_er_lead(m: Seq<char>, y: Seq<char>)
    requires
        m == mt_dll() || m == mt_static(),
    ensures
        expr_replace(m + y, m) == m + expr_replace(y, m),
{
    lemma_expr_shapes();
    let z = m + y;
    lemma_er_unfold(z, m);
    assert(z.subrange(0, m.len() as int) =~= m);
    assert(z.subrange(m.len() as int, z.len() as int) =~= y);
    if m == mt_static() {
        if is_prefix(mt_dll(), z) {
            assert(z.subrange(0, 42)[38] == mt_dll()[38]);
            assert(z[38] == m[38]);
        }
    }
}

proof fn lemma_inner_no_quote(p: Seq<char>)
    requires
        p == mt_dll() || p == mt_static(),
    ensures
        forall|i: int|
            0 <= i < p.subrange(1, p.len() as int).len() - 1 ==> p.subrange(1, p.len() as int)[i]
                != '"',
{
    lemma_expr_shapes();
    let p1 = p.subrange(1, p.len() as int);
    assert forall|i: int| 0 <= i < p1.len() - 1 implies p1[i] != '"' by {
        assert(p1[i] == p[i + 1]);
    }
}

/// No expression starts at a character that the replacement kept.
proof fn lemma_er_kept_head(s: Seq<char>, m: Seq<char>, p: Seq<char>)
    requires
        m == mt_dll() || m == mt_static(),
        p == mt_dll() || p == mt_static(),
        s.len() > 0,
        !is_prefix(mt_dll(), s),
        !is_prefix(mt_static(), s),
    ensures
        !is_prefix(p, seq![s[0]] + expr_replace(s.subrange(1, s.len() as int), m)),
{
    lemma_expr_shapes();
    let s1 = s.subrange(1, s.len() as int);
    let z = seq![s[0]] + expr_replace(s1, m);
    if is_prefix(p, z) {
        let p1 = p.subrange(1, p.len() as int);
        let e1 = expr_replace(s1, m);
        assert(z.subrange(0, p.len() as int)[0] == p[0]);
        assert(e1.subrange(0, p1.len() as int) =~= p1) by {
            assert forall|i: int| 0 <= i < p1.len() implies e1.subrange(0, p1.len() as int)[i]
                == p1[i] by {
                assert(z.subrange(0, p.len() as int)[i + 1] == p[i + 1]);
            }
        }
        lemma_inner_no_quote(p);
        lemma_er_prefix_back(p1, s1, m);
        assert(s.subrange(0, p.len() as int) =~= p) by {
            assert forall|i: int| 0 <= i < p.len() implies s.subrange(0, p.len() as int)[i]
                == p[i] by {
                if i > 0 {
                    assert(s1.subrange(0, p1.len() as int)[i - 1] == p1[i - 1]);
                }
            }
        }
    }
}

/// Replacing the runtime expressions twice gives what replacing them once gives.
proof fn lemma_er_idempotent(s: Seq<char>, m: Seq<char>)
    requires
        m == mt_dll() || m == mt_static(),
    ensures
        expr_replace(expr_replace(s, m), m) == expr_replace(s, m),
    decreases s.len(),
{
    lemma_expr_shapes();
    lemma_er_unfold(s, m);
    if s.len() == 0 {
    } else if is_prefix(mt_dll(), s) || is_prefix(mt_static(), s) {
        let p = if is_prefix(mt_dll(), s) {
            mt_dll()
        } else {
            mt_static()
        };
        let s1 = s.subrange(p.len() as int, s.len() as int);
        lemma_er_idempotent(s1, m);
        lemma_er_lead(m, expr_replace(s1, m));
    } else {
        let s1 = s.subrange(1, s.len() as int);
        let y = expr_replace(s1, m);
        lemma_er_idempotent(s1, m);
        let z = seq![s[0]] + y;
        lemma_er_kept_head(s, m, mt_dll());
        lemma_er_kept_head(s, m, mt_static());
        lemma_er_unfold(z, m);
        assert(z.subrange(1, z.len() as int) =~= y);
    }
}

/// A character that neither the text nor `m` holds is not in the replaced text.
proof fn lemma_er_lacks(s: Seq<char>, m: Seq<char>, c: char)
    requires
        m == mt_dll() || m == mt_static(),
        lacks(s, c),
        lacks(m, c),
    ensures
        lacks(expr_replace(s, m), c),
    decreases s.len(),
{
    lemma_expr_shapes();
    lemma_er_unfold(s, m);
    if s.len() > 0 {
        let k: int = if is_prefix(mt_dll(), s) {
            mt_dll().len() as int
        } else if is_prefix(mt_static(), s) {
            mt_static().len() as int
        } else {
            1
        };
        let s1 = s.subrange(k, s.len() as int);
        assert(lacks(s1, c)) by {
            assert forall|i: int| 0 <= i < s1.len() implies s1[i] != c by {
                assert(s1[i] == s[k + i]);
            }
        }
        lemma_er_lacks(s1, m, c);
        let e1 = expr_replace(s1, m);
        let head = if k == 1 {
            seq![s[0]]
        } else {
            m
        };
        assert(expr_replace(s, m) == head + e1);
        assert forall|i: int| 0 <= i < (head + e1).len() implies (head + e1)[i] != c by {
            if i < head.len() {
                assert((head + e1)[i] == head[i]);
            } else {
                assert((head + e1)[i] == e1[i - head.len()]);
            }
        }
    }
}

/// The shapes of the runtime flags and of the marker.
proof fn lemma_flag_shapes(use_md: bool)
    ensures
        other_flag(use_md).len() == 3,
        runtime_flag(use_md).len() == 3,
        other_flag(use_md)[0] == '/',
        runtime_flag(use_md)[0] == '/',
        other_flag(use_md)[1] == 'M',
        runtime_flag(use_md)[1] == 'M',
        other_flag(use_md)[2] != runtime_flag(use_md)[2],
        other_flag(use_md)[2] != '/',
        runtime_flag(use_md)[2] != '/',
        lacks(other_flag(use_md), '\n'),
        lacks(runtime_flag(use_md), '\n'),
        lacks(other_flag(use_md), '"'),
        lacks(runtime_flag(use_md), ')'),
        lacks(other_flag(use_md), ')'),
        else_marker().len() == 6,
        else_marker()[5] == ')',
        lacks(else_marker(), '"'),
        lacks(else_marker(), '/'),
        lacks(else_marker(), other_flag(use_md)[2]),
        lacks(else_marker(), runtime_flag(use_md)[2]),
{
    reveal_strlit("/MT");
    reveal_strlit("/MD");
    reveal_strlit("else()");
}

proof fn lemma_rep_unfold(s: Seq<char>, p: Seq<char>, t: Seq<char>)
    requires
        p.len() > 0,
    ensures
        s.len() < p.len() ==> replace_all(s, p, t) == s,
        s.len() >= p.len() && is_prefix(p, s) ==> replace_all(s, p, t) == t + replace_all(
            s.subrange(p.len() as int, s.len() as int),
            p,
            t,
        ),
        s.len() >= p.len() && !is_prefix(p, s) ==> replace_all(s, p, t) == seq![s[0]]
            + replace_all(s.subrange(1, s.len() as int), p, t),
{
}

/// A text without `p` is left as it is.
proof fn lemma_rep_absent(x: Seq<char>, p: Seq<char>, t: Seq<char>)
    requires
        p.len() > 0,
        !contains_seq(x, p),
    ensures
        replace_all(x, p, t) == x,
    decreases x.len(),
{
    lemma_rep_unfold(x, p, t);
    if x.len() >= p.len() {
        assert(!occurs_at(x, p, 0));
        let x1 = x.subrange(1, x.len() as int);
        assert forall|i: int| !occurs_at(x1, p, i) by {
            if occurs_at(x1, p, i) {
                assert(x.subrange(i + 1, i + 1 + p.len()) =~= x1.subrange(i, i + p.len()));
                assert(occurs_at(x, p, i + 1));
            }
        }
        lemma_rep_absent(x1, p, t);
        assert(seq![x[0]] + x1 =~= x);
    }
}

proof fn lemma_rep_prefix_back(w: Seq<char>, y: Seq<char>, p: Seq<char>, t: Seq<char>)
    requires
        p.len() > 0,
        t.len() > 0,
        lacks(w, t[0]),
        is_prefix(w, replace_all(y, p, t)),
    ensures
        is_prefix(w, y),
    decreases y.len(),
{
    lemma_rep_unfold(y, p, t);
    let e = replace_all(y, p, t);
    if w.len() == 0 {
        lemma_prefix_empty(y);
        assert(w =~= Seq::<char>::empty());
    } else if y.len() < p.len() {
    } else if is_prefix(p, y) {
        assert(e.subrange(0, w.len() as int)[0] == w[0]);
        assert(e[0] == t[0]);
    } else {
        let y1 = y.subrange(1, y.len() as int);
        let e1 = replace_all(y1, p, t);
        let w1 = w.subrange(1, w.len() as int);
        assert(e1.subrange(0, w1.len() as int) =~= w1) by {
            assert forall|k: int| 0 <= k < w1.len() implies e1.subrange(0, w1.len() as int)[k]
                == w1[k] by {
                assert(e.subrange(0, w.len() as int)[k + 1] == w[k + 1]);
            }
        }
        assert(lacks(w1, t[0])) by {
            assert forall|i: int| 0 <= i < w1.len() implies w1[i] != t[0] by {
                assert(w1[i] == w[i + 1]);
            }
        }
        lemma_rep_prefix_back(w1, y1, p, t);
        assert(e.subrange(0, w.len() as int)[0] == w[0]);
        assert(y.subrange(0, w.len() as int) =~= w) by {
            assert forall|k: int| 0 <= k < w.len() implies y.subrange(0, w.len() as int)[k]
                == w[k] by {
                if k > 0 {
                    assert(y1.subrange(0, w1.len() as int)[k - 1] == w1[k - 1]);
                }
            }
        }
    }
}

proof fn lemma_rep_prefix_fwd(w: Seq<char>, y: Seq<char>, p: Seq<char>, t: Seq<char>)
    requires
        p.len() > 0,
        lacks(w, p[0]),
        is_prefix(w, y),
    ensures
        is_prefix(w, replace_all(y, p, t)),
    decreases y.len(),
{
    lemma_rep_unfold(y, p, t);
    let e = replace_all(y, p, t);
    if w.len() == 0 {
        lemma_prefix_empty(e);
        assert(w =~= Seq::<char>::empty());
    } else if y.len() < p.len() {
    } else if is_prefix(p, y) {
        assert(y.subrange(0, p.len() as int)[0] == p[0]);
        assert(y.subrange(0, w.len() as int)[0] == w[0]);
        assert(w[0] != p[0]);
    } else {
        let y1 = y.subrange(1, y.len() as int);
        let e1 = replace_all(y1, p, t);
        let w1 = w.subrange(1, w.len() as int);
        assert(y1.subrange(0, w1.len() as int) =~= w1) by {
            assert forall|k: int| 0 <= k < w1.len() implies y1.subrange(0, w1.len() as int)[k]
                == w1[k] by {
                assert(y.subrange(0, w.len() as int)[k + 1] == w[k + 1]);
            }
        }
        assert(lacks(w1, p[0])) by {
            assert forall|i: int| 0 <= i < w1.len() implies w1[i] != p[0] by {
                assert(w1[i] == w[i + 1]);
            }
        }
        lemma_rep_prefix_fwd(w1, y1, p, t);
        assert(y.subrange(0, w.len() as int)[0] == w[0]);
        assert(e.subrange(0, w.len() as int) =~= w) by {
            assert forall|k: int| 0 <= k < w.len() implies e.subrange(0, w.len() as int)[k]
                == w[k] by {
                if k > 0 {
                    assert(e1.subrange(0, w1.len() as int)[k - 1] == w1[k - 1]);
                }
            }
        }
    }
}

/// Fixing the flags keeps whether a text holds `q`, for a `q` that holds a
/// character the flags lack, and none of their first or last characters.
proof fn lemma_rep_contains(x: Seq<char>, p: Seq<char>, t: Seq<char>, q: Seq<char>, k: int)
    requires
        p.len() > 0,
        t.len() > 0,
        0 <= k < q.len(),
        lacks(p, q[k]),
        lacks(t, q[k]),
        lacks(q, p[0]),
        lacks(q, t[0]),
        lacks(q, p.last()),
        lacks(q, t.last()),
    ensures
        contains_seq(replace_all(x, p, t), q) == contains_seq(x, q),
    decreases x.len(),
{
    lemma_rep_unfold(x, p, t);
    if x.len() < p.len() {
    } else if is_prefix(p, x) {
        let x1 = x.subrange(p.len() as int, x.len() as int);
        assert(x =~= p + x1);
        let e1 = replace_all(x1, p, t);
        lemma_rep_contains(x1, p, t, q, k);
        lemma_no_start_inside(p, x1, q, k);
        lemma_contains_skip(p, x1, q);
        lemma_no_start_inside(t, e1, q, k);
        lemma_contains_skip(t, e1, q);
    } else {
        let x1 = x.subrange(1, x.len() as int);
        let e1 = replace_all(x1, p, t);
        assert(x =~= seq![x[0]] + x1);
        lemma_rep_contains(x1, p, t, q, k);
        lemma_contains_cons(x[0], x1, q);
        lemma_contains_cons(x[0], e1, q);
        let q1 = q.subrange(1, q.len() as int);
        assert(lacks(q1, p[0]) && lacks(q1, t[0])) by {
            assert forall|i: int| 0 <= i < q1.len() implies q1[i] != p[0] && q1[i] != t[0] by {
                assert(q1[i] == q[i + 1]);
            }
        }
        if is_prefix(q1, x1) {
            lemma_rep_prefix_fwd(q1, x1, p, t);
        }
        if is_prefix(q1, e1) {
            lemma_rep_prefix_back(q1, x1, p, t);
        }
    }
}

/// After the fix no other flag is left.
proof fn lemma_rep_removes(x: Seq<char>, use_md: bool)
    ensures
        !contains_seq(replace_all(x, other_flag(use_md), runtime_flag(use_md)), other_flag(use_md)),
    decreases x.len(),
{
    lemma_flag_shapes(use_md);
    let o = other_flag(use_md);
    let t = runtime_flag(use_md);
    lemma_rep_unfold(x, o, t);
    let e = replace_all(x, o, t);
    if x.len() < o.len() {
        assert forall|i: int| !occurs_at(e, o, i) by {}
    } else {
        let matched = is_prefix(o, x);
        let k: int = if matched {
            3
        } else {
            1
        };
        let x1 = x.subrange(k, x.len() as int);
        let e1 = replace_all(x1, o, t);
        lemma_rep_removes(x1, use_md);
        let head = if matched {
            t
        } else {
            seq![x[0]]
        };
        assert(e == head + e1);
        assert forall|i: int| !occurs_at(e, o, i) by {
            if occurs_at(e, o, i) {
                let w = e.subrange(i, i + 3);
                assert(w == o);
                if i >= head.len() {
                    assert(e1.subrange(i - head.len(), i - head.len() + 3) =~= w);
                    assert(occurs_at(e1, o, i - head.len()));
                } else if matched {
                    assert(w[0] == e[i]);
                    assert(w[2 - i] == e[2]);
                    assert(e[i] == t[i]);
                    if i == 0 {
                        assert(w[2] == t[2]);
                    }
                } else {
                    let o1 = o.subrange(1, 3);
                    assert(e1.subrange(0, 2) =~= o1) by {
                        assert(w[1] == e1[0]);
                        assert(w[2] == e1[1]);
                    }
                    assert(lacks(o1, t[0]));
                    lemma_rep_prefix_back(o1, x1, o, t);
                    assert(x.subrange(0, 3) =~= o) by {
                        assert(x1.subrange(0, 2)[0] == o1[0]);
                        assert(x1.subrange(0, 2)[1] == o1[1]);
                        assert(w[0] == x[0]);
                    }
                }
            }
        }
    }
}

proof fn lemma_rep_lacks(s: Seq<char>, p: Seq<char>, t: Seq<char>, c: char)
    requires
        p.len() > 0,
        lacks(s, c),
        lacks(t, c),
    ensures
        lacks(replace_all(s, p, t), c),
    decreases s.len(),
{
    lemma_rep_unfold(s, p, t);
    if s.len() >= p.len() {
        let k: int = if is_prefix(p, s) {
            p.len() as int
        } else {
            1
        };
        let s1 = s.subrange(k, s.len() as int);
        assert(lacks(s1, c)) by {
            assert forall|i: int| 0 <= i < s1.len() implies s1[i] != c by {
                assert(s1[i] == s[k + i]);
            }
        }
        lemma_rep_lacks(s1, p, t, c);
        let e1 = replace_all(s1, p, t);
        let head = if is_prefix(p, s) {
            t
        } else {
            seq![s[0]]
        };
        assert(replace_all(s, p, t) == head + e1);
        assert forall|i: int| 0 <= i < (head + e1).len() implies (head + e1)[i] != c by {
            if i < head.len() {
                assert((head + e1)[i] == head[i]);
            } else {
                assert((head + e1)[i] == e1[i - head.len()]);
            }
        }
    }
}

/// Pieces without newlines are read back from their joined text exactly.
proof fn lemma_pieces_round_trip(ps: Seq<Seq<char>>)
    requires
        ps.len() >= 1,
        forall|i: int| 0 <= i < ps.len() ==> lacks(#[trigger] ps[i], '\n'),
    ensures
        pieces_of(join_pieces(ps)) == ps,
    decreases ps.len(),
{
    if ps.len() == 1 {
        let l = ps[0];
        lemma_split_append(Seq::empty(), l, '\n');
        assert(Seq::<char>::empty() + l =~= l);
        assert(split_on(Seq::<char>::empty(), '\n') == seq![Seq::<char>::empty()]);
        assert(seq![Seq::<char>::empty()].update(0, Seq::<char>::empty() + l) =~= ps);
    } else {
        let init = ps.drop_last();
        let l = ps.last();
        assert forall|i: int| 0 <= i < init.len() implies lacks(#[trigger] init[i], '\n') by {
            assert(init[i] == ps[i]);
        }
        lemma_pieces_round_trip(init);
        let x = join_pieces(init);
        let xn = x + seq!['\n'];
        assert(lacks(ps[ps.len() - 1], '\n'));
        lemma_split_append(xn, l, '\n');
        assert(xn.drop_last() =~= x);
        assert(split_on(xn, '\n') == init.push(Seq::empty()));
        assert(join_pieces(ps) == xn + l);
        assert(init.push(Seq::empty()).update(init.len() as int, Seq::<char>::empty() + l) =~= ps);
    }
}

/// The pieces of a text hold no newline.
proof fn lemma_pieces_lack_newline(c: Seq<char>)
    ensures
        pieces_of(c).len() >= 1,
        forall|i: int| 0 <= i < pieces_of(c).len() ==> lacks(#[trigger] pieces_of(c)[i], '\n'),
{
    lemma_split_nonempty(c, '\n');
    lemma_split_no_sep(c, '\n');
    let ps = pieces_of(c);
    assert forall|i: int| 0 <= i < ps.len() implies lacks(#[trigger] ps[i], '\n') by {
        assert forall|j: int| 0 <= j < ps[i].len() implies ps[i][j] != '\n' by {
            assert(split_on(c, '\n')[i][j] != '\n');
        }
    }
}

/// Patching a second time changes nothing: the patched text is its own patch,
/// so a file once patched is never rewritten by the same patch again.
pub proof fn lemma_patch_idempotent(content: Seq<char>, use_md: bool)
    ensures
        patched(patched(content, use_md), use_md) == patched(content, use_md),
{
    lemma_expr_shapes();
    lemma_flag_shapes(use_md);
    let o = other_flag(use_md);
    let t = runtime_flag(use_md);
    let m = mt_expr(use_md);
    let q = else_marker();
    let ps = pieces_of(content);
    lemma_pieces_lack_newline(content);
    let ns = rewritten_pieces(ps, use_md, true);
    assert forall|i: int| 0 <= i < ns.len() implies lacks(#[trigger] ns[i], '\n') by {
        lemma_rep_lacks(ps[i], o, t, '\n');
        lemma_er_lacks(flag_piece(ps, i, use_md), m, '\n');
    }
    lemma_pieces_round_trip(ns);
    let once = patched(content, use_md);
    assert(once == join_pieces(ns));
    assert(pieces_of(once) == ns);
    let ns2 = rewritten_pieces(ns, use_md, true);
    assert forall|i: int| 0 <= i < ns.len() implies #[trigger] ns2[i] == ns[i] by {
        if i > 0 {
            let z = flag_piece(ps, i - 1, use_md);
            lemma_er_contains(z, m, q, 5);
            lemma_rep_contains(ps[i - 1], o, t, q, 5);
            assert(contains_seq(ns[i - 1], q) == contains_seq(ps[i - 1], q));
        }
        let z = flag_piece(ps, i, use_md);
        if i > 0 && contains_seq(ps[i - 1], q) {
            lemma_rep_removes(ps[i], use_md);
            lemma_er_contains(z, m, o, 0);
            lemma_rep_absent(expr_replace(z, m), o, t);
            lemma_er_idempotent(z, m);
        } else {
            lemma_er_idempotent(ps[i], m);
        }
    }
    assert(ns2 =~= ns);
}

/// Splits a text into the pieces between its newlines, keeping every other
/// character.
pub fn split_pieces(s: &Vec<char>) -> (r: Vec<Vec<char>>)
    ensures
        line_views(r@) == pieces_of(s@),
{
    let mut done: Vec<Vec<char>> = Vec::new();
    let mut cur: Vec<char> = Vec::new();
    let mut i: usize = 0;
    while i < s.len()
        invariant
            i <= s.len(),
            split_on(s@.take(i as int), '\n') == line_views(done@).push(cur@),
        decreases s.len() - i,
    {
        let ghost before = s@.take(i as int);
        assert(s@.take(i + 1).drop_last() =~= before);
        assert(s@.take(i + 1).last() == s@[i as int]);
        if s[i] == '\n' {
            let ghost d = done@;
            done.push(cur);
            cur = Vec::new();
            assert(line_views(done@) =~= line_views(d).push(line_views(done@).last()));
        } else {
            cur.push(s[i]);
            let ghost r = split_on(before, '\n');
            assert(r.update(r.len() - 1, r.last().push(s@[i as int])) =~= line_views(done@).push(
                cur@,
            ));
        }
        i = i + 1;
    }
    assert(s@.take(s.len() as int) =~= s@);
    let ghost d = done@;
    done.push(cur);
    assert(line_views(done@) =~= line_views(d).push(line_views(done@).last()));
    done
}

/// Replaces, in one pass from the left, each multi-threaded runtime expression by
/// the one of the chosen linkage mode.
pub fn expr_replace_chars(s: &Vec<char>, use_md: bool) -> (r: Vec<char>)
    ensures
        r@ == expr_replace(s@, mt_expr(use_md)),
{
    let dll = chars_of("\"MultiThreaded$<$<CONFIG:Debug>:Debug>DLL\"");
    let stat = chars_of("\"MultiThreaded$<$<CONFIG:Debug>:Debug>\"");
    proof {
        lemma_expr_shapes();
    }
    let m = if use_md {
        dll.clone()
    } else {
        stat.clone()
    };
    let ghost mm = mt_expr(use_md);
    let mut out: Vec<char> = Vec::new();
    let mut i: usize = 0;
    assert(s@.subrange(0, s.len() as int) =~= s@);
    assert(out@ + expr_replace(s@, mm) =~= expr_replace(s@, mm));
    while i < s.len()
        invariant
            i <= s.len(),
            dll@ == mt_dll(),
            stat@ == mt_static(),
            m@ == mm,
            mm == mt_dll() || mm == mt_static(),
            out@ + expr_replace(s@.subrange(i as int, s.len() as int), mm) == expr_replace(s@, mm),
        decreases s.len() - i,
    {
        let ghost rest = s@.subrange(i as int, s.len() as int);
        let ghost o = out@;
        proof {
            lemma_er_unfold(rest, mm);
            lemma_expr_shapes();
        }
        let at_dll = occurs_at_index(s, &dll, i);
        let at_stat = occurs_at_index(s, &stat, i);
        proof {
            if rest.len() >= 42 {
                assert(rest.subrange(0, 42) =~= s@.subrange(i as int, i + 42));
            }
            if rest.len() >= 39 {
                assert(rest.subrange(0, 39) =~= s@.subrange(i as int, i + 39));
            }
        }
        if at_dll {
            assert(is_prefix(mt_dll(), rest));
            push_all(&mut out, &m);
            assert(rest.subrange(42, rest.len() as int) =~= s@.subrange(i + 42, s.len() as int));
            i = i + dll.len();
            assert(o + (mm + expr_replace(s@.subrange(i as int, s.len() as int), mm)) =~= out@
                + expr_replace(s@.subrange(i as int, s.len() as int), mm));
        } else if at_stat {
            assert(!is_prefix(mt_dll(), rest));
            assert(is_prefix(mt_static(), rest));
            push_all(&mut out, &m);
            assert(rest.subrange(39, rest.len() as int) =~= s@.subrange(i + 39, s.len() as int));
            i = i + stat.len();
            assert(o + (mm + expr_replace(s@.subrange(i as int, s.len() as int), mm)) =~= out@
                + expr_replace(s@.subrange(i as int, s.len() as int), mm));
        } else {
            assert(!is_prefix(mt_dll(), rest));
            assert(!is_prefix(mt_static(), rest));
            out.push(s[i]);
            assert(rest.subrange(1, rest.len() as int) =~= s@.subrange(i + 1, s.len() as int));
            i = i + 1;
            assert(o + (seq![rest[0]] + expr_replace(s@.subrange(i as int, s.len() as int), mm))
                =~= out@ + expr_replace(s@.subrange(i as int, s.len() as int), mm));
        }
    }
    assert(s@.subrange(s.len() as int, s.len() as int) =~= Seq::<char>::empty());
    assert(out@ + Seq::<char>::empty() =~= out@);
    out
}

fn rewrite(content: &str, use_md: bool, exprs: bool) -> (r: Vec<char>)
    ensures
        r@ == rewritten(content@, use_md, exprs),
{
    let text = chars_of(content);
    let pieces = split_pieces(&text);
    let (other, target) = if use_md {
        (chars_of("/MT"), chars_of("/MD"))
    } else {
        (chars_of("/MD"), chars_of("/MT"))
    };
    let marker = chars_of("else()");
    proof {
        lemma_flag_shapes(use_md);
    }
    let ghost ps = pieces_of(content@);
    let ghost want = rewritten_pieces(ps, use_md, exprs);
    let mut out: Vec<char> = Vec::new();
    let mut i: usize = 0;
    while i < pieces.len()
        invariant
            i <= pieces.len(),
            line_views(pieces@) == ps,
            want == rewritten_pieces(ps, use_md, exprs),
            other@ == other_flag(use_md),
            target@ == runtime_flag(use_md),
            other@.len() == 3,
            marker@ == else_marker(),
            out@ == join_pieces(want.take(i as int)),
        decreases pieces.len() - i,
    {
        assert(pieces@[i as int]@ == ps[i as int]);
        let fixed = if i > 0 && contains(&pieces[i - 1], &marker) {
            assert(pieces@[i - 1]@ == ps[i - 1]);
            replace_chars(&pieces[i], &other, &target)
        } else {
            pieces[i].clone()
        };
        assert(fixed@ == flag_piece(ps, i as int, use_md));
        let piece = if exprs {
            expr_replace_chars(&fixed, use_md)
        } else {
            fixed
        };
        assert(piece@ == want[i as int]);
        let ghost before = out@;
        if i > 0 {
            out.push('\n');
        }
        push_all(&mut out, &piece);
        assert(want.take(i + 1).drop_last() =~= want.take(i as int));
        if i == 0 {
            assert(out@ =~= join_pieces(want.take(1)));
        } else {
            assert(out@ =~= join_pieces(want.take(i as int)) + seq!['\n'] + want[i as int]);
        }
        i = i + 1;
    }
    assert(want.take(pieces.len() as int) =~= want);
    out
}

/// Rewrites the pieces right after each piece that holds `else()`: the other
/// runtime flag becomes the chosen one (`/MD` when `use_md`, else `/MT`). All
/// other characters, the line endings among them, stay as they are.
pub fn conditional_replace(content: &str, use_md: bool) -> (r: String)
    ensures
        r@ == rewritten(content@, use_md, false),
{
    let r = rewrite(content, use_md, false);
    string_of(&r)
}

/// The patched text of a build file: the flag fix of `conditional_replace`, and
/// each multi-threaded runtime expression set to that of the chosen mode.
pub fn patch_runtime_flags(content: &str, use_md: bool) -> (r: String)
    ensures
        r@ == patched(content@, use_md),
{
    let r = rewrite(content, use_md, true);
    string_of(&r)
}

/// The new text of a build file whose runtime flags are patched, or `None` when
/// the patch changes nothing and the file must stay as it is. A text this
/// returns is left alone by the next call: see `lemma_patch_idempotent`.
pub fn patch_cmake_runtime_flags(content: &str, use_md: bool) -> (r: Option<String>)
    ensures
        r is None <==> patched(content@, use_md) == content@,
        r matches Some(s) ==> s@ == patched(content@, use_md),
{
    let new_content = patch_runtime_flags(content, use_md);
    let old_content = owned(content);
    if new_content == old_content {
        None
    } else {
        Some(new_content)
    }
}

proof fn lemma_join_extend(r: Seq<Seq<char>>, x: char)
    requires
        r.len() >= 1,
    ensures
        join_pieces(r.update(r.len() - 1, r.last().push(x))) == join_pieces(r).push(x),
{
    let u = r.update(r.len() - 1, r.last().push(x));
    if r.len() == 1 {
        assert(u[0] == r[0].push(x));
    } else {
        assert(u.drop_last() =~= r.drop_last());
        assert(join_pieces(r.drop_last()) + seq!['\n'] + r.last().push(x) =~= (join_pieces(
            r.drop_last(),
        ) + seq!['\n'] + r.last()).push(x));
    }
}

/// A text is its pieces joined back.
proof fn lemma_join_split(c: Seq<char>)
    ensures
        join_pieces(pieces_of(c)) == c,
    decreases c.len(),
{
    if c.len() == 0 {
        assert(pieces_of(c) == seq![Seq::<char>::empty()]);
        assert(c =~= Seq::<char>::empty());
    } else {
        let c0 = c.drop_last();
        lemma_join_split(c0);
        lemma_split_nonempty(c0, '\n');
        let r = split_on(c0, '\n');
        if c.last() == '\n' {
            assert(pieces_of(c) == r.push(Seq::empty()));
            assert(r.push(Seq::<char>::empty()).drop_last() =~= r);
            assert(c0 + seq!['\n'] + Seq::<char>::empty() =~= c);
        } else {
            lemma_join_extend(r, c.last());
            assert(c0.push(c.last()) =~= c);
        }
    }
}

/// The patch works piece by piece: a text is its pieces joined with newlines,
/// and the pieces of the patched text are the rewritten pieces, so every line
/// ending is kept and a piece that does not follow the marker changes only in
/// its runtime expressions (and not at all without `exprs`).
pub proof fn lemma_patch_piecewise(content: Seq<char>, use_md: bool, exprs: bool)
    ensures
        join_pieces(pieces_of(content)) == content,
        pieces_of(rewritten(content, use_md, exprs)) == rewritten_pieces(
            pieces_of(content),
            use_md,
            exprs,
        ),
{
    lemma_join_split(content);
    lemma_expr_shapes();
    lemma_flag_shapes(use_md);
    let ps = pieces_of(content);
    lemma_pieces_lack_newline(content);
    let ns = rewritten_pieces(ps, use_md, exprs);
    assert forall|i: int| 0 <= i < ns.len() implies lacks(#[trigger] ns[i], '\n') by {
        lemma_rep_lacks(ps[i], other_flag(use_md), runtime_flag(use_md), '\n');
        lemma_er_lacks(flag_piece(ps, i, use_md), mt_expr(use_md), '\n');
    }
    lemma_pieces_round_trip(ns);
}

} // verus!
