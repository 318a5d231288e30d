//! Splitting text at a character and into lines, and counting characters.

use vstd::prelude::*;

verus! {

/// How many times `c` occurs in `s`.
pub open spec fn count_char(s: Seq<char>, c: char) -> nat
    decreases s.len(),
{
    if s.len() == 0 {
        0
    } else {
        count_char(s.drop_last(), c) + if s.last() == c {
            1nat
        } else {
            0nat
        }
    }
}

/// What `str::split(c)` yields for a character pattern: the pieces between
/// occurrences of `c`, empty ones included.
pub open spec fn spec_split_char(s: Seq<char>, c: char) -> Seq<Seq<char>>
    decreases s.len(),
{
    if s.len() == 0 {
        seq![seq![]]
    } else {
        let prev = spec_split_char(s.drop_last(), c);
        if s.last() == c {
            prev.push(seq![])
        } else {
            prev.update(prev.len() - 1, prev.last().push(s.last()))
        }
    }
}

/// A line as `str::lines` gives it: a `\r` that stood right before the
/// `\n` removed.
pub open spec fn strip_cr(piece: Seq<char>) -> Seq<char> {
    if piece.len() > 0 && piece.last() == '\r' {
        piece.drop_last()
    } else {
        piece
    }
}

/// What `str::lines` yields: the pieces between `\n`s, without a last empty
/// piece after a final `\n`, each piece that a `\n` ended losing a `\r` just
/// before it.
pub open spec fn spec_lines(s: Seq<char>) -> Seq<Seq<char>> {
    let parts = spec_split_char(s, '\n');
    let body = if parts.last().len() == 0 {
        parts.drop_last()
    } else {
        parts
    };
    Seq::new(
        body.len(),
        |i: int|
            if i < parts.len() - 1 {
                strip_cr(body[i])
            } else {
                body[i]
            },
    )
}

/// The first piece that `p` accepts, if any.
pub open spec fn first_where(parts: Seq<Seq<char>>, p: spec_fn(Seq<char>) -> bool) -> Option<
    Seq<char>,
>
    decreases parts.len(),
{
    if parts.len() == 0 {
        None
    } else if p(parts[0]) {
        Some(parts[0])
    } else {
        first_where(parts.drop_first(), p)
    }
}

pub proof fn lemma_split_char_nonempty(s: Seq<char>, c: char)
    ensures
        spec_split_char(s, c).len() >= 1,
    decreases s.len(),
{
    if s.len() > 0 {
        lemma_split_char_nonempty(s.drop_last(), c);
    }
}

/// Skipping a piece that `p` refuses leaves the first accepted piece as it was.
pub proof fn lemma_first_where_skip(parts: Seq<Seq<char>>, p: spec_fn(Seq<char>) -> bool, i: int)
    requires
        0 <= i < parts.len(),
        !p(parts[i]),
    ensures
        first_where(parts.skip(i), p) == first_where(parts.skip(i + 1), p),
{
    assert(parts.skip(i).drop_first() =~= parts.skip(i + 1));
}

/// A piece that `p` accepts is the first accepted piece from there on.
pub proof fn lemma_first_where_hit(parts: Seq<Seq<char>>, p: spec_fn(Seq<char>) -> bool, i: int)
    requires
        0 <= i < parts.len(),
        p(parts[i]),
    ensures
        first_where(parts.skip(i), p) == Some(parts[i]),
{
}

/// How many times `c` occurs in `s`, saturating at `usize::MAX`.
pub fn count_char_in(s: &Vec<char>, c: char) -> (r: usize)
    ensures
        r == count_char(s@, c),
{
    let mut n: usize = 0;
    let mut i: usize = 0;
    while i < s.len()
        invariant
            i <= s.len(),
            n == count_char(s@.take(i as int), c),
            n <= i,
        decreases s.len() - i,
    {
        assert(s@.take(i + 1).drop_last() =~= s@.take(i as int));
        if s[i] == c {
            n += 1;
        }
        i += 1;
    }
    assert(s@.take(i as int) =~= s@);
    n
}

/// `str::split(c)` for a character `c`.
pub fn split_char(s: &Vec<char>, c: char) -> (r: Vec<Vec<char>>)
    ensures
        r@.map_values(|p: Vec<char>| p@) == spec_split_char(s@, c),
{
    let mut parts: Vec<Vec<char>> = Vec::new();
    let mut cur: Vec<char> = Vec::new();
    let mut i: usize = 0;
    while i < s.len()
        invariant
            i <= s.len(),
            parts@.map_values(|p: Vec<char>| p@).push(cur@) == spec_split_char(s@.take(i as int), c),
        decreases s.len() - i,
    {
        assert(s@.take(i + 1).drop_last() =~= s@.take(i as int));
        let ghost before = parts@.map_values(|p: Vec<char>| p@).push(cur@);
        if s[i] == c {
            parts.push(cur);
            cur = Vec::new();
            assert(parts@.map_values(|p: Vec<char>| p@).push(cur@) =~= before.push(seq![]));
        } else {
            cur.push(s[i]);
            assert(parts@.map_values(|p: Vec<char>| p@).push(cur@) =~= before.update(
                before.len() - 1,
                before.last().push(s@[i as int]),
            ));
        }
        i += 1;
    }
    assert(s@.take(i as int) =~= s@);
    parts.push(cur);
    parts
}

/// `str::lines`.
pub fn lines(s: &Vec<char>) -> (r: Vec<Vec<char>>)
    ensures
        r@.map_values(|p: Vec<char>| p@) == spec_lines(s@),
{
    let parts = split_char(s, '\n');
    let ghost pv = parts@.map_values(|p: Vec<char>| p@);
    proof {
        lemma_split_char_nonempty(s@, '\n');
    }
    let n = parts.len();
    let body_len = if parts[n - 1].len() == 0 {
        n - 1
    } else {
        n
    };
    let ghost body = if pv.last().len() == 0 {
        pv.drop_last()
    } else {
        pv
    };
    let mut out: Vec<Vec<char>> = Vec::new();
    let mut i: usize = 0;
    while i < body_len
        invariant
            n == parts.len(),
            n >= 1,
            pv == parts@.map_values(|p: Vec<char>| p@),
            pv == spec_split_char(s@, '\n'),
            body_len == body.len(),
            body == (if pv.last().len() == 0 {
                pv.drop_last()
            } else {
                pv
            }),
            i <= body_len,
            out@.map_values(|p: Vec<char>| p@) == spec_lines(s@).take(i as int),
        decreases body_len - i,
    {
        let p = &parts[i];
        let piece = if i + 1 < n && p.len() > 0 && p[p.len() - 1] == '\r' {
            let mut q: Vec<char> = Vec::new();
            let mut k: usize = 0;
            while k + 1 < p.len()
                invariant
                    p.len() > 0,
                    k + 1 <= p.len(),
                    q@ == p@.take(k as int),
                decreases p.len() - k,
            {
                q.push(p[k]);
                k += 1;
                assert(q@ =~= p@.take(k as int));
            }
            assert(q@ =~= p@.drop_last());
            q
        } else {
            p.clone()
        };
        proof {
            assert(body[i as int] == pv[i as int]);
            assert(piece@ == spec_lines(s@)[i as int]);
        }
        let ghost before = out@.map_values(|p: Vec<char>| p@);
        let ghost pv_i = piece@;
        out.push(piece);
        assert(out@.map_values(|p: Vec<char>| p@) =~= before.push(pv_i));
        i += 1;
        assert(out@.map_values(|p: Vec<char>| p@) =~= spec_lines(s@).take(i as int));
    }
    assert(spec_lines(s@).take(i as int) =~= spec_lines(s@));
    out
}

} // verus!
