//! The order of `String`'s `Ord` on the character view (UTF-8 byte order is
//! code-point order), and sorted sets of strings kept in vectors.

use vstd::prelude::*;

verus! {

/// `a` sorts strictly before `b`, comparing code points left to right.
pub open spec fn seq_lt(a: Seq<char>, b: Seq<char>) -> bool
    decreases a.len(),
{
    if a.len() == 0 {
        b.len() > 0
    } else if b.len() == 0 {
        false
    } else if a[0] < b[0] {
        true
    } else if a[0] > b[0] {
        false
    } else {
        seq_lt(a.drop_first(), b.drop_first())
    }
}

pub proof fn lemma_lt_irreflexive(a: Seq<char>)
    ensures
        !seq_lt(a, a),
    decreases a.len(),
{
    if a.len() > 0 {
        lemma_lt_irreflexive(a.drop_first());
    }
}

pub proof fn lemma_lt_transitive(a: Seq<char>, b: Seq<char>, c: Seq<char>)
    requires
        seq_lt(a, b),
        seq_lt(b, c),
    ensures
        seq_lt(a, c),
    decreases a.len(),
{
    if a.len() > 0 && b.len() > 0 && c.len() > 0 {
        if a[0] == b[0] && b[0] == c[0] {
            lemma_lt_transitive(a.drop_first(), b.drop_first(), c.drop_first());
        }
    }
}

pub proof fn lemma_lt_total(a: Seq<char>, b: Seq<char>)
    ensures
        seq_lt(a, b) || seq_lt(b, a) || a == b,
    decreases a.len(),
{
    if a.len() > 0 && b.len() > 0 {
        if a[0] == b[0] {
            lemma_lt_total(a.drop_first(), b.drop_first());
            if a.drop_first() == b.drop_first() {
                assert(a[0] == b[0]);
                assert(a =~= seq![a[0]] + a.drop_first());
                assert(b =~= seq![b[0]] + b.drop_first());
            }
        }
    } else if a.len() == 0 && b.len() == 0 {
        assert(a =~= b);
    }
}

pub proof fn lemma_lt_asymmetric(a: Seq<char>, b: Seq<char>)
    requires
        seq_lt(a, b),
    ensures
        !seq_lt(b, a),
{
    if seq_lt(b, a) {
        lemma_lt_transitive(a, b, a);
        lemma_lt_irreflexive(a);
    }
}

/// Strictly increasing, so also free of repeats.
pub open spec fn strictly_sorted(s: Seq<Seq<char>>) -> bool {
    forall|i: int, j: int| 0 <= i < j < s.len() ==> seq_lt(s[i], s[j])
}

/// `a` sorts strictly before `b`.
pub fn lt(a: &Vec<char>, b: &Vec<char>) -> (r: bool)
    ensures
        r == seq_lt(a@, b@),
{
    let mut i: usize = 0;
    assert(a@.skip(0) =~= a@);
    assert(b@.skip(0) =~= b@);
    while i < a.len() && i < b.len() && a[i] == b[i]
        invariant
            i <= a.len(),
            i <= b.len(),
            seq_lt(a@, b@) == seq_lt(a@.skip(i as int), b@.skip(i as int)),
        decreases a.len() - i,
    {
        proof {
            let x = a@.skip(i as int);
            let y = b@.skip(i as int);
            assert(x.drop_first() =~= a@.skip(i + 1));
            assert(y.drop_first() =~= b@.skip(i + 1));
        }
        i += 1;
    }
    if i == a.len() {
        i < b.len()
    } else if i == b.len() {
        false
    } else {
        a[i] < b[i]
    }
}

/// Inserts `x` into a strictly sorted vector, leaving it strictly sorted and
/// holding the old items and `x`.
pub fn insert_sorted(set: &mut Vec<Vec<char>>, x: Vec<char>)
    requires
        strictly_sorted(old(set)@.map_values(|w: Vec<char>| w@)),
    ensures
        strictly_sorted(final(set)@.map_values(|w: Vec<char>| w@)),
        final(set)@.map_values(|w: Vec<char>| w@).to_set() == old(set)@.map_values(
            |w: Vec<char>| w@,
        ).to_set().insert(x@),
{
    let ghost before = set@.map_values(|w: Vec<char>| w@);
    let mut p: usize = 0;
    while p < set.len() && lt(&set[p], &x)
        invariant
            p <= set.len(),
            set@.map_values(|w: Vec<char>| w@) == before,
            forall|k: int| 0 <= k < p ==> seq_lt(#[trigger] before[k], x@),
        decreases set.len() - p,
    {
        p += 1;
    }
    if p < set.len() && !lt(&x, &set[p]) {
        proof {
            lemma_lt_total(x@, before[p as int]);
            assert(before[p as int] == x@);
            assert(before.to_set().insert(x@) =~= before.to_set());
        }
        return;
    }
    proof {
        if p < set.len() {
            assert(seq_lt(x@, before[p as int]));
        }
    }
    set.insert(p, x);
    proof {
        let after = set@.map_values(|w: Vec<char>| w@);
        assert(after =~= before.insert(p as int, x@));
        assert forall|i: int, j: int| 0 <= i < j < after.len() implies seq_lt(
            after[i],
            after[j],
        ) by {
            if j < p {
            } else if j == p {
            } else if i < p {
                if j == p + 1 {
                    lemma_lt_transitive(before[i], x@, before[j - 1]);
                } else {
                    lemma_lt_transitive(before[i], x@, before[p as int]);
                    lemma_lt_transitive(before[i], before[p as int], before[j - 1]);
                }
            } else if i == p {
                if j - 1 == p {
                } else {
                    lemma_lt_transitive(x@, before[p as int], before[j - 1]);
                }
            } else {
            }
        }
        assert(after.to_set() =~= before.to_set().insert(x@)) by {
            assert forall|y: Seq<char>| after.to_set().contains(y) implies before.to_set().insert(
                x@,
            ).contains(y) by {
                let k = choose|k: int| 0 <= k < after.len() && after[k] == y;
                if k < p {
                    assert(before[k] == y);
                } else if k > p {
                    assert(before[k - 1] == y);
                }
            }
            assert forall|y: Seq<char>| before.to_set().insert(x@).contains(y) implies after.to_set().contains(
                y,
            ) by {
                if y == x@ {
                    assert(after[p as int] == y);
                } else {
                    let k = choose|k: int| 0 <= k < before.len() && before[k] == y;
                    if k < p {
                        assert(after[k] == y);
                    } else {
                        assert(after[k + 1] == y);
                    }
                }
            }
        }
    }
}

/// Pairs compared by their first item, then by their second.
pub open spec fn pair_lt(a: (Seq<char>, Seq<char>), b: (Seq<char>, Seq<char>)) -> bool {
    seq_lt(a.0, b.0) || (a.0 == b.0 && seq_lt(a.1, b.1))
}

pub proof fn lemma_pair_lt_transitive(
    a: (Seq<char>, Seq<char>),
    b: (Seq<char>, Seq<char>),
    c: (Seq<char>, Seq<char>),
)
    requires
        pair_lt(a, b),
        pair_lt(b, c),
    ensures
        pair_lt(a, c),
{
    if seq_lt(a.0, b.0) && seq_lt(b.0, c.0) {
        lemma_lt_transitive(a.0, b.0, c.0);
    } else if seq_lt(a.0, b.0) {
    } else if seq_lt(b.0, c.0) {
    } else {
        lemma_lt_transitive(a.1, b.1, c.1);
    }
}

pub proof fn lemma_pair_lt_total(a: (Seq<char>, Seq<char>), b: (Seq<char>, Seq<char>))
    ensures
        pair_lt(a, b) || pair_lt(b, a) || a == b,
{
    lemma_lt_total(a.0, b.0);
    lemma_lt_total(a.1, b.1);
}

pub proof fn lemma_pair_lt_irreflexive(a: (Seq<char>, Seq<char>))
    ensures
        !pair_lt(a, a),
{
    lemma_lt_irreflexive(a.0);
    lemma_lt_irreflexive(a.1);
}

/// `a` sorts strictly before `b` as a pair.
pub fn pair_less(a0: &Vec<char>, a1: &Vec<char>, b0: &Vec<char>, b1: &Vec<char>) -> (r: bool)
    ensures
        r == pair_lt((a0@, a1@), (b0@, b1@)),
{
    if lt(a0, b0) {
        true
    } else if crate::text::chars_eq(a0, b0) {
        lt(a1, b1)
    } else {
        false
    }
}

} // verus!
