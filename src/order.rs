//! Ordering of items by text keys.

use crate::text::{compare, lemma_lex_lt_asym, lex_lt};
use std::cmp::Ordering;
use vstd::prelude::*;

verus! {

/// `a` may stand before `b`: ascending, `b` is not smaller; descending, `b`
/// is not greater.
pub open spec fn in_order(a: Seq<char>, b: Seq<char>, descending: bool) -> bool {
    if descending {
        !lex_lt(a, b)
    } else {
        !lex_lt(b, a)
    }
}

/// `p` lists each of `0..n` exactly once.
pub open spec fn is_permutation(p: Seq<usize>, n: nat) -> bool {
    &&& p.len() == n
    &&& forall|j: int| 0 <= j < p.len() ==> #[trigger] p[j] < n
    &&& forall|a: int, b: int| 0 <= a < p.len() && 0 <= b < p.len() && a != b ==> p[a] != p[b]
}

/// Taking the keys in the order `p` gives keys in order.
pub open spec fn sorted_by(keys: Seq<Seq<char>>, p: Seq<usize>, descending: bool) -> bool {
    forall|j: int|
        0 <= j < p.len() - 1 ==> in_order(
            keys[#[trigger] p[j] as int],
            keys[p[j + 1] as int],
            descending,
        )
}

/// `k` goes strictly before `l` in the order.
pub open spec fn strictly_before(k: Seq<char>, l: Seq<char>, descending: bool) -> bool {
    if descending {
        lex_lt(l, k)
    } else {
        lex_lt(k, l)
    }
}

/// Items with equal keys keep their relative order.
pub open spec fn stable_by(keys: Seq<Seq<char>>, p: Seq<usize>) -> bool {
    forall|a: int, b: int|
        0 <= a < b < p.len() && keys[p[a] as int] == keys[p[b] as int] ==> p[a] < p[b]
}

/// The views of a vector of strings.
pub open spec fn views(keys: Seq<String>) -> Seq<Seq<char>> {
    keys.map_values(|k: String| k@)
}

/// `x` must stand strictly before `y`.
fn goes_before(x: &str, y: &str, descending: bool) -> (r: bool)
    ensures
        r == (if descending {
            lex_lt(y@, x@)
        } else {
            lex_lt(x@, y@)
        }),
{
    match compare(x, y) {
        Ordering::Greater => descending,
        Ordering::Less => !descending,
        Ordering::Equal => false,
    }
}

proof fn lemma_insert_stable(
    ks: Seq<Seq<char>>,
    before: Seq<usize>,
    pos: int,
    i: usize,
    descending: bool,
)
    requires
        0 <= pos <= before.len(),
        forall|j: int| 0 <= j < before.len() ==> #[trigger] before[j] < i,
        stable_by(ks, before),
        forall|j: int|
            pos <= j < before.len() ==> strictly_before(
                ks[i as int],
                ks[#[trigger] before[j] as int],
                descending,
            ),
    ensures
        stable_by(ks, before.insert(pos, i)),
{
    let out = before.insert(pos, i);
    assert forall|a: int, b: int|
        0 <= a < b < out.len() && ks[out[a] as int] == ks[out[b] as int] implies out[a]
        < out[b] by {
        if a == pos {
            assert(out[b] == before[b - 1]);
            assert(strictly_before(ks[i as int], ks[before[b - 1] as int], descending));
            lemma_lex_lt_asym(ks[i as int], ks[i as int]);
        } else if b == pos {
            assert(out[a] == before[a]);
        } else {
            let a0 = if a < pos {
                a
            } else {
                a - 1
            };
            let b0 = if b < pos {
                b
            } else {
                b - 1
            };
            assert(out[a] == before[a0]);
            assert(out[b] == before[b0]);
        }
    }
}

proof fn lemma_insert_step(
    ks: Seq<Seq<char>>,
    before: Seq<usize>,
    pos: int,
    i: usize,
    descending: bool,
)
    requires
        i < ks.len(),
        is_permutation(before, i as nat),
        sorted_by(ks, before, descending),
        0 <= pos <= before.len(),
        pos > 0 ==> in_order(ks[before[pos - 1] as int], ks[i as int], descending),
        pos < before.len() ==> in_order(ks[i as int], ks[before[pos] as int], descending),
    ensures
        is_permutation(before.insert(pos, i), (i + 1) as nat),
        sorted_by(ks, before.insert(pos, i), descending),
{
    let out = before.insert(pos, i);
    assert forall|j: int| 0 <= j < out.len() - 1 implies in_order(
        ks[#[trigger] out[j] as int],
        ks[out[j + 1] as int],
        descending,
    ) by {
        if j + 1 < pos {
            assert(in_order(ks[before[j] as int], ks[before[j + 1] as int], descending));
        } else if j + 1 == pos {
        } else if j == pos {
        } else {
            assert(in_order(ks[before[j - 1] as int], ks[before[j] as int], descending));
        }
    }
    assert forall|a: int, b: int|
        0 <= a < out.len() && 0 <= b < out.len() && a != b implies out[a] != out[b] by {
        let a0 = if a < pos {
            a
        } else {
            a - 1
        };
        let b0 = if b < pos {
            b
        } else {
            b - 1
        };
        if a != pos && b != pos {
            assert(out[a] == before[a0]);
            assert(out[b] == before[b0]);
        } else if a == pos {
            assert(out[b] == before[b0]);
            assert(before[b0] < i);
        } else {
            assert(out[a] == before[a0]);
            assert(before[a0] < i);
        }
    }
    assert forall|j: int| 0 <= j < out.len() implies #[trigger] out[j] < i + 1 by {
        if j < pos {
            assert(out[j] == before[j]);
        } else if j > pos {
            assert(out[j] == before[j - 1]);
        }
    }
}

/// The order in which to take items so that their keys are sorted
/// (lexicographically, ascending or descending); items with equal keys keep
/// their relative order.
pub fn sort_order(keys: &Vec<String>, descending: bool) -> (r: Vec<usize>)
    ensures
        is_permutation(r@, keys@.len()),
        sorted_by(views(keys@), r@, descending),
        stable_by(views(keys@), r@),
{
    let ghost ks = views(keys@);
    let mut out: Vec<usize> = Vec::new();
    let mut i: usize = 0;
    while i < keys.len()
        invariant
            i <= keys@.len(),
            ks == views(keys@),
            is_permutation(out@, i as nat),
            sorted_by(ks, out@, descending),
            stable_by(ks, out@),
        decreases keys@.len() - i,
    {
        let mut pos: usize = out.len();
        while pos > 0 && goes_before(keys[i].as_str(), keys[out[pos - 1]].as_str(), descending)
            invariant
                i < keys@.len(),
                is_permutation(out@, i as nat),
                pos <= out@.len(),
                forall|j: int|
                    pos <= j < out@.len() ==> strictly_before(
                        ks[i as int],
                        ks[#[trigger] out@[j] as int],
                        descending,
                    ),
                ks == views(keys@),
            decreases pos,
        {
            pos = pos - 1;
        }
        proof {
            if pos > 0 {
                let p = ks[out@[pos - 1] as int];
                lemma_lex_lt_asym(ks[i as int], p);
                lemma_lex_lt_asym(p, ks[i as int]);
            }
            if pos < out@.len() {
                lemma_lex_lt_asym(ks[i as int], ks[out@[pos as int] as int]);
                lemma_lex_lt_asym(ks[out@[pos as int] as int], ks[i as int]);
            }
        }
        let ghost before = out@;
        out.insert(pos, i);
        proof {
            lemma_insert_step(ks, before, pos as int, i, descending);
            lemma_insert_stable(ks, before, pos as int, i, descending);
        }
        i = i + 1;
    }
    out
}

} // verus!
