//! The dominance relation between two armour pieces, and the pieces that one
//! piece makes redundant among a list of candidates.

use vstd::prelude::*;
use crate::partition::in_bounds;
use crate::record::Record;

verus! {

/// `a` dominates `b`: neither is exotic, `a` is at least `b` in every
/// attribute, and the two stat vectors differ.
pub open spec fn dominance(a: Record, b: Record) -> bool {
    &&& !a.exotic
    &&& !b.exotic
    &&& a.stat_array.ge_everywhere(&b.stat_array)
    &&& a.stat_array != b.stat_array
}

/// The candidates that the piece at `item` dominates, in the order of `candidates`.
pub open spec fn dominated(items: Seq<Record>, item: usize, candidates: Seq<usize>) -> Seq<usize> {
    candidates.filter(|c: usize| dominance(items[item as int], items[c as int]))
}

/// Whether `a` dominates `b`.
pub fn dominates(a: &Record, b: &Record) -> (r: bool)
    ensures
        r == dominance(*a, *b),
{
    !a.exotic && !b.exotic && a.stat_array.collective_ge(&b.stat_array) && a.stat_array
        != b.stat_array
}

/// The candidates made redundant by the piece at index `item`: those it
/// dominates, in candidate order. The piece itself is never among them.
///
/// The candidates are meant to be the partition that the piece belongs to,
/// the piece included; pieces are compared by stats and rarity alone, so it
/// is for the caller to keep other partitions out.
pub fn dominated_by(items: &Vec<Record>, item: usize, candidates: &Vec<usize>) -> (worse: Vec<
    usize,
>)
    requires
        item < items.len(),
        in_bounds(candidates@, items@.len()),
    ensures
        worse@ == dominated(items@, item, candidates@),
        !worse@.contains(item),
        in_bounds(worse@, items@.len()),
{
    let ghost pred = |c: usize| dominance(items@[item as int], items@[c as int]);
    let mut worse: Vec<usize> = Vec::new();
    let mut i: usize = 0;
    while i < candidates.len()
        invariant
            i <= candidates.len(),
            item < items.len(),
            in_bounds(candidates@, items@.len()),
            pred == |c: usize| dominance(items@[item as int], items@[c as int]),
            worse@ == candidates@.take(i as int).filter(pred),
            in_bounds(worse@, items@.len()),
        decreases candidates.len() - i,
    {
        let c = candidates[i];
        proof {
            candidates@.lemma_take_succ_push(i as int);
            candidates@.take(i as int).lemma_filter_push(c, pred);
        }
        if dominates(&items[item], &items[c]) {
            worse.push(c);
        }
        i += 1;
    }
    proof {
        candidates@.lemma_take_len();
        assert forall|k: int| 0 <= k < worse@.len() implies worse@[k] != item by {
            candidates@.lemma_filter_pred(pred, k);
        }
    }
    worse
}

} // verus!
