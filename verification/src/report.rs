//! The redundancy report: for each piece that dominates another, the pieces
//! it dominates.

use vstd::prelude::*;
use crate::dominance::{dominated, dominated_by};
use crate::partition::{all_in_bounds, in_bounds, lists};
use crate::record::Record;

verus! {

/// A piece together with the pieces it makes redundant, all as indices into
/// the inventory.
#[derive(Debug)]
pub struct Grouping {
    pub dominant: usize,
    pub dominated: Vec<usize>,
}

/// The mathematical content of a `Grouping`.
pub struct GroupingView {
    pub dominant: usize,
    pub dominated: Seq<usize>,
}

impl View for Grouping {
    type V = GroupingView;

    open spec fn view(&self) -> GroupingView {
        GroupingView { dominant: self.dominant, dominated: self.dominated@ }
    }
}

/// The indices of a grouping point into an inventory of `n` pieces.
pub open spec fn group_in_bounds(group: GroupingView, n: nat) -> bool {
    group.dominant < n && in_bounds(group.dominated, n)
}

/// The indices of every grouping point into an inventory of `n` pieces.
pub open spec fn groups_in_bounds(groups: Seq<GroupingView>, n: nat) -> bool {
    forall|g: int| 0 <= g < groups.len() ==> group_in_bounds(#[trigger] groups[g], n)
}

/// What a list of groupings holds.
pub open spec fn views(groups: Seq<Grouping>) -> Seq<GroupingView> {
    groups.map_values(|g: Grouping| g@)
}

/// A candidate with the candidates it dominates.
pub open spec fn grouping_of(items: Seq<Record>, item: usize, candidates: Seq<usize>)
    -> GroupingView {
    GroupingView { dominant: item, dominated: dominated(items, item, candidates) }
}

/// The report of one partition: each candidate that dominates at least one
/// other, with those it dominates, in candidate order.
pub open spec fn groupings(items: Seq<Record>, candidates: Seq<usize>) -> Seq<GroupingView> {
    candidates.map_values(|a: usize| grouping_of(items, a, candidates)).filter(
        |g: GroupingView| g.dominated.len() > 0,
    )
}

/// The report of a list of partitions: their reports one after another.
pub open spec fn report(items: Seq<Record>, parts: Seq<Seq<usize>>) -> Seq<GroupingView> {
    parts.flat_map(|part: Seq<usize>| groupings(items, part))
}

/// The report of one partition, given as the indices of its pieces.
pub fn partition_report(items: &Vec<Record>, candidates: &Vec<usize>) -> (groups: Vec<Grouping>)
    requires
        in_bounds(candidates@, items@.len()),
    ensures
        views(groups@) == groupings(items@, candidates@),
        groups_in_bounds(views(groups@), items@.len()),
{
    let ghost make = |a: usize| grouping_of(items@, a, candidates@);
    let ghost keep = |g: GroupingView| g.dominated.len() > 0;
    let mut groups: Vec<Grouping> = Vec::new();
    let mut i: usize = 0;
    assert(views(groups@) =~= candidates@.take(0).map_values(make).filter(keep));
    while i < candidates.len()
        invariant
            i <= candidates.len(),
            in_bounds(candidates@, items@.len()),
            make == |a: usize| grouping_of(items@, a, candidates@),
            keep == |g: GroupingView| g.dominated.len() > 0,
            views(groups@) == candidates@.take(i as int).map_values(make).filter(keep),
            groups_in_bounds(views(groups@), items@.len()),
        decreases candidates.len() - i,
    {
        let item = candidates[i];
        let worse = dominated_by(items, item, candidates);
        proof {
            let before = candidates@.take(i as int);
            candidates@.lemma_take_succ_push(i as int);
            before.lemma_push_map_commute(make, item);
            before.map_values(make).lemma_filter_push(make(item), keep);
        }
        if !worse.is_empty() {
            let group = Grouping { dominant: item, dominated: worse };
            proof {
                groups@.lemma_push_map_commute(|g: Grouping| g@, group);
            }
            groups.push(group);
        }
        i += 1;
    }
    proof {
        candidates@.lemma_take_len();
    }
    groups
}

/// The report of all partitions, in the order in which they are given: for
/// each partition, and each of its pieces in order, one grouping if the piece
/// dominates anything.
pub fn build_report(items: &Vec<Record>, partitioned: &Vec<Vec<usize>>) -> (groups: Vec<Grouping>)
    requires
        all_in_bounds(lists(partitioned@), items@.len()),
    ensures
        views(groups@) == report(items@, lists(partitioned@)),
        groups_in_bounds(views(groups@), items@.len()),
{
    let ghost parts = lists(partitioned@);
    let ghost each = |part: Seq<usize>| groupings(items@, part);
    let mut groups: Vec<Grouping> = Vec::new();
    let mut k: usize = 0;
    assert(views(groups@) =~= parts.take(0).flat_map(each));
    while k < partitioned.len()
        invariant
            k <= partitioned.len(),
            parts == lists(partitioned@),
            all_in_bounds(parts, items@.len()),
            each == |part: Seq<usize>| groupings(items@, part),
            views(groups@) == parts.take(k as int).flat_map(each),
            groups_in_bounds(views(groups@), items@.len()),
        decreases partitioned.len() - k,
    {
        assert(parts[k as int] == partitioned@[k as int]@);
        let mut more = partition_report(items, &partitioned[k]);
        proof {
            parts.lemma_take_succ_push(k as int);
            parts.take(k as int).lemma_flat_map_push(each, parts[k as int]);
            assert(views(groups@ + more@) =~= views(groups@) + views(more@));
        }
        groups.append(&mut more);
        k += 1;
    }
    proof {
        parts.lemma_take_len();
    }
    groups
}

} // verus!
