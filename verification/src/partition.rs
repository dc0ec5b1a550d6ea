//! Grouping an inventory by class and slot. A partition is the list of the
//! indices of its pieces, in inventory order.

use vstd::prelude::*;
use crate::record::{Class, Kind, Record};

verus! {

/// The number of partitions: three classes times five slots.
pub const PARTITION_COUNT: usize = 15;

/// The piece belongs to the partition of `class` and `armor`.
pub open spec fn in_partition(r: Record, class: Class, armor: Kind) -> bool {
    r.class == class && r.armor == armor
}

/// Every index of `part` points into an inventory of `n` pieces.
pub open spec fn in_bounds(part: Seq<usize>, n: nat) -> bool {
    forall|i: int| 0 <= i < part.len() ==> part[i] < n
}

/// Every index of every partition points into an inventory of `n` pieces.
pub open spec fn all_in_bounds(parts: Seq<Seq<usize>>, n: nat) -> bool {
    forall|k: int| 0 <= k < parts.len() ==> in_bounds(#[trigger] parts[k], n)
}

/// The indices `0, 1, .., n - 1`.
pub open spec fn indices(n: nat) -> Seq<usize> {
    Seq::new(n, |i: int| i as usize)
}

/// The indices of the pieces of one partition, in inventory order.
pub open spec fn members(items: Seq<Record>, class: Class, armor: Kind) -> Seq<usize> {
    indices(items.len()).filter(|i: usize| in_partition(items[i as int], class, armor))
}

/// The classes in the order in which they are reported.
pub open spec fn class_order() -> Seq<Class> {
    seq![Class::Warlock, Class::Hunter, Class::Titan]
}

/// The slots in the order in which they are reported.
pub open spec fn kind_order() -> Seq<Kind> {
    seq![Kind::Helmet, Kind::Arms, Kind::Chest, Kind::Legs, Kind::Bond]
}

/// The partition keys in reporting order: class outer, slot inner.
pub open spec fn canonical_keys() -> Seq<(Class, Kind)> {
    Seq::new(15, |k: int| (class_order()[k / 5], kind_order()[k % 5]))
}

/// All partitions of an inventory, in the order of `canonical_keys`.
pub open spec fn partitions(items: Seq<Record>) -> Seq<Seq<usize>> {
    canonical_keys().map_values(|key: (Class, Kind)| members(items, key.0, key.1))
}

/// What a list of partitions holds: the index lists themselves.
pub open spec fn lists(parts: Seq<Vec<usize>>) -> Seq<Seq<usize>> {
    parts.map_values(|part: Vec<usize>| part@)
}

/// The class at a position of the reporting order.
pub fn class_at(k: usize) -> (c: Class)
    requires
        k < 3,
    ensures
        c == class_order()[k as int],
{
    if k == 0 {
        Class::Warlock
    } else if k == 1 {
        Class::Hunter
    } else {
        Class::Titan
    }
}

/// The slot at a position of the reporting order.
pub fn kind_at(k: usize) -> (a: Kind)
    requires
        k < 5,
    ensures
        a == kind_order()[k as int],
{
    if k == 0 {
        Kind::Helmet
    } else if k == 1 {
        Kind::Arms
    } else if k == 2 {
        Kind::Chest
    } else if k == 3 {
        Kind::Legs
    } else {
        Kind::Bond
    }
}

/// The indices of the pieces of `class` and `armor`, in inventory order.
pub fn members_of(items: &Vec<Record>, class: Class, armor: Kind) -> (part: Vec<usize>)
    ensures
        part@ == members(items@, class, armor),
        in_bounds(part@, items@.len()),
{
    let ghost pred = |i: usize| in_partition(items@[i as int], class, armor);
    let ghost all = indices(items@.len());
    let mut part: Vec<usize> = Vec::new();
    let mut i: usize = 0;
    while i < items.len()
        invariant
            i <= items.len(),
            all == indices(items@.len()),
            pred == |i: usize| in_partition(items@[i as int], class, armor),
            part@ == all.take(i as int).filter(pred),
            in_bounds(part@, i as nat),
        decreases items.len() - i,
    {
        proof {
            all.lemma_take_succ_push(i as int);
            all.take(i as int).lemma_filter_push(i, pred);
        }
        if items[i].class == class && items[i].armor == armor {
            part.push(i);
        }
        i += 1;
    }
    proof {
        all.lemma_take_len();
    }
    part
}

/// Splits an inventory into its fifteen partitions, in reporting order; each
/// keeps the order of the inventory.
pub fn partition(items: &Vec<Record>) -> (parts: Vec<Vec<usize>>)
    ensures
        lists(parts@) == partitions(items@),
        all_in_bounds(lists(parts@), items@.len()),
{
    let mut parts: Vec<Vec<usize>> = Vec::new();
    let mut k: usize = 0;
    while k < PARTITION_COUNT
        invariant
            k <= PARTITION_COUNT,
            parts@.len() == k,
            forall|j: int| 0 <= j < k ==> (#[trigger] parts@[j])@ == partitions(items@)[j],
            forall|j: int| 0 <= j < k ==> in_bounds((#[trigger] parts@[j])@, items@.len()),
        decreases PARTITION_COUNT - k,
    {
        let part = members_of(items, class_at(k / 5), kind_at(k % 5));
        parts.push(part);
        k += 1;
    }
    assert(lists(parts@) =~= partitions(items@));
    parts
}

} // verus!
