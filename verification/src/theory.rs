//! Laws of the dominance relation and of the report built on it.

use vstd::prelude::*;
use crate::dominance::{dominance, dominated};
use crate::partition::{in_bounds, in_partition, indices, members};
use crate::record::{Class, Kind, Record};
use crate::partition::{kind_order, partitions};
use crate::render::{class_text, grouping_text, partition_text, report_text};
use crate::report::{grouping_of, groupings, report, GroupingView};

verus! {

/// No piece dominates itself.
pub proof fn lemma_irreflexive(a: Record)
    ensures
        !dominance(a, a),
{
}

/// An exotic piece neither dominates nor is dominated, whatever the stats.
pub proof fn lemma_exotic_excluded(a: Record, b: Record)
    requires
        a.exotic || b.exotic,
    ensures
        !dominance(a, b),
        !dominance(b, a),
{
}

/// Pieces with the same stats do not dominate one another.
pub proof fn lemma_equal_stats_excluded(a: Record, b: Record)
    requires
        a.stat_array == b.stat_array,
    ensures
        !dominance(a, b),
        !dominance(b, a),
{
}

/// Two pieces never dominate one another both ways.
pub proof fn lemma_antisymmetric(a: Record, b: Record)
    requires
        dominance(a, b),
    ensures
        !dominance(b, a),
{
    if dominance(b, a) {
        let x = a.stat_array.components();
        let y = b.stat_array.components();
        assert(x[0] == y[0] && x[1] == y[1] && x[2] == y[2] && x[3] == y[3] && x[4] == y[4]
            && x[5] == y[5]);
        assert(a.stat_array == b.stat_array);
    }
}

/// Dominance carries over: what a dominated piece dominates, the dominant
/// piece dominates too.
pub proof fn lemma_transitive(a: Record, b: Record, c: Record)
    requires
        dominance(a, b),
        dominance(b, c),
    ensures
        dominance(a, c),
{
    let x = a.stat_array.components();
    let y = b.stat_array.components();
    let z = c.stat_array.components();
    assert forall|i: int| 0 <= i < 6 implies x[i] >= z[i] by {
        assert(x[i] >= y[i] && y[i] >= z[i]);
    }
    if a.stat_array == c.stat_array {
        lemma_antisymmetric(a, b);
        assert(dominance(b, a));
    }
}

/// Every element of a filtered sequence satisfies the predicate and comes
/// from the sequence.
pub proof fn lemma_filter_member<A>(s: Seq<A>, pred: spec_fn(A) -> bool, k: int)
    requires
        0 <= k < s.filter(pred).len(),
    ensures
        pred(s.filter(pred)[k]),
        s.contains(s.filter(pred)[k]),
    decreases s.len(),
{
    reveal(Seq::filter);
    if s.len() > 0 {
        let rest = s.drop_last();
        if k < rest.filter(pred).len() {
            lemma_filter_member(rest, pred, k);
            let j = choose|j: int| 0 <= j < rest.len() && rest[j] == rest.filter(pred)[k];
            assert(s[j] == s.filter(pred)[k]);
        } else {
            assert(s[s.len() - 1] == s.filter(pred)[k]);
        }
    }
}

/// Two predicates that agree on every element of a sequence filter it alike.
pub proof fn lemma_filter_agree<A>(s: Seq<A>, p: spec_fn(A) -> bool, q: spec_fn(A) -> bool)
    requires
        forall|i: int| 0 <= i < s.len() ==> p(#[trigger] s[i]) == q(s[i]),
    ensures
        s.filter(p) == s.filter(q),
    decreases s.len(),
{
    reveal(Seq::filter);
    if s.len() > 0 {
        let rest = s.drop_last();
        assert forall|i: int| 0 <= i < rest.len() implies p(#[trigger] rest[i]) == q(rest[i]) by {
            assert(rest[i] == s[i]);
        }
        lemma_filter_agree(rest, p, q);
        assert(p(s[s.len() - 1]) == q(s[s.len() - 1]));
    }
}

/// A piece is never among those it dominates.
pub proof fn lemma_dominated_excludes_self(items: Seq<Record>, item: usize, candidates: Seq<usize>)
    ensures
        !dominated(items, item, candidates).contains(item),
{
    let pred = |c: usize| dominance(items[item as int], items[c as int]);
    let worse = dominated(items, item, candidates);
    assert forall|k: int| 0 <= k < worse.len() implies worse[k] != item by {
        lemma_filter_member(candidates, pred, k);
    }
}

/// Every piece that a piece dominates is one of the candidates, and is
/// dominated by it.
pub proof fn lemma_dominated_among_candidates(
    items: Seq<Record>,
    item: usize,
    candidates: Seq<usize>,
    k: int,
)
    requires
        0 <= k < dominated(items, item, candidates).len(),
    ensures
        candidates.contains(dominated(items, item, candidates)[k]),
        dominance(items[item as int], items[dominated(items, item, candidates)[k] as int]),
{
    let pred = |c: usize| dominance(items[item as int], items[c as int]);
    lemma_filter_member(candidates, pred, k);
}

/// Every member of a partition is a piece of the inventory with that class
/// and slot.
pub proof fn lemma_member_belongs(items: Seq<Record>, class: Class, armor: Kind, k: int)
    requires
        items.len() <= usize::MAX,
        0 <= k < members(items, class, armor).len(),
    ensures
        members(items, class, armor)[k] < items.len(),
        in_partition(items[members(items, class, armor)[k] as int], class, armor),
{
    let pred = |i: usize| in_partition(items[i as int], class, armor);
    lemma_filter_member(indices(items.len()), pred, k);
}

/// Every grouping of a partition's report has a candidate as its dominant
/// piece and, as its dominated pieces, the candidates that this one
/// dominates: at least one, and candidates all.
pub proof fn lemma_report_within_candidates(items: Seq<Record>, candidates: Seq<usize>, g: int)
    requires
        0 <= g < groupings(items, candidates).len(),
    ensures
        candidates.contains(groupings(items, candidates)[g].dominant),
        groupings(items, candidates)[g].dominated.len() > 0,
        groupings(items, candidates)[g].dominated == dominated(
            items,
            groupings(items, candidates)[g].dominant,
            candidates,
        ),
        forall|k: int|
            0 <= k < groupings(items, candidates)[g].dominated.len() ==> candidates.contains(
                #[trigger] groupings(items, candidates)[g].dominated[k],
            ),
{
    let make = |a: usize| grouping_of(items, a, candidates);
    let keep = |g: GroupingView| g.dominated.len() > 0;
    let made = candidates.map_values(make);
    let group = groupings(items, candidates)[g];
    lemma_filter_member(made, keep, g);
    let j = choose|j: int| 0 <= j < made.len() && made[j] == group;
    assert(group == grouping_of(items, candidates[j], candidates));
    assert forall|k: int| 0 <= k < group.dominated.len() implies candidates.contains(
        #[trigger] group.dominated[k],
    ) by {
        lemma_dominated_among_candidates(items, group.dominant, candidates, k);
    }
}

/// No exotic piece is named in a report, neither as dominant nor as
/// dominated.
pub proof fn lemma_report_names_no_exotic(items: Seq<Record>, candidates: Seq<usize>, g: int)
    requires
        in_bounds(candidates, items.len()),
        0 <= g < groupings(items, candidates).len(),
    ensures
        !items[groupings(items, candidates)[g].dominant as int].exotic,
        forall|k: int|
            0 <= k < groupings(items, candidates)[g].dominated.len() ==> !items[(
            #[trigger] groupings(items, candidates)[g].dominated[k]) as int].exotic,
{
    let group = groupings(items, candidates)[g];
    lemma_report_within_candidates(items, candidates, g);
    lemma_dominated_among_candidates(items, group.dominant, candidates, 0);
    assert forall|k: int| 0 <= k < group.dominated.len() implies !items[(
    #[trigger] group.dominated[k]) as int].exotic by {
        lemma_dominated_among_candidates(items, group.dominant, candidates, k);
    }
}

/// A partition and its report depend on the pieces of that partition alone:
/// replacing one piece that is outside the partition by another that is
/// outside it too changes neither.
pub proof fn lemma_partition_isolated(
    items: Seq<Record>,
    changed: Seq<Record>,
    at: int,
    class: Class,
    armor: Kind,
)
    requires
        items.len() <= usize::MAX,
        changed.len() == items.len(),
        0 <= at < items.len(),
        forall|i: int| 0 <= i < items.len() && i != at ==> items[i] == changed[i],
        !in_partition(items[at], class, armor),
        !in_partition(changed[at], class, armor),
    ensures
        members(changed, class, armor) == members(items, class, armor),
        groupings(changed, members(changed, class, armor)) == groupings(
            items,
            members(items, class, armor),
        ),
{
    let all = indices(items.len());
    let p = |i: usize| in_partition(items[i as int], class, armor);
    let q = |i: usize| in_partition(changed[i as int], class, armor);
    assert forall|i: int| 0 <= i < all.len() implies p(#[trigger] all[i]) == q(all[i]) by {
        assert(all[i] as int == i);
    }
    lemma_filter_agree(all, p, q);
    let part = members(items, class, armor);
    assert forall|t: int| 0 <= t < part.len() implies part[t] < items.len() && items[part[t] as int]
        == changed[#[trigger] part[t] as int] by {
        lemma_member_belongs(items, class, armor, t);
    }
    let make = |a: usize| grouping_of(items, a, part);
    let remake = |a: usize| grouping_of(changed, a, part);
    assert forall|t: int| 0 <= t < part.len() implies make(#[trigger] part[t]) == remake(
        part[t],
    ) by {
        let a = part[t];
        let dp = |c: usize| dominance(items[a as int], items[c as int]);
        let dq = |c: usize| dominance(changed[a as int], changed[c as int]);
        assert forall|i: int| 0 <= i < part.len() implies dp(#[trigger] part[i]) == dq(part[i]) by {
            assert(items[part[i] as int] == changed[part[i] as int]);
        }
        lemma_filter_agree(part, dp, dq);
    }
    assert(part.map_values(make) =~= part.map_values(remake));
}

/// Every piece named in the report of a partition, as dominant or as
/// dominated, is a piece of the inventory with that class and slot: no
/// piece of another partition takes part.
pub proof fn lemma_report_stays_in_partition(
    items: Seq<Record>,
    class: Class,
    armor: Kind,
    g: int,
)
    requires
        items.len() <= usize::MAX,
        0 <= g < groupings(items, members(items, class, armor)).len(),
    ensures
        ({
            let group = groupings(items, members(items, class, armor))[g];
            &&& group.dominant < items.len()
            &&& in_partition(items[group.dominant as int], class, armor)
            &&& forall|k: int|
                0 <= k < group.dominated.len() ==> (#[trigger] group.dominated[k]) < items.len()
                    && in_partition(items[group.dominated[k] as int], class, armor)
        }),
{
    let part = members(items, class, armor);
    let group = groupings(items, part)[g];
    lemma_report_within_candidates(items, part, g);
    assert forall|c: usize| part.contains(c) implies c < items.len() && in_partition(
        items[c as int],
        class,
        armor,
    ) by {
        let t = choose|t: int| 0 <= t < part.len() && part[t] == c;
        lemma_member_belongs(items, class, armor, t);
    }
    assert forall|k: int| 0 <= k < group.dominated.len() implies (#[trigger] group.dominated[k])
        < items.len() && in_partition(items[group.dominated[k] as int], class, armor) by {
        assert(part.contains(group.dominated[k]));
    }
}

/// The indices of the sequence grow from each position to the next.
pub open spec fn increasing(s: Seq<usize>) -> bool {
    forall|i: int, j: int| 0 <= i < j < s.len() ==> s[i] < s[j]
}

/// Filtering keeps a growing sequence growing.
pub proof fn lemma_filter_increasing(s: Seq<usize>, pred: spec_fn(usize) -> bool)
    requires
        increasing(s),
    ensures
        increasing(s.filter(pred)),
    decreases s.len(),
{
    reveal(Seq::filter);
    if s.len() > 0 {
        let rest = s.drop_last();
        assert(increasing(rest)) by {
            assert forall|i: int, j: int| 0 <= i < j < rest.len() implies rest[i] < rest[j] by {
                assert(rest[i] == s[i] && rest[j] == s[j]);
            }
        }
        lemma_filter_increasing(rest, pred);
        let kept = s.filter(pred);
        assert forall|i: int, j: int| 0 <= i < j < kept.len() implies kept[i] < kept[j] by {
            if j >= rest.filter(pred).len() {
                lemma_filter_member(rest, pred, i);
                let t = choose|t: int| 0 <= t < rest.len() && rest[t] == rest.filter(pred)[i];
                assert(s[t] < s[s.len() - 1]);
            }
        }
    }
}

/// A partition lists its pieces in the order of the inventory, each once.
pub proof fn lemma_members_increasing(items: Seq<Record>, class: Class, armor: Kind)
    requires
        items.len() <= usize::MAX,
    ensures
        increasing(members(items, class, armor)),
{
    let pred = |i: usize| in_partition(items[i as int], class, armor);
    lemma_filter_increasing(indices(items.len()), pred);
}

/// The pieces that a piece dominates come in the order of the candidates.
pub proof fn lemma_dominated_increasing(items: Seq<Record>, item: usize, candidates: Seq<usize>)
    requires
        increasing(candidates),
    ensures
        increasing(dominated(items, item, candidates)),
{
    let pred = |c: usize| dominance(items[item as int], items[c as int]);
    lemma_filter_increasing(candidates, pred);
}

/// The dominant pieces of the groupings built from the pieces `some`, judged
/// among `candidates`, are the pieces of `some` that dominate a candidate.
proof fn lemma_dominants(items: Seq<Record>, some: Seq<usize>, candidates: Seq<usize>)
    ensures
        some.map_values(|a: usize| grouping_of(items, a, candidates)).filter(
            |g: GroupingView| g.dominated.len() > 0,
        ).map_values(|g: GroupingView| g.dominant) == some.filter(
            |a: usize| dominated(items, a, candidates).len() > 0,
        ),
    decreases some.len(),
{
    let make = |a: usize| grouping_of(items, a, candidates);
    let keep = |g: GroupingView| g.dominated.len() > 0;
    let head = |g: GroupingView| g.dominant;
    let has = |a: usize| dominated(items, a, candidates).len() > 0;
    if some.len() == 0 {
        assert(some.map_values(make) =~= Seq::<GroupingView>::empty());
        assert(some.map_values(make).filter(keep).len() == 0) by {
            some.map_values(make).lemma_filter_len(keep);
        }
        assert(some.filter(has).len() == 0) by {
            some.lemma_filter_len(has);
        }
        assert(some.map_values(make).filter(keep).map_values(head) =~= some.filter(has));
    } else {
        let rest = some.drop_last();
        let last = some.last();
        assert(some =~= rest.push(last));
        lemma_dominants(items, rest, candidates);
        rest.lemma_push_map_commute(make, last);
        rest.map_values(make).lemma_filter_push(make(last), keep);
        rest.lemma_filter_push(last, has);
        if keep(make(last)) {
            rest.map_values(make).filter(keep).lemma_push_map_commute(head, make(last));
        }
    }
}

/// In the report of a partition the dominant pieces come in inventory
/// order, so no piece is the dominant one of two groupings.
pub proof fn lemma_one_grouping_per_piece(
    items: Seq<Record>,
    class: Class,
    armor: Kind,
    g: int,
    h: int,
)
    requires
        items.len() <= usize::MAX,
        0 <= g < h < groupings(items, members(items, class, armor)).len(),
    ensures
        groupings(items, members(items, class, armor))[g].dominant < groupings(
            items,
            members(items, class, armor),
        )[h].dominant,
{
    let part = members(items, class, armor);
    let has = |a: usize| dominated(items, a, part).len() > 0;
    let head = |g: GroupingView| g.dominant;
    lemma_dominants(items, part, part);
    lemma_members_increasing(items, class, armor);
    lemma_filter_increasing(part, has);
    let heads = groupings(items, part).map_values(head);
    assert(heads[g] < heads[h]);
}

/// Mapping each element to a sequence and joining the results goes through
/// a concatenation.
pub proof fn lemma_flat_map_add<A, B>(a: Seq<A>, b: Seq<A>, f: spec_fn(A) -> Seq<B>)
    ensures
        (a + b).flat_map(f) == a.flat_map(f) + b.flat_map(f),
    decreases b.len(),
{
    if b.len() == 0 {
        assert(a + b =~= a);
        assert(b.map_values(f) =~= Seq::<Seq<B>>::empty());
        assert(b.flat_map(f) =~= Seq::<B>::empty());
        assert(a.flat_map(f) + b.flat_map(f) =~= a.flat_map(f));
    } else {
        let rest = b.drop_last();
        assert(b =~= rest.push(b.last()));
        assert(a + b =~= (a + rest).push(b.last()));
        lemma_flat_map_add(a, rest, f);
        (a + rest).lemma_flat_map_push(f, b.last());
        rest.lemma_flat_map_push(f, b.last());
        assert((a.flat_map(f) + rest.flat_map(f)) + f(b.last()) =~= a.flat_map(f) + (rest.flat_map(
            f,
        ) + f(b.last())));
    }
}

/// Joining twice is joining once with the joined pieces.
pub proof fn lemma_flat_map_twice<A, B, C>(
    s: Seq<A>,
    f: spec_fn(A) -> Seq<B>,
    g: spec_fn(B) -> Seq<C>,
)
    ensures
        s.flat_map(f).flat_map(g) == s.flat_map(|x: A| f(x).flat_map(g)),
    decreases s.len(),
{
    let both = |x: A| f(x).flat_map(g);
    if s.len() == 0 {
        assert(s.map_values(f) =~= Seq::<Seq<B>>::empty());
        assert(s.flat_map(f) =~= Seq::<B>::empty());
        assert(s.flat_map(f).map_values(g) =~= Seq::<Seq<C>>::empty());
        assert(s.map_values(both) =~= Seq::<Seq<C>>::empty());
        assert(s.flat_map(f).flat_map(g) =~= s.flat_map(both));
    } else {
        let rest = s.drop_last();
        assert(s =~= rest.push(s.last()));
        lemma_flat_map_twice(rest, f, g);
        rest.lemma_flat_map_push(f, s.last());
        lemma_flat_map_add(rest.flat_map(f), f(s.last()), g);
        rest.lemma_flat_map_push(both, s.last());
    }
}

/// The text of a whole report is the text of its partitions, one after
/// another.
pub proof fn lemma_report_text_by_partition(items: Seq<Record>, parts: Seq<Seq<usize>>)
    ensures
        report_text(items, report(items, parts)) == parts.flat_map(
            |part: Seq<usize>| report_text(items, groupings(items, part)),
        ),
{
    let each = |part: Seq<usize>| groupings(items, part);
    let line = |group: GroupingView| grouping_text(items, group);
    lemma_flat_map_twice(parts, each, line);
    let joined = |part: Seq<usize>| each(part).flat_map(line);
    let texts = |part: Seq<usize>| report_text(items, groupings(items, part));
    assert(parts.map_values(joined) =~= parts.map_values(texts));
}

/// The lines of the three classes, in reporting order, are the text of the
/// report of all fifteen partitions.
pub proof fn lemma_class_texts_are_report_text(items: Seq<Record>)
    ensures
        class_text(items, Class::Warlock) + class_text(items, Class::Hunter) + class_text(
            items,
            Class::Titan,
        ) == report_text(items, report(items, partitions(items))),
{
    let parts = partitions(items);
    let texts = |part: Seq<usize>| report_text(items, groupings(items, part));
    lemma_report_text_by_partition(items, parts);
    let of_class = |class: Class|
        kind_order().map_values(|armor: Kind| members(items, class, armor));
    let w = of_class(Class::Warlock);
    let h = of_class(Class::Hunter);
    let t = of_class(Class::Titan);
    assert(parts =~= w + h + t);
    lemma_flat_map_add(w + h, t, texts);
    lemma_flat_map_add(w, h, texts);
    assert forall|class: Class| #[trigger] of_class(class).flat_map(texts) == class_text(
        items,
        class,
    ) by {
        let here = |armor: Kind| partition_text(items, class, armor);
        assert(of_class(class).map_values(texts) =~= kind_order().map_values(here));
    }
}

} // verus!
