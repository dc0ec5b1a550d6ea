//! The report as text: one line for each piece that dominates another.

use vstd::prelude::*;
use vstd::string::*;
use crate::display::record_text;
use crate::partition::{in_bounds, kind_at, kind_order, members, members_of};
use crate::record::{Class, Kind, Record};
use crate::report::{
    group_in_bounds,
    groupings,
    groups_in_bounds,
    partition_report,
    views,
    Grouping,
    GroupingView,
};

verus! {

/// The dominated pieces of a line: each followed by a comma and a space.
pub open spec fn worse_text(items: Seq<Record>, worse: Seq<usize>) -> Seq<char> {
    worse.flat_map(|c: usize| record_text(items[c as int]) + ", "@)
}

/// One line: the dominant piece, the phrase, the dominated pieces, a line end.
pub open spec fn grouping_text(items: Seq<Record>, group: GroupingView) -> Seq<char> {
    record_text(items[group.dominant as int]) + " is objectively better than "@ + worse_text(
        items,
        group.dominated,
    ) + "\n"@
}

/// The lines of a list of groupings, in order.
pub open spec fn report_text(items: Seq<Record>, groups: Seq<GroupingView>) -> Seq<char> {
    groups.flat_map(|group: GroupingView| grouping_text(items, group))
}

/// The lines of the partition of one class and slot.
pub open spec fn partition_text(items: Seq<Record>, class: Class, armor: Kind) -> Seq<char> {
    report_text(items, groupings(items, members(items, class, armor)))
}

/// The lines of one class: those of its five slots, in reporting order.
pub open spec fn class_text(items: Seq<Record>, class: Class) -> Seq<char> {
    kind_order().flat_map(|armor: Kind| partition_text(items, class, armor))
}

/// The line of one grouping.
pub fn render_grouping(items: &Vec<Record>, group: &Grouping) -> (text: String)
    requires
        group_in_bounds(group@, items@.len()),
    ensures
        text@ == grouping_text(items@, group@),
{
    let ghost each = |c: usize| record_text(items@[c as int]) + ", "@;
    let ghost worse = group.dominated@;
    let mut text = items[group.dominant].display();
    text.append(" is objectively better than ");
    let ghost head = text@;
    let mut i: usize = 0;
    assert(worse.take(0).flat_map(each) =~= Seq::<char>::empty());
    assert(text@ =~= head + worse.take(0).flat_map(each));
    while i < group.dominated.len()
        invariant
            i <= group.dominated.len(),
            worse == group.dominated@,
            in_bounds(worse, items@.len()),
            each == |c: usize| record_text(items@[c as int]) + ", "@,
            text@ == head + worse.take(i as int).flat_map(each),
        decreases group.dominated.len() - i,
    {
        let other = items[group.dominated[i]].display();
        proof {
            worse.lemma_take_succ_push(i as int);
            worse.take(i as int).lemma_flat_map_push(each, worse[i as int]);
        }
        text.append(other.as_str());
        text.append(", ");
        i += 1;
        assert(text@ =~= head + worse.take(i as int).flat_map(each));
    }
    proof {
        worse.lemma_take_len();
    }
    text.append("\n");
    text
}

/// The lines of a list of groupings.
pub fn render_report(items: &Vec<Record>, groups: &Vec<Grouping>) -> (text: String)
    requires
        groups_in_bounds(views(groups@), items@.len()),
    ensures
        text@ == report_text(items@, views(groups@)),
{
    let ghost each = |group: GroupingView| grouping_text(items@, group);
    let ghost all = views(groups@);
    let mut text = String::new();
    let mut i: usize = 0;
    assert(text@ =~= all.take(0).flat_map(each));
    while i < groups.len()
        invariant
            i <= groups.len(),
            all == views(groups@),
            groups_in_bounds(all, items@.len()),
            each == |group: GroupingView| grouping_text(items@, group),
            text@ == all.take(i as int).flat_map(each),
        decreases groups.len() - i,
    {
        assert(all[i as int] == groups@[i as int]@);
        let line = render_grouping(items, &groups[i]);
        proof {
            all.lemma_take_succ_push(i as int);
            all.take(i as int).lemma_flat_map_push(each, all[i as int]);
        }
        text.append(line.as_str());
        i += 1;
    }
    proof {
        all.lemma_take_len();
    }
    text
}

/// The lines for one class and slot: each piece of that partition that
/// dominates another, with the pieces it dominates.
pub fn print_heirarchy_of_type(vault: &Vec<Record>, character_type: &Class, gear_slot: Kind) -> (text:
    String)
    ensures
        text@ == partition_text(vault@, *character_type, gear_slot),
{
    let vault_filtered = members_of(vault, *character_type, gear_slot);
    let groups = partition_report(vault, &vault_filtered);
    render_report(vault, &groups)
}

/// The lines for one class: those of its helmets, arms, chests, legs and
/// bonds, in that order.
pub fn print_full_gear_heirarchy(vault: &Vec<Record>, character_type: Class) -> (text: String)
    ensures
        text@ == class_text(vault@, character_type),
{
    let ghost each = |armor: Kind| partition_text(vault@, character_type, armor);
    let mut text = String::new();
    let mut k: usize = 0;
    assert(text@ =~= kind_order().take(0).flat_map(each));
    while k < 5
        invariant
            k <= 5,
            each == |armor: Kind| partition_text(vault@, character_type, armor),
            text@ == kind_order().take(k as int).flat_map(each),
        decreases 5 - k,
    {
        let lines = print_heirarchy_of_type(vault, &character_type, kind_at(k));
        proof {
            kind_order().lemma_take_succ_push(k as int);
            kind_order().take(k as int).lemma_flat_map_push(each, kind_order()[k as int]);
        }
        text.append(lines.as_str());
        k += 1;
    }
    proof {
        kind_order().lemma_take_len();
    }
    text
}

} // verus!
