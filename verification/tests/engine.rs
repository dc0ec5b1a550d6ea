use scrap_advisor::dominance::{dominated_by, dominates};
use scrap_advisor::partition::{class_at, kind_at, members_of, partition, PARTITION_COUNT};
use scrap_advisor::record::{Class, Kind, Record};
use scrap_advisor::report::{build_report, partition_report, Grouping};
use scrap_advisor::stats::Stats;

fn stats(v: [i8; 6]) -> Stats {
    Stats {
        mobility: v[0],
        resilience: v[1],
        recovery: v[2],
        discipline: v[3],
        intelligence: v[4],
        strength: v[5],
    }
}

fn piece(name: &str, class: Class, armor: Kind, exotic: bool, v: [i8; 6]) -> Record {
    Record { name: name.to_string(), id: 1, armor, class, exotic, stat_array: stats(v) }
}

fn helmet(name: &str, exotic: bool, v: [i8; 6]) -> Record {
    piece(name, Class::Warlock, Kind::Helmet, exotic, v)
}

fn full_report(items: &Vec<Record>) -> Vec<(usize, Vec<usize>)> {
    let parts = partition(items);
    build_report(items, &parts).into_iter().map(|g: Grouping| (g.dominant, g.dominated)).collect()
}

#[test]
fn collective_ge_compares_every_attribute() {
    let a = stats([10, 10, 10, 10, 10, 10]);
    let b = stats([5, 5, 5, 5, 5, 5]);
    assert!(a.collective_ge(&b));
    assert!(!b.collective_ge(&a));
    assert!(a.collective_ge(&a));
    for k in 0..6 {
        let mut v = [10i8; 6];
        v[k] = 11;
        assert!(!a.collective_ge(&stats(v)));
        assert!(stats(v).collective_ge(&a));
    }
    assert!(stats([-128, 0, 0, 0, 0, 0]).collective_ge(&stats([-128, 0, 0, 0, 0, 0])));
    assert!(!stats([-128, 0, 0, 0, 0, 0]).collective_ge(&stats([127, 0, 0, 0, 0, 0])));
}

#[test]
fn one_piece_better_everywhere_dominates() {
    let items = vec![helmet("A", false, [10; 6]), helmet("B", false, [5; 6])];
    assert_eq!(full_report(&items), vec![(0, vec![1])]);
}

#[test]
fn exotic_victim_is_not_reported() {
    let items = vec![helmet("A", false, [10; 6]), helmet("B", true, [5; 6])];
    assert_eq!(full_report(&items), vec![]);
    let parts = partition(&items);
    assert_eq!(partition_report(&items, &parts[0]).len(), 0);
}

#[test]
fn incomparable_pieces_are_not_reported() {
    let items = vec![
        helmet("A", false, [10, 5, 10, 10, 10, 10]),
        helmet("B", false, [5, 10, 10, 10, 10, 10]),
    ];
    assert!(!dominates(&items[0], &items[1]));
    assert!(!dominates(&items[1], &items[0]));
    assert_eq!(full_report(&items), vec![]);
}

#[test]
fn chain_of_three_reports_direct_dominance() {
    let items = vec![
        helmet("A", false, [10; 6]),
        helmet("B", false, [7; 6]),
        helmet("C", false, [3; 6]),
    ];
    assert_eq!(full_report(&items), vec![(0, vec![1, 2]), (1, vec![2])]);
    let all = vec![0, 1, 2];
    assert!(!dominated_by(&items, 1, &all).contains(&0));
    assert!(!dominated_by(&items, 2, &all).contains(&0));
    assert_eq!(dominated_by(&items, 2, &all), Vec::<usize>::new());
}

#[test]
fn empty_inventory_gives_empty_report() {
    let items: Vec<Record> = Vec::new();
    let parts = partition(&items);
    assert_eq!(parts.len(), PARTITION_COUNT);
    assert!(parts.iter().all(|p| p.is_empty()));
    assert_eq!(full_report(&items), vec![]);
}

#[test]
fn a_piece_is_never_among_those_it_dominates() {
    let items = vec![
        helmet("A", false, [10; 6]),
        helmet("A", false, [10; 6]),
        helmet("B", false, [5; 6]),
        helmet("X", true, [1; 6]),
    ];
    let all = vec![0, 1, 2, 3];
    for i in 0..items.len() {
        let worse = dominated_by(&items, i, &all);
        assert!(!worse.contains(&i));
    }
    assert_eq!(dominated_by(&items, 0, &all), vec![2]);
    assert_eq!(dominated_by(&items, 1, &all), vec![2]);
}

#[test]
fn exotic_pieces_stay_out_both_ways() {
    let strong = helmet("S", true, [20; 6]);
    let weak = helmet("W", false, [1; 6]);
    assert!(!dominates(&strong, &weak));
    assert!(!dominates(&weak, &strong));
    let strong_plain = helmet("S", false, [20; 6]);
    let weak_exotic = helmet("W", true, [1; 6]);
    assert!(!dominates(&strong_plain, &weak_exotic));
    assert!(!dominates(&weak_exotic, &strong_plain));
    let both = helmet("E", true, [1; 6]);
    assert!(!dominates(&strong, &both));
    assert!(dominates(&strong_plain, &weak));
}

#[test]
fn equal_stats_do_not_dominate() {
    let a = helmet("A", false, [4, 5, 6, 7, 8, 9]);
    let b = helmet("B", false, [4, 5, 6, 7, 8, 9]);
    assert!(!dominates(&a, &b));
    assert!(!dominates(&b, &a));
    assert!(!dominates(&a, &a));
    assert_eq!(full_report(&vec![a, b]), vec![]);
}

#[test]
fn one_attribute_suffices() {
    let a = helmet("A", false, [4, 5, 6, 7, 8, 10]);
    let b = helmet("B", false, [4, 5, 6, 7, 8, 9]);
    assert!(dominates(&a, &b));
    assert!(!dominates(&b, &a));
}

#[test]
fn partitions_keep_apart() {
    let mut items = vec![
        helmet("A", false, [10; 6]),
        piece("T", Class::Titan, Kind::Helmet, false, [1; 6]),
        piece("G", Class::Warlock, Kind::Arms, false, [1; 6]),
        helmet("B", false, [5; 6]),
    ];
    let before = full_report(&items);
    assert_eq!(before, vec![(0, vec![3])]);
    items[1].stat_array = stats([127; 6]);
    items[2].stat_array = stats([-128; 6]);
    items[2].exotic = true;
    assert_eq!(full_report(&items), before);
    assert_eq!(members_of(&items, Class::Warlock, Kind::Helmet), vec![0, 3]);
    assert_eq!(members_of(&items, Class::Titan, Kind::Helmet), vec![1]);
    assert_eq!(members_of(&items, Class::Warlock, Kind::Arms), vec![2]);
    assert_eq!(members_of(&items, Class::Hunter, Kind::Bond), Vec::<usize>::new());
}

#[test]
fn report_is_the_same_each_time() {
    let items = vec![
        helmet("A", false, [10; 6]),
        helmet("B", false, [7; 6]),
        piece("C", Class::Hunter, Kind::Legs, false, [3; 6]),
        piece("D", Class::Hunter, Kind::Legs, false, [2; 6]),
    ];
    let first = full_report(&items);
    let second = full_report(&items);
    assert_eq!(first, second);
    assert_eq!(first, vec![(0, vec![1]), (2, vec![3])]);
}

#[test]
fn partitions_come_in_reporting_order() {
    let order: Vec<(Class, Kind)> =
        (0..PARTITION_COUNT).map(|k| (class_at(k / 5), kind_at(k % 5))).collect();
    assert_eq!(order[0], (Class::Warlock, Kind::Helmet));
    assert_eq!(order[1], (Class::Warlock, Kind::Arms));
    assert_eq!(order[2], (Class::Warlock, Kind::Chest));
    assert_eq!(order[3], (Class::Warlock, Kind::Legs));
    assert_eq!(order[4], (Class::Warlock, Kind::Bond));
    assert_eq!(order[5], (Class::Hunter, Kind::Helmet));
    assert_eq!(order[10], (Class::Titan, Kind::Helmet));
    assert_eq!(order[14], (Class::Titan, Kind::Bond));
    let items = vec![
        piece("t2", Class::Titan, Kind::Bond, false, [1; 6]),
        piece("t1", Class::Titan, Kind::Bond, false, [2; 6]),
        piece("h2", Class::Hunter, Kind::Helmet, false, [1; 6]),
        piece("h1", Class::Hunter, Kind::Helmet, false, [2; 6]),
        piece("w2", Class::Warlock, Kind::Chest, false, [1; 6]),
        piece("w1", Class::Warlock, Kind::Chest, false, [2; 6]),
    ];
    let parts = partition(&items);
    assert_eq!(parts[2], vec![4, 5]);
    assert_eq!(parts[5], vec![2, 3]);
    assert_eq!(parts[14], vec![0, 1]);
    assert_eq!(full_report(&items), vec![(5, vec![4]), (3, vec![2]), (1, vec![0])]);
}
