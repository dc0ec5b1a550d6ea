use scrap_advisor::partition::{members_of, partition};
use scrap_advisor::record::{Class, Kind, Record};
use scrap_advisor::render::{
    print_full_gear_heirarchy, print_heirarchy_of_type, render_grouping, render_report,
};
use scrap_advisor::report::{build_report, partition_report, Grouping};
use scrap_advisor::stats::Stats;

fn stats(v: [i8; 6]) -> Stats {
    Stats {
        mobility: v[0],
        resilience: v[1],
        recovery: v[2],
        discipline: v[3],
        intelligence: v[4],
        strength: v[5],
    }
}

fn piece(name: &str, class: Class, armor: Kind, exotic: bool, v: [i8; 6]) -> Record {
    Record { name: name.to_string(), id: 9, armor, class, exotic, stat_array: stats(v) }
}

#[test]
fn stats_display_pads_to_two() {
    assert_eq!(stats([10, 5, 0, 127, -1, -128]).display(), "(10 5  0  127 -1 -128)");
    assert_eq!(stats([0; 6]).display(), "(0  0  0  0  0  0 )");
    assert_eq!(stats([9, 10, 99, 100, -9, -10]).display(), "(9  10 99 100 -9 -10)");
}

#[test]
fn stats_display_matches_std_formatting() {
    for v in i8::MIN..=i8::MAX {
        let s = stats([v, 0, v, 1, v, -1]);
        let expected = format!("({:<2} {:<2} {:<2} {:<2} {:<2} {:<2})", v, 0, v, 1, v, -1);
        assert_eq!(s.display(), expected);
    }
}

#[test]
fn record_display_marks_exotics() {
    let plain = piece("Aeon Swift", Class::Hunter, Kind::Arms, false, [2, 10, 20, 7, 12, 6]);
    assert_eq!(plain.display(), "Aeon Swift (2  10 20 7  12 6 )");
    let exotic = piece("Crown", Class::Warlock, Kind::Helmet, true, [1, 2, 3, 4, 5, 6]);
    assert_eq!(exotic.display(), "*Crown (1  2  3  4  5  6 )");
    let nameless = piece("", Class::Titan, Kind::Bond, false, [0; 6]);
    assert_eq!(nameless.display(), " (0  0  0  0  0  0 )");
}

#[test]
fn render_grouping_writes_one_line() {
    let items = vec![
        piece("A", Class::Warlock, Kind::Helmet, false, [10; 6]),
        piece("B", Class::Warlock, Kind::Helmet, false, [7; 6]),
        piece("C", Class::Warlock, Kind::Helmet, false, [3; 6]),
    ];
    let group = Grouping { dominant: 0, dominated: vec![1, 2] };
    assert_eq!(
        render_grouping(&items, &group),
        "A (10 10 10 10 10 10) is objectively better than B (7  7  7  7  7  7 ), C (3  3  3  3  3  3 ), \n"
    );
    let none = Grouping { dominant: 2, dominated: vec![] };
    assert_eq!(render_grouping(&items, &none), "C (3  3  3  3  3  3 ) is objectively better than \n");
}

#[test]
fn render_report_joins_the_lines() {
    let items = vec![
        piece("A", Class::Warlock, Kind::Helmet, false, [10; 6]),
        piece("B", Class::Warlock, Kind::Helmet, false, [7; 6]),
        piece("C", Class::Warlock, Kind::Helmet, false, [3; 6]),
    ];
    let parts = partition(&items);
    let groups = build_report(&items, &parts);
    assert_eq!(
        render_report(&items, &groups),
        "A (10 10 10 10 10 10) is objectively better than B (7  7  7  7  7  7 ), C (3  3  3  3  3  3 ), \n\
         B (7  7  7  7  7  7 ) is objectively better than C (3  3  3  3  3  3 ), \n"
    );
    assert_eq!(render_report(&items, &Vec::new()), "");
}

#[test]
fn print_heirarchy_of_type_covers_one_partition() {
    let items = vec![
        piece("A", Class::Warlock, Kind::Helmet, false, [10; 6]),
        piece("T", Class::Titan, Kind::Helmet, false, [1; 6]),
        piece("B", Class::Warlock, Kind::Helmet, false, [5; 6]),
        piece("X", Class::Warlock, Kind::Helmet, true, [1; 6]),
    ];
    assert_eq!(
        print_heirarchy_of_type(&items, &Class::Warlock, Kind::Helmet),
        "A (10 10 10 10 10 10) is objectively better than B (5  5  5  5  5  5 ), \n"
    );
    assert_eq!(print_heirarchy_of_type(&items, &Class::Titan, Kind::Helmet), "");
    assert_eq!(print_heirarchy_of_type(&items, &Class::Hunter, Kind::Legs), "");
    let part = members_of(&items, Class::Warlock, Kind::Helmet);
    let groups = partition_report(&items, &part);
    assert_eq!(
        render_report(&items, &groups),
        print_heirarchy_of_type(&items, &Class::Warlock, Kind::Helmet)
    );
}

#[test]
fn print_full_gear_heirarchy_goes_slot_by_slot() {
    let items = vec![
        piece("bond2", Class::Titan, Kind::Bond, false, [1; 6]),
        piece("legs2", Class::Titan, Kind::Legs, false, [1; 6]),
        piece("helm2", Class::Titan, Kind::Helmet, false, [1; 6]),
        piece("bond1", Class::Titan, Kind::Bond, false, [2; 6]),
        piece("legs1", Class::Titan, Kind::Legs, false, [2; 6]),
        piece("helm1", Class::Titan, Kind::Helmet, false, [2; 6]),
        piece("other", Class::Hunter, Kind::Helmet, false, [0; 6]),
    ];
    assert_eq!(
        print_full_gear_heirarchy(&items, Class::Titan),
        "helm1 (2  2  2  2  2  2 ) is objectively better than helm2 (1  1  1  1  1  1 ), \n\
         legs1 (2  2  2  2  2  2 ) is objectively better than legs2 (1  1  1  1  1  1 ), \n\
         bond1 (2  2  2  2  2  2 ) is objectively better than bond2 (1  1  1  1  1  1 ), \n"
    );
    assert_eq!(print_full_gear_heirarchy(&items, Class::Hunter), "");
    assert_eq!(print_full_gear_heirarchy(&items, Class::Warlock), "");
    assert_eq!(print_full_gear_heirarchy(&Vec::new(), Class::Warlock), "");
}
