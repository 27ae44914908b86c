use kart_randomizer::loadout::{
    combine_loadout, sample, CategoryTable, DataError, LoadoutTables, STAT_LIMIT,
};
use kart_randomizer::profile::StatProfile;

fn item(name: &str, s: i64, a: i64, w: i64, h: i64, t: i64) -> StatProfile {
    StatProfile::new(name.to_string(), s, a, w, h, t)
}

fn same(p: &StatProfile, q: &StatProfile) -> bool {
    p.name == q.name
        && p.speed == q.speed
        && p.acceleration == q.acceleration
        && p.weight == q.weight
        && p.handling == q.handling
        && p.traction == q.traction
}

fn one_row_tables() -> LoadoutTables {
    LoadoutTables::new(
        CategoryTable::new(vec![item("Mario", 1, 2, 3, 4, 5)]),
        CategoryTable::new(vec![item("Kart", 1, 1, 1, 1, 1)]),
        CategoryTable::new(vec![item("Slim", 0, 0, 0, 0, 0)]),
        CategoryTable::new(vec![item("Leaf", 0, 0, 0, 0, 0)]),
    )
}

#[test]
fn single_row_tables_give_fixed_loadout() {
    let tables = one_row_tables();
    for draws in [[0u64, 0, 0, 0], [7, 123, u64::MAX, 42]] {
        let p = combine_loadout(&tables, draws[0], draws[1], draws[2], draws[3]).unwrap();
        assert_eq!(p.name, "Mario, Kart, Slim, Leaf");
        assert_eq!(p.speed, 2);
        assert_eq!(p.acceleration, 3);
        assert_eq!(p.weight, 4);
        assert_eq!(p.handling, 5);
        assert_eq!(p.traction, 6);
    }
}

#[test]
fn empty_profile_is_identity_of_combine() {
    let x = item("Yoshi", -3, 7, 0, 12, 9);
    let r = StatProfile::empty().combine(&x);
    assert!(same(&r, &x));
    assert!(!r.name.starts_with(','));
    let copy = x.duplicate();
    assert!(same(&copy, &x));
}

#[test]
fn combine_joins_names_and_adds_stats() {
    let a = item("Peach", 1, 2, 3, 4, 5);
    let b = item("Bike", 10, 20, 30, 40, 50);
    let r = a.combine(&b);
    assert_eq!(r.name, "Peach, Bike");
    assert_eq!((r.speed, r.acceleration, r.weight, r.handling, r.traction), (11, 22, 33, 44, 55));
    let unnamed = item("", 1, 1, 1, 1, 1);
    assert_eq!(unnamed.combine(&b).name, "Bike");
}

#[test]
fn sample_returns_the_drawn_row() {
    let rows = abc_rows();
    let table = CategoryTable::new(abc_rows());
    for draw in 0u64..10 {
        let p = sample(&table, draw).unwrap();
        assert!(same(&p, &rows[(draw % 3) as usize]));
        assert!(rows.iter().any(|r| same(r, &p)));
        assert!(!same(&p, &StatProfile::empty()));
    }
}

fn abc_rows() -> Vec<StatProfile> {
    vec![item("A", 1, 0, 0, 0, 0), item("B", 2, 0, 0, 0, 0), item("C", 3, 0, 0, 0, 0)]
}

#[test]
fn sample_of_empty_table_fails() {
    let table = CategoryTable::new(Vec::new());
    assert_eq!(table.len(), 0);
    assert_eq!(sample(&table, 5).unwrap_err(), DataError::EmptyTable);
}

#[test]
fn sample_rejects_row_out_of_range() {
    let table = CategoryTable::new(vec![
        item("Fine", 1, 1, 1, 1, 1),
        item("Huge", 0, 0, STAT_LIMIT + 1, 0, 0),
    ]);
    assert_eq!(sample(&table, 0).unwrap_err(), DataError::StatOutOfRange);
    let edge = CategoryTable::new(vec![item("Edge", STAT_LIMIT, -STAT_LIMIT, 0, 0, 0)]);
    assert_eq!(sample(&edge, 0).unwrap().speed, STAT_LIMIT);
}

#[test]
fn loadout_sums_four_drawn_items() {
    let tables = LoadoutTables::new(
        CategoryTable::new(vec![item("Mario", 1, 2, 3, 4, 5), item("Luigi", 2, 2, 2, 2, 2)]),
        CategoryTable::new(vec![item("Kart", 1, 1, 1, 1, 1), item("Bike", 3, 0, 1, 2, 0)]),
        CategoryTable::new(vec![item("Slim", 0, 1, 0, 1, 0), item("Roller", 1, 0, 1, 0, 1)]),
        CategoryTable::new(vec![item("Leaf", 0, 0, 1, 0, 0), item("Wing", 1, 1, 0, 0, 0)]),
    );
    let p = combine_loadout(&tables, 1, 2, 3, 4).unwrap();
    assert_eq!(p.name, "Luigi, Kart, Roller, Leaf");
    assert_eq!((p.speed, p.acceleration, p.weight, p.handling, p.traction), (4, 3, 5, 3, 4));
}

#[test]
fn loadout_reports_first_failing_table() {
    let tables = LoadoutTables::new(
        CategoryTable::new(vec![item("Mario", 1, 2, 3, 4, 5)]),
        CategoryTable::new(vec![item("Kart", -STAT_LIMIT - 1, 0, 0, 0, 0)]),
        CategoryTable::new(Vec::new()),
        CategoryTable::new(vec![item("Leaf", 0, 0, 0, 0, 0)]),
    );
    assert_eq!(combine_loadout(&tables, 0, 0, 0, 0).unwrap_err(), DataError::StatOutOfRange);
    let tables = LoadoutTables::new(
        CategoryTable::new(vec![item("Mario", 1, 2, 3, 4, 5)]),
        CategoryTable::new(vec![item("Kart", 1, 1, 1, 1, 1)]),
        CategoryTable::new(Vec::new()),
        CategoryTable::new(vec![item("Leaf", 0, 0, 0, 0, 0)]),
    );
    assert_eq!(combine_loadout(&tables, 0, 0, 0, 0).unwrap_err(), DataError::EmptyTable);
}

#[test]
fn loadout_at_stat_limit_does_not_overflow() {
    let big = || CategoryTable::new(vec![item("Max", STAT_LIMIT, -STAT_LIMIT, STAT_LIMIT, 0, 1)]);
    let tables = LoadoutTables::new(big(), big(), big(), big());
    let p = combine_loadout(&tables, 0, 0, 0, 0).unwrap();
    assert_eq!(p.speed, 4 * STAT_LIMIT);
    assert_eq!(p.acceleration, -4 * STAT_LIMIT);
    assert_eq!(p.traction, 4);
    assert_eq!(p.name, "Max, Max, Max, Max");
}
