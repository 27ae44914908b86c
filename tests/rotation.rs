use kart_randomizer::rotation::{ConfigError, RotationCursor};

fn names(list: &[&str]) -> Vec<String> {
    list.iter().map(|s| s.to_string()).collect()
}

#[test]
fn three_maps_cycle_then_reshuffle() {
    let mut c = RotationCursor::new(names(&["A", "B", "C"])).unwrap();
    let no_draws: Vec<u64> = Vec::new();
    let mut seen = Vec::new();
    for _ in 0..3 {
        seen.push(c.current(&no_draws));
        c.advance();
    }
    seen.sort();
    assert_eq!(seen, names(&["A", "B", "C"]));
    assert_eq!(c.position(), 3);
    let fourth = c.current(&vec![2, 1, 0]);
    assert_eq!(c.position(), 0);
    assert!(["A", "B", "C"].contains(&fourth.as_str()));
    let mut after = c.maps().clone();
    after.sort();
    assert_eq!(after, names(&["A", "B", "C"]));
}

#[test]
fn fresh_cursor_shows_list_in_order() {
    let mut c = RotationCursor::new(names(&["A", "B", "C", "D"])).unwrap();
    let draws = vec![3, 3, 3, 3];
    for expected in ["A", "B", "C", "D"] {
        assert_eq!(c.current(&draws), expected);
        c.advance();
    }
    assert_eq!(c.maps(), &names(&["A", "B", "C", "D"]));
}

#[test]
fn reshuffle_follows_the_draws() {
    let mut c = RotationCursor::new(names(&["A", "B", "C"])).unwrap();
    for _ in 0..3 {
        c.advance();
    }
    // Step 0 swaps 0 and 1, step 1 swaps 1 and 2, step 2 keeps 2.
    assert_eq!(c.current(&vec![1, 1, 0]), "B");
    assert_eq!(c.maps(), &names(&["B", "C", "A"]));
    assert_eq!(c.position(), 0);
}

#[test]
fn reading_twice_returns_same_map() {
    let mut c = RotationCursor::new(names(&["A", "B", "C"])).unwrap();
    c.advance();
    assert_eq!(c.current(&vec![1, 1, 1]), "B");
    assert_eq!(c.current(&vec![2, 0, 0]), "B");
    assert_eq!(c.position(), 1);
    c.advance();
    c.advance();
    let first = c.current(&vec![2, 0, 0]);
    let second = c.current(&vec![1, 1, 0]);
    assert_eq!(first, "C");
    assert_eq!(first, second);
    assert_eq!(c.maps(), &names(&["C", "B", "A"]));
}

#[test]
fn empty_map_list_is_rejected() {
    assert_eq!(RotationCursor::new(Vec::new()).err(), Some(ConfigError::EmptyMapList));
}

#[test]
fn single_map_repeats_across_reshuffle() {
    let mut c = RotationCursor::new(names(&["Only"])).unwrap();
    assert_eq!(c.len(), 1);
    assert_eq!(c.current(&vec![9]), "Only");
    c.advance();
    assert_eq!(c.current(&vec![9]), "Only");
    assert_eq!(c.position(), 0);
}
