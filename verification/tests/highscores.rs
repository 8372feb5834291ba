use super_jumper::highscores::{check_and_update_highscores, HighScores};

fn table(values: [u32; 5]) -> HighScores {
    HighScores(values.to_vec())
}

#[test]
fn insert_lower_than_all_leaves_table() {
    let mut hs = table([100, 80, 50, 30, 10]);
    let recorded = check_and_update_highscores(&mut hs, 5);
    assert!(!recorded);
    assert_eq!(hs.0, vec![100, 80, 50, 30, 10]);
}

#[test]
fn insert_equal_to_minimum_is_no_record() {
    let mut hs = table([100, 80, 50, 30, 10]);
    let recorded = check_and_update_highscores(&mut hs, 10);
    assert!(!recorded);
    assert_eq!(hs.0, vec![100, 80, 50, 30, 10]);
}

#[test]
fn insert_middle_shifts_only_tail() {
    let mut hs = table([100, 80, 50, 30, 10]);
    let recorded = check_and_update_highscores(&mut hs, 60);
    assert!(recorded);
    assert_eq!(hs.0, vec![100, 80, 60, 50, 30]);
}

#[test]
fn insert_above_all_takes_first_slot() {
    let mut hs = table([100, 80, 50, 30, 10]);
    let recorded = check_and_update_highscores(&mut hs, 200);
    assert!(recorded);
    assert_eq!(hs.0, vec![200, 100, 80, 50, 30]);
}

#[test]
fn insert_beats_only_minimum() {
    let mut hs = table([100, 80, 50, 30, 10]);
    let recorded = check_and_update_highscores(&mut hs, 11);
    assert!(recorded);
    assert_eq!(hs.0, vec![100, 80, 50, 30, 11]);
}

#[test]
fn table_size_constant_after_many_insertions() {
    let mut hs = HighScores::default_table();
    for score in [3, 7, 1000, 42, 999, 0, 500, 500, 500, 1] {
        check_and_update_highscores(&mut hs, score);
        assert_eq!(hs.0.len(), 5);
    }
    // Still descending after the churn.
    for w in hs.0.windows(2) {
        assert!(w[0] >= w[1]);
    }
}

#[test]
fn default_table_is_descending() {
    let hs = HighScores::default_table();
    assert_eq!(hs.0, vec![100, 80, 50, 30, 10]);
}
