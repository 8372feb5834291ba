use super_jumper::settings::{parse_settings, read_settings, render_settings};

#[test]
fn parse_valid_store() {
    let bytes = b"true\n100\n80\n50\n30\n10\n".to_vec();
    let s = parse_settings(&bytes).expect("valid store");
    assert!(s.sound_enabled);
    assert_eq!(s.high_scores, vec![100, 80, 50, 30, 10]);
}

#[test]
fn parse_sound_off() {
    let bytes = b"false\n1\n2\n3\n4\n5\n".to_vec();
    let s = parse_settings(&bytes).expect("valid store");
    assert!(!s.sound_enabled);
    assert_eq!(s.high_scores, vec![1, 2, 3, 4, 5]);
}

#[test]
fn parse_bad_flag_line_is_rejected() {
    let bytes = b"yes\n1\n2\n3\n4\n5\n".to_vec();
    assert!(parse_settings(&bytes).is_none());
}

#[test]
fn parse_empty_store_is_rejected() {
    assert!(parse_settings(&Vec::new()).is_none());
}

#[test]
fn parse_missing_final_score_is_rejected() {
    // Only four score lines: the last required line never parses.
    let bytes = b"true\n1\n2\n3\n4\n".to_vec();
    assert!(parse_settings(&bytes).is_none());
}

#[test]
fn parse_unreadable_middle_score_reads_as_zero() {
    let bytes = b"true\nxx\n2\n3\n4\n5\n".to_vec();
    let s = parse_settings(&bytes).expect("tolerated store");
    assert_eq!(s.high_scores, vec![0, 2, 3, 4, 5]);
}

#[test]
fn parse_trailing_garbage_is_rejected() {
    let bytes = b"true\n1\n2\n3\n4\n5\nextra\n".to_vec();
    assert!(parse_settings(&bytes).is_none());
}

#[test]
fn parse_trailing_blank_lines_are_tolerated() {
    let bytes = b"true\n1\n2\n3\n4\n5\n\n\n".to_vec();
    let s = parse_settings(&bytes).expect("valid store");
    assert_eq!(s.high_scores, vec![1, 2, 3, 4, 5]);
}

#[test]
fn parse_crlf_line_endings() {
    let bytes = b"true\r\n10\r\n9\r\n8\r\n7\r\n6\r\n".to_vec();
    let s = parse_settings(&bytes).expect("valid store");
    assert!(s.sound_enabled);
    assert_eq!(s.high_scores, vec![10, 9, 8, 7, 6]);
}

#[test]
fn parse_plus_prefix_and_overflow() {
    let ok = b"true\n+1\n2\n3\n4\n5\n".to_vec();
    let s = parse_settings(&ok).expect("plus accepted");
    assert_eq!(s.high_scores[0], 1);

    // A score beyond u32 cannot parse; in the middle it reads as zero.
    let over = b"true\n99999999999\n2\n3\n4\n5\n".to_vec();
    let s = parse_settings(&over).expect("overflow tolerated mid-table");
    assert_eq!(s.high_scores[0], 0);

    // In the required last line it rejects the store.
    let over_last = b"true\n1\n2\n3\n4\n99999999999\n".to_vec();
    assert!(parse_settings(&over_last).is_none());
}

#[test]
fn read_settings_missing_store_gives_defaults() {
    let s = read_settings(None);
    assert!(s.sound_enabled);
    assert_eq!(s.high_scores, vec![100, 80, 50, 30, 10]);
}

#[test]
fn read_settings_corrupt_store_gives_defaults() {
    let bytes = b"garbage".to_vec();
    let s = read_settings(Some(&bytes));
    assert!(s.sound_enabled);
    assert_eq!(s.high_scores, vec![100, 80, 50, 30, 10]);
}

#[test]
fn render_matches_stored_format() {
    let scores = vec![100, 80, 50, 30, 10];
    let bytes = render_settings(true, &scores);
    assert_eq!(bytes, b"true\n100\n80\n50\n30\n10\n".to_vec());
    let bytes = render_settings(false, &vec![0, 0, 0, 0, 0]);
    assert_eq!(bytes, b"false\n0\n0\n0\n0\n0\n".to_vec());
}

#[test]
fn render_then_read_round_trips() {
    let scores = vec![4294967295, 1000, 999, 42, 0];
    let bytes = render_settings(false, &scores);
    let s = read_settings(Some(&bytes));
    assert!(!s.sound_enabled);
    assert_eq!(s.high_scores, scores);
}
