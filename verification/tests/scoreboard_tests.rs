use clodwyr_in_space::scoreboard::{ScoreEntry, Scoreboard, MAX_SCOREBOARD_ENTRIES};

fn entry(name: &str, score: u32) -> ScoreEntry {
    ScoreEntry { name: name.into(), score, level: 1 }
}

#[test]
fn scoreboard_starts_empty() {
    assert!(Scoreboard::new().entries().is_empty());
}

#[test]
fn qualifies_true_when_board_has_room() {
    let board = Scoreboard::new();
    assert!(board.qualifies(0), "any score qualifies on an empty board");
}

#[test]
fn qualifies_true_when_score_beats_lowest() {
    let mut board = Scoreboard::new();
    for i in 1..=5u32 {
        board.insert(ScoreEntry { name: "X".into(), score: i * 10, level: 1 });
    }
    // Lowest entry is 10; score 11 beats it.
    assert!(board.qualifies(11));
}

#[test]
fn qualifies_false_when_board_full_and_score_too_low() {
    let mut board = Scoreboard::new();
    for i in 1..=5u32 {
        board.insert(ScoreEntry { name: "X".into(), score: i * 10, level: 1 });
    }
    // Lowest entry is 10; score 10 does not beat it (must be strictly greater).
    assert!(!board.qualifies(10));
    assert!(!board.qualifies(5));
}

#[test]
fn qualifies_does_not_mutate_board() {
    let mut board = Scoreboard::new();
    board.insert(ScoreEntry { name: "X".into(), score: 100, level: 1 });
    let len_before = board.entries().len();
    board.qualifies(999);
    assert_eq!(board.entries().len(), len_before);
}

#[test]
fn scoreboard_insert_adds_entry() {
    let mut board = Scoreboard::new();
    board.insert(ScoreEntry { name: "A".into(), score: 10, level: 1 });
    assert_eq!(board.entries().len(), 1);
}

#[test]
fn scoreboard_keeps_top_five_only() {
    let mut board = Scoreboard::new();
    for i in 0..6u32 {
        board.insert(ScoreEntry { name: "X".into(), score: i * 10, level: 1 });
    }
    assert_eq!(board.entries().len(), MAX_SCOREBOARD_ENTRIES);
}

#[test]
fn scoreboard_entries_sorted_by_score_descending() {
    let mut board = Scoreboard::new();
    board.insert(ScoreEntry { name: "A".into(), score: 10, level: 1 });
    board.insert(ScoreEntry { name: "B".into(), score: 30, level: 1 });
    board.insert(ScoreEntry { name: "C".into(), score: 20, level: 1 });
    let scores: Vec<u32> = board.entries().iter().map(|e| e.score).collect();
    assert_eq!(scores, vec![30, 20, 10]);
}

#[test]
fn scoreboard_rejects_low_score_when_full() {
    let mut board = Scoreboard::new();
    for i in 1..=5u32 {
        board.insert(ScoreEntry { name: "X".into(), score: i * 10, level: 1 });
    }
    let inserted = board.insert(ScoreEntry { name: "Y".into(), score: 5, level: 1 });
    assert!(!inserted);
    assert_eq!(board.entries().len(), MAX_SCOREBOARD_ENTRIES);
    assert!(board.entries().iter().all(|e| e.score > 5));
}

#[test]
fn scoreboard_accepts_qualifying_score_when_full() {
    let mut board = Scoreboard::new();
    for i in 1..=5u32 {
        board.insert(ScoreEntry { name: "X".into(), score: i * 10, level: 1 });
    }
    // Minimum is 10, score 15 should push it in and drop score 10.
    let inserted = board.insert(ScoreEntry { name: "Y".into(), score: 15, level: 1 });
    assert!(inserted);
    assert_eq!(board.entries().len(), MAX_SCOREBOARD_ENTRIES);
    assert!(board.entries().iter().any(|e| e.name == "Y"));
}

#[test]
fn scoreboard_insert_returns_true_when_under_capacity() {
    let mut board = Scoreboard::new();
    let inserted = board.insert(ScoreEntry { name: "A".into(), score: 10, level: 1 });
    assert!(inserted);
}

// ── Further checks of the table's laws on concrete values ──────────────────

#[test]
fn scoreboard_ties_keep_earlier_entry_first() {
    let mut board = Scoreboard::new();
    board.insert(entry("FIRST", 20));
    board.insert(entry("SECOND", 20));
    let names: Vec<&str> = board.entries().iter().map(|e| e.name.as_str()).collect();
    assert_eq!(names, vec!["FIRST", "SECOND"]);
}

#[test]
fn scoreboard_full_table_drops_its_lowest_entry() {
    let mut board = Scoreboard::new();
    for (name, score) in [("A", 50), ("B", 40), ("C", 30), ("D", 20), ("E", 10)] {
        board.insert(entry(name, score));
    }
    assert!(board.insert(entry("NEW", 35)));
    let names: Vec<&str> = board.entries().iter().map(|e| e.name.as_str()).collect();
    assert_eq!(names, vec!["A", "B", "NEW", "C", "D"]);
}

#[test]
fn scoreboard_equal_to_lowest_is_rejected_when_full() {
    let mut board = Scoreboard::new();
    for (name, score) in [("A", 50), ("B", 40), ("C", 30), ("D", 20), ("E", 10)] {
        board.insert(entry(name, score));
    }
    assert!(!board.insert(entry("TIE", 10)));
    assert!(board.entries().iter().all(|e| e.name != "TIE"));
}

#[test]
fn scoreboard_insert_result_matches_qualifies() {
    let mut board = Scoreboard::new();
    for score in [7u32, 3, 9, 1, 4, 4, 8, 2, 10, 0] {
        let predicted = board.qualifies(score);
        assert_eq!(board.insert(entry("X", score)), predicted);
        let scores: Vec<u32> = board.entries().iter().map(|e| e.score).collect();
        assert!(scores.windows(2).all(|w| w[0] >= w[1]));
        assert!(scores.len() <= MAX_SCOREBOARD_ENTRIES);
    }
}
