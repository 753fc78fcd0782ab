use open_sonar::loop_detector::{normalize_output, similar, truncate, LoopDetector};

// 0.01 USD per second in picodollars.
const BURN: u64 = 10_000_000_000;

fn sixty_chars() -> String {
    "abcdefghij".repeat(6)
}

#[test]
fn repeated_output_raises_an_alert_on_the_third_feed() {
    let mut d = LoopDetector::new();
    let chunk = sixty_chars();
    assert!(d.feed("a1", &chunk, BURN).is_none());
    assert!(d.feed("a1", &chunk, BURN).is_none());
    let alert = d.feed("a1", &chunk, BURN).expect("third similar chunk alerts");
    assert_eq!(alert.agent_id, "a1");
    assert_eq!(alert.repeat_count, 3);
    // 0.01 USD/s * 30 s * 3 repeats = 0.9 USD.
    assert_eq!(alert.estimated_waste_pico, 900_000_000_000);
    assert_eq!(alert.estimated_waste_pico as f64 / 1e12, 0.9);
    assert_eq!(alert.pattern, chunk);

    let again = d.feed("a1", &chunk, BURN).expect("fourth feed alerts again");
    assert_eq!(again.repeat_count, 4);
    assert_eq!(again.estimated_waste_pico as f64 / 1e12, 1.2);
    assert!(d.is_looping("a1"));
}

#[test]
fn reset_clears_the_looping_flag() {
    let mut d = LoopDetector::new();
    let chunk = sixty_chars();
    for _ in 0..4 {
        let _ = d.feed("a2", &chunk, BURN);
    }
    assert!(d.is_looping("a2"));
    d.reset("a2");
    assert!(!d.is_looping("a2"));
    assert!(!d.is_looping("never-seen"));
}

#[test]
fn whitespace_only_output_yields_no_alert() {
    let mut d = LoopDetector::new();
    let blank = " \t\n\r  \t\t\n\n   \r\r \t \n ".repeat(4);
    assert!(blank.chars().count() >= 60);
    for _ in 0..5 {
        assert!(d.feed("a3", &blank, BURN).is_none());
    }
    assert!(!d.is_looping("a3"));
    assert!(normalize_output(&blank).chars().count() <= 1);
}

#[test]
fn short_chunks_are_ignored() {
    let mut d = LoopDetector::new();
    for _ in 0..5 {
        assert!(d.feed("a4", "short burst", BURN).is_none());
    }
    assert!(!d.is_looping("a4"));
}

#[test]
fn normalize_lowercases_and_collapses_whitespace() {
    assert_eq!(normalize_output("Hello   World"), "hello world");
    assert_eq!(normalize_output("A\t\nB"), "a b");
    assert_eq!(normalize_output("MiXeD, Case! 42"), "mixed, case! 42");
    assert_eq!(normalize_output(""), "");
}

#[test]
fn normalize_folds_beyond_ascii() {
    assert_eq!(normalize_output("ÉCHO  Straße"), "écho straße");
}

#[test]
fn distinct_output_does_not_alert() {
    let mut d = LoopDetector::new();
    for c in ["a", "b", "c", "d", "e", "f", "g", "h", "i", "j", "k", "l"] {
        let chunk = c.repeat(60);
        assert!(d.feed("a5", &chunk, BURN).is_none());
    }
    assert!(!d.is_looping("a5"));
}

#[test]
fn similarity_boundary_is_strict() {
    // 40 matches of 50 positions is exactly 0.8: not similar.
    let a = format!("{}{}", "a".repeat(40), "b".repeat(10));
    let b = "a".repeat(50);
    assert!(!similar(&a, &b));
    // 41 of 50 is above the threshold.
    let c = format!("{}{}", "a".repeat(41), "b".repeat(9));
    assert!(similar(&c, &b));
    // Identical non-empty chunks are always similar.
    assert!(similar(&b, &b));
    // An empty chunk is similar to nothing, not even another empty chunk.
    assert!(!similar("", ""));
    assert!(!similar("", "x"));
    assert!(!similar("x", ""));
}

#[test]
fn truncate_cuts_at_the_character_limit() {
    let long = "z".repeat(150);
    let cut = truncate(&long, 100);
    assert_eq!(cut.chars().count(), 103);
    assert!(cut.ends_with("..."));
    assert!(cut.starts_with(&"z".repeat(100)));
    assert_eq!(truncate("short", 100), "short");
}

#[test]
fn windows_are_tracked_per_agent() {
    let mut d = LoopDetector::new();
    let chunk = sixty_chars();
    for _ in 0..4 {
        let _ = d.feed("left", &chunk, BURN);
    }
    assert!(d.is_looping("left"));
    assert!(!d.is_looping("right"));
    let _ = d.feed("right", &chunk, BURN);
    assert!(!d.is_looping("right"));
}
