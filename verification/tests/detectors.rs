use game_of_life::detector::{Detector, DOMINANT_OCCURRENCE, HIGH_OCCURRENCE};
use game_of_life::digest::fingerprint;

#[test]
fn thresholds_are_twenty_and_forty() {
    assert_eq!(HIGH_OCCURRENCE, 20);
    assert_eq!(DOMINANT_OCCURRENCE, 40);
}

#[test]
fn empty_detector_continues() {
    let detector = Detector::new(5);
    assert_eq!(detector.window_len(), 0);
    assert_eq!(detector.retention(), 5);
    assert!(!detector.verdict());
    assert_eq!(detector.occurrence_count("a"), 0);
}

#[test]
fn window_never_exceeds_retention() {
    let mut detector = Detector::new(3);
    let fed = ["a", "b", "c", "d", "e", "a", "a"];
    for (i, f) in fed.iter().enumerate() {
        assert!(!detector.recurring_pattern_present(f));
        let expected: usize = if i + 1 < 3 { i + 1 } else { 3 };
        assert_eq!(detector.window_len(), expected);
        assert!(detector.window_len() <= detector.retention());
    }
}

#[test]
fn eviction_takes_out_exactly_the_oldest_entry() {
    let mut detector = Detector::new(3);
    for f in ["a", "a", "b", "a"] {
        detector.recurring_pattern_present(f);
    }
    // The window is now a, b, a: the evicted "a" leaves one count behind,
    // and the entries that stay keep theirs.
    assert_eq!(detector.window_len(), 3);
    assert_eq!(detector.occurrence_count("a"), 2);
    assert_eq!(detector.occurrence_count("b"), 1);
    detector.recurring_pattern_present("c");
    assert_eq!(detector.occurrence_count("a"), 1);
    assert_eq!(detector.occurrence_count("b"), 1);
    assert_eq!(detector.occurrence_count("c"), 1);
    detector.recurring_pattern_present("c");
    detector.recurring_pattern_present("c");
    assert_eq!(detector.occurrence_count("a"), 0);
    assert_eq!(detector.occurrence_count("b"), 0);
    assert_eq!(detector.occurrence_count("c"), 3);
}

#[test]
fn table_values_add_up_to_window_length() {
    let mut detector = Detector::new(4);
    let keys = ["a", "b", "c", "d"];
    let fed = ["a", "b", "a", "c", "c", "d", "a", "b", "b", "b", "b"];
    for f in fed {
        detector.recurring_pattern_present(f);
        let sum: usize = keys.iter().map(|k| detector.occurrence_count(k)).sum();
        assert_eq!(sum, detector.window_len());
    }
    assert_eq!(detector.occurrence_count("b"), 4);
}

#[test]
fn retention_of_one_keeps_only_the_latest() {
    let mut detector = Detector::new(1);
    detector.recurring_pattern_present("a");
    detector.recurring_pattern_present("a");
    assert_eq!(detector.window_len(), 1);
    assert_eq!(detector.occurrence_count("a"), 1);
    detector.recurring_pattern_present("b");
    assert_eq!(detector.occurrence_count("a"), 0);
    assert_eq!(detector.occurrence_count("b"), 1);
}

#[test]
fn one_fingerprint_stops_at_forty_occurrences() {
    let mut detector = Detector::new(50);
    for n in 1..=39 {
        assert!(!detector.recurring_pattern_present("same"), "occurrence {}", n);
    }
    assert_eq!(detector.occurrence_count("same"), 39);
    assert!(detector.recurring_pattern_present("same"));
    assert_eq!(detector.occurrence_count("same"), 40);
    assert!(detector.verdict());
}

#[test]
fn two_fingerprints_stop_at_twenty_occurrences_each() {
    let mut detector = Detector::new(50);
    for n in 1..=39 {
        let f: &str = if n % 2 == 1 { "odd" } else { "even" };
        assert!(!detector.recurring_pattern_present(f), "observation {}", n);
    }
    assert_eq!(detector.occurrence_count("odd"), 20);
    assert_eq!(detector.occurrence_count("even"), 19);
    assert!(detector.recurring_pattern_present("even"));
    assert_eq!(detector.occurrence_count("even"), 20);
}

#[test]
fn one_high_fingerprint_among_rare_ones_continues() {
    let mut detector = Detector::new(100);
    for _ in 0..39 {
        assert!(!detector.recurring_pattern_present("often"));
    }
    for f in ["p", "q", "r", "s"] {
        for _ in 0..10 {
            assert!(!detector.recurring_pattern_present(f));
        }
    }
    for _ in 0..9 {
        assert!(!detector.recurring_pattern_present("p"));
    }
    assert_eq!(detector.occurrence_count("p"), 19);
    assert!(detector.recurring_pattern_present("p"));
}

#[test]
fn verdict_follows_the_window_not_the_past() {
    // With room for 45 entries a fingerprint seen 40 times stops the run;
    // once other fingerprints have pushed enough of them out, it no longer
    // does.
    let mut detector = Detector::new(45);
    for _ in 0..40 {
        detector.recurring_pattern_present("old");
    }
    assert!(detector.verdict());
    for i in 0..5 {
        let f: String = format!("new{}", i);
        assert!(detector.recurring_pattern_present(&f));
    }
    assert!(!detector.recurring_pattern_present("new5"));
    assert_eq!(detector.occurrence_count("old"), 39);
    assert_eq!(detector.window_len(), 45);
}

#[test]
fn small_retention_never_stops() {
    let mut detector = Detector::new(19);
    for _ in 0..200 {
        assert!(!detector.recurring_pattern_present("same"));
    }
    assert_eq!(detector.occurrence_count("same"), 19);
}

#[test]
fn fingerprint_is_the_md5_hex_digest() {
    assert_eq!(fingerprint(""), "d41d8cd98f00b204e9800998ecf8427e");
    assert_eq!(fingerprint("abc"), "900150983cd24fb0d6963f7d28e17f72");
    assert_eq!(fingerprint("◻◼\n"), "9cad4c61b217c9abdfd8c98cd730b3b1");
    assert_ne!(fingerprint("abc"), "abc");
}
