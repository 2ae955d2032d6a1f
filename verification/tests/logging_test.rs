use std::collections::HashMap;

use rustsniffer::logging::rotation::{must_rotate, rotated_log_name, rotation_renames};

#[test]
fn rotated_names() {
    assert_eq!(rotated_log_name("rustsniffer.log", 0), "rustsniffer.log");
    assert_eq!(rotated_log_name("rustsniffer.log", 1), "rustsniffer.log.1");
    assert_eq!(rotated_log_name("rustsniffer.log", 12), "rustsniffer.log.12");
}

#[test]
fn rotation_threshold() {
    assert!(!must_rotate(0, u64::MAX, 0));
    assert!(must_rotate(1, 0, 0));
    assert!(!must_rotate(100, 1_048_476, 1));
    assert!(must_rotate(100, 1_048_477, 1));
    assert!(!must_rotate(u64::MAX, u64::MAX, u64::MAX));
    assert!(must_rotate(104_857_600, 1, 100));
}

#[test]
fn rotation_rename_order() {
    let plan = rotation_renames("l", 5);
    let expected = vec![("l.3", "l.4"), ("l.2", "l.3"), ("l.1", "l.2"), ("l", "l.1")];
    assert_eq!(plan.len(), expected.len());
    for ((from, to), (ef, et)) in plan.iter().zip(expected) {
        assert_eq!(from, ef);
        assert_eq!(to, et);
    }
    assert!(rotation_renames("l", 1).is_empty());
    assert!(rotation_renames("l", 0).is_empty());
}

#[test]
fn rotation_keeps_every_kept_file() {
    // Files of a log keeping three: live, .1 and .2, plus an unrelated file.
    let mut files: HashMap<String, &str> = HashMap::new();
    files.insert("app.log".to_string(), "newest");
    files.insert("app.log.1".to_string(), "older");
    files.insert("app.log.2".to_string(), "oldest");
    files.insert("other".to_string(), "untouched");
    for (from, to) in rotation_renames("app.log", 3) {
        if let Some(content) = files.remove(&from) {
            files.insert(to, content);
        }
    }
    assert_eq!(files.get("app.log"), None);
    assert_eq!(files.get("app.log.1"), Some(&"newest"));
    assert_eq!(files.get("app.log.2"), Some(&"older"));
    assert_eq!(files.get("other"), Some(&"untouched"));
    assert_eq!(files.len(), 3);
}

#[test]
fn live_file_stays_within_limit() {
    // A 1 MB limit and writes of up to 300 000 bytes.
    let limit: u64 = 1_048_576;
    let mut size: u64 = 0;
    let mut rotations = 0;
    for i in 0..100u64 {
        let w = 1_000 + (i * 7_919) % 299_000;
        if must_rotate(size, w, 1) {
            size = 0;
            rotations += 1;
        }
        size += w;
        assert!(size <= limit);
    }
    assert!(rotations > 0);
}
