use std::collections::HashSet;
use vr8_core::naming::candidate;
use vr8_core::{get_unique_dir, DirChoice};

fn search(base: &str, existing: &HashSet<String>) -> String {
    let mut occupied = Vec::new();
    loop {
        match get_unique_dir(base, &occupied) {
            DirChoice::Found(path) => return path,
            DirChoice::Probe(path) => occupied.push(existing.contains(&path)),
        }
    }
}

#[test]
fn candidates_count_up_in_parentheses() {
    assert_eq!(candidate("out", 0), "out");
    assert_eq!(candidate("out", 1), "out(1)");
    assert_eq!(candidate("out", 9), "out(9)");
    assert_eq!(candidate("out", 10), "out(10)");
    assert_eq!(candidate("a/b c", 1234567890), "a/b c(1234567890)");
    assert_eq!(candidate("", 3), "(3)");
}

#[test]
fn the_base_path_is_probed_first() {
    match get_unique_dir("out", &[]) {
        DirChoice::Probe(path) => assert_eq!(path, "out"),
        other => panic!("unexpected {:?}", other),
    }
}

#[test]
fn an_absent_base_path_is_returned_unchanged() {
    match get_unique_dir("out", &[false]) {
        DirChoice::Found(path) => assert_eq!(path, "out"),
        other => panic!("unexpected {:?}", other),
    }
}

#[test]
fn the_first_absent_candidate_is_found() {
    match get_unique_dir("out", &[true, true, false]) {
        DirChoice::Found(path) => assert_eq!(path, "out(2)"),
        other => panic!("unexpected {:?}", other),
    }
    match get_unique_dir("out", &[true, false, true, false]) {
        DirChoice::Found(path) => assert_eq!(path, "out(1)"),
        other => panic!("unexpected {:?}", other),
    }
}

#[test]
fn the_next_candidate_is_probed_while_all_exist() {
    match get_unique_dir("out", &[true, true, true]) {
        DirChoice::Probe(path) => assert_eq!(path, "out(3)"),
        other => panic!("unexpected {:?}", other),
    }
}

#[test]
fn an_existing_path_gets_a_path_that_does_not_exist() {
    let existing: HashSet<String> =
        ["out", "out(1)", "out(2)", "out(4)"].iter().map(|s| s.to_string()).collect();
    let found = search("out", &existing);
    assert_eq!(found, "out(3)");
    assert!(!existing.contains(&found));
    assert_ne!(found, "out");
}

#[test]
fn repeated_searches_never_return_the_same_path() {
    let mut existing: HashSet<String> = HashSet::new();
    existing.insert("out".to_string());
    let mut seen = HashSet::new();
    for round in 1..=25 {
        let found = search("out", &existing);
        assert_eq!(found, format!("out({})", round));
        assert!(seen.insert(found.clone()));
        existing.insert(found);
    }
}
