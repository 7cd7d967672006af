use terraform_settings_mapper::progress::Progress;

fn keys(v: &[&str]) -> Vec<String> {
    v.iter().map(|s| s.to_string()).collect()
}

fn sorted(mut v: Vec<&str>) -> Vec<&str> {
    v.sort();
    v
}

#[test]
fn from_keys_holds_each_key_once() {
    let p = Progress::from_keys(keys(&["a", "b", "a"]), keys(&["c", "c"]));
    assert_eq!(p.completed_count(), 2);
    assert!(p.is_done("a") && p.is_done("b") && !p.is_done("c"));
    assert_eq!(sorted(p.failed_keys()), vec!["c"]);
    assert_eq!(sorted(p.completed_keys()), vec!["a", "b"]);
}

#[test]
fn completing_clears_failure() {
    let mut p = Progress::from_keys(vec![], vec![]);
    p.mark_failed("org/ws");
    assert!(!p.is_done("org/ws"));
    assert_eq!(p.failed_keys(), vec!["org/ws"]);
    p.mark_completed("org/ws");
    assert!(p.is_done("org/ws"));
    assert!(p.failed_keys().is_empty());
    assert_eq!(p.completed_count(), 1);
}

#[test]
fn completing_twice_counts_once() {
    let mut p = Progress::from_keys(vec![], vec![]);
    p.mark_completed("x");
    p.mark_completed("x");
    p.mark_completed("y");
    assert_eq!(p.completed_count(), 2);
}

#[test]
fn failure_keeps_completion() {
    let mut p = Progress::from_keys(keys(&["done"]), vec![]);
    p.mark_failed("done");
    p.mark_failed("other");
    p.mark_failed("other");
    assert!(p.is_done("done"));
    assert_eq!(sorted(p.failed_keys()), vec!["done", "other"]);
}

#[test]
fn reset_clears_everything() {
    let mut p = Progress::from_keys(keys(&["a"]), keys(&["b"]));
    p.reset();
    assert_eq!(p.completed_count(), 0);
    assert!(!p.is_done("a"));
    assert!(p.failed_keys().is_empty());
}
