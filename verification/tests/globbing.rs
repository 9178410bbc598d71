use lsf::glob::matches_glob_simple;

#[test]
fn star_matches_runs() {
    assert!(matches_glob_simple("a.txt", "*.txt"));
    assert!(matches_glob_simple("foo.bar.txt", "*.txt"));
    assert!(!matches_glob_simple("a.txtx", "*.txt"));
}

#[test]
fn question_matches_one_character() {
    assert!(matches_glob_simple("abc", "a?c"));
    assert!(!matches_glob_simple("ac", "a?c"));
    assert!(!matches_glob_simple("abbc", "a?c"));
}

#[test]
fn anchored_at_both_ends() {
    assert!(!matches_glob_simple("xa.txt", "a*"));
    assert!(matches_glob_simple("a.txt", "a*"));
    assert!(!matches_glob_simple("a.txt.bak", "*.txt"));
}

#[test]
fn star_matches_empty_run() {
    assert!(matches_glob_simple("ac", "a*c"));
    assert!(matches_glob_simple("abc", "a*c"));
    assert!(matches_glob_simple("", "*"));
    assert!(!matches_glob_simple("", "?"));
}

#[test]
fn literal_match() {
    assert!(matches_glob_simple("name", "name"));
    assert!(!matches_glob_simple("name", "names"));
    assert!(!matches_glob_simple("names", "name"));
}
