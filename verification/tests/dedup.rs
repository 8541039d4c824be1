use weggli_ruleset::structural::{select, MatchKey};

fn key(start_offset: usize, values: &[&str]) -> MatchKey {
    MatchKey { start_offset, values: values.iter().map(|s| s.to_string()).collect() }
}

#[test]
fn unique_keeps_a_match_with_a_new_value() {
    // the first binds x to a, the second x to a, the third x to b and y to a
    let keys = vec![key(0, &["a"]), key(5, &["a"]), key(9, &["b", "a"])];
    assert_eq!(select(true, false, &keys), vec![true, false, true]);
    let keys = vec![key(0, &["a"]), key(5, &["a"]), key(9, &["a", "b"])];
    assert_eq!(select(true, false, &keys), vec![true, false, true]);
}

#[test]
fn limit_keeps_the_first_match_of_each_offset() {
    let keys = vec![key(10, &["a"]), key(10, &["b"]), key(20, &["c"])];
    assert_eq!(select(false, true, &keys), vec![true, false, true]);
}

#[test]
fn no_policy_keeps_every_match() {
    let keys = vec![key(10, &["a"]), key(10, &["a"]), key(10, &[]), key(20, &["a"])];
    assert_eq!(select(false, false, &keys), vec![true, true, true, true]);
    assert_eq!(select(false, false, &Vec::new()), Vec::<bool>::new());
    assert_eq!(select(true, true, &Vec::new()), Vec::<bool>::new());
}

#[test]
fn unique_counts_the_values_of_matches_that_limit_dropped() {
    // the second match passes unique and is dropped by limit; its value is seen all the same
    let keys = vec![key(10, &["a"]), key(10, &["b"]), key(20, &["b"])];
    assert_eq!(select(true, true, &keys), vec![true, false, false]);
}

#[test]
fn limit_counts_only_the_offsets_of_matches_that_passed_unique() {
    // the second match fails unique, so its offset is still free for the third
    let keys = vec![key(0, &["a"]), key(10, &["a"]), key(10, &["b"])];
    assert_eq!(select(true, true, &keys), vec![true, false, true]);
    assert_eq!(select(false, true, &keys), vec![true, true, false]);
}

#[test]
fn unique_drops_a_match_that_captured_nothing() {
    let keys = vec![key(0, &[]), key(1, &["a"]), key(2, &[])];
    assert_eq!(select(true, false, &keys), vec![false, true, false]);
    assert_eq!(select(false, true, &keys), vec![true, true, true]);
}

#[test]
fn unique_looks_at_values_not_at_variables() {
    let keys = vec![key(0, &["a", "b"]), key(1, &["b", "a"]), key(2, &["a", "a", "c"]), key(3, &["c"])];
    assert_eq!(select(true, false, &keys), vec![true, false, true, false]);
}
