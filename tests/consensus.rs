use world_graph::{majority, process_result, settle, ResolveError, Strategy, UNDEFINED};

fn strs(v: &[&str]) -> Vec<String> {
    v.iter().map(|s| s.to_string()).collect()
}

#[test]
fn process_result_trims_whitespace() {
    assert_eq!(process_result("  Mud \n"), "Mud");
    assert_eq!(process_result("Steam"), "Steam");
    assert_eq!(process_result(" \t"), "");
}

#[test]
fn call_counts_follow_the_strategy() {
    assert_eq!(Strategy::Simple.calls(), 1);
    assert_eq!(Strategy::Sample(3).calls(), 2);
    assert_eq!(Strategy::Sample(1).calls(), 0);
    assert_eq!(Strategy::Sample(0).calls(), 0);
    assert_eq!(Strategy::Sample(255).calls(), 254);
}

#[test]
fn majority_picks_most_frequent() {
    assert_eq!(majority(&strs(&["Steam", "Mud", "Steam"])), "Steam");
    assert_eq!(majority(&strs(&["Ocean"])), "Ocean");
}

#[test]
fn majority_of_nothing_is_undefined() {
    assert_eq!(majority(&Vec::new()), UNDEFINED);
    assert_eq!(UNDEFINED, "undefined");
}

#[test]
fn majority_tie_picks_one_of_the_tied() {
    let r = majority(&strs(&["Mud", "Steam", "Steam", "Mud", "Fog"]));
    assert!(r == "Mud" || r == "Steam");
}

#[test]
fn simple_settles_to_trimmed_text() {
    let r = settle(Strategy::Simple, &vec![Ok("  Queen\n".to_string())]).unwrap();
    assert_eq!(r, "Queen");
}

#[test]
fn simple_failure_is_an_oracle_error() {
    let r = settle(Strategy::Simple, &vec![Err("timed out".to_string())]);
    match r {
        Err(ResolveError::Oracle(m)) => assert_eq!(m, "timed out"),
        other => panic!("unexpected {:?}", other),
    }
}

#[test]
fn sample_votes_over_successes_only() {
    let outs = vec![
        Err("down".to_string()),
        Ok(" Steam".to_string()),
        Ok("Mud".to_string()),
        Ok("Steam ".to_string()),
    ];
    assert_eq!(settle(Strategy::Sample(5), &outs).unwrap(), "Steam");
}

#[test]
fn sample_with_all_failures_is_undefined() {
    let outs = vec![Err("a".to_string()), Err("b".to_string())];
    assert_eq!(settle(Strategy::Sample(3), &outs).unwrap(), "undefined");
}

#[test]
fn process_result_trims_unicode_white_space_only() {
    assert_eq!(process_result("\u{3000}Mud\u{a0}\u{2029}"), "Mud");
    assert_eq!(process_result("\u{85}Fog\u{1680}"), "Fog");
    // A zero-width space is not White_Space and stays.
    assert_eq!(process_result("Fog\u{200b}"), "Fog\u{200b}");
    assert_eq!(process_result("  Salt  water \n"), "Salt  water");
}
