use cross_env::parse_input;

#[test]
fn test_parse_input() {
    for (args, expect_envs, expect_idx) in [
        (vec!["a=1"], vec![("a", "1")], 1),
        (vec!["a=1", "b=2"], vec![("a", "1"), ("b", "2")], 2),
    ] {
        let (envs, idx) = parse_input(&args);
        assert_eq!(envs, expect_envs);
        assert_eq!(idx, expect_idx);
    }
}

#[test]
fn splits_at_first_eq_only() {
    let args = vec!["A=B=C"];
    let (envs, idx) = parse_input(&args);
    assert_eq!(envs, vec![("A", "B=C")]);
    assert_eq!(idx, 1);
}

#[test]
fn key_and_value_are_not_the_whole_token() {
    let args = vec!["key=value"];
    let (envs, _) = parse_input(&args);
    assert_eq!(envs[0].0, "key");
    assert_eq!(envs[0].1, "value");
}

#[test]
fn empty_value_and_empty_key() {
    let args = vec!["a=", "=1", "="];
    let (envs, idx) = parse_input(&args);
    assert_eq!(envs, vec![("a", ""), ("", "1"), ("", "")]);
    assert_eq!(idx, 3);
}

#[test]
fn all_assignments_are_consumed() {
    let args = vec!["a=1", "b=2", "c=3", "d=4"];
    let (envs, idx) = parse_input(&args);
    assert_eq!(envs.len(), args.len());
    assert_eq!(idx, args.len());
}

#[test]
fn stops_at_first_command_token() {
    let args = vec!["a=1", "b=2", "run", "c=3", "x"];
    let (envs, idx) = parse_input(&args);
    assert_eq!(envs, vec![("a", "1"), ("b", "2")]);
    assert_eq!(idx, 2);
}

#[test]
fn later_tokens_do_not_matter() {
    let first = vec!["a=1", "run", "c=3"];
    let second = vec!["a=1", "run", "plain", "d=4=5"];
    assert_eq!(parse_input(&first), parse_input(&second));
}

#[test]
fn single_pair_scenario() {
    let args = vec!["a=1"];
    assert_eq!(parse_input(&args), (vec![("a", "1")], 1));
}

#[test]
fn two_pairs_scenario() {
    let args = vec!["a=1", "b=2"];
    assert_eq!(parse_input(&args), (vec![("a", "1"), ("b", "2")], 2));
}

#[test]
fn no_pairs() {
    let args = vec!["echo", "hi"];
    let (envs, idx) = parse_input(&args);
    assert!(envs.is_empty());
    assert_eq!(idx, 0);
}

#[test]
fn empty_input() {
    let args: Vec<&str> = vec![];
    let (envs, idx) = parse_input(&args);
    assert!(envs.is_empty());
    assert_eq!(idx, 0);
}

#[test]
fn non_ascii_tokens() {
    let args = vec!["été=ça=là", "ünïcode"];
    let (envs, idx) = parse_input(&args);
    assert_eq!(envs, vec![("été", "ça=là")]);
    assert_eq!(idx, 1);
}
