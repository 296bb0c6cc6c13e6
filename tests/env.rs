use basrs::env::{parse_env, EnvMap};
use basrs::env_diff::{diff_env, emit_env, process_env_changes, EnvOp};

fn map(pairs: &[(&str, &str)]) -> EnvMap {
    let mut m = EnvMap::new();
    for (k, v) in pairs.iter() {
        m.insert(k.to_string(), v.to_string());
    }
    m
}

fn add(k: &str, v: &str) -> EnvOp {
    EnvOp::Add { name: k.to_string(), value: v.to_string() }
}

fn remove(k: &str) -> EnvOp {
    EnvOp::Remove { name: k.to_string() }
}

#[test]
fn parse_env_basic() {
    let m = parse_env("FOO=1\nBAR=x=y\n");
    assert_eq!(m.len(), 2);
    let (k, v) = m.entry(0);
    assert_eq!((k.as_str(), v.as_str()), ("FOO", "1"));
    let (k, v) = m.entry(1);
    assert_eq!((k.as_str(), v.as_str()), ("BAR", "x=y"));
}

#[test]
fn parse_env_skips_lines_without_equals() {
    let m = parse_env("garbage\nA=1\n\ncontinued line\r\nB=\n");
    assert_eq!(m.len(), 2);
    assert_eq!(m.get(&"A".to_string()), Some(&"1".to_string()));
    assert_eq!(m.get(&"B".to_string()), Some(&"".to_string()));
    assert_eq!(m.get(&"garbage".to_string()), None);
}

#[test]
fn parse_env_last_value_wins_first_position_kept() {
    let m = parse_env("A=1\nB=2\nA=3");
    assert_eq!(m.len(), 2);
    let (k, v) = m.entry(0);
    assert_eq!((k.as_str(), v.as_str()), ("A", "3"));
}

#[test]
fn parse_env_strips_carriage_return() {
    let m = parse_env("A=1\r\nB=2");
    assert_eq!(m.get(&"A".to_string()), Some(&"1".to_string()));
    assert_eq!(m.get(&"B".to_string()), Some(&"2".to_string()));
}

#[test]
fn parse_env_empty() {
    assert_eq!(parse_env("").len(), 0);
}

#[test]
fn diff_identical_maps_is_empty() {
    let m = map(&[("FOO", "1"), ("PATH", "/bin"), ("SHLVL", "2")]);
    assert!(diff_env(&m, &m).is_empty());
    let p = parse_env("A=1\nB=2\nA=1\n");
    assert!(diff_env(&p, &p).is_empty());
}

#[test]
fn diff_reports_addition() {
    let base = map(&[("FOO", "1")]);
    let post = map(&[("FOO", "1"), ("BAR", "2")]);
    assert_eq!(diff_env(&base, &post), vec![add("BAR", "2")]);
}

#[test]
fn diff_reports_update() {
    let base = map(&[("FOO", "1")]);
    let post = map(&[("FOO", "2")]);
    assert_eq!(
        diff_env(&base, &post),
        vec![EnvOp::Update { name: "FOO".to_string(), before: "1".to_string(), after: "2".to_string() }]
    );
}

#[test]
fn diff_reports_removal() {
    let base = map(&[("FOO", "1")]);
    let post = map(&[]);
    assert_eq!(diff_env(&base, &post), vec![remove("FOO")]);
}

#[test]
fn diff_filters_additions_but_not_removals() {
    let base = map(&[("SHLVL", "1"), ("_", "x")]);
    let post = map(&[("SHLVL", "2"), ("PS1", "$ "), ("BASH_FUNC_f%%", "() {}")]);
    assert_eq!(diff_env(&base, &post), vec![remove("_")]);
}

#[test]
fn diff_additions_precede_removals() {
    let base = map(&[("GONE1", "a"), ("KEEP", "1"), ("GONE2", "b")]);
    let post = map(&[("NEW", "n"), ("KEEP", "2")]);
    let ops = diff_env(&base, &post);
    assert_eq!(ops.len(), 4);
    let first_remove = ops.iter().position(|o| matches!(o, EnvOp::Remove { .. })).unwrap();
    assert_eq!(first_remove, 2);
    assert!(ops[first_remove..].iter().all(|o| matches!(o, EnvOp::Remove { .. })));
    assert_eq!(ops[0], add("NEW", "n"));
    assert_eq!(ops[2], remove("GONE1"));
    assert_eq!(ops[3], remove("GONE2"));
}

#[test]
fn emit_statements() {
    let ops = vec![
        add("BAR", "2"),
        EnvOp::Update { name: "FOO".to_string(), before: "1".to_string(), after: "a$b".to_string() },
        add("PWD", "/tmp/x y"),
        remove("OLD"),
    ];
    assert_eq!(
        emit_env(&ops),
        vec![
            "# Adding BAR",
            "set -g -x BAR \"2\"",
            "# Updating FOO: '1' -> 'a$b'",
            "set -g -x FOO \"a\\$b\"",
            "# Adding PWD",
            "cd \"/tmp/x y\"",
            "# Removing OLD",
            "set -e OLD",
        ]
    );
}

#[test]
fn process_env_changes_scenario() {
    let lines = process_env_changes("FOO=1\nOLD=x\nPWD=/a", "FOO=2\nPWD=/b\nNEW=\"q\"");
    assert_eq!(
        lines,
        vec![
            "# Updating FOO: '1' -> '2'",
            "set -g -x FOO \"2\"",
            "# Updating PWD: '/a' -> '/b'",
            "cd \"/b\"",
            "# Adding NEW",
            "set -g -x NEW \"\\\"q\\\"\"",
            "# Removing OLD",
            "set -e OLD",
        ]
    );
}

#[test]
fn process_env_changes_identical_is_empty() {
    assert!(process_env_changes("A=1\nB=2", "A=1\nB=2").is_empty());
}
