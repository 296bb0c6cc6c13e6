use basrs::script::{build_script, capture_script, diff_script, split_sections};

#[test]
fn capture_script_text() {
    assert_eq!(
        capture_script("source x.sh"),
        "eval \"source x.sh\" >/dev/null; env; echo '---SECTION---'; alias; echo '---SECTION---'; declare -F"
    );
}

#[test]
fn split_sections_trims_each() {
    let out = "A=1\nB=2\n---SECTION---\nalias ll='ls'\n---SECTION---\ndeclare -f f\n";
    assert_eq!(
        split_sections(out),
        Some(("A=1\nB=2".to_string(), "alias ll='ls'".to_string(), "declare -f f".to_string()))
    );
}

#[test]
fn split_sections_needs_two_separators() {
    assert_eq!(split_sections("A=1\n---SECTION---\nalias"), None);
    assert_eq!(split_sections(""), None);
    assert_eq!(
        split_sections("---SECTION------SECTION---"),
        Some((String::new(), String::new(), String::new()))
    );
}

#[test]
fn split_sections_ignores_later_separators() {
    assert_eq!(
        split_sections("e---SECTION---a---SECTION---f---SECTION---z"),
        Some(("e".to_string(), "a".to_string(), "f".to_string()))
    );
}

#[test]
fn build_script_joins_sections() {
    let env = vec!["# Adding A".to_string(), "set -g -x A \"1\"".to_string()];
    let aliases = vec!["alias ll \"ls\"".to_string()];
    let funcs: Vec<String> = vec![];
    assert_eq!(
        build_script(&env, &aliases, &funcs),
        "# Adding A\nset -g -x A \"1\"\nalias ll \"ls\"\n\n"
    );
}

#[test]
fn diff_script_whole() {
    let s = diff_script(
        "FOO=1\nPWD=/a",
        "declare -f f1",
        "FOO=1\nBAR=2\nPWD=/a",
        "alias ll='ls -la'",
        "declare -f f1\ndeclare -f f2",
    );
    assert_eq!(
        s,
        "# Adding BAR\nset -g -x BAR \"2\"\nalias ll \"ls -la\"\n# Adding function f2\n"
    );
}
