use basrs::alias::parse_aliases;
use basrs::escape::escape;
use basrs::funcs::{diff_funcs, emit_funcs, parse_funcs, process_func_changes, FuncOp};

fn names(v: &[&str]) -> Vec<String> {
    v.iter().map(|s| s.to_string()).collect()
}

#[test]
fn alias_statement_for_ll() {
    assert_eq!(parse_aliases("alias ll='ls -la'"), vec!["alias ll \"ls -la\""]);
}

#[test]
fn alias_statement_value_is_escaped_literal() {
    let lines = parse_aliases("alias ll='ls -la'");
    assert_eq!(lines.len(), 1);
    let lit = lines[0].strip_prefix("alias ll ").unwrap();
    assert_eq!(lit, escape("ls -la"));
    assert_eq!(lit, "\"ls -la\"");
}

#[test]
fn alias_values_are_escaped() {
    assert_eq!(
        parse_aliases("alias g='grep \"$1\"'\nnot an alias\nalias  x =''\nalias y"),
        vec!["alias g \"grep \\\"\\$1\\\"\"", "alias x \"\""]
    );
}

#[test]
fn alias_repeated_prefix_and_empty_dump() {
    assert_eq!(parse_aliases("alias alias la='ls -A'"), vec!["alias la \"ls -A\""]);
    assert!(parse_aliases("").is_empty());
}

#[test]
fn parse_funcs_takes_last_word() {
    assert_eq!(
        parse_funcs("declare -f f1\ndeclare -fx f2  \n\n   \ndeclare -f f1"),
        names(&["f1", "f2"])
    );
}

#[test]
fn diff_funcs_added() {
    assert_eq!(
        diff_funcs(&names(&["f1"]), &names(&["f1", "f2"])),
        vec![FuncOp::Added("f2".to_string())]
    );
}

#[test]
fn diff_funcs_removed() {
    assert_eq!(diff_funcs(&names(&["f1"]), &names(&[])), vec![FuncOp::Removed("f1".to_string())]);
}

#[test]
fn diff_funcs_same_is_empty() {
    assert!(diff_funcs(&names(&["a", "b"]), &names(&["b", "a"])).is_empty());
}

#[test]
fn emit_funcs_comments() {
    let ops = vec![FuncOp::Added("f2".to_string()), FuncOp::Removed("f1".to_string())];
    assert_eq!(emit_funcs(&ops), vec!["# Adding function f2", "# Removing function f1"]);
}

#[test]
fn process_func_changes_scenario() {
    assert_eq!(
        process_func_changes("declare -f f1\ndeclare -f g", "declare -f g\ndeclare -f f2"),
        vec!["# Adding function f2", "# Removing function f1"]
    );
}
