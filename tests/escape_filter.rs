use basrs::escape::escape;
use basrs::filter::ignored;

/// Reads a double-quoted fish literal the way fish does.
fn fish_value(lit: &str) -> Option<String> {
    let chars: Vec<char> = lit.chars().collect();
    if chars.len() < 2 || chars[0] != '"' || chars[chars.len() - 1] != '"' {
        return None;
    }
    let body = &chars[1..chars.len() - 1];
    let mut out = String::new();
    let mut i = 0;
    while i < body.len() {
        let c = body[i];
        if c == '\\' {
            if i + 1 == body.len() {
                return None;
            }
            let d = body[i + 1];
            if d == '\\' || d == '"' || d == '$' {
                out.push(d);
                i += 2;
                continue;
            }
            out.push(c);
        } else if c == '"' || c == '$' {
            return None;
        } else {
            out.push(c);
        }
        i += 1;
    }
    Some(out)
}

#[test]
fn escape_plain_value_is_quoted() {
    assert_eq!(escape("hello"), "\"hello\"");
}

#[test]
fn escape_empty_value() {
    assert_eq!(escape(""), "\"\"");
}

#[test]
fn escape_special_characters() {
    assert_eq!(escape("a\"b$c\\d"), "\"a\\\"b\\$c\\\\d\"");
}

#[test]
fn escape_keeps_single_quotes_and_spaces() {
    assert_eq!(escape("it's a test"), "\"it's a test\"");
}

#[test]
fn escape_round_trips() {
    let values = [
        "",
        "plain",
        "a\"b$c\\d",
        "\\",
        "\\\\\"",
        "$HOME/bin:$PATH",
        "tab\tand newline\n",
        "ünïcödé ✓",
        "ends with backslash\\",
    ];
    for v in values.iter() {
        assert_eq!(fish_value(&escape(v)), Some(v.to_string()));
    }
}

#[test]
fn suppressed_shell_names() {
    for n in [
        "SHLVL",
        "history",
        "pipestatus",
        "status",
        "version",
        "FISH_VERSION",
        "fish_pid",
        "hostname",
        "_",
        "fish_private_mode",
    ]
    .iter()
    {
        assert!(ignored(n), "{} should be suppressed", n);
    }
}

#[test]
fn suppressed_capture_noise() {
    assert!(ignored("PS1"));
    assert!(ignored("XPC_SERVICE_NAME"));
}

#[test]
fn pwd_is_never_suppressed() {
    assert!(!ignored("PWD"));
}

#[test]
fn suppressed_prefixes() {
    assert!(ignored("BASH_FUNC_foo%%"));
    assert!(ignored("BASH_FUNC"));
    assert!(ignored("%internal"));
}

#[test]
fn ordinary_names_not_suppressed() {
    assert!(!ignored("PATH"));
    assert!(!ignored("HOME"));
    assert!(!ignored(""));
    assert!(!ignored("BASH_FUN"));
    assert!(!ignored("shlvl"));
    assert!(!ignored("PWD2"));
}
