use vstd::prelude::*;
use vstd::string::StringExecFns;
use crate::alias::{alias_statements, parse_aliases};
use crate::env::env_of;
use crate::env_diff::{env_diff, env_lines, process_env_changes, strings_view};
use crate::funcs::{func_line, funcs_diff, funcs_of, process_func_changes, FuncChange};
use crate::text::{
    chars_of, find_sub, find_sub_at, lemma_find_sub, lines_of, push_char, string_of, trim, trim_at,
};

verus! {

/// The line that bash prints between the sections of a capture.
pub open spec fn separator() -> Seq<char> {
    "---SECTION---"@
}

/// The bash script that evaluates `command` and then prints the
/// environment, the aliases and the declared functions, with a separator
/// line between them.
pub open spec fn capture_text(command: Seq<char>) -> Seq<char> {
    "eval \""@ + command + "\" >/dev/null; env; echo '"@ + separator() + "'; alias; echo '"@
        + separator() + "'; declare -F"@
}

/// The bash script that captures the state after `command`.
pub fn capture_script(command: &str) -> (r: String)
    ensures
        r@ == capture_text(command@),
{
    let mut r = String::from_str("eval \"");
    r.append(command);
    r.append("\" >/dev/null; env; echo '");
    r.append("---SECTION---");
    r.append("'; alias; echo '");
    r.append("---SECTION---");
    r.append("'; declare -F");
    r
}

/// The environment, alias and function sections of a capture's output,
/// each trimmed; `None` where the output has fewer than two separators.
pub open spec fn sections(out: Seq<char>) -> Option<(Seq<char>, Seq<char>, Seq<char>)> {
    let n = separator().len() as int;
    let i = find_sub(out, separator());
    if i == out.len() {
        None
    } else {
        let rest = out.subrange(i + n, out.len() as int);
        let j = find_sub(rest, separator());
        if j == rest.len() {
            None
        } else {
            let rest2 = rest.subrange(j + n, rest.len() as int);
            let k = find_sub(rest2, separator());
            Some((trim(out.subrange(0, i)), trim(rest.subrange(0, j)), trim(rest2.subrange(0, k))))
        }
    }
}

/// Splits a capture's output into its three sections.
pub fn split_sections(output: &str) -> (r: Option<(String, String, String)>)
    ensures
        match r {
            Some(t) => sections(output@) == Some((t.0@, t.1@, t.2@)),
            None => sections(output@) is None,
        },
{
    proof {
        reveal_strlit("---SECTION---");
    }
    let v = chars_of(output);
    let len = v.len();
    let n = "---SECTION---".unicode_len();
    let ghost out = v@;
    assert(v@.subrange(0, len as int) =~= out);
    let i = find_sub_at(&v, 0, len, "---SECTION---");
    if i == len {
        return None;
    }
    proof {
        lemma_find_sub(out, separator());
        assert(out.subrange(i as int, len as int).subrange(0, n as int) =~= out.subrange(
            i as int,
            i + n,
        ));
    }
    let a = i + n;
    let ghost rest = out.subrange(a as int, len as int);
    let j = find_sub_at(&v, a, len, "---SECTION---");
    if j == len {
        return None;
    }
    proof {
        lemma_find_sub(rest, separator());
        let jj = j - a;
        assert(rest.subrange(jj, rest.len() as int) =~= out.subrange(j as int, len as int));
        assert(out.subrange(j as int, len as int).subrange(0, n as int) =~= out.subrange(
            j as int,
            j + n,
        ));
    }
    let b = j + n;
    let ghost rest2 = rest.subrange(j - a + n, rest.len() as int);
    assert(rest2 =~= out.subrange(b as int, len as int));
    let k = find_sub_at(&v, b, len, "---SECTION---");
    assert(out.subrange(0, i as int) =~= v@.subrange(0, i as int));
    assert(rest.subrange(0, j - a) =~= v@.subrange(a as int, j as int));
    assert(rest2.subrange(0, k - b) =~= v@.subrange(b as int, k as int));
    let (e0, e1) = trim_at(&v, 0, i);
    let (f0, f1) = trim_at(&v, a, j);
    let (g0, g1) = trim_at(&v, b, k);
    Some((string_of(&v, e0, e1), string_of(&v, f0, f1), string_of(&v, g0, g1)))
}

/// The lines joined with newlines between them.
pub open spec fn join_lines(ls: Seq<Seq<char>>) -> Seq<char>
    decreases ls.len(),
{
    if ls.len() == 0 {
        Seq::empty()
    } else if ls.len() == 1 {
        ls[0]
    } else {
        join_lines(ls.drop_last()).push('\n') + ls.last()
    }
}

/// Appends the lines of `ls`, with newlines between them, to `out`.
fn append_joined(out: &mut String, ls: &Vec<String>)
    ensures
        final(out)@ == old(out)@ + join_lines(strings_view(ls@)),
{
    let ghost start = out@;
    let mut i: usize = 0;
    while i < ls.len()
        invariant
            i <= ls.len(),
            out@ == start + join_lines(strings_view(ls@).subrange(0, i as int)),
        decreases ls.len() - i,
    {
        let ghost prev = strings_view(ls@).subrange(0, i as int);
        let ghost next = strings_view(ls@).subrange(0, i + 1);
        assert(next.drop_last() =~= prev);
        assert(next.last() == ls@[i as int]@);
        if i > 0 {
            push_char(out, '\n');
        }
        out.append(ls[i].as_str());
        assert(out@ =~= start + join_lines(next));
        i = i + 1;
    }
    assert(strings_view(ls@).subrange(0, i as int) =~= strings_view(ls@));
}

/// The whole script: the environment, alias and function sections, each
/// followed by a newline.
pub open spec fn script_text(
    env: Seq<Seq<char>>,
    aliases: Seq<Seq<char>>,
    funcs: Seq<Seq<char>>,
) -> Seq<char> {
    join_lines(env).push('\n') + join_lines(aliases).push('\n') + join_lines(funcs).push('\n')
}

/// Puts the three sections of the script together.
pub fn build_script(env_lines: &Vec<String>, alias_lines: &Vec<String>, func_lines: &Vec<String>) -> (r: String)
    ensures
        r@ == script_text(strings_view(env_lines@), strings_view(alias_lines@), strings_view(func_lines@)),
{
    let mut r = String::new();
    append_joined(&mut r, env_lines);
    push_char(&mut r, '\n');
    append_joined(&mut r, alias_lines);
    push_char(&mut r, '\n');
    append_joined(&mut r, func_lines);
    push_char(&mut r, '\n');
    assert(r@ =~= script_text(strings_view(env_lines@), strings_view(alias_lines@), strings_view(func_lines@)));
    r
}

/// The fish script that replays what a command did, from the sections of
/// the baseline capture and of the capture after the command.
pub fn diff_script(
    old_env_str: &str,
    old_func_str: &str,
    new_env_str: &str,
    new_alias_str: &str,
    new_func_str: &str,
) -> (r: String)
    ensures
        r@ == script_text(
            env_lines(env_diff(env_of(old_env_str@), env_of(new_env_str@))),
            alias_statements(lines_of(new_alias_str@)),
            funcs_diff(funcs_of(old_func_str@), funcs_of(new_func_str@)).map_values(
                |c: FuncChange| func_line(c),
            ),
        ),
{
    let env_lines = process_env_changes(old_env_str, new_env_str);
    let alias_lines = parse_aliases(new_alias_str);
    let func_lines = process_func_changes(old_func_str, new_func_str);
    build_script(&env_lines, &alias_lines, &func_lines)
}

} // verus!
