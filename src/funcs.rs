use vstd::prelude::*;
use vstd::string::StringExecFns;
use crate::env_diff::strings_view;
use crate::text::{chars_of, last_word, last_word_at, line_ranges, lines_of, ranges_are, string_of};

verus! {

/// The function names of a dump, one per line as its last word, each
/// name once, in the order of first appearance. Blank lines name none.
pub open spec fn funcs_of_lines(ls: Seq<Seq<char>>) -> Seq<Seq<char>>
    decreases ls.len(),
{
    if ls.len() == 0 {
        Seq::empty()
    } else {
        let prev = funcs_of_lines(ls.drop_last());
        let w = last_word(ls.last());
        if w.len() == 0 || prev.contains(w) {
            prev
        } else {
            prev.push(w)
        }
    }
}

/// The function names of a dump.
pub open spec fn funcs_of(text: Seq<char>) -> Seq<Seq<char>> {
    funcs_of_lines(lines_of(text))
}

fn contains_string(v: &Vec<String>, s: &String) -> (r: bool)
    ensures
        r == strings_view(v@).contains(s@),
{
    let mut i: usize = 0;
    while i < v.len()
        invariant
            i <= v.len(),
            forall|j: int| 0 <= j < i ==> v@[j]@ != s@,
        decreases v.len() - i,
    {
        if v[i] == *s {
            assert(strings_view(v@)[i as int] == s@);
            return true;
        }
        i = i + 1;
    }
    assert forall|j: int| 0 <= j < strings_view(v@).len() implies strings_view(v@)[j] != s@ by {
        assert(strings_view(v@)[j] == v@[j]@);
    }
    false
}

/// Parses a dump of declared functions (`declare -f NAME` lines) into the
/// set of their names.
pub fn parse_funcs(func_str: &str) -> (r: Vec<String>)
    ensures
        strings_view(r@) == funcs_of(func_str@),
{
    let v = chars_of(func_str);
    let ranges = line_ranges(&v);
    let mut r: Vec<String> = Vec::new();
    let mut i: usize = 0;
    while i < ranges.len()
        invariant
            i <= ranges.len(),
            v@ == func_str@,
            ranges_are(v@, ranges@, lines_of(v@)),
            strings_view(r@) == funcs_of_lines(lines_of(v@).subrange(0, i as int)),
        decreases ranges.len() - i,
    {
        let (lo, hi) = ranges[i];
        let ghost ls = lines_of(v@);
        assert(ls[i as int] == v@.subrange(lo as int, hi as int));
        assert(ranges@[i as int] == (lo, hi));
        assert(ls.subrange(0, i + 1).drop_last() =~= ls.subrange(0, i as int));
        let ghost before = strings_view(r@);
        let (a, b) = last_word_at(&v, lo, hi);
        if a < b {
            let w = string_of(&v, a, b);
            if !contains_string(&r, &w) {
                r.push(w);
                assert(strings_view(r@) =~= before.push(w@));
            }
        }
        i = i + 1;
    }
    assert(lines_of(v@).subrange(0, i as int) =~= lines_of(v@));
    r
}

/// A change in the set of functions, as the contracts speak of it.
pub enum FuncChange {
    Added(Seq<char>),
    Removed(Seq<char>),
}

/// A function that appeared or disappeared. Only presence is tracked:
/// a function whose body changed gives no op.
#[derive(Debug, Clone, PartialEq, Eq)]
pub enum FuncOp {
    Added(String),
    Removed(String),
}

impl View for FuncOp {
    type V = FuncChange;

    open spec fn view(&self) -> FuncChange {
        match self {
            FuncOp::Added(n) => FuncChange::Added(n@),
            FuncOp::Removed(n) => FuncChange::Removed(n@),
        }
    }
}

/// The changes that a list of function ops stands for.
pub open spec fn func_ops_view(ops: Seq<FuncOp>) -> Seq<FuncChange> {
    ops.map_values(|o: FuncOp| o@)
}

/// The names of `post` that `base` lacks, in the order of `post`.
pub open spec fn funcs_added(base: Seq<Seq<char>>, post: Seq<Seq<char>>) -> Seq<FuncChange>
    decreases post.len(),
{
    if post.len() == 0 {
        Seq::empty()
    } else {
        let prev = funcs_added(base, post.drop_last());
        if base.contains(post.last()) {
            prev
        } else {
            prev.push(FuncChange::Added(post.last()))
        }
    }
}

/// The names of `base` that `post` lacks, in the order of `base`.
pub open spec fn funcs_removed(base: Seq<Seq<char>>, post: Seq<Seq<char>>) -> Seq<FuncChange>
    decreases base.len(),
{
    if base.len() == 0 {
        Seq::empty()
    } else {
        let prev = funcs_removed(base.drop_last(), post);
        if post.contains(base.last()) {
            prev
        } else {
            prev.push(FuncChange::Removed(base.last()))
        }
    }
}

/// Functions added, then functions removed.
pub open spec fn funcs_diff(base: Seq<Seq<char>>, post: Seq<Seq<char>>) -> Seq<FuncChange> {
    funcs_added(base, post) + funcs_removed(base, post)
}

/// The functions that `post` adds to `baseline` and those it removes.
pub fn diff_funcs(baseline: &Vec<String>, post: &Vec<String>) -> (r: Vec<FuncOp>)
    ensures
        func_ops_view(r@) == funcs_diff(strings_view(baseline@), strings_view(post@)),
{
    let ghost b = strings_view(baseline@);
    let ghost p = strings_view(post@);
    let mut r: Vec<FuncOp> = Vec::new();
    let mut i: usize = 0;
    while i < post.len()
        invariant
            i <= post.len(),
            b == strings_view(baseline@),
            p == strings_view(post@),
            func_ops_view(r@) == funcs_added(b, p.subrange(0, i as int)),
        decreases post.len() - i,
    {
        assert(p.subrange(0, i + 1).drop_last() =~= p.subrange(0, i as int));
        assert(p.subrange(0, i + 1).last() == post@[i as int]@);
        let ghost before = func_ops_view(r@);
        if !contains_string(baseline, &post[i]) {
            r.push(FuncOp::Added(post[i].clone()));
            assert(func_ops_view(r@) =~= before.push(FuncChange::Added(post@[i as int]@)));
        }
        i = i + 1;
    }
    assert(p.subrange(0, i as int) =~= p);
    let ghost adds = func_ops_view(r@);
    let mut j: usize = 0;
    while j < baseline.len()
        invariant
            j <= baseline.len(),
            b == strings_view(baseline@),
            p == strings_view(post@),
            adds == funcs_added(b, p),
            func_ops_view(r@) == adds + funcs_removed(b.subrange(0, j as int), p),
        decreases baseline.len() - j,
    {
        assert(b.subrange(0, j + 1).drop_last() =~= b.subrange(0, j as int));
        assert(b.subrange(0, j + 1).last() == baseline@[j as int]@);
        let ghost before = func_ops_view(r@);
        if !contains_string(post, &baseline[j]) {
            r.push(FuncOp::Removed(baseline[j].clone()));
            assert(func_ops_view(r@) =~= before.push(FuncChange::Removed(baseline@[j as int]@)));
        }
        assert(func_ops_view(r@) =~= adds + funcs_removed(b.subrange(0, j + 1), p));
        j = j + 1;
    }
    assert(b.subrange(0, j as int) =~= b);
    r
}

/// The comment for one change of the functions. Bodies are not carried
/// over: the comment is all the script says.
pub open spec fn func_line(c: FuncChange) -> Seq<char> {
    match c {
        FuncChange::Added(n) => "# Adding function "@ + n,
        FuncChange::Removed(n) => "# Removing function "@ + n,
    }
}

/// The function section of the script: one comment for each op.
pub fn emit_funcs(ops: &Vec<FuncOp>) -> (r: Vec<String>)
    ensures
        strings_view(r@) == func_ops_view(ops@).map_values(|c: FuncChange| func_line(c)),
{
    let mut r: Vec<String> = Vec::new();
    let mut i: usize = 0;
    while i < ops.len()
        invariant
            i <= ops.len(),
            r.len() == i,
            forall|j: int| 0 <= j < i ==> #[trigger] r@[j]@ == func_line(ops@[j]@),
        decreases ops.len() - i,
    {
        let l = match &ops[i] {
            FuncOp::Added(n) => {
                let mut l = String::from_str("# Adding function ");
                l.append(n.as_str());
                l
            },
            FuncOp::Removed(n) => {
                let mut l = String::from_str("# Removing function ");
                l.append(n.as_str());
                l
            },
        };
        r.push(l);
        i = i + 1;
    }
    assert(strings_view(r@) =~= func_ops_view(ops@).map_values(|c: FuncChange| func_line(c)));
    r
}

/// The function section of the script for two dumps of declared functions.
pub fn process_func_changes(old_func_str: &str, new_func_str: &str) -> (r: Vec<String>)
    ensures
        strings_view(r@) == funcs_diff(funcs_of(old_func_str@), funcs_of(new_func_str@)).map_values(
            |c: FuncChange| func_line(c),
        ),
{
    let old_funcs = parse_funcs(old_func_str);
    let new_funcs = parse_funcs(new_func_str);
    let ops = diff_funcs(&old_funcs, &new_funcs);
    emit_funcs(&ops)
}

} // verus!
