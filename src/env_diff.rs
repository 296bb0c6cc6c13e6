use vstd::prelude::*;
use vstd::string::StringExecFns;
use crate::env::{
    env_of, keys_unique, lemma_lookup_entry, lookup, parse_env, Entry, EnvMap,
};
use crate::escape::{escape, escaped};
use crate::filter::{ignored, is_suppressed};

verus! {

/// A change of one variable, as the contracts speak of it.
pub enum EnvChange {
    Add(Seq<char>, Seq<char>),
    Update(Seq<char>, Seq<char>, Seq<char>),
    Remove(Seq<char>),
}

/// A change of one variable between the baseline and the post snapshot.
#[derive(Debug, Clone, PartialEq, Eq)]
pub enum EnvOp {
    Add { name: String, value: String },
    Update { name: String, before: String, after: String },
    Remove { name: String },
}

impl View for EnvOp {
    type V = EnvChange;

    open spec fn view(&self) -> EnvChange {
        match self {
            EnvOp::Add { name, value } => EnvChange::Add(name@, value@),
            EnvOp::Update { name, before, after } => EnvChange::Update(name@, before@, after@),
            EnvOp::Remove { name } => EnvChange::Remove(name@),
        }
    }
}

/// The changes that a list of ops stands for.
pub open spec fn ops_view(ops: Seq<EnvOp>) -> Seq<EnvChange> {
    ops.map_values(|o: EnvOp| o@)
}

/// Additions and updates, in the order of `post`: a name that is not
/// suppressed and is new gives `Add`, one whose value changed gives `Update`.
pub open spec fn additions(base: Seq<Entry>, post: Seq<Entry>) -> Seq<EnvChange>
    decreases post.len(),
{
    if post.len() == 0 {
        Seq::empty()
    } else {
        let prev = additions(base, post.drop_last());
        let (k, v) = post.last();
        if is_suppressed(k) {
            prev
        } else {
            match lookup(base, k) {
                None => prev.push(EnvChange::Add(k, v)),
                Some(o) => if o != v {
                    prev.push(EnvChange::Update(k, o, v))
                } else {
                    prev
                },
            }
        }
    }
}

/// Removals, in the order of `base`: each name of `base` that `post` lacks.
/// Unlike additions they are not filtered: a removal always reaches the
/// script, suppressed name or not.
pub open spec fn removals(base: Seq<Entry>, post: Seq<Entry>) -> Seq<EnvChange>
    decreases base.len(),
{
    if base.len() == 0 {
        Seq::empty()
    } else {
        let prev = removals(base.drop_last(), post);
        if lookup(post, base.last().0) is None {
            prev.push(EnvChange::Remove(base.last().0))
        } else {
            prev
        }
    }
}

/// All changes from `base` to `post`: additions and updates, then removals.
pub open spec fn env_diff(base: Seq<Entry>, post: Seq<Entry>) -> Seq<EnvChange> {
    additions(base, post) + removals(base, post)
}

fn clone_string(s: &String) -> (r: String)
    ensures
        r@ == s@,
{
    s.clone()
}

/// The changes that take the variables of `baseline` to those of `post`.
pub fn diff_env(baseline: &EnvMap, post: &EnvMap) -> (r: Vec<EnvOp>)
    ensures
        ops_view(r@) == env_diff(baseline@, post@),
{
    let mut r: Vec<EnvOp> = Vec::new();
    let mut i: usize = 0;
    while i < post.len()
        invariant
            i <= post@.len(),
            ops_view(r@) == additions(baseline@, post@.subrange(0, i as int)),
        decreases post@.len() - i,
    {
        let (k, v) = post.entry(i);
        let ghost p = post@.subrange(0, i + 1);
        assert(p.drop_last() =~= post@.subrange(0, i as int));
        assert(p.last() == (k@, v@));
        if !ignored(k.as_str()) {
            match baseline.get(k) {
                None => {
                    r.push(EnvOp::Add { name: clone_string(k), value: clone_string(v) });
                    assert(ops_view(r@) =~= additions(baseline@, p));
                },
                Some(o) => {
                    if *o != *v {
                        r.push(
                            EnvOp::Update {
                                name: clone_string(k),
                                before: clone_string(o),
                                after: clone_string(v),
                            },
                        );
                        assert(ops_view(r@) =~= additions(baseline@, p));
                    }
                },
            }
        }
        i = i + 1;
    }
    assert(post@.subrange(0, i as int) =~= post@);
    let ghost adds = ops_view(r@);
    let mut j: usize = 0;
    while j < baseline.len()
        invariant
            j <= baseline@.len(),
            adds == additions(baseline@, post@),
            ops_view(r@) == adds + removals(baseline@.subrange(0, j as int), post@),
        decreases baseline@.len() - j,
    {
        let (k, _) = baseline.entry(j);
        let ghost b = baseline@.subrange(0, j + 1);
        assert(b.drop_last() =~= baseline@.subrange(0, j as int));
        assert(b.last().0 == k@);
        let ghost before = ops_view(r@);
        match post.get(k) {
            None => {
                r.push(EnvOp::Remove { name: clone_string(k) });
                assert(removals(b, post@) == removals(baseline@.subrange(0, j as int), post@).push(
                    EnvChange::Remove(k@),
                ));
                assert(ops_view(r@) =~= before.push(EnvChange::Remove(k@)));
            },
            Some(_) => {},
        }
        assert(ops_view(r@) =~= adds + removals(b, post@));
        j = j + 1;
    }
    assert(baseline@.subrange(0, j as int) =~= baseline@);
    r
}


/// Additions and updates never remove; removals only remove.
proof fn lemma_change_kinds(base: Seq<Entry>, post: Seq<Entry>)
    ensures
        forall|i: int| 0 <= i < additions(base, post).len() ==> !(additions(base, post)[i] is Remove),
        forall|i: int| 0 <= i < removals(base, post).len() ==> removals(base, post)[i] is Remove,
    decreases post.len() + base.len(),
{
    if post.len() > 0 {
        lemma_change_kinds(base, post.drop_last());
    }
    if base.len() > 0 {
        lemma_change_kinds(base.drop_last(), post);
    }
}

/// Every addition and update comes before every removal.
pub proof fn lemma_removals_last(base: Seq<Entry>, post: Seq<Entry>)
    ensures
        forall|i: int, j: int|
            0 <= i < j < env_diff(base, post).len() && (#[trigger] env_diff(base, post)[i] is Remove)
                ==> #[trigger] env_diff(base, post)[j] is Remove,
{
    lemma_change_kinds(base, post);
}

proof fn lemma_no_additions(base: Seq<Entry>, post: Seq<Entry>)
    requires
        forall|i: int| 0 <= i < post.len() ==> lookup(base, #[trigger] post[i].0) == Some(post[i].1),
    ensures
        additions(base, post) == Seq::<EnvChange>::empty(),
    decreases post.len(),
{
    if post.len() > 0 {
        let p = post.drop_last();
        assert forall|i: int| 0 <= i < p.len() implies lookup(base, #[trigger] p[i].0) == Some(p[i].1) by {
            assert(p[i] == post[i]);
        }
        lemma_no_additions(base, p);
        assert(lookup(base, post[post.len() - 1].0) == Some(post[post.len() - 1].1));
    }
}

proof fn lemma_no_removals(base: Seq<Entry>, post: Seq<Entry>)
    requires
        forall|i: int| 0 <= i < base.len() ==> lookup(post, #[trigger] base[i].0) is Some,
    ensures
        removals(base, post) == Seq::<EnvChange>::empty(),
    decreases base.len(),
{
    if base.len() > 0 {
        let b = base.drop_last();
        assert forall|i: int| 0 <= i < b.len() implies lookup(post, #[trigger] b[i].0) is Some by {
            assert(b[i] == base[i]);
        }
        lemma_no_removals(b, post);
        assert(lookup(post, base[base.len() - 1].0) is Some);
    }
}

/// A snapshot compared with itself gives no change at all.
pub proof fn lemma_diff_self(m: Seq<Entry>)
    requires
        keys_unique(m),
    ensures
        env_diff(m, m) == Seq::<EnvChange>::empty(),
{
    assert forall|i: int| 0 <= i < m.len() implies lookup(m, #[trigger] m[i].0) == Some(m[i].1) by {
        lemma_lookup_entry(m, i);
    }
    lemma_no_additions(m, m);
    lemma_no_removals(m, m);
    assert(env_diff(m, m) =~= Seq::<EnvChange>::empty());
}

/// A dump compared with itself gives no change at all.
pub proof fn lemma_diff_self_dump(text: Seq<char>)
    ensures
        env_diff(env_of(text), env_of(text)) == Seq::<EnvChange>::empty(),
{
    crate::env::lemma_env_of_lines_unique(crate::text::lines_of(text));
    lemma_diff_self(env_of(text));
}

/// The characters of each string.
pub open spec fn strings_view(v: Seq<String>) -> Seq<Seq<char>> {
    v.map_values(|s: String| s@)
}

/// The statement that gives `k` the value `v`: a change of directory for
/// `PWD`, an exported global for any other name.
pub open spec fn set_line(k: Seq<char>, v: Seq<char>) -> Seq<char> {
    if k == "PWD"@ {
        "cd "@ + escaped(v)
    } else {
        "set -g -x "@ + k + " "@ + escaped(v)
    }
}

/// The comment and the statement for one change.
pub open spec fn change_lines(c: EnvChange) -> Seq<Seq<char>> {
    match c {
        EnvChange::Add(k, v) => seq!["# Adding "@ + k, set_line(k, v)],
        EnvChange::Update(k, o, v) => seq![
            "# Updating "@ + k + ": '"@ + o + "' -> '"@ + v + "'"@,
            set_line(k, v),
        ],
        EnvChange::Remove(k) => seq!["# Removing "@ + k, "set -e "@ + k],
    }
}

/// The lines of the environment section, change after change.
pub open spec fn env_lines(cs: Seq<EnvChange>) -> Seq<Seq<char>>
    decreases cs.len(),
{
    if cs.len() == 0 {
        Seq::empty()
    } else {
        env_lines(cs.drop_last()) + change_lines(cs.last())
    }
}

proof fn lemma_env_lines_concat(a: Seq<EnvChange>, b: Seq<EnvChange>)
    ensures
        env_lines(a + b) == env_lines(a) + env_lines(b),
    decreases b.len(),
{
    if b.len() == 0 {
        assert(a + b =~= a);
        assert(env_lines(a) + env_lines(b) =~= env_lines(a));
    } else {
        lemma_env_lines_concat(a, b.drop_last());
        assert((a + b).drop_last() =~= a + b.drop_last());
        assert((a + b).last() == b.last());
        assert(env_lines(a + b) =~= env_lines(a) + env_lines(b));
    }
}

/// In the environment section, the lines of all additions and updates
/// come first, and the lines of all removals after them.
pub proof fn lemma_section_removals_last(base: Seq<Entry>, post: Seq<Entry>)
    ensures
        env_lines(env_diff(base, post)) == env_lines(additions(base, post)) + env_lines(
            removals(base, post),
        ),
        forall|i: int|
            0 <= i < additions(base, post).len() ==> !(#[trigger] additions(base, post)[i] is Remove),
        forall|i: int|
            0 <= i < removals(base, post).len() ==> #[trigger] removals(base, post)[i] is Remove,
{
    lemma_env_lines_concat(additions(base, post), removals(base, post));
    lemma_change_kinds(base, post);
}

fn set_statement(name: &String, value: &String) -> (r: String)
    ensures
        r@ == set_line(name@, value@),
{
    let pwd = String::from_str("PWD");
    let lit = escape(value.as_str());
    if *name == pwd {
        let mut l = String::from_str("cd ");
        l.append(lit.as_str());
        l
    } else {
        let mut l = String::from_str("set -g -x ");
        l.append(name.as_str());
        l.append(" ");
        l.append(lit.as_str());
        l
    }
}

/// The script lines for `ops`: for each, a comment, then the statement.
pub fn emit_env(ops: &Vec<EnvOp>) -> (r: Vec<String>)
    ensures
        strings_view(r@) == env_lines(ops_view(ops@)),
{
    let mut r: Vec<String> = Vec::new();
    let mut i: usize = 0;
    while i < ops.len()
        invariant
            i <= ops.len(),
            strings_view(r@) == env_lines(ops_view(ops@.subrange(0, i as int))),
        decreases ops.len() - i,
    {
        let ghost before = strings_view(r@);
        assert(ops_view(ops@.subrange(0, i + 1)).drop_last() =~= ops_view(ops@.subrange(0, i as int)));
        match &ops[i] {
            EnvOp::Add { name, value } => {
                let mut c = String::from_str("# Adding ");
                c.append(name.as_str());
                r.push(c);
                r.push(set_statement(name, value));
            },
            EnvOp::Update { name, before, after } => {
                let mut c = String::from_str("# Updating ");
                c.append(name.as_str());
                c.append(": '");
                c.append(before.as_str());
                c.append("' -> '");
                c.append(after.as_str());
                c.append("'");
                r.push(c);
                r.push(set_statement(name, after));
            },
            EnvOp::Remove { name } => {
                let mut c = String::from_str("# Removing ");
                c.append(name.as_str());
                let mut s = String::from_str("set -e ");
                s.append(name.as_str());
                r.push(c);
                r.push(s);
            },
        }
        assert(strings_view(r@) =~= before + change_lines(ops@[i as int]@));
        i = i + 1;
    }
    assert(ops@.subrange(0, i as int) =~= ops@);
    r
}

/// The environment section of the script for two `NAME=value` dumps.
pub fn process_env_changes(old_env_str: &str, new_env_str: &str) -> (r: Vec<String>)
    ensures
        strings_view(r@) == env_lines(env_diff(env_of(old_env_str@), env_of(new_env_str@))),
{
    let old_env = parse_env(old_env_str);
    let new_env = parse_env(new_env_str);
    let ops = diff_env(&old_env, &new_env);
    emit_env(&ops)
}

} // verus!
