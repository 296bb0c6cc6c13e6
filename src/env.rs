use vstd::prelude::*;
use crate::text::{chars_of, find, find_at, line_ranges, lemma_find, lines_of, string_of};

verus! {

/// One variable: its name and its value.
pub type Entry = (Seq<char>, Seq<char>);

/// Position of the entry named `k`, or `m.len()` where there is none.
pub open spec fn key_pos(m: Seq<Entry>, k: Seq<char>) -> int
    decreases m.len(),
{
    if m.len() == 0 {
        0
    } else if m[0].0 == k {
        0
    } else {
        1 + key_pos(m.drop_first(), k)
    }
}

/// The value of `k` in `m`, if `m` has it.
pub open spec fn lookup(m: Seq<Entry>, k: Seq<char>) -> Option<Seq<char>> {
    if key_pos(m, k) < m.len() {
        Some(m[key_pos(m, k)].1)
    } else {
        None
    }
}

/// No two entries share a name.
pub open spec fn keys_unique(m: Seq<Entry>) -> bool {
    forall|i: int, j: int| 0 <= i < j < m.len() ==> m[i].0 != m[j].0
}

/// `m` with `k` set to `v`: in place where `k` is there, else at the end.
pub open spec fn insert_entry(m: Seq<Entry>, k: Seq<char>, v: Seq<char>) -> Seq<Entry> {
    if key_pos(m, k) < m.len() {
        m.update(key_pos(m, k), (k, v))
    } else {
        m.push((k, v))
    }
}

/// What `key_pos` finds: the first entry of that name, if any.
pub proof fn lemma_key_pos(m: Seq<Entry>, k: Seq<char>)
    ensures
        0 <= key_pos(m, k) <= m.len(),
        key_pos(m, k) < m.len() ==> m[key_pos(m, k)].0 == k,
        forall|j: int| 0 <= j < key_pos(m, k) ==> m[j].0 != k,
    decreases m.len(),
{
    if m.len() > 0 && m[0].0 != k {
        lemma_key_pos(m.drop_first(), k);
        assert forall|j: int| 0 <= j < key_pos(m, k) implies m[j].0 != k by {
            if j > 0 {
                assert(m[j] == m.drop_first()[j - 1]);
            }
        }
    }
}

/// In a map without repeated names, each entry is what its name looks up.
pub proof fn lemma_lookup_entry(m: Seq<Entry>, i: int)
    requires
        keys_unique(m),
        0 <= i < m.len(),
    ensures
        key_pos(m, m[i].0) == i,
        lookup(m, m[i].0) == Some(m[i].1),
{
    lemma_key_pos(m, m[i].0);
}

/// Inserting keeps names unique.
pub proof fn lemma_insert_unique(m: Seq<Entry>, k: Seq<char>, v: Seq<char>)
    requires
        keys_unique(m),
    ensures
        keys_unique(insert_entry(m, k, v)),
{
    lemma_key_pos(m, k);
    let r = insert_entry(m, k, v);
    assert forall|i: int, j: int| 0 <= i < j < r.len() implies r[i].0 != r[j].0 by {
        if key_pos(m, k) == m.len() && j == m.len() {
            assert(r[i].0 == m[i].0);
        }
    }
}

/// The variable a line of an environment dump defines: the name before
/// the first `=`, the value after it. A line without `=` defines none.
pub open spec fn env_line(l: Seq<char>) -> Option<Entry> {
    let i = find(l, '=');
    if i < l.len() {
        Some((l.subrange(0, i), l.subrange(i + 1, l.len() as int)))
    } else {
        None
    }
}

/// The variables that the lines define, a later line for a name winning.
pub open spec fn env_of_lines(ls: Seq<Seq<char>>) -> Seq<Entry>
    decreases ls.len(),
{
    if ls.len() == 0 {
        Seq::empty()
    } else {
        let m = env_of_lines(ls.drop_last());
        match env_line(ls.last()) {
            Some(e) => insert_entry(m, e.0, e.1),
            None => m,
        }
    }
}

/// The variables of a `NAME=value` dump, in the order of their first line.
pub open spec fn env_of(text: Seq<char>) -> Seq<Entry> {
    env_of_lines(lines_of(text))
}

/// Parsing never yields two entries of one name.
pub proof fn lemma_env_of_lines_unique(ls: Seq<Seq<char>>)
    ensures
        keys_unique(env_of_lines(ls)),
    decreases ls.len(),
{
    if ls.len() > 0 {
        lemma_env_of_lines_unique(ls.drop_last());
        let m = env_of_lines(ls.drop_last());
        match env_line(ls.last()) {
            Some(e) => lemma_insert_unique(m, e.0, e.1),
            None => {},
        }
    }
}

/// A set of environment variables, each name once, kept in the order in
/// which the names first came.
#[derive(Debug, Clone)]
pub struct EnvMap {
    entries: Vec<(String, String)>,
}

impl View for EnvMap {
    type V = Seq<Entry>;

    closed spec fn view(&self) -> Seq<Entry> {
        self.entries@.map_values(|e: (String, String)| (e.0@, e.1@))
    }
}

impl EnvMap {
    /// Well formed: no name is held twice.
    pub open spec fn wf(&self) -> bool {
        keys_unique(self@)
    }

    /// The empty set of variables.
    pub fn new() -> (r: EnvMap)
        ensures
            r@ == Seq::<Entry>::empty(),
            r.wf(),
    {
        let r = EnvMap { entries: Vec::new() };
        assert(r@ =~= Seq::<Entry>::empty());
        r
    }

    /// Number of variables.
    pub fn len(&self) -> (r: usize)
        ensures
            r == self@.len(),
    {
        self.entries.len()
    }

    /// Position of `k`, or `len()` where it is absent.
    fn position(&self, k: &String) -> (r: usize)
        ensures
            r == key_pos(self@, k@),
    {
        let mut i: usize = 0;
        while i < self.entries.len() && self.entries[i].0 != *k
            invariant
                i <= self.entries.len(),
                forall|j: int| 0 <= j < i ==> self@[j].0 != k@,
            decreases self.entries.len() - i,
        {
            i = i + 1;
        }
        proof {
            lemma_key_pos(self@, k@);
            let p = key_pos(self@, k@);
            if p < i {
                assert(self@[p].0 == k@);
            }
            if p > i {
                assert(self@[i as int].0 == self.entries@[i as int].0@);
            }
        }
        i
    }

    /// The value of `k`, if it is set.
    pub fn get(&self, k: &String) -> (r: Option<&String>)
        ensures
            match r {
                Some(v) => lookup(self@, k@) == Some(v@),
                None => lookup(self@, k@) is None,
            },
    {
        let i = self.position(k);
        if i < self.entries.len() {
            Some(&self.entries[i].1)
        } else {
            None
        }
    }

    /// The name and value at position `i`.
    pub fn entry(&self, i: usize) -> (r: (&String, &String))
        requires
            i < self@.len(),
        ensures
            (r.0@, r.1@) == self@[i as int],
    {
        (&self.entries[i].0, &self.entries[i].1)
    }

    /// Sets `k` to `v`: in place where `k` is set already, else at the end.
    pub fn insert(&mut self, k: String, v: String)
        requires
            old(self).wf(),
        ensures
            final(self)@ == insert_entry(old(self)@, k@, v@),
            final(self).wf(),
    {
        let i = self.position(&k);
        proof {
            lemma_insert_unique(self@, k@, v@);
        }
        if i < self.entries.len() {
            self.entries.set(i, (k, v));
        } else {
            self.entries.push((k, v));
        }
        assert(self@ =~= insert_entry(old(self)@, k@, v@));
    }
}

/// Parses a dump of `NAME=value` lines. A line without `=` is skipped; where
/// a name comes twice, its last value wins.
pub fn parse_env(env_str: &str) -> (r: EnvMap)
    ensures
        r@ == env_of(env_str@),
        r.wf(),
{
    let v = chars_of(env_str);
    let ranges = line_ranges(&v);
    let mut m = EnvMap::new();
    let mut i: usize = 0;
    while i < ranges.len()
        invariant
            i <= ranges.len(),
            v@ == env_str@,
            crate::text::ranges_are(v@, ranges@, lines_of(v@)),
            m.wf(),
            m@ == env_of_lines(lines_of(v@).subrange(0, i as int)),
        decreases ranges.len() - i,
    {
        let (lo, hi) = ranges[i];
        let ghost ls = lines_of(v@);
        assert(ls[i as int] == v@.subrange(lo as int, hi as int));
        assert(ranges@[i as int] == (lo, hi));
        assert(ls.subrange(0, i + 1).drop_last() =~= ls.subrange(0, i as int));
        let e = find_at(&v, lo, hi, '=');
        if e < hi {
            proof {
                let l = v@.subrange(lo as int, hi as int);
                lemma_find(l, '=');
                assert(l.subrange(0, e - lo) =~= v@.subrange(lo as int, e as int));
                assert(l.subrange(e - lo + 1, l.len() as int) =~= v@.subrange(e + 1, hi as int));
            }
            let name = string_of(&v, lo, e);
            let value = string_of(&v, e + 1, hi);
            m.insert(name, value);
        }
        i = i + 1;
    }
    assert(lines_of(v@).subrange(0, i as int) =~= lines_of(v@));
    m
}

} // verus!
