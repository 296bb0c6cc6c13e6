use vstd::prelude::*;
use vstd::string::StringExecFns;
use crate::env_diff::strings_view;
use crate::escape::{escape, escaped};
use crate::text::{
    chars_of, find, find_at, lemma_find, line_ranges, lines_of, ranges_are, starts_with,
    starts_with_at, string_of, strip_prefixes, strip_prefixes_at, trim, trim_at, trim_char,
    trim_char_at,
};

verus! {

/// The alias a line of an alias dump defines, `alias NAME='value'`: the
/// name with the leading `alias ` words and white space taken off, the
/// value with its single quotes taken off. Other lines define none.
pub open spec fn alias_line(l: Seq<char>) -> Option<(Seq<char>, Seq<char>)> {
    let i = find(l, '=');
    if starts_with(l, "alias "@) && i < l.len() {
        Some(
            (
                trim(strip_prefixes(l.subrange(0, i), "alias "@)),
                trim_char(l.subrange(i + 1, l.len() as int), '\''),
            ),
        )
    } else {
        None
    }
}

/// The fish statement that defines an alias.
pub open spec fn alias_statement(name: Seq<char>, value: Seq<char>) -> Seq<char> {
    "alias "@ + name + " "@ + escaped(value)
}

/// One statement for each alias line, in order.
pub open spec fn alias_statements(ls: Seq<Seq<char>>) -> Seq<Seq<char>>
    decreases ls.len(),
{
    if ls.len() == 0 {
        Seq::empty()
    } else {
        let prev = alias_statements(ls.drop_last());
        match alias_line(ls.last()) {
            Some(a) => prev.push(alias_statement(a.0, a.1)),
            None => prev,
        }
    }
}

/// The alias section of the script: every alias of the dump is declared
/// again, whether it is new or not. Lines that are no alias are skipped.
pub fn parse_aliases(alias_output: &str) -> (r: Vec<String>)
    ensures
        strings_view(r@) == alias_statements(lines_of(alias_output@)),
{
    proof {
        reveal_strlit("alias ");
    }
    let v = chars_of(alias_output);
    let ranges = line_ranges(&v);
    let mut r: Vec<String> = Vec::new();
    let mut i: usize = 0;
    while i < ranges.len()
        invariant
            i <= ranges.len(),
            v@ == alias_output@,
            "alias "@.len() == 6,
            ranges_are(v@, ranges@, lines_of(v@)),
            strings_view(r@) == alias_statements(lines_of(v@).subrange(0, i as int)),
        decreases ranges.len() - i,
    {
        let (lo, hi) = ranges[i];
        let ghost ls = lines_of(v@);
        let ghost l = v@.subrange(lo as int, hi as int);
        assert(ls[i as int] == l);
        assert(ranges@[i as int] == (lo, hi));
        assert(ls.subrange(0, i + 1).drop_last() =~= ls.subrange(0, i as int));
        let ghost before = strings_view(r@);
        if starts_with_at(&v, lo, hi, "alias ") {
            let e = find_at(&v, lo, hi, '=');
            if e < hi {
                proof {
                    lemma_find(l, '=');
                    assert(l.subrange(0, e - lo) =~= v@.subrange(lo as int, e as int));
                    assert(l.subrange(e - lo + 1, l.len() as int) =~= v@.subrange(
                        e + 1,
                        hi as int,
                    ));
                }
                let a = strip_prefixes_at(&v, lo, e, "alias ");
                let (na, nb) = trim_at(&v, a, e);
                let (va, vb) = trim_char_at(&v, e + 1, hi, '\'');
                let name = string_of(&v, na, nb);
                let value = string_of(&v, va, vb);
                let lit = escape(value.as_str());
                let mut s = String::from_str("alias ");
                s.append(name.as_str());
                s.append(" ");
                s.append(lit.as_str());
                r.push(s);
                assert(strings_view(r@) =~= before.push(s@));
            }
        }
        i = i + 1;
    }
    assert(lines_of(v@).subrange(0, i as int) =~= lines_of(v@));
    r
}

} // verus!
