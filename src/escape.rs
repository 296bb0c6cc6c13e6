use vstd::prelude::*;
use crate::text::{chars_of, push_char};

verus! {

/// Characters that need a backslash inside a double-quoted fish string.
pub open spec fn needs_backslash(c: char) -> bool {
    c == '\\' || c == '"' || c == '$'
}

/// How one character is written inside the double quotes.
pub open spec fn escape_char(c: char) -> Seq<char> {
    if needs_backslash(c) {
        seq!['\\', c]
    } else {
        seq![c]
    }
}

/// The text between the double quotes: each character escaped in turn.
pub open spec fn escape_body(s: Seq<char>) -> Seq<char>
    decreases s.len(),
{
    if s.len() == 0 {
        Seq::empty()
    } else {
        escape_body(s.drop_last()) + escape_char(s.last())
    }
}

/// The double-quoted fish literal for `s`.
pub open spec fn escaped(s: Seq<char>) -> Seq<char> {
    seq!['"'] + escape_body(s) + seq!['"']
}

/// The value fish gives to the text between the double quotes of a
/// literal, or `None` where that text is no plain literal (an unescaped
/// quote or dollar sign, or a backslash that escapes the closing quote).
pub open spec fn unescape_body(b: Seq<char>) -> Option<Seq<char>>
    decreases b.len(),
{
    if b.len() == 0 {
        Some(Seq::empty())
    } else if b[0] == '\\' && b.len() == 1 {
        None
    } else if b[0] == '\\' && needs_backslash(b[1]) {
        match unescape_body(b.subrange(2, b.len() as int)) {
            Some(r) => Some(seq![b[1]] + r),
            None => None,
        }
    } else if b[0] == '"' || b[0] == '$' {
        None
    } else {
        match unescape_body(b.drop_first()) {
            Some(r) => Some(seq![b[0]] + r),
            None => None,
        }
    }
}

/// The value of a double-quoted fish literal.
pub open spec fn literal_value(lit: Seq<char>) -> Option<Seq<char>> {
    if lit.len() >= 2 && lit[0] == '"' && lit.last() == '"' {
        unescape_body(lit.subrange(1, lit.len() - 1))
    } else {
        None
    }
}

proof fn lemma_escape_body_front(s: Seq<char>)
    requires
        s.len() > 0,
    ensures
        escape_body(s) == escape_char(s[0]) + escape_body(s.drop_first()),
    decreases s.len(),
{
    if s.len() == 1 {
        assert(s.drop_last() =~= Seq::<char>::empty());
        assert(s.drop_first() =~= Seq::<char>::empty());
        assert(escape_body(s) =~= escape_char(s[0]) + escape_body(s.drop_first()));
    } else {
        lemma_escape_body_front(s.drop_last());
        assert(s.drop_last().drop_first() =~= s.drop_first().drop_last());
        assert(escape_body(s) =~= escape_char(s[0]) + escape_body(s.drop_first()));
    }
}

proof fn lemma_unescape_body(s: Seq<char>)
    ensures
        unescape_body(escape_body(s)) == Some(s),
    decreases s.len(),
{
    if s.len() == 0 {
    } else {
        lemma_escape_body_front(s);
        lemma_unescape_body(s.drop_first());
        let b = escape_body(s);
        let rest = escape_body(s.drop_first());
        if needs_backslash(s[0]) {
            assert(b.subrange(2, b.len() as int) =~= rest);
        } else {
            assert(b.drop_first() =~= rest);
        }
        assert(seq![s[0]] + s.drop_first() =~= s);
    }
}

/// Reading the literal that `escape` writes gives back the value.
pub proof fn lemma_escape_round_trip(v: Seq<char>)
    ensures
        literal_value(escaped(v)) == Some(v),
{
    let lit = escaped(v);
    assert(lit.subrange(1, lit.len() - 1) =~= escape_body(v));
    lemma_unescape_body(v);
}

/// Writes `v` as a double-quoted fish literal.
pub fn escape(value: &str) -> (r: String)
    ensures
        r@ == escaped(value@),
{
    let v = chars_of(value);
    let mut r = String::new();
    push_char(&mut r, '"');
    let mut i: usize = 0;
    while i < v.len()
        invariant
            i <= v.len(),
            v@ == value@,
            r@ == seq!['"'] + escape_body(v@.subrange(0, i as int)),
        decreases v.len() - i,
    {
        let c = v[i];
        if c == '\\' || c == '"' || c == '$' {
            push_char(&mut r, '\\');
        }
        push_char(&mut r, c);
        assert(v@.subrange(0, i + 1).drop_last() =~= v@.subrange(0, i as int));
        assert(r@ =~= seq!['"'] + escape_body(v@.subrange(0, i + 1)));
        i = i + 1;
    }
    push_char(&mut r, '"');
    assert(v@.subrange(0, i as int) =~= v@);
    r
}

} // verus!
