use vstd::prelude::*;
use vstd::std_specs::iter::IteratorSpec;

verus! {

/// Relies on `String::push`: the character is appended at the end.
#[verifier::external_body]
pub(crate) fn push_char(s: &mut String, c: char)
    ensures
        final(s)@ == old(s)@.push(c),
{
    s.push(c)
}

/// The characters of `s`, in order.
pub fn chars_of(s: &str) -> (r: Vec<char>)
    ensures
        r@ == s@,
{
    let mut it = s.chars();
    let mut r: Vec<char> = Vec::new();
    loop
        invariant
            r@ + it.remaining() == s@,
            it.decrease() is Some,
        ensures
            r@ == s@,
        decreases it.decrease()->0,
    {
        match it.next() {
            Some(c) => {
                r.push(c);
                assert(r@ + it.remaining() =~= s@);
            },
            None => {
                assert(it.remaining().len() == 0);
                assert(r@ + it.remaining() =~= r@);
                break;
            },
        }
    }
    r
}


/// Copies `v[lo..hi]` into a fresh string.
pub fn string_of(v: &Vec<char>, lo: usize, hi: usize) -> (r: String)
    requires
        lo <= hi <= v.len(),
    ensures
        r@ == v@.subrange(lo as int, hi as int),
{
    let mut r = String::new();
    let mut i = lo;
    while i < hi
        invariant
            lo <= i <= hi <= v.len(),
            r@ == v@.subrange(lo as int, i as int),
        decreases hi - i,
    {
        push_char(&mut r, v[i]);
        assert(r@ =~= v@.subrange(lo as int, i + 1));
        i = i + 1;
    }
    r
}

/// Characters with the Unicode `White_Space` property.
pub open spec fn is_space(c: char) -> bool {
    ||| '\t' <= c <= '\r'
    ||| c == ' '
    ||| c == '\u{85}'
    ||| c == '\u{A0}'
    ||| c == '\u{1680}'
    ||| '\u{2000}' <= c <= '\u{200A}'
    ||| c == '\u{2028}'
    ||| c == '\u{2029}'
    ||| c == '\u{202F}'
    ||| c == '\u{205F}'
    ||| c == '\u{3000}'
}

/// Whether `c` is white space.
pub fn space(c: char) -> (r: bool)
    ensures
        r == is_space(c),
{
    ('\t' <= c && c <= '\r') || c == ' ' || c == '\u{85}' || c == '\u{A0}' || c == '\u{1680}'
        || ('\u{2000}' <= c && c <= '\u{200A}') || c == '\u{2028}' || c == '\u{2029}'
        || c == '\u{202F}' || c == '\u{205F}' || c == '\u{3000}'
}

/// `s` without its leading white space.
pub open spec fn trim_start(s: Seq<char>) -> Seq<char>
    decreases s.len(),
{
    if s.len() > 0 && is_space(s[0]) {
        trim_start(s.drop_first())
    } else {
        s
    }
}

/// `s` without its trailing white space.
pub open spec fn trim_end(s: Seq<char>) -> Seq<char>
    decreases s.len(),
{
    if s.len() > 0 && is_space(s.last()) {
        trim_end(s.drop_last())
    } else {
        s
    }
}

/// `s` without white space at either end.
pub open spec fn trim(s: Seq<char>) -> Seq<char> {
    trim_end(trim_start(s))
}

/// Bounds of `v[lo..hi]` with leading white space left out.
pub fn trim_start_at(v: &Vec<char>, lo: usize, hi: usize) -> (r: usize)
    requires
        lo <= hi <= v.len(),
    ensures
        lo <= r <= hi,
        v@.subrange(r as int, hi as int) == trim_start(v@.subrange(lo as int, hi as int)),
{
    let mut i = lo;
    while i < hi && space(v[i])
        invariant
            lo <= i <= hi <= v.len(),
            trim_start(v@.subrange(i as int, hi as int)) == trim_start(
                v@.subrange(lo as int, hi as int),
            ),
        decreases hi - i,
    {
        assert(v@.subrange(i as int, hi as int).drop_first() =~= v@.subrange(i + 1, hi as int));
        i = i + 1;
    }
    i
}

/// Bounds of `v[lo..hi]` with trailing white space left out.
pub fn trim_end_at(v: &Vec<char>, lo: usize, hi: usize) -> (r: usize)
    requires
        lo <= hi <= v.len(),
    ensures
        lo <= r <= hi,
        v@.subrange(lo as int, r as int) == trim_end(v@.subrange(lo as int, hi as int)),
{
    let mut j = hi;
    while j > lo && space(v[j - 1])
        invariant
            lo <= j <= hi <= v.len(),
            trim_end(v@.subrange(lo as int, j as int)) == trim_end(
                v@.subrange(lo as int, hi as int),
            ),
        decreases j - lo,
    {
        assert(v@.subrange(lo as int, j as int).drop_last() =~= v@.subrange(lo as int, j - 1));
        j = j - 1;
    }
    j
}

/// Bounds of `v[lo..hi]` with white space at both ends left out.
pub fn trim_at(v: &Vec<char>, lo: usize, hi: usize) -> (r: (usize, usize))
    requires
        lo <= hi <= v.len(),
    ensures
        lo <= r.0 <= r.1 <= hi,
        v@.subrange(r.0 as int, r.1 as int) == trim(v@.subrange(lo as int, hi as int)),
{
    let a = trim_start_at(v, lo, hi);
    let b = trim_end_at(v, a, hi);
    (a, b)
}

/// Position of the first `c` in `s`, or `s.len()` where there is none.
pub open spec fn find(s: Seq<char>, c: char) -> int
    decreases s.len(),
{
    if s.len() == 0 {
        0
    } else if s[0] == c {
        0
    } else {
        1 + find(s.drop_first(), c)
    }
}

/// What `find` finds: the first `c`, if any.
pub proof fn lemma_find(s: Seq<char>, c: char)
    ensures
        0 <= find(s, c) <= s.len(),
        find(s, c) < s.len() ==> s[find(s, c)] == c,
        forall|j: int| 0 <= j < find(s, c) ==> s[j] != c,
    decreases s.len(),
{
    if s.len() > 0 && s[0] != c {
        lemma_find(s.drop_first(), c);
        assert forall|j: int| 0 <= j < find(s, c) implies s[j] != c by {
            if j > 0 {
                assert(s[j] == s.drop_first()[j - 1]);
            }
        }
    }
}

/// Position of the first `c` in `v[lo..hi]`, counted from `lo`.
pub fn find_at(v: &Vec<char>, lo: usize, hi: usize, c: char) -> (r: usize)
    requires
        lo <= hi <= v.len(),
    ensures
        lo <= r <= hi,
        r - lo == find(v@.subrange(lo as int, hi as int), c),
{
    let ghost s = v@.subrange(lo as int, hi as int);
    let mut i = lo;
    while i < hi && v[i] != c
        invariant
            lo <= i <= hi <= v.len(),
            s == v@.subrange(lo as int, hi as int),
            forall|j: int| lo <= j < i ==> v@[j] != c,
        decreases hi - i,
    {
        i = i + 1;
    }
    proof {
        lemma_find(s, c);
        let k = find(s, c);
        if k < i - lo {
            assert(s[k] == v@[lo + k]);
        }
        if k > i - lo {
            assert(s[i - lo] == v@[i as int]);
        }
    }
    i
}

/// `s` begins with `p`.
pub open spec fn starts_with(s: Seq<char>, p: Seq<char>) -> bool {
    p.len() <= s.len() && s.subrange(0, p.len() as int) == p
}

/// Whether `v[lo..hi]` begins with `p`.
pub fn starts_with_at(v: &Vec<char>, lo: usize, hi: usize, p: &str) -> (r: bool)
    requires
        lo <= hi <= v.len(),
    ensures
        r == starts_with(v@.subrange(lo as int, hi as int), p@),
{
    let n = p.unicode_len();
    if n > hi - lo {
        return false;
    }
    let mut k: usize = 0;
    while k < n
        invariant
            0 <= k <= n,
            n == p@.len(),
            lo + n <= hi <= v.len(),
            forall|j: int| 0 <= j < k ==> v@[lo + j] == p@[j],
        decreases n - k,
    {
        if v[lo + k] != p.get_char(k) {
            assert(v@.subrange(lo as int, hi as int)[k as int] == v@[lo + k]);
            return false;
        }
        k = k + 1;
    }
    assert(v@.subrange(lo as int, hi as int).subrange(0, n as int) =~= p@);
    true
}

/// `l` without one carriage return at its end.
pub open spec fn strip_cr(l: Seq<char>) -> Seq<char> {
    if l.len() > 0 && l.last() == '\r' {
        l.drop_last()
    } else {
        l
    }
}

/// Reading `s` from the left: the lines ended by a newline so far (each
/// without a carriage return before its newline), and the piece after them.
pub open spec fn scan_lines(s: Seq<char>) -> (Seq<Seq<char>>, Seq<char>)
    decreases s.len(),
{
    if s.len() == 0 {
        (Seq::empty(), Seq::empty())
    } else {
        let prev = scan_lines(s.drop_last());
        if s.last() == '\n' {
            (prev.0.push(strip_cr(prev.1)), Seq::empty())
        } else {
            (prev.0, prev.1.push(s.last()))
        }
    }
}

/// The lines of `s`: split at newlines, a carriage return before a newline
/// dropped, and no empty line after a final newline.
pub open spec fn lines_of(s: Seq<char>) -> Seq<Seq<char>> {
    let (done, rest) = scan_lines(s);
    if rest.len() == 0 {
        done
    } else {
        done.push(rest)
    }
}

/// Each range of `r` is a piece of `v`, and the pieces are `ls`.
pub open spec fn ranges_are(v: Seq<char>, r: Seq<(usize, usize)>, ls: Seq<Seq<char>>) -> bool {
    &&& r.len() == ls.len()
    &&& forall|j: int| 0 <= j < r.len() ==> (#[trigger] r[j]).0 <= r[j].1 <= v.len()
    &&& forall|j: int|
        0 <= j < r.len() ==> #[trigger] ls[j] == v.subrange(r[j].0 as int, r[j].1 as int)
}

/// The ranges of the lines of `v`.
pub fn line_ranges(v: &Vec<char>) -> (r: Vec<(usize, usize)>)
    ensures
        ranges_are(v@, r@, lines_of(v@)),
{
    let mut r: Vec<(usize, usize)> = Vec::new();
    let mut start: usize = 0;
    let mut i: usize = 0;
    while i < v.len()
        invariant
            start <= i <= v.len(),
            ranges_are(v@, r@, scan_lines(v@.subrange(0, i as int)).0),
            scan_lines(v@.subrange(0, i as int)).1 == v@.subrange(start as int, i as int),
        decreases v.len() - i,
    {
        let ghost pre = v@.subrange(0, i as int);
        assert(v@.subrange(0, i + 1).drop_last() =~= pre);
        if v[i] == '\n' {
            let e = if i > start && v[i - 1] == '\r' {
                i - 1
            } else {
                i
            };
            assert(v@.subrange(start as int, e as int) =~= strip_cr(
                v@.subrange(start as int, i as int),
            ));
            let ghost done = scan_lines(pre).0;
            r.push((start, e));
            proof {
                let nd = done.push(strip_cr(v@.subrange(start as int, i as int)));
                assert(scan_lines(v@.subrange(0, i + 1)).0 == nd);
                assert forall|j: int| 0 <= j < r@.len() implies r@[j].0 <= r@[j].1 <= v@.len()
                    && #[trigger] nd[j] == v@.subrange(r@[j].0 as int, r@[j].1 as int) by {
                    if j < done.len() {
                        assert(nd[j] == done[j]);
                    }
                }
            }
            start = i + 1;
            assert(v@.subrange(start as int, i + 1) =~= Seq::<char>::empty());
        } else {
            assert(v@.subrange(0, i + 1).last() == v@[i as int]);
            assert(scan_lines(v@.subrange(0, i + 1)).0 == scan_lines(pre).0);
            assert(v@.subrange(start as int, i + 1) =~= v@.subrange(start as int, i as int).push(
                v@[i as int],
            ));
        }
        i = i + 1;
    }
    assert(v@.subrange(0, v.len() as int) =~= v@);
    let ghost done = scan_lines(v@).0;
    if start < v.len() {
        r.push((start, v.len()));
        proof {
            let nd = done.push(v@.subrange(start as int, v.len() as int));
            assert(lines_of(v@) == nd);
            assert forall|j: int| 0 <= j < r@.len() implies r@[j].0 <= r@[j].1 <= v@.len()
                && #[trigger] nd[j] == v@.subrange(r@[j].0 as int, r@[j].1 as int) by {
                if j < done.len() {
                    assert(nd[j] == done[j]);
                }
            }
        }
    }
    r
}


/// `s` with every leading copy of `p` taken off.
pub open spec fn strip_prefixes(s: Seq<char>, p: Seq<char>) -> Seq<char>
    decreases s.len(),
{
    if p.len() > 0 && starts_with(s, p) {
        strip_prefixes(s.subrange(p.len() as int, s.len() as int), p)
    } else {
        s
    }
}

/// Start of `v[lo..hi]` once every leading copy of `p` is taken off.
pub fn strip_prefixes_at(v: &Vec<char>, lo: usize, hi: usize, p: &str) -> (r: usize)
    requires
        lo <= hi <= v.len(),
        p@.len() > 0,
    ensures
        lo <= r <= hi,
        v@.subrange(r as int, hi as int) == strip_prefixes(v@.subrange(lo as int, hi as int), p@),
{
    let n = p.unicode_len();
    let mut i = lo;
    while starts_with_at(v, i, hi, p)
        invariant
            lo <= i <= hi <= v.len(),
            n == p@.len() > 0,
            strip_prefixes(v@.subrange(i as int, hi as int), p@) == strip_prefixes(
                v@.subrange(lo as int, hi as int),
                p@,
            ),
        decreases hi - i,
    {
        assert(v@.subrange(i as int, hi as int).subrange(n as int, hi - i) =~= v@.subrange(
            i + n,
            hi as int,
        ));
        i = i + n;
    }
    i
}

/// `s` without any `c` at its start.
pub open spec fn trim_start_char(s: Seq<char>, c: char) -> Seq<char>
    decreases s.len(),
{
    if s.len() > 0 && s[0] == c {
        trim_start_char(s.drop_first(), c)
    } else {
        s
    }
}

/// `s` without any `c` at its end.
pub open spec fn trim_end_char(s: Seq<char>, c: char) -> Seq<char>
    decreases s.len(),
{
    if s.len() > 0 && s.last() == c {
        trim_end_char(s.drop_last(), c)
    } else {
        s
    }
}

/// `s` without any `c` at either end.
pub open spec fn trim_char(s: Seq<char>, c: char) -> Seq<char> {
    trim_end_char(trim_start_char(s, c), c)
}

/// Bounds of `v[lo..hi]` with every `c` at either end left out.
pub fn trim_char_at(v: &Vec<char>, lo: usize, hi: usize, c: char) -> (r: (usize, usize))
    requires
        lo <= hi <= v.len(),
    ensures
        lo <= r.0 <= r.1 <= hi,
        v@.subrange(r.0 as int, r.1 as int) == trim_char(v@.subrange(lo as int, hi as int), c),
{
    let mut i = lo;
    while i < hi && v[i] == c
        invariant
            lo <= i <= hi <= v.len(),
            trim_start_char(v@.subrange(i as int, hi as int), c) == trim_start_char(
                v@.subrange(lo as int, hi as int),
                c,
            ),
        decreases hi - i,
    {
        assert(v@.subrange(i as int, hi as int).drop_first() =~= v@.subrange(i + 1, hi as int));
        i = i + 1;
    }
    let mut j = hi;
    while j > i && v[j - 1] == c
        invariant
            lo <= i <= j <= hi <= v.len(),
            trim_end_char(v@.subrange(i as int, j as int), c) == trim_end_char(
                v@.subrange(i as int, hi as int),
                c,
            ),
        decreases j - i,
    {
        assert(v@.subrange(i as int, j as int).drop_last() =~= v@.subrange(i as int, j - 1));
        j = j - 1;
    }
    (i, j)
}

/// The run of non-space characters at the end of `t`.
pub open spec fn word_end(t: Seq<char>) -> Seq<char>
    decreases t.len(),
{
    if t.len() == 0 || is_space(t.last()) {
        Seq::empty()
    } else {
        word_end(t.drop_last()).push(t.last())
    }
}

/// The last white-space separated word of `s`; empty where `s` is blank.
pub open spec fn last_word(s: Seq<char>) -> Seq<char> {
    word_end(trim_end(s))
}

/// Bounds of the last word of `v[lo..hi]`.
pub fn last_word_at(v: &Vec<char>, lo: usize, hi: usize) -> (r: (usize, usize))
    requires
        lo <= hi <= v.len(),
    ensures
        lo <= r.0 <= r.1 <= hi,
        v@.subrange(r.0 as int, r.1 as int) == last_word(v@.subrange(lo as int, hi as int)),
{
    let e = trim_end_at(v, lo, hi);
    let mut b = e;
    while b > lo && !space(v[b - 1])
        invariant
            lo <= b <= e <= hi <= v.len(),
            word_end(v@.subrange(lo as int, e as int)) == word_end(v@.subrange(lo as int, b as int))
                + v@.subrange(b as int, e as int),
        decreases b - lo,
    {
        let ghost t = v@.subrange(lo as int, b as int);
        assert(t.drop_last() =~= v@.subrange(lo as int, b - 1));
        assert(v@.subrange(b - 1, e as int) =~= seq![v@[b - 1]] + v@.subrange(b as int, e as int));
        assert(word_end(v@.subrange(lo as int, b - 1)).push(v@[b - 1]) + v@.subrange(b as int, e as int)
            =~= word_end(v@.subrange(lo as int, b - 1)) + v@.subrange(b - 1, e as int));
        b = b - 1;
    }
    assert(word_end(v@.subrange(lo as int, b as int)) =~= Seq::<char>::empty());
    assert(v@.subrange(b as int, e as int) =~= Seq::<char>::empty() + v@.subrange(b as int, e as int));
    (b, e)
}


/// Position of the first occurrence of `p` in `s`, or `s.len()` where
/// there is none.
pub open spec fn find_sub(s: Seq<char>, p: Seq<char>) -> int
    decreases s.len(),
{
    if p.len() > s.len() || s.len() == 0 {
        s.len() as int
    } else if s.subrange(0, p.len() as int) == p {
        0
    } else {
        1 + find_sub(s.drop_first(), p)
    }
}

/// What `find_sub` finds: the first occurrence of `p`, if any.
pub proof fn lemma_find_sub(s: Seq<char>, p: Seq<char>)
    requires
        p.len() > 0,
    ensures
        0 <= find_sub(s, p) <= s.len(),
        find_sub(s, p) < s.len() ==> starts_with(s.subrange(find_sub(s, p), s.len() as int), p),
        forall|j: int|
            0 <= j < find_sub(s, p) ==> !starts_with(#[trigger] s.subrange(j, s.len() as int), p),
    decreases s.len(),
{
    if p.len() > s.len() || s.len() == 0 {
    } else if s.subrange(0, p.len() as int) == p {
        assert(s.subrange(0, s.len() as int) =~= s);
    } else {
        let t = s.drop_first();
        lemma_find_sub(t, p);
        assert(s.subrange(0, s.len() as int) =~= s);
        assert forall|j: int| 0 <= j < find_sub(s, p) implies !starts_with(
            #[trigger] s.subrange(j, s.len() as int),
            p,
        ) by {
            if j > 0 {
                assert(s.subrange(j, s.len() as int) =~= t.subrange(j - 1, t.len() as int));
            }
        }
        if find_sub(s, p) < s.len() {
            let r = find_sub(s, p);
            assert(s.subrange(r, s.len() as int) =~= t.subrange(r - 1, t.len() as int));
        }
    }
}

/// Position of the first `p` in `v[lo..hi]`, counted from `lo`.
pub fn find_sub_at(v: &Vec<char>, lo: usize, hi: usize, p: &str) -> (r: usize)
    requires
        lo <= hi <= v.len(),
        p@.len() > 0,
    ensures
        lo <= r <= hi,
        r - lo == find_sub(v@.subrange(lo as int, hi as int), p@),
{
    let ghost s = v@.subrange(lo as int, hi as int);
    let mut i = lo;
    while i < hi && !starts_with_at(v, i, hi, p)
        invariant
            lo <= i <= hi <= v.len(),
            s == v@.subrange(lo as int, hi as int),
            forall|j: int| lo <= j < i ==> !starts_with(#[trigger] v@.subrange(j, hi as int), p@),
        decreases hi - i,
    {
        i = i + 1;
    }
    proof {
        lemma_find_sub(s, p@);
        let k = find_sub(s, p@);
        if k < i - lo {
            assert(s.subrange(k, s.len() as int) =~= v@.subrange(lo + k, hi as int));
        }
        if k > i - lo {
            assert(s.subrange(i - lo, s.len() as int) =~= v@.subrange(i as int, hi as int));
        }
    }
    i
}

} // verus!
