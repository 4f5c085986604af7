//! Moving between Rust strings and sequences of characters.

use vstd::prelude::*;
use vstd::std_specs::iter::IteratorSpec;

verus! {

/// Appends one character to a string, with `String::push`, which puts the
/// character behind the characters that the string holds and changes none
/// of them.
#[verifier::external_body]
pub(crate) fn push_char(s: &mut String, c: char)
    ensures
        final(s)@ == old(s)@.push(c),
{
    s.push(c)
}

/// The characters of a string, in order.
pub fn to_chars(s: &str) -> (v: Vec<char>)
    ensures
        v@ == s@,
{
    let mut v: Vec<char> = Vec::new();
    for c in it: s.chars()
        invariant
            it.seq() == s@,
            v@ == it.seq().subrange(0, it.index() as int),
    {
        v.push(c);
    }
    v
}

/// The string made of the given characters.
pub fn from_chars(v: &Vec<char>) -> (s: String)
    ensures
        s@ == v@,
{
    let mut s = String::new();
    let mut i: usize = 0;
    while i < v.len()
        invariant
            i <= v.len(),
            s@ == v@.subrange(0, i as int),
        decreases v.len() - i,
    {
        push_char(&mut s, v[i]);
        i += 1;
    }
    s
}

/// The string made of the characters `v[from..to]`.
pub fn string_of_range(v: &Vec<char>, from: usize, to: usize) -> (s: String)
    requires
        from <= to <= v.len(),
    ensures
        s@ == v@.subrange(from as int, to as int),
        to == v.len() ==> s@ == v@.skip(from as int),
{
    assert(v@.subrange(from as int, v.len() as int) =~= v@.skip(from as int));
    let mut s = String::new();
    let mut i: usize = from;
    while i < to
        invariant
            from <= i <= to <= v.len(),
            s@ == v@.subrange(from as int, i as int),
        decreases to - i,
    {
        push_char(&mut s, v[i]);
        i += 1;
    }
    s
}

/// Whether two strings hold the same characters.
pub fn str_eq(a: &str, b: &str) -> (r: bool)
    ensures
        r == (a@ == b@),
{
    let x = to_chars(a);
    let y = to_chars(b);
    if x.len() != y.len() {
        return false;
    }
    let mut i: usize = 0;
    while i < x.len()
        invariant
            i <= x.len(),
            x.len() == y.len(),
            x@ == a@,
            y@ == b@,
            x@.subrange(0, i as int) == y@.subrange(0, i as int),
        decreases x.len() - i,
    {
        if x[i] != y[i] {
            assert(a@[i as int] != b@[i as int]);
            return false;
        }
        assert(x@.subrange(0, i + 1) =~= x@.subrange(0, i as int).push(x@[i as int]));
        assert(y@.subrange(0, i + 1) =~= y@.subrange(0, i as int).push(y@[i as int]));
        i += 1;
    }
    assert(x@ =~= x@.subrange(0, x.len() as int));
    assert(y@ =~= y@.subrange(0, y.len() as int));
    true
}

/// Appends the characters of a string to `out`.
pub fn push_str_chars(out: &mut Vec<char>, s: &str)
    ensures
        final(out)@ == old(out)@ + s@,
{
    let mut tmp = to_chars(s);
    out.append(&mut tmp);
}

/// A copy of each string, in order.
pub fn clone_strings(v: &Vec<String>) -> (out: Vec<String>)
    ensures
        out.deep_view() == v.deep_view(),
{
    let mut out: Vec<String> = Vec::new();
    let mut i: usize = 0;
    while i < v.len()
        invariant
            i <= v.len(),
            out.len() == i,
            forall|k: int| 0 <= k < i ==> out@[k]@ == v@[k]@,
        decreases v.len() - i,
    {
        out.push(v[i].clone());
        i += 1;
    }
    assert(out.deep_view() =~= v.deep_view());
    out
}

/// A copy of the characters `v[from..to]`.
pub fn sub_vec(v: &Vec<char>, from: usize, to: usize) -> (out: Vec<char>)
    requires
        from <= to <= v.len(),
    ensures
        out@ == v@.subrange(from as int, to as int),
{
    let mut out: Vec<char> = Vec::new();
    let mut i: usize = from;
    while i < to
        invariant
            from <= i <= to <= v.len(),
            out@ == v@.subrange(from as int, i as int),
        decreases to - i,
    {
        out.push(v[i]);
        i += 1;
    }
    out
}

/// Where the character `c` first stands at or behind `from`; the length of
/// `s` where it stands nowhere.
pub open spec fn index_of(s: Seq<char>, c: char, from: int) -> int
    decreases s.len() - from,
{
    if 0 <= from < s.len() && s[from] != c {
        index_of(s, c, from + 1)
    } else {
        from
    }
}

/// Finds the first `c` at or behind `from`.
pub fn find_char(v: &Vec<char>, c: char, from: usize) -> (at: usize)
    requires
        from <= v.len(),
    ensures
        at == index_of(v@, c, from as int),
        from <= at <= v.len(),
{
    let mut i: usize = from;
    while i < v.len() && v[i] != c
        invariant
            from <= i <= v.len(),
            index_of(v@, c, i as int) == index_of(v@, c, from as int),
        decreases v.len() - i,
    {
        i += 1;
    }
    i
}

/// The character `c` first stands behind every stretch that does not hold
/// it.
pub proof fn lemma_index_of(s: Seq<char>, c: char, i: int, d: int)
    requires
        0 <= i <= d <= s.len(),
        forall|k: int| i <= k < d ==> #[trigger] s[k] != c,
        d == s.len() || s[d] == c,
    ensures
        index_of(s, c, i) == d,
    decreases d - i,
{
    if i < d {
        lemma_index_of(s, c, i + 1, d);
    }
}

} // verus!
