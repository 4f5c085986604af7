//! What holds of the grammar: what a successful parse consumes, that parsed
//! messages follow the grammar, and that escaped texts are arguments.

use vstd::prelude::*;
use crate::decimal::{decimal_value, is_digit};
use crate::protocol::{
    argument_end, arguments_from, digit_run_end, id_at, is_argument, is_eol, is_escapable,
    is_name_char, is_plain, is_space, lemma_run_bounds, name_end, name_run_end, parse_spec,
    space_run_end,
};
use crate::utils::{escape_char, escape_each, escape_spec};

verus! {

/// Where the first line terminator stands at or behind `i`; the length of
/// `s` where there is none.
pub open spec fn first_eol(s: Seq<char>, i: int) -> int
    decreases s.len() - i,
{
    if 0 <= i < s.len() && !is_eol(s[i]) {
        first_eol(s, i + 1)
    } else {
        i
    }
}

/// A character that can stand inside the line of a message: no NUL and no
/// line terminator.
pub open spec fn is_line_char(c: char) -> bool {
    c != '\0' && !is_eol(c)
}

/// All of `s[i..e]` can stand inside a line.
pub open spec fn clean(s: Seq<char>, i: int, e: int) -> bool {
    forall|k: int| i <= k < e ==> is_line_char(#[trigger] s[k])
}

proof fn lemma_name_run_clean(s: Seq<char>, i: int)
    requires
        0 <= i <= s.len(),
    ensures
        clean(s, i, name_run_end(s, i)),
    decreases s.len() - i,
{
    if i < s.len() && is_name_char(s[i]) {
        lemma_name_run_clean(s, i + 1);
    }
}

proof fn lemma_space_run_clean(s: Seq<char>, i: int)
    requires
        0 <= i <= s.len(),
    ensures
        clean(s, i, space_run_end(s, i)),
        i <= space_run_end(s, i) <= s.len(),
        space_run_end(s, i) < s.len() ==> !is_space(s[space_run_end(s, i)]),
    decreases s.len() - i,
{
    if i < s.len() && is_space(s[i]) {
        lemma_space_run_clean(s, i + 1);
    }
}

pub proof fn lemma_digit_run_clean(s: Seq<char>, i: int)
    requires
        0 <= i <= s.len(),
    ensures
        clean(s, i, digit_run_end(s, i)),
        forall|k: int| i <= k < digit_run_end(s, i) ==> is_digit(#[trigger] s[k]),
    decreases s.len() - i,
{
    if i < s.len() && is_digit(s[i]) {
        lemma_digit_run_clean(s, i + 1);
    }
}

proof fn lemma_argument_clean(s: Seq<char>, i: int)
    requires
        0 <= i <= s.len(),
    ensures
        clean(s, i, argument_end(s, i)),
        i <= argument_end(s, i) <= s.len(),
    decreases s.len() - i,
{
    if i + 1 < s.len() && s[i] == '\\' && is_escapable(s[i + 1]) {
        lemma_argument_clean(s, i + 2);
    } else if i < s.len() && is_plain(s[i]) {
        lemma_argument_clean(s, i + 1);
    }
}

proof fn lemma_arguments_clean(s: Seq<char>, i: int)
    requires
        0 <= i <= s.len(),
    ensures
        clean(s, i, arguments_from(s, i).1),
        i <= arguments_from(s, i).1 <= s.len(),
    decreases s.len() - i,
{
    let w = space_run_end(s, i);
    let e = argument_end(s, w);
    lemma_space_run_clean(s, i);
    lemma_argument_clean(s, w);
    if i < w && w < e && e <= s.len() {
        lemma_arguments_clean(s, e);
    }
}

/// The first line terminator stands behind every stretch without one.
proof fn lemma_first_eol(s: Seq<char>, i: int, r: int)
    requires
        0 <= i <= r <= s.len(),
        clean(s, i, r),
        r == s.len() || is_eol(s[r]),
    ensures
        first_eol(s, i) == r,
    decreases r - i,
{
    if i < r {
        assert(is_line_char(s[i]));
        lemma_first_eol(s, i + 1, r);
    }
}

/// A successful parse consumes exactly the first line of its input, and
/// that line holds no NUL: the message ends at the first line terminator,
/// or at the end of the input where there is none, and what is left is the
/// input behind that terminator.
pub proof fn lemma_parse_consumes_line(s: Seq<char>)
    requires
        parse_spec(s) is Ok,
    ensures
        forall|k: int| 0 <= k < first_eol(s, 0) ==> #[trigger] s[k] != '\0',
        parse_spec(s)->Ok_0.1 == (if first_eol(s, 0) < s.len() {
            s.skip(first_eol(s, 0) + 1)
        } else {
            Seq::<char>::empty()
        }),
{
    let n = name_end(s, 1)->Some_0;
    lemma_name_run_clean(s, 2);
    lemma_run_bounds(s, 2);
    assert(is_line_char(s[0]));
    assert(is_line_char(s[1]));
    let p = match id_at(s, n) {
        Some((v, e)) => e,
        None => n,
    };
    assert(clean(s, n, p) && n <= p <= s.len()) by {
        if id_at(s, n) is Some {
            lemma_digit_run_clean(s, n + 1);
            lemma_run_bounds(s, n + 1);
        }
    }
    lemma_arguments_clean(s, p);
    let q = arguments_from(s, p).1;
    lemma_space_run_clean(s, q);
    let r = space_run_end(s, q);
    assert(clean(s, 0, r));
    lemma_first_eol(s, 0, r);
}

/// An input with a NUL in its first line does not parse.
pub proof fn lemma_parse_rejects_nul(s: Seq<char>, k: int)
    requires
        0 <= k < first_eol(s, 0),
        s[k] == '\0',
    ensures
        parse_spec(s) is Err,
{
    if parse_spec(s) is Ok {
        lemma_parse_consumes_line(s);
    }
}

/// Inside a longer text, a name is a name taken alone.
proof fn lemma_name_run_alone(s: Seq<char>, from: int, i: int)
    requires
        0 <= from <= i <= s.len(),
    ensures
        name_run_end(s.subrange(from, name_run_end(s, i)), i - from) == name_run_end(s, i)
            - from,
    decreases s.len() - i,
{
    lemma_run_bounds(s, i);
    let e = name_run_end(s, i);
    let t = s.subrange(from, e);
    if i < s.len() && is_name_char(s[i]) {
        lemma_name_run_alone(s, from, i + 1);
        assert(t[i - from] == s[i]);
    }
}

/// Inside a longer text, an argument is an argument taken alone.
proof fn lemma_argument_alone(s: Seq<char>, from: int, i: int)
    requires
        0 <= from <= i <= s.len(),
    ensures
        argument_end(s.subrange(from, argument_end(s, i)), i - from) == argument_end(s, i) - from,
    decreases s.len() - i,
{
    lemma_argument_clean(s, i);
    let e = argument_end(s, i);
    let t = s.subrange(from, e);
    if i + 1 < s.len() && s[i] == '\\' && is_escapable(s[i + 1]) {
        lemma_argument_clean(s, i + 2);
        lemma_argument_alone(s, from, i + 2);
        assert(t[i - from] == s[i]);
        assert(t[i - from + 1] == s[i + 1]);
    } else if i < s.len() && is_plain(s[i]) {
        lemma_argument_clean(s, i + 1);
        lemma_argument_alone(s, from, i + 1);
        assert(t[i - from] == s[i]);
    }
}

proof fn lemma_arguments_grammatical(s: Seq<char>, i: int)
    requires
        0 <= i <= s.len(),
    ensures
        forall|k: int|
            0 <= k < arguments_from(s, i).0.len() ==> is_argument(
                #[trigger] arguments_from(s, i).0[k],
            ),
    decreases s.len() - i,
{
    let w = space_run_end(s, i);
    let e = argument_end(s, w);
    if i < w && w < e && e <= s.len() {
        lemma_arguments_grammatical(s, e);
        lemma_argument_alone(s, w, w);
        let first = s.subrange(w, e);
        let rest = arguments_from(s, e).0;
        let all = arguments_from(s, i).0;
        assert(all =~= seq![first] + rest);
        assert forall|k: int| 0 <= k < all.len() implies is_argument(#[trigger] all[k]) by {
            if k > 0 {
                assert(all[k] == rest[k - 1]);
            }
        }
    }
}

/// Digits that do not start with a zero write a number that is not zero.
proof fn lemma_decimal_value_positive(s: Seq<char>)
    requires
        s.len() > 0,
        is_digit(s[0]),
        s[0] != '0',
    ensures
        decimal_value(s) > 0,
    decreases s.len(),
{
    if s.len() == 1 {
        assert(s.drop_last() =~= Seq::<char>::empty());
        assert(decimal_value(s.drop_last()) == 0);
    } else {
        lemma_decimal_value_positive(s.drop_last());
    }
}

/// Every message that parsing gives follows the grammar in full: its name
/// is a name, each argument is an argument, and its id is not zero.
pub proof fn lemma_parsed_is_well_formed(s: Seq<char>)
    requires
        parse_spec(s) is Ok,
    ensures
        parse_spec(s)->Ok_0.0.well_formed(),
{
    let m = parse_spec(s)->Ok_0.0;
    let n = name_end(s, 1)->Some_0;
    lemma_run_bounds(s, 2);
    lemma_name_run_alone(s, 1, 2);
    assert(m.name == s.subrange(1, n));
    assert(m.name[0] == s[1]);
    let p = match id_at(s, n) {
        Some((v, e)) => e,
        None => n,
    };
    if id_at(s, n) is Some {
        lemma_run_bounds(s, n + 1);
        let e = digit_run_end(s, n + 1);
        let digits = s.subrange(n + 1, e);
        assert(digits[0] == s[n + 1]);
        lemma_decimal_value_positive(digits);
    }
    assert(0 <= p <= s.len()) by {
        if id_at(s, n) is Some {
            lemma_run_bounds(s, n + 1);
        }
    }
    lemma_arguments_grammatical(s, p);
}

/// Inside the escaped text, from the place where the escaped rest of the
/// text starts, an argument runs to the end.
proof fn lemma_escape_each_scans(t: Seq<char>, p: int, rest: Seq<char>)
    requires
        0 <= p <= t.len(),
        t.skip(p) == escape_each(rest),
    ensures
        argument_end(t, p) == t.len(),
    decreases rest.len(),
{
    if rest.len() > 0 {
        let c = rest[0];
        let tail = rest.skip(1);
        let h = escape_char(c);
        let u = escape_each(tail);
        let sk = t.skip(p);
        assert(sk == h + u);
        assert(sk.len() == t.len() - p);
        assert(sk.len() == h.len() + u.len());
        assert(1 <= h.len() <= 2);
        assert(t.skip(p + h.len()) =~= u) by {
            assert forall|j: int| 0 <= j < u.len() implies t.skip(p + h.len())[j] == u[j] by {
                assert(t[p + h.len() + j] == sk[h.len() + j]);
            }
        }
        assert(t[p] == sk[0]);
        assert(sk[0] == h[0]);
        if h.len() == 2 {
            assert(t[p + 1] == sk[1]);
            assert(sk[1] == h[1]);
        }
        lemma_escape_each_scans(t, p + h.len(), tail);
    } else {
        assert(t.skip(p).len() == 0);
    }
}

/// The token of every text is an argument: escaping gives what the grammar
/// accepts.
pub proof fn lemma_escape_is_argument(s: Seq<char>)
    ensures
        is_argument(escape_spec(s)),
{
    let t = escape_spec(s);
    if s.len() == 0 {
        assert(t[0] == '\\' && t[1] == '@');
        assert(argument_end(t, 2) == 2);
    } else {
        assert(t.skip(0) =~= t);
        lemma_escape_each_scans(t, 0, s);
        assert(escape_char(s[0]).len() > 0);
    }
}

/// From any place on, a text of plain characters is scanned to its end.
proof fn lemma_plain_scans(s: Seq<char>, i: int)
    requires
        0 <= i <= s.len(),
        forall|k: int| 0 <= k < s.len() ==> is_plain(#[trigger] s[k]),
    ensures
        argument_end(s, i) == s.len(),
    decreases s.len() - i,
{
    if i < s.len() {
        assert(is_plain(s[i]));
        lemma_plain_scans(s, i + 1);
    }
}

/// A text that is not empty and holds only plain characters is an
/// argument.
pub proof fn lemma_plain_is_argument(s: Seq<char>)
    requires
        s.len() > 0,
        forall|k: int| 0 <= k < s.len() ==> is_plain(#[trigger] s[k]),
    ensures
        is_argument(s),
{
    lemma_plain_scans(s, 0);
}

} // verus!
