//! Decimal ASCII notation for integers: the wire form of every number.

use vstd::prelude::*;

verus! {

/// An ASCII decimal digit.
pub open spec fn is_digit(c: char) -> bool {
    '0' <= c && c <= '9'
}

/// The number a decimal digit stands for.
pub open spec fn digit_value(c: char) -> nat {
    (c as int - '0' as int) as nat
}

/// The digit that stands for a number below ten.
pub open spec fn digit_char(d: nat) -> char {
    if d == 0 {
        '0'
    } else if d == 1 {
        '1'
    } else if d == 2 {
        '2'
    } else if d == 3 {
        '3'
    } else if d == 4 {
        '4'
    } else if d == 5 {
        '5'
    } else if d == 6 {
        '6'
    } else if d == 7 {
        '7'
    } else if d == 8 {
        '8'
    } else {
        '9'
    }
}

/// Every character is a decimal digit.
pub open spec fn all_digits(s: Seq<char>) -> bool {
    forall|i: int| 0 <= i < s.len() ==> is_digit(#[trigger] s[i])
}

/// The number written by a sequence of decimal digits, most significant first.
pub open spec fn decimal_value(s: Seq<char>) -> nat
    decreases s.len(),
{
    if s.len() == 0 {
        0
    } else {
        decimal_value(s.drop_last()) * 10 + digit_value(s.last())
    }
}

/// The shortest decimal notation of a natural number.
pub open spec fn decimal_digits(n: nat) -> Seq<char>
    decreases n,
{
    if n < 10 {
        seq![digit_char(n)]
    } else {
        decimal_digits(n / 10).push(digit_char(n % 10))
    }
}

/// What an unsigned integer parse makes of a token: an optional `+`, then
/// one or more digits whose value is at most `max`.
pub open spec fn parse_unsigned(s: Seq<char>, max: nat) -> Option<nat> {
    let body = if s.len() > 0 && s[0] == '+' {
        s.skip(1)
    } else {
        s
    };
    if body.len() > 0 && all_digits(body) && decimal_value(body) <= max {
        Some(decimal_value(body))
    } else {
        None
    }
}

/// What a signed integer parse makes of a token: an optional `+` or `-`,
/// then one or more digits, the signed value lying in `min ..= max`.
pub open spec fn parse_signed(s: Seq<char>, min: int, max: int) -> Option<int> {
    if s.len() > 0 && s[0] == '-' {
        let body = s.skip(1);
        if body.len() > 0 && all_digits(body) && -(decimal_value(body) as int) >= min {
            Some(-(decimal_value(body) as int))
        } else {
            None
        }
    } else {
        let body = if s.len() > 0 && s[0] == '+' {
            s.skip(1)
        } else {
            s
        };
        if body.len() > 0 && all_digits(body) && decimal_value(body) <= max {
            Some(decimal_value(body) as int)
        } else {
            None
        }
    }
}

/// The decimal notation of a signed integer: a `-` before the digits of a
/// negative one.
pub open spec fn signed_digits(n: int) -> Seq<char> {
    if n < 0 {
        seq!['-'] + decimal_digits((-n) as nat)
    } else {
        decimal_digits(n as nat)
    }
}

/// A longer run of digits never writes a smaller number than its prefix.
pub proof fn lemma_decimal_value_prefix(s: Seq<char>, j: int)
    requires
        0 <= j <= s.len(),
    ensures
        decimal_value(s.subrange(0, j)) <= decimal_value(s),
    decreases s.len(),
{
    if j == s.len() {
        assert(s.subrange(0, j) =~= s);
    } else {
        lemma_decimal_value_prefix(s.drop_last(), j);
        assert(s.drop_last().subrange(0, j) =~= s.subrange(0, j));
    }
}

/// The notation of a number consists of digits, has no leading zero unless
/// the number is zero, and writes that number.
pub proof fn lemma_decimal_digits(n: nat)
    ensures
        decimal_digits(n).len() >= 1,
        all_digits(decimal_digits(n)),
        decimal_value(decimal_digits(n)) == n,
        n > 0 ==> decimal_digits(n)[0] != '0',
        n == 0 ==> decimal_digits(n) == seq!['0'],
    decreases n,
{
    let d = decimal_digits(n);
    if n < 10 {
        assert(d.drop_last() =~= Seq::<char>::empty());
        assert(decimal_value(d.drop_last()) == 0);
        assert(d.last() == digit_char(n));
    } else {
        lemma_decimal_digits(n / 10);
        let p = decimal_digits(n / 10);
        assert(d.drop_last() =~= p);
        assert(d.last() == digit_char(n % 10));
        assert(d[0] == p[0]);
    }
}

/// Parsing the notation of a number gives the number back.
pub proof fn lemma_parse_unsigned_digits(n: nat, max: nat)
    requires
        n <= max,
    ensures
        parse_unsigned(decimal_digits(n), max) == Some(n),
{
    lemma_decimal_digits(n);
}

/// Parsing the notation of a signed number gives the number back.
pub proof fn lemma_parse_signed_digits(n: int, min: int, max: int)
    requires
        min <= n <= max,
    ensures
        parse_signed(signed_digits(n), min, max) == Some(n),
{
    if n < 0 {
        let m = (-n) as nat;
        lemma_decimal_digits(m);
        let s = signed_digits(n);
        assert(s.skip(1) =~= decimal_digits(m));
    } else {
        lemma_decimal_digits(n as nat);
    }
}

/// The value of a decimal digit.
pub fn digit_of(c: char) -> (d: u64)
    requires
        is_digit(c),
    ensures
        d == digit_value(c),
        d < 10,
{
    (c as u64) - ('0' as u64)
}

/// Whether a character is a decimal digit.
pub fn char_is_digit(c: char) -> (b: bool)
    ensures
        b == is_digit(c),
{
    '0' <= c && c <= '9'
}

/// The digit for a number below ten.
pub fn char_of_digit(d: u64) -> (c: char)
    requires
        d < 10,
    ensures
        c == digit_char(d as nat),
        is_digit(c),
        digit_value(c) == d,
{
    if d == 0 {
        '0'
    } else if d == 1 {
        '1'
    } else if d == 2 {
        '2'
    } else if d == 3 {
        '3'
    } else if d == 4 {
        '4'
    } else if d == 5 {
        '5'
    } else if d == 6 {
        '6'
    } else if d == 7 {
        '7'
    } else if d == 8 {
        '8'
    } else {
        '9'
    }
}

/// Appends the decimal notation of `n` to `out`.
pub fn push_decimal(out: &mut Vec<char>, n: u64)
    ensures
        final(out)@ == old(out)@ + decimal_digits(n as nat),
    decreases n,
{
    if n >= 10 {
        push_decimal(out, n / 10);
    }
    out.push(char_of_digit(n % 10));
    assert(out@ =~= old(out)@ + decimal_digits(n as nat));
}

/// Reads `v[from..to]` as a run of decimal digits whose value is at most
/// `max`.
pub fn parse_digits(v: &Vec<char>, from: usize, to: usize, max: u64) -> (r: Option<u64>)
    requires
        from <= to <= v.len(),
    ensures
        r == (if from < to && all_digits(v@.subrange(from as int, to as int)) && decimal_value(
            v@.subrange(from as int, to as int),
        ) <= max {
            Some(decimal_value(v@.subrange(from as int, to as int)) as u64)
        } else {
            None
        }),
{
    let ghost s = v@.subrange(from as int, to as int);
    if from == to {
        return None;
    }
    let mut acc: u64 = 0;
    let mut i: usize = from;
    assert(s.subrange(0, 0) =~= Seq::<char>::empty());
    while i < to
        invariant
            from <= i <= to <= v.len(),
            s == v@.subrange(from as int, to as int),
            all_digits(s.subrange(0, i - from)),
            acc == decimal_value(s.subrange(0, i - from)),
            acc <= max,
        decreases to - i,
    {
        let c = v[i];
        assert(c == s[i - from]);
        if !char_is_digit(c) {
            return None;
        }
        let d = digit_of(c);
        let ghost next = s.subrange(0, i - from + 1);
        assert(next.drop_last() =~= s.subrange(0, i - from));
        assert(next.last() == c);
        assert(decimal_value(next) == acc * 10 + d);
        assert(all_digits(next)) by {
            assert forall|k: int| 0 <= k < next.len() implies is_digit(#[trigger] next[k]) by {
                if k < i - from {
                    assert(next[k] == s.subrange(0, i - from)[k]);
                }
            }
        }
        if acc > max / 10 || d > max - acc * 10 {
            proof {
                lemma_decimal_value_prefix(s, i - from + 1);
            }
            return None;
        }
        acc = acc * 10 + d;
        i += 1;
    }
    assert(s.subrange(0, to - from) =~= s);
    Some(acc)
}

} // verus!
