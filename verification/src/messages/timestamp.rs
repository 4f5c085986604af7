//! Timestamps: whole seconds since the epoch and nanoseconds, written as
//! `seconds.fraction`. A timestamp is one that `chrono` can hold.

use chrono::{TimeZone, Utc};
use vstd::prelude::*;
use crate::decimal::{
    all_digits, char_is_digit, char_of_digit, decimal_digits, decimal_value, digit_char, is_digit,
    lemma_decimal_digits, lemma_parse_signed_digits, parse_digits, parse_signed, push_decimal,
    signed_digits,
};
use crate::messages::common::{parse_signed_chars, FromKatcpArgument, ToKatcpArgument};
use crate::protocol::KatcpError;
use crate::text::{from_chars, sub_vec, to_chars};

verus! {

/// A point in time: whole seconds since the epoch, and the nanoseconds
/// that have passed since that second began.
#[derive(Debug, PartialEq, Eq, Clone, Copy, Structural)]
pub struct KatcpTimestamp {
    pub secs: i64,
    pub nanos: u32,
}

/// The nanoseconds in a second.
pub const NANOS_PER_SEC: u32 = 1_000_000_000;

/// Whether `chrono` holds a point in time that lies `secs` seconds and
/// `nanos` nanoseconds from the epoch.
pub uninterp spec fn chrono_holds(secs: i64, nanos: u32) -> bool;

/// Asks `chrono` whether it holds the point in time, with
/// `TimeZone::timestamp_opt` on `Utc`: that call gives one point in time or
/// none, and which of the two depends on the two numbers alone. Nothing
/// else is claimed of it.
#[verifier::external_body]
fn chrono_timestamp(secs: i64, nanos: u32) -> (held: bool)
    ensures
        held == chrono_holds(secs, nanos),
{
    Utc.timestamp_opt(secs, nanos).single().is_some()
}

/// The last `width` decimal digits of `n`, with leading zeros.
pub open spec fn fraction_digits(n: nat, width: nat) -> Seq<char>
    decreases width,
{
    if width == 0 {
        Seq::empty()
    } else {
        fraction_digits(n / 10, (width - 1) as nat).push(digit_char(n % 10))
    }
}

/// `s` without its trailing zeros.
pub open spec fn trim_zeros(s: Seq<char>) -> Seq<char>
    decreases s.len(),
{
    if s.len() > 0 && s.last() == '0' {
        trim_zeros(s.drop_last())
    } else {
        s
    }
}

/// The first nine characters of `frac`, with zeros behind them where it has
/// fewer.
pub open spec fn pad_to_nine(frac: Seq<char>) -> Seq<char> {
    Seq::new(
        9,
        |i: int|
            if i < frac.len() {
                frac[i]
            } else {
                '0'
            },
    )
}

/// The nanoseconds that the digits behind the point stand for: digits
/// beyond the ninth are dropped.
pub open spec fn fraction_nanos(frac: Seq<char>) -> nat {
    decimal_value(pad_to_nine(frac))
}

/// Where the first point at or behind `i` stands; the length of `s` where
/// there is none.
pub open spec fn first_point(s: Seq<char>, i: int) -> int
    decreases s.len() - i,
{
    if 0 <= i < s.len() && s[i] != '.' {
        first_point(s, i + 1)
    } else {
        i
    }
}

/// The text of a timestamp: the seconds, and behind a point the
/// nanoseconds as a fraction without trailing zeros, where there are any.
pub open spec fn timestamp_text(t: KatcpTimestamp) -> Seq<char> {
    if t.nanos == 0 {
        signed_digits(t.secs as int)
    } else {
        signed_digits(t.secs as int) + seq!['.'] + trim_zeros(fraction_digits(t.nanos as nat, 9))
    }
}

/// The seconds and nanoseconds that a token writes. The token is split at
/// its first point: before it a signed whole number of seconds that fits 64
/// bits, behind it at least one digit.
pub open spec fn timestamp_parsed(token: Seq<char>) -> Option<(i64, u32)> {
    let d = first_point(token, 0);
    match parse_signed(token.subrange(0, d), i64::MIN as int, i64::MAX as int) {
        None => None,
        Some(secs) => {
            if d == token.len() {
                Some((secs as i64, 0u32))
            } else {
                let frac = token.skip(d + 1);
                if frac.len() > 0 && all_digits(frac) {
                    Some((secs as i64, fraction_nanos(frac) as u32))
                } else {
                    None
                }
            }
        },
    }
}

/// Ten to the power of `n`.
pub open spec fn pow10(n: nat) -> nat
    decreases n,
{
    if n == 0 {
        1
    } else {
        10 * pow10((n - 1) as nat)
    }
}

/// A run of digits writes a number below ten to the power of its length.
pub proof fn lemma_decimal_value_bound(s: Seq<char>)
    requires
        all_digits(s),
    ensures
        decimal_value(s) < pow10(s.len()),
    decreases s.len(),
{
    if s.len() > 0 {
        assert forall|i: int| 0 <= i < s.drop_last().len() implies is_digit(
            #[trigger] s.drop_last()[i],
        ) by {
            assert(s.drop_last()[i] == s[i]);
        }
        lemma_decimal_value_bound(s.drop_last());
        assert(is_digit(s[s.len() - 1]));
    }
}

proof fn lemma_pow10_nine()
    ensures
        pow10(9) == 1_000_000_000,
{
    reveal_with_fuel(pow10, 10);
}

impl KatcpTimestamp {
    /// The nanoseconds stay below one second, and `chrono` holds the point
    /// in time.
    pub open spec fn wf(self) -> bool {
        self.nanos < NANOS_PER_SEC && chrono_holds(self.secs, self.nanos)
    }

    /// The timestamp of the given seconds and nanoseconds, where the
    /// nanoseconds stay below one second and `held` says that the point in
    /// time can be held.
    pub fn checked(secs: i64, nanos: u32, held: bool) -> (r: Option<KatcpTimestamp>)
        ensures
            r == (if nanos < NANOS_PER_SEC && held {
                Some(KatcpTimestamp { secs, nanos })
            } else {
                None
            }),
    {
        if nanos < NANOS_PER_SEC && held {
            Some(KatcpTimestamp { secs, nanos })
        } else {
            None
        }
    }

    /// The timestamp of the given seconds and nanoseconds; `None` where the
    /// nanoseconds make a second or more, or `chrono` does not hold the
    /// point in time.
    pub fn new(secs: i64, nanos: u32) -> (r: Option<KatcpTimestamp>)
        ensures
            r == (if nanos < NANOS_PER_SEC && chrono_holds(secs, nanos) {
                Some(KatcpTimestamp { secs, nanos })
            } else {
                None
            }),
    {
        KatcpTimestamp::checked(secs, nanos, chrono_timestamp(secs, nanos))
    }

    /// The whole seconds since the epoch.
    pub fn timestamp(&self) -> (s: i64)
        ensures
            s == self.secs,
    {
        self.secs
    }

    /// The nanoseconds since the last whole second.
    pub fn timestamp_subsec_nanos(&self) -> (n: u32)
        ensures
            n == self.nanos,
    {
        self.nanos
    }
}

fn push_fraction(out: &mut Vec<char>, n: u32, width: u32)
    ensures
        final(out)@ == old(out)@ + fraction_digits(n as nat, width as nat),
    decreases width,
{
    if width > 0 {
        push_fraction(out, n / 10, width - 1);
        out.push(char_of_digit((n % 10) as u64));
    }
    assert(out@ =~= old(out)@ + fraction_digits(n as nat, width as nat));
}

fn find_point(v: &Vec<char>) -> (d: usize)
    ensures
        d == first_point(v@, 0),
        d <= v.len(),
{
    let mut i: usize = 0;
    while i < v.len() && v[i] != '.'
        invariant
            i <= v.len(),
            first_point(v@, i as int) == first_point(v@, 0),
        decreases v.len() - i,
    {
        i += 1;
    }
    i
}

impl ToKatcpArgument for KatcpTimestamp {
    open spec fn argument_spec(&self) -> Seq<char> {
        timestamp_text(*self)
    }

    fn to_argument(&self) -> (token: String) {
        let mut out: Vec<char> = Vec::new();
        if self.secs < 0 {
            out.push('-');
            let magnitude: u64 = (-(self.secs as i128)) as u64;
            push_decimal(&mut out, magnitude);
        } else {
            push_decimal(&mut out, self.secs as u64);
        }
        assert(out@ =~= signed_digits(self.secs as int));
        if self.nanos != 0 {
            let mut frac: Vec<char> = Vec::new();
            push_fraction(&mut frac, self.nanos, 9);
            let ghost full = frac@;
            assert(full =~= fraction_digits(self.nanos as nat, 9));
            while frac.len() > 0 && frac[frac.len() - 1] == '0'
                invariant
                    trim_zeros(frac@) == trim_zeros(full),
                decreases frac.len(),
            {
                let ghost before = frac@;
                frac.pop();
                assert(frac@ =~= before.drop_last());
            }
            out.push('.');
            out.append(&mut frac);
        }
        assert(out@ =~= timestamp_text(*self));
        from_chars(&out)
    }
}

impl FromKatcpArgument for KatcpTimestamp {
    type Err = KatcpError;

    /// A token decodes where it writes seconds and nanoseconds of a point
    /// in time that `chrono` holds.
    open spec fn failure(token: Seq<char>) -> Option<KatcpError> {
        match timestamp_parsed(token) {
            Some((secs, nanos)) if chrono_holds(secs, nanos) => None,
            _ => Some(KatcpError::BadArgument),
        }
    }

    /// A token decodes to the timestamp it writes.
    open spec fn yields(token: Seq<char>, v: Self) -> bool {
        timestamp_parsed(token) == Some((v.secs, v.nanos)) && v.wf()
    }

    fn from_argument(s: &str) -> (r: Result<Self, KatcpError>) {
        match parse_timestamp(s) {
            Some((secs, nanos)) => match KatcpTimestamp::new(secs, nanos) {
                Some(t) => Ok(t),
                None => Err(KatcpError::BadArgument),
            },
            None => Err(KatcpError::BadArgument),
        }
    }
}

/// Reads the seconds and nanoseconds that a token writes.
pub fn parse_timestamp(s: &str) -> (r: Option<(i64, u32)>)
    ensures
        r == timestamp_parsed(s@),
        r matches Some((_, nanos)) ==> nanos < NANOS_PER_SEC,
{
    let t = to_chars(s);
    let d = find_point(&t);
    let whole = sub_vec(&t, 0, d);
    let secs = match parse_signed_chars(&whole, 0x8000_0000_0000_0000, 0x7fff_ffff_ffff_ffff) {
        Some(n) => n,
        None => {
            return None;
        },
    };
    if d == t.len() {
        return Some((secs, 0));
    }
    let ghost frac = t@.skip(d + 1);
    assert(t@.subrange(d + 1, t.len() as int) =~= frac);
    if d + 1 == t.len() {
        return None;
    }
    let mut padded: Vec<char> = Vec::new();
    let mut i: usize = d + 1;
    while i < t.len()
        invariant
            d + 1 <= i <= t.len(),
            d == first_point(t@, 0),
            s@ == t@,
            parse_signed(t@.subrange(0, d as int), i64::MIN as int, i64::MAX as int) == Some(
                secs as int,
            ),
            frac == t@.skip(d + 1),
            all_digits(frac.subrange(0, i - d - 1)),
            padded.len() == (if i - d - 1 < 9 {
                i - d - 1
            } else {
                9
            }),
            forall|k: int| 0 <= k < padded.len() ==> padded@[k] == frac[k],
        decreases t.len() - i,
    {
        assert(t@[i as int] == frac[i - d - 1]);
        if !char_is_digit(t[i]) {
            assert(!all_digits(frac));
            return None;
        }
        if padded.len() < 9 {
            padded.push(t[i]);
        }
        assert forall|k: int| 0 <= k < i - d implies is_digit(
            #[trigger] frac.subrange(0, i - d)[k],
        ) by {
            if k < i - d - 1 {
                assert(frac.subrange(0, i - d - 1)[k] == frac[k]);
            }
        }
        i += 1;
    }
    assert(frac.subrange(0, frac.len() as int) =~= frac);
    while padded.len() < 9
        invariant
            padded.len() <= 9,
            frac.len() <= padded.len() || padded.len() == 9,
            forall|k: int| 0 <= k < padded.len() ==> padded@[k] == pad_to_nine(frac)[k],
        decreases 9 - padded.len(),
    {
        padded.push('0');
    }
    assert(padded@ =~= pad_to_nine(frac));
    assert(padded@.subrange(0, 9) =~= padded@);
    assert(all_digits(padded@));
    proof {
        lemma_decimal_value_bound(padded@);
        lemma_pow10_nine();
    }
    match parse_digits(&padded, 0, 9, 999_999_999) {
        Some(n) => Some((secs, n as u32)),
        None => None,
    }
}

/// The padded digits of a number below ten to the power of the width are
/// that many digits and write the number.
proof fn lemma_fraction_digits(n: nat, width: nat)
    requires
        n < pow10(width),
    ensures
        fraction_digits(n, width).len() == width,
        all_digits(fraction_digits(n, width)),
        decimal_value(fraction_digits(n, width)) == n,
    decreases width,
{
    if width > 0 {
        let head = fraction_digits(n / 10, (width - 1) as nat);
        let all = fraction_digits(n, width);
        lemma_fraction_digits(n / 10, (width - 1) as nat);
        assert(all.drop_last() =~= head);
        assert(all.last() == digit_char(n % 10));
        assert forall|i: int| 0 <= i < all.len() implies is_digit(#[trigger] all[i]) by {
            if i < head.len() {
                assert(all[i] == head[i]);
            }
        }
    }
}

/// Trimming keeps a prefix and drops only zeros; it leaves something of
/// every run of digits that writes a number above zero.
proof fn lemma_trim_zeros(s: Seq<char>)
    ensures
        trim_zeros(s).len() <= s.len(),
        trim_zeros(s) == s.subrange(0, trim_zeros(s).len() as int),
        forall|i: int| trim_zeros(s).len() <= i < s.len() ==> #[trigger] s[i] == '0',
        decimal_value(s) > 0 ==> trim_zeros(s).len() > 0,
    decreases s.len(),
{
    if s.len() > 0 && s.last() == '0' {
        let head = s.drop_last();
        lemma_trim_zeros(head);
        let t = trim_zeros(head);
        assert(t =~= s.subrange(0, t.len() as int));
        assert forall|i: int| t.len() <= i < s.len() implies #[trigger] s[i] == '0' by {
            if i < head.len() {
                assert(head[i] == '0');
            }
        }
    } else {
        assert(s =~= s.subrange(0, s.len() as int));
        if s.len() == 0 {
        }
    }
}

/// The first point of a text stands behind every stretch that holds none.
proof fn lemma_first_point(s: Seq<char>, i: int, d: int)
    requires
        0 <= i <= d <= s.len(),
        forall|k: int| i <= k < d ==> #[trigger] s[k] != '.',
        d == s.len() || s[d] == '.',
    ensures
        first_point(s, i) == d,
    decreases d - i,
{
    if i < d {
        lemma_first_point(s, i + 1, d);
    }
}

impl KatcpTimestamp {
    /// Decoding the token of a timestamp gives the timestamp back.
    pub proof fn lemma_roundtrip(self)
        requires
            self.wf(),
        ensures
            <KatcpTimestamp as FromKatcpArgument>::failure(self.argument_spec()) is None,
            <KatcpTimestamp as FromKatcpArgument>::yields(self.argument_spec(), self),
    {
        let sd = signed_digits(self.secs as int);
        let text = timestamp_text(self);
        let d = sd.len() as int;
        assert(sd.len() > 0 && forall|k: int| 0 <= k < sd.len() ==> #[trigger] sd[k] != '.') by {
            if self.secs < 0 {
                let m = (-(self.secs as int)) as nat;
                lemma_decimal_digits(m);
                let digits = decimal_digits(m);
                assert forall|k: int| 0 <= k < sd.len() implies #[trigger] sd[k] != '.' by {
                    if k > 0 {
                        assert(sd[k] == digits[k - 1]);
                    }
                }
            } else {
                lemma_decimal_digits(self.secs as nat);
            }
        }
        lemma_parse_signed_digits(self.secs as int, i64::MIN as int, i64::MAX as int);
        assert(forall|k: int| 0 <= k < d ==> text[k] == sd[k]);
        if self.nanos == 0 {
            lemma_first_point(text, 0, d);
            assert(text.subrange(0, d) =~= sd);
        } else {
            lemma_pow10_nine();
            let full = fraction_digits(self.nanos as nat, 9);
            let frac = trim_zeros(full);
            lemma_fraction_digits(self.nanos as nat, 9);
            lemma_trim_zeros(full);
            assert(text =~= sd + seq!['.'] + frac);
            assert(text[d] == '.');
            lemma_first_point(text, 0, d);
            assert(text.subrange(0, d) =~= sd);
            assert(text.skip(d + 1) =~= frac);
            assert forall|i: int| 0 <= i < frac.len() implies is_digit(#[trigger] frac[i]) by {
                assert(frac[i] == full[i]);
            }
            assert(pad_to_nine(frac) =~= full) by {
                assert forall|i: int| 0 <= i < 9 implies pad_to_nine(frac)[i] == full[i] by {
                    if i < frac.len() {
                        assert(frac[i] == full.subrange(0, frac.len() as int)[i]);
                    }
                }
            }
        }
    }
}

} // verus!
