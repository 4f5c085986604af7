//! Decimal numbers with a fraction, held as the text they are written as.

use vstd::prelude::*;

use crate::messages::common::{FromKatcpArgument, ToKatcpArgument};
use crate::protocol::{digit_run_end, scan_digit_run, KatcpError};
use crate::text::{from_chars, to_chars};

verus! {

/// A plus or a minus sign.
pub open spec fn is_sign(c: char) -> bool {
    c == '+' || c == '-'
}

/// The lower-case form of an ASCII letter; any other character unchanged.
pub open spec fn ascii_lower(c: char) -> char {
    if 'A' <= c && c <= 'Z' {
        ((c as u8) + 32) as char
    } else {
        c
    }
}

/// `s[from..]` is the word `w`, whatever the case of its ASCII letters.
pub open spec fn is_word_at(s: Seq<char>, from: int, w: Seq<char>) -> bool {
    &&& s.len() - from == w.len()
    &&& forall|i: int| 0 <= i < w.len() ==> ascii_lower(#[trigger] s[from + i]) == w[i]
}

/// `s[from..]` is digits with an optional point among them and an optional
/// exponent: at least one digit before the exponent, and after `e` or `E`
/// an optional sign and at least one digit.
pub open spec fn is_number_at(s: Seq<char>, from: int) -> bool {
    let i = digit_run_end(s, from);
    let point = i < s.len() && s[i] == '.';
    let j = if point {
        digit_run_end(s, i + 1)
    } else {
        i
    };
    let digits = if point {
        j - from - 1
    } else {
        j - from
    };
    &&& digits > 0
    &&& (j == s.len() || {
        let k = if j + 1 < s.len() && is_sign(s[j + 1]) {
            j + 2
        } else {
            j + 1
        };
        &&& (s[j] == 'e' || s[j] == 'E')
        &&& k < digit_run_end(s, k)
        &&& digit_run_end(s, k) == s.len()
    })
}

/// The text is a decimal number: an optional sign, then `inf`, `infinity`,
/// `nan` (in any case) or digits with an optional point and exponent.
pub open spec fn is_float_literal(s: Seq<char>) -> bool {
    let from: int = if s.len() > 0 && is_sign(s[0]) {
        1
    } else {
        0
    };
    ||| is_word_at(s, from, "inf"@)
    ||| is_word_at(s, from, "infinity"@)
    ||| is_word_at(s, from, "nan"@)
    ||| is_number_at(s, from)
}

fn lower_char(c: char) -> (l: char)
    ensures
        l == ascii_lower(c),
{
    if 'A' <= c && c <= 'Z' {
        ((c as u8) + 32) as char
    } else {
        c
    }
}

fn word_at(v: &Vec<char>, from: usize, word: &str) -> (b: bool)
    requires
        from <= v.len(),
    ensures
        b == is_word_at(v@, from as int, word@),
{
    let w = to_chars(word);
    if v.len() - from != w.len() {
        return false;
    }
    let mut i: usize = 0;
    while i < w.len()
        invariant
            i <= w.len(),
            from <= v.len(),
            v.len() - from == w.len(),
            w@ == word@,
            forall|k: int| 0 <= k < i ==> ascii_lower(#[trigger] v@[from + k]) == w@[k],
        decreases w.len() - i,
    {
        if lower_char(v[from + i]) != w[i] {
            return false;
        }
        i += 1;
    }
    true
}

fn number_at(v: &Vec<char>, from: usize) -> (b: bool)
    requires
        from <= v.len(),
    ensures
        b == is_number_at(v@, from as int),
{
    let len = v.len();
    let i = scan_digit_run(v, from);
    let point = i < len && v[i] == '.';
    let j = if point {
        scan_digit_run(v, i + 1)
    } else {
        i
    };
    let digits = if point {
        j - from - 1
    } else {
        j - from
    };
    if digits == 0 {
        return false;
    }
    if j == len {
        return true;
    }
    if !(v[j] == 'e' || v[j] == 'E') {
        return false;
    }
    let k = if j + 1 < len && (v[j + 1] == '+' || v[j + 1] == '-') {
        j + 2
    } else {
        j + 1
    };
    let e = scan_digit_run(v, k);
    k < e && e == len
}

/// Whether the characters are a decimal number.
pub fn is_float_chars(v: &Vec<char>) -> (b: bool)
    ensures
        b == is_float_literal(v@),
{
    let from: usize = if v.len() > 0 && (v[0] == '+' || v[0] == '-') {
        1
    } else {
        0
    };
    word_at(v, from, "inf") || word_at(v, from, "infinity") || word_at(v, from, "nan")
        || number_at(v, from)
}

/// A decimal number with a fraction, held as its text. The text of a
/// well-formed value is a number.
#[derive(Debug, PartialEq, Eq, Clone)]
pub struct FloatLiteral {
    text: String,
}

impl View for FloatLiteral {
    type V = Seq<char>;

    closed spec fn view(&self) -> Seq<char> {
        self.text@
    }
}

impl FloatLiteral {
    /// The text is a number.
    pub open spec fn wf(&self) -> bool {
        is_float_literal(self@)
    }

    /// The number written by `text`, if it writes one.
    pub fn new(text: &str) -> (r: Option<FloatLiteral>)
        ensures
            match r {
                Some(f) => is_float_literal(text@) && f@ == text@ && f.wf(),
                None => !is_float_literal(text@),
            },
    {
        let v = to_chars(text);
        if is_float_chars(&v) {
            Some(FloatLiteral { text: from_chars(&v) })
        } else {
            None
        }
    }

    /// The text of the number.
    pub fn text(&self) -> (s: String)
        ensures
            s@ == self@,
    {
        self.text.clone()
    }

    /// Decoding the token of a number gives the number back.
    pub proof fn lemma_roundtrip(self)
        requires
            self.wf(),
        ensures
            <FloatLiteral as FromKatcpArgument>::failure(self.argument_spec()) is None,
            <FloatLiteral as FromKatcpArgument>::yields(self.argument_spec(), self),
    {
    }
}

impl ToKatcpArgument for FloatLiteral {
    open spec fn argument_spec(&self) -> Seq<char> {
        self@
    }

    fn to_argument(&self) -> (token: String) {
        self.text.clone()
    }
}

impl FromKatcpArgument for FloatLiteral {
    type Err = KatcpError;

    /// A token decodes where it is a number.
    open spec fn failure(token: Seq<char>) -> Option<KatcpError> {
        if is_float_literal(token) {
            None
        } else {
            Some(KatcpError::BadArgument)
        }
    }

    /// A token decodes to the number that holds it.
    open spec fn yields(token: Seq<char>, v: Self) -> bool {
        v@ == token && v.wf()
    }

    fn from_argument(s: &str) -> (r: Result<Self, KatcpError>) {
        match FloatLiteral::new(s) {
            Some(f) => Ok(f),
            None => Err(KatcpError::BadArgument),
        }
    }
}

} // verus!
