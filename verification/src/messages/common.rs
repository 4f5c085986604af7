//! What the typed messages are made of: the conversion traits and the
//! scalar types of the protocol.

use vstd::prelude::*;
use crate::decimal::{
    decimal_digits, lemma_parse_signed_digits, lemma_parse_unsigned_digits, parse_digits,
    parse_signed, parse_unsigned, push_decimal, signed_digits,
};
use crate::protocol::{parse_spec, KatcpError, Message, MessageResult, MessageView};
use crate::text::{from_chars, str_eq, to_chars};
use crate::utils::{escape, escape_spec, unescape, unescape_spec};

verus! {

/// A typed message: a value that is written as, and read from, a raw
/// message of one name.
pub trait KatcpMessage: Sized {
    /// The raw message that the value is written as.
    spec fn message_spec(&self, id: Option<u32>) -> MessageView;

    /// The error that reading the raw message `m` gives; `None` where it
    /// can be read.
    spec fn failure(m: MessageView) -> Option<KatcpError>;

    /// Whether `v` is what the raw message `m` reads as.
    spec fn yields(m: MessageView, v: Self) -> bool;

    /// Writes the value as a raw message with the given id.
    fn to_message(&self, id: Option<u32>) -> (r: MessageResult)
        ensures
            r matches Ok(m) && m@ == self.message_spec(id),
    ;

    /// Reads the value from a raw message.
    fn from_message(message: &Message) -> (r: Result<Self, KatcpError>)
        ensures
            match r {
                Ok(v) => Self::failure(message@) is None && Self::yields(message@, v),
                Err(e) => Self::failure(message@) == Some(e),
            },
    ;
}

/// Values that are written as one argument.
pub trait ToKatcpArgument {
    /// The token that the value is written as.
    spec fn argument_spec(&self) -> Seq<char>;

    /// Writes the value as a token.
    fn to_argument(&self) -> (token: String)
        ensures
            token@ == self.argument_spec(),
    ;
}

/// Values that are read from one argument.
pub trait FromKatcpArgument: Sized {
    type Err;

    /// The error that reading the token gives; `None` where it decodes.
    spec fn failure(token: Seq<char>) -> Option<Self::Err>;

    /// Whether `v` is what the token decodes to.
    spec fn yields(token: Seq<char>, v: Self) -> bool;

    /// Reads a value from a token.
    fn from_argument(s: &str) -> (r: Result<Self, Self::Err>)
        ensures
            match r {
                Ok(v) => Self::failure(s@) is None && Self::yields(s@, v),
                Err(e) => Self::failure(s@) == Some(e),
            },
    ;
}

/// Values that are written as several arguments.
pub trait ToKatcpArguments {
    /// The tokens that the value is written as.
    spec fn arguments_spec(&self) -> Seq<Seq<char>>;

    /// Writes the value as tokens.
    fn to_arguments(&self) -> (tokens: Vec<String>)
        ensures
            tokens.deep_view() == self.arguments_spec(),
    ;
}

/// Values that are read from the front of a run of arguments.
pub trait FromKatcpArguments: Sized {
    type Err;

    /// The error that reading from the front of `tokens` gives; `None`
    /// where a value can be read.
    spec fn failure(tokens: Seq<Seq<char>>) -> Option<Self::Err>;

    /// Whether `v` is what the front of `tokens` reads as.
    spec fn yields(tokens: Seq<Seq<char>>, v: Self) -> bool;

    /// Reads a value from the arguments `strings[from..]`.
    fn from_arguments(strings: &Vec<String>, from: usize) -> (r: Result<Self, Self::Err>)
        requires
            from <= strings.len(),
        ensures
            match r {
                Ok(v) => Self::failure(strings.deep_view().skip(from as int)) is None
                    && Self::yields(strings.deep_view().skip(from as int), v),
                Err(e) => Self::failure(strings.deep_view().skip(from as int)) == Some(e),
            },
    ;
}

/// Values that go both ways through one argument.
pub trait KatcpArgument: ToKatcpArgument + FromKatcpArgument {

}

/// Values that go both ways through several arguments.
pub trait KatcpArguments: ToKatcpArguments + FromKatcpArguments {

}

impl<T> KatcpArgument for T where T: ToKatcpArgument + FromKatcpArgument {

}

impl<T> KatcpArguments for T where T: ToKatcpArguments + FromKatcpArguments {

}

impl ToKatcpArgument for str {
    open spec fn argument_spec(&self) -> Seq<char> {
        escape_spec(self@)
    }

    fn to_argument(&self) -> (token: String) {
        escape(self)
    }
}

impl ToKatcpArgument for String {
    open spec fn argument_spec(&self) -> Seq<char> {
        escape_spec(self@)
    }

    fn to_argument(&self) -> (token: String) {
        escape(self.as_str())
    }
}

impl FromKatcpArgument for String {
    type Err = KatcpError;

    /// Every token decodes.
    open spec fn failure(token: Seq<char>) -> Option<KatcpError> {
        None
    }

    /// A token decodes to the text it stands for.
    open spec fn yields(token: Seq<char>, v: Self) -> bool {
        v@ == unescape_spec(token)
    }

    fn from_argument(s: &str) -> (r: Result<Self, KatcpError>) {
        Ok(unescape(s))
    }
}

/// The token that stands for an absent value.
pub open spec fn absent_token() -> Seq<char> {
    seq!['\\', '@']
}

impl<T: ToKatcpArgument> ToKatcpArgument for Option<T> {
    open spec fn argument_spec(&self) -> Seq<char> {
        match self {
            Some(v) => v.argument_spec(),
            None => absent_token(),
        }
    }

    fn to_argument(&self) -> (token: String) {
        match self {
            Some(v) => v.to_argument(),
            None => {
                let mut out: Vec<char> = Vec::new();
                out.push('\\');
                out.push('@');
                assert(out@ =~= absent_token());
                from_chars(&out)
            },
        }
    }
}

impl<T: FromKatcpArgument> FromKatcpArgument for Option<T> {
    type Err = T::Err;

    /// `\@` always decodes; any other token where it decodes as a `T`.
    open spec fn failure(token: Seq<char>) -> Option<T::Err> {
        if token == absent_token() {
            None
        } else {
            T::failure(token)
        }
    }

    /// `\@` is the absent value; any other token is read as a `T`.
    open spec fn yields(token: Seq<char>, v: Self) -> bool {
        if token == absent_token() {
            v is None
        } else {
            v matches Some(x) && T::yields(token, x)
        }
    }

    fn from_argument(s: &str) -> (r: Result<Self, T::Err>) {
        let t = to_chars(s);
        if t.len() == 2 && t[0] == '\\' && t[1] == '@' {
            assert(s@ =~= absent_token());
            Ok(None)
        } else {
            match T::from_argument(s) {
                Ok(v) => Ok(Some(v)),
                Err(e) => Err(e),
            }
        }
    }
}

impl ToKatcpArgument for u32 {
    open spec fn argument_spec(&self) -> Seq<char> {
        decimal_digits(*self as nat)
    }

    fn to_argument(&self) -> (token: String) {
        let mut out: Vec<char> = Vec::new();
        push_decimal(&mut out, *self as u64);
        from_chars(&out)
    }
}

impl FromKatcpArgument for u32 {
    type Err = KatcpError;

    /// A token decodes where it is an optional `+` and decimal digits, the
    /// value fitting 32 bits.
    open spec fn failure(token: Seq<char>) -> Option<KatcpError> {
        if parse_unsigned(token, u32::MAX as nat) is None {
            Some(KatcpError::BadArgument)
        } else {
            None
        }
    }

    /// A token decodes to the number it writes.
    open spec fn yields(token: Seq<char>, v: Self) -> bool {
        parse_unsigned(token, u32::MAX as nat) == Some(v as nat)
    }

    fn from_argument(s: &str) -> (r: Result<Self, KatcpError>) {
        let t = to_chars(s);
        match parse_unsigned_chars(&t, 0xffff_ffff) {
            Some(n) => Ok(n as u32),
            None => Err(KatcpError::BadArgument),
        }
    }
}

/// Reads an unsigned decimal number whose value is at most `max`.
pub fn parse_unsigned_chars(t: &Vec<char>, max: u64) -> (r: Option<u64>)
    ensures
        r == (match parse_unsigned(t@, max as nat) {
            Some(n) => Some(n as u64),
            None => None,
        }),
{
    let from: usize = if t.len() > 0 && t[0] == '+' {
        1
    } else {
        0
    };
    assert(t@.subrange(from as int, t.len() as int) =~= t@.skip(from as int));
    assert(t@.skip(0) =~= t@);
    parse_digits(t, from, t.len(), max)
}

impl ToKatcpArgument for i32 {
    open spec fn argument_spec(&self) -> Seq<char> {
        signed_digits(*self as int)
    }

    fn to_argument(&self) -> (token: String) {
        let mut out: Vec<char> = Vec::new();
        if *self < 0 {
            out.push('-');
            let magnitude: u64 = (-(*self as i64)) as u64;
            push_decimal(&mut out, magnitude);
        } else {
            push_decimal(&mut out, *self as u64);
        }
        from_chars(&out)
    }
}

impl FromKatcpArgument for i32 {
    type Err = KatcpError;

    /// A token decodes where it is an optional sign and decimal digits,
    /// the value fitting 32 bits.
    open spec fn failure(token: Seq<char>) -> Option<KatcpError> {
        if parse_signed(token, i32::MIN as int, i32::MAX as int) is None {
            Some(KatcpError::BadArgument)
        } else {
            None
        }
    }

    /// A token decodes to the number it writes.
    open spec fn yields(token: Seq<char>, v: Self) -> bool {
        parse_signed(token, i32::MIN as int, i32::MAX as int) == Some(v as int)
    }

    fn from_argument(s: &str) -> (r: Result<Self, KatcpError>) {
        let t = to_chars(s);
        match parse_signed_chars(&t, 0x8000_0000, 0x7fff_ffff) {
            Some(n) => Ok(n as i32),
            None => Err(KatcpError::BadArgument),
        }
    }
}

/// Reads a signed decimal number whose value lies in `-low ..= high`.
pub fn parse_signed_chars(t: &Vec<char>, low: u64, high: u64) -> (r: Option<i64>)
    requires
        low <= 0x8000_0000_0000_0000,
        high <= 0x7fff_ffff_ffff_ffff,
    ensures
        r == (match parse_signed(t@, -(low as int), high as int) {
            Some(n) => Some(n as i64),
            None => None,
        }),
{
    assert(t@.skip(0) =~= t@);
    if t.len() > 0 && t[0] == '-' {
        assert(t@.subrange(1, t.len() as int) =~= t@.skip(1));
        match parse_digits(t, 1, t.len(), low) {
            Some(n) => {
                if n == 0x8000_0000_0000_0000 {
                    Some(i64::MIN)
                } else {
                    Some(-(n as i64))
                }
            },
            None => None,
        }
    } else {
        let from: usize = if t.len() > 0 && t[0] == '+' {
            1
        } else {
            0
        };
        assert(t@.subrange(from as int, t.len() as int) =~= t@.skip(from as int));
        match parse_digits(t, from, t.len(), high) {
            Some(n) => Some(n as i64),
            None => None,
        }
    }
}

impl ToKatcpArgument for bool {
    open spec fn argument_spec(&self) -> Seq<char> {
        if *self {
            seq!['1']
        } else {
            seq!['0']
        }
    }

    fn to_argument(&self) -> (token: String) {
        let mut out: Vec<char> = Vec::new();
        out.push(
            if *self {
                '1'
            } else {
                '0'
            },
        );
        assert(out@ =~= self.argument_spec());
        from_chars(&out)
    }
}

impl FromKatcpArgument for bool {
    type Err = KatcpError;

    /// Only `1` and `0` decode.
    open spec fn failure(token: Seq<char>) -> Option<KatcpError> {
        if token == seq!['1'] || token == seq!['0'] {
            None
        } else {
            Some(KatcpError::BadArgument)
        }
    }

    /// `1` is true, `0` is false.
    open spec fn yields(token: Seq<char>, v: Self) -> bool {
        token == (if v {
            seq!['1']
        } else {
            seq!['0']
        })
    }

    fn from_argument(s: &str) -> (r: Result<Self, KatcpError>) {
        let t = to_chars(s);
        if t.len() == 1 && t[0] == '1' {
            assert(s@ =~= seq!['1']);
            Ok(true)
        } else if t.len() == 1 && t[0] == '0' {
            assert(s@ =~= seq!['0']);
            Ok(false)
        } else {
            assert(seq!['1'].len() == 1 && seq!['1'][0] == '1');
            assert(seq!['0'].len() == 1 && seq!['0'][0] == '0');
            Err(KatcpError::BadArgument)
        }
    }
}

/// Decoding the token of an unsigned integer gives the integer back.
pub proof fn lemma_u32_roundtrip(v: u32)
    ensures
        <u32 as FromKatcpArgument>::failure(v.argument_spec()) is None,
        <u32 as FromKatcpArgument>::yields(v.argument_spec(), v),
{
    lemma_parse_unsigned_digits(v as nat, u32::MAX as nat);
}

/// Decoding the token of a signed integer gives the integer back.
pub proof fn lemma_i32_roundtrip(v: i32)
    ensures
        <i32 as FromKatcpArgument>::failure(v.argument_spec()) is None,
        <i32 as FromKatcpArgument>::yields(v.argument_spec(), v),
{
    lemma_parse_signed_digits(v as int, i32::MIN as int, i32::MAX as int);
}

/// Decoding the token of a boolean gives the boolean back.
pub proof fn lemma_bool_roundtrip(v: bool)
    ensures
        <bool as FromKatcpArgument>::failure(v.argument_spec()) is None,
        <bool as FromKatcpArgument>::yields(v.argument_spec(), v),
{
    assert(seq!['1'][0] != seq!['0'][0]);
}

/// Decoding the token of a text gives the text back, for every text in
/// which no backslash is directly followed by one of `_ 0 n r e t @`.
pub proof fn lemma_string_roundtrip(v: String)
    requires
        crate::utils::collision_free(v@),
    ensures
        <String as FromKatcpArgument>::failure(v.argument_spec()) is None,
        <String as FromKatcpArgument>::yields(v.argument_spec(), v),
{
    crate::utils::lemma_unescape_escape(v@);
}

/// Return codes: the first argument of a reply.
#[derive(Debug, PartialEq, Eq, Copy, Clone, Structural)]
pub enum RetCode {
    /// The request was processed; what follows depends on the request.
    Okay,
    /// The request was malformed; a description follows.
    Invalid,
    /// The request was valid but could not be processed; a description
    /// follows.
    Fail,
}

impl RetCode {
    /// The label that the code is written as.
    pub open spec fn label(self) -> Seq<char> {
        match self {
            RetCode::Okay => "ok"@,
            RetCode::Invalid => "invalid"@,
            RetCode::Fail => "fail"@,
        }
    }

    /// The code that a label stands for.
    pub open spec fn from_label(s: Seq<char>) -> Option<RetCode> {
        if s == "ok"@ {
            Some(RetCode::Okay)
        } else if s == "invalid"@ {
            Some(RetCode::Invalid)
        } else if s == "fail"@ {
            Some(RetCode::Fail)
        } else {
            None
        }
    }

    /// Every code is the one that its label stands for, and so is read back
    /// from its token.
    pub proof fn lemma_label_roundtrip(self)
        ensures
            RetCode::from_label(self.label()) == Some(self),
            argument_roundtrips(self),
    {
        reveal_strlit("ok");
        reveal_strlit("invalid");
        reveal_strlit("fail");
        assert("ok"@.len() == 2 && "invalid"@.len() == 7 && "fail"@.len() == 4);
    }
}

impl ToKatcpArgument for RetCode {
    open spec fn argument_spec(&self) -> Seq<char> {
        self.label()
    }

    fn to_argument(&self) -> (token: String) {
        match self {
            RetCode::Okay => "ok".to_owned(),
            RetCode::Invalid => "invalid".to_owned(),
            RetCode::Fail => "fail".to_owned(),
        }
    }
}

impl FromKatcpArgument for RetCode {
    type Err = KatcpError;

    /// The code of the label, `BadArgument` where the token is no label.
    open spec fn failure(token: Seq<char>) -> Option<KatcpError> {
        if RetCode::from_label(token) is None {
            Some(KatcpError::BadArgument)
        } else {
            None
        }
    }

    /// A label decodes to what it stands for.
    open spec fn yields(token: Seq<char>, v: Self) -> bool {
        RetCode::from_label(token) == Some(v)
    }

    fn from_argument(s: &str) -> (r: Result<Self, KatcpError>) {
        if str_eq(s, "ok") {
            Ok(RetCode::Okay)
        } else if str_eq(s, "invalid") {
            Ok(RetCode::Invalid)
        } else if str_eq(s, "fail") {
            Ok(RetCode::Fail)
        } else {
            Err(KatcpError::BadArgument)
        }
    }
}

/// The kinds of value that an argument can hold.
#[derive(Debug, PartialEq, Eq, Copy, Clone, Structural)]
pub enum ArgumentType {
    /// A 32-bit signed integer.
    Integer,
    /// A decimal number with a fraction.
    Float,
    /// `1` or `0`.
    Boolean,
    /// Seconds since the epoch.
    Timestamp,
    /// One label of a closed set.
    Discrete,
    /// An IP address, with or without a port.
    Address,
    /// Escaped text.
    String,
}

impl ArgumentType {
    /// The label that the kind is written as.
    pub open spec fn label(self) -> Seq<char> {
        match self {
            ArgumentType::Integer => "integer"@,
            ArgumentType::Float => "float"@,
            ArgumentType::Boolean => "boolean"@,
            ArgumentType::Timestamp => "timestamp"@,
            ArgumentType::Discrete => "discrete"@,
            ArgumentType::Address => "address"@,
            ArgumentType::String => "string"@,
        }
    }

    /// The kind that a label stands for.
    pub open spec fn from_label(s: Seq<char>) -> Option<ArgumentType> {
        if s == "integer"@ {
            Some(ArgumentType::Integer)
        } else if s == "float"@ {
            Some(ArgumentType::Float)
        } else if s == "boolean"@ {
            Some(ArgumentType::Boolean)
        } else if s == "timestamp"@ {
            Some(ArgumentType::Timestamp)
        } else if s == "discrete"@ {
            Some(ArgumentType::Discrete)
        } else if s == "address"@ {
            Some(ArgumentType::Address)
        } else if s == "string"@ {
            Some(ArgumentType::String)
        } else {
            None
        }
    }

    /// Every kind is the one that its label stands for, and so is read back
    /// from its token.
    pub proof fn lemma_label_roundtrip(self)
        ensures
            ArgumentType::from_label(self.label()) == Some(self),
            argument_roundtrips(self),
    {
        reveal_strlit("integer");
        reveal_strlit("float");
        reveal_strlit("boolean");
        reveal_strlit("timestamp");
        reveal_strlit("discrete");
        reveal_strlit("address");
        reveal_strlit("string");
        assert("integer"@[0] == 'i' && "float"@[0] == 'f' && "boolean"@[0] == 'b');
        assert("timestamp"@[0] == 't' && "discrete"@[0] == 'd' && "address"@[0] == 'a');
        assert("string"@[0] == 's');
    }
}

impl ToKatcpArgument for ArgumentType {
    open spec fn argument_spec(&self) -> Seq<char> {
        self.label()
    }

    fn to_argument(&self) -> (token: String) {
        match self {
            ArgumentType::Integer => "integer".to_owned(),
            ArgumentType::Float => "float".to_owned(),
            ArgumentType::Boolean => "boolean".to_owned(),
            ArgumentType::Timestamp => "timestamp".to_owned(),
            ArgumentType::Discrete => "discrete".to_owned(),
            ArgumentType::Address => "address".to_owned(),
            ArgumentType::String => "string".to_owned(),
        }
    }
}

impl FromKatcpArgument for ArgumentType {
    type Err = KatcpError;

    /// The kind of the label, `BadArgument` where the token is no label.
    open spec fn failure(token: Seq<char>) -> Option<KatcpError> {
        if ArgumentType::from_label(token) is None {
            Some(KatcpError::BadArgument)
        } else {
            None
        }
    }

    /// A label decodes to what it stands for.
    open spec fn yields(token: Seq<char>, v: Self) -> bool {
        ArgumentType::from_label(token) == Some(v)
    }

    fn from_argument(s: &str) -> (r: Result<Self, KatcpError>) {
        if str_eq(s, "integer") {
            Ok(ArgumentType::Integer)
        } else if str_eq(s, "float") {
            Ok(ArgumentType::Float)
        } else if str_eq(s, "boolean") {
            Ok(ArgumentType::Boolean)
        } else if str_eq(s, "timestamp") {
            Ok(ArgumentType::Timestamp)
        } else if str_eq(s, "discrete") {
            Ok(ArgumentType::Discrete)
        } else if str_eq(s, "address") {
            Ok(ArgumentType::Address)
        } else if str_eq(s, "string") {
            Ok(ArgumentType::String)
        } else {
            Err(KatcpError::BadArgument)
        }
    }
}

/// The first of two errors.
pub open spec fn or_else(a: Option<KatcpError>, b: Option<KatcpError>) -> Option<KatcpError> {
    if a is Some {
        a
    } else {
        b
    }
}

/// The error that reading argument `i` as a `T` gives: `MissingArgument`
/// where there are too few arguments, else that of the token.
pub open spec fn field_failure<T: FromKatcpArgument<Err = KatcpError>>(
    tokens: Seq<Seq<char>>,
    i: int,
) -> Option<KatcpError> {
    if i >= tokens.len() {
        Some(KatcpError::MissingArgument)
    } else {
        T::failure(tokens[i])
    }
}

/// Whether `v` is what argument `i` decodes to.
pub open spec fn field_yields<T: FromKatcpArgument<Err = KatcpError>>(
    tokens: Seq<Seq<char>>,
    i: int,
    v: T,
) -> bool {
    0 <= i < tokens.len() && T::yields(tokens[i], v)
}

/// Reads argument `i` as a `T`.
pub fn decode_field<T: FromKatcpArgument<Err = KatcpError>>(strings: &Vec<String>, i: usize) -> (r:
    Result<T, KatcpError>)
    ensures
        match r {
            Ok(v) => field_failure::<T>(strings.deep_view(), i as int) is None && field_yields::<T>(
                strings.deep_view(),
                i as int,
                v,
            ),
            Err(e) => field_failure::<T>(strings.deep_view(), i as int) == Some(e),
        },
{
    if i >= strings.len() {
        return Err(KatcpError::MissingArgument);
    }
    assert(strings.deep_view()[i as int] == strings@[i as int]@);
    T::from_argument(strings[i].as_str())
}

/// The error that the name and kind of a raw message give for a reader of
/// the messages called `name`: `IncorrectType` for another name, `Unknown`
/// for a kind that the message does not have.
pub open spec fn header_failure(m: MessageView, name: Seq<char>, has_kind: bool) -> Option<
    KatcpError,
> {
    if m.name != name {
        Some(KatcpError::IncorrectType)
    } else if !has_kind {
        Some(KatcpError::Unknown)
    } else {
        None
    }
}

/// An empty list of arguments.
pub fn no_arguments() -> (tokens: Vec<String>)
    ensures
        tokens.deep_view() == Seq::<Seq<char>>::empty(),
{
    let tokens: Vec<String> = Vec::new();
    assert(tokens.deep_view() =~= Seq::<Seq<char>>::empty());
    tokens
}

/// Reads a typed message from one line: the line is parsed, then the raw
/// message is read as an `M`.
pub fn message_from_str<M: KatcpMessage>(line: &str) -> (r: Result<M, KatcpError>)
    ensures
        match parse_spec(line@) {
            Err(res) => r matches Err(KatcpError::ParseError(text)) && text@ == res,
            Ok((m, _)) => match r {
                Ok(v) => M::failure(m) is None && M::yields(m, v),
                Err(e) => M::failure(m) == Some(e),
            },
        },
{
    match Message::from_str(line) {
        Ok(message) => M::from_message(&message),
        Err(e) => Err(e),
    }
}

/// Writes a typed message as one line, without an id.
pub fn message_to_string<M: KatcpMessage>(message: &M) -> (line: String)
    ensures
        line@ == crate::protocol::serialize_spec(message.message_spec(None)),
{
    match message.to_message(None) {
        Ok(raw) => raw.to_string(),
        Err(_) => String::new(),
    }
}

/// A value whose token decodes to the value.
pub open spec fn argument_roundtrips<T: ToKatcpArgument + FromKatcpArgument>(v: T) -> bool {
    T::failure(v.argument_spec()) is None && T::yields(v.argument_spec(), v)
}

/// Decoding the token of an optional value gives it back, where the value
/// inside does so and its token is not the one of the absent value.
pub proof fn lemma_option_roundtrip<T: ToKatcpArgument + FromKatcpArgument>(v: Option<T>)
    requires
        v matches Some(x) ==> argument_roundtrips(x) && x.argument_spec() != absent_token(),
    ensures
        argument_roundtrips(v),
{
}

/// Only the empty text is written as the token of the absent value.
pub proof fn lemma_escape_absent(s: Seq<char>)
    requires
        s.len() > 0,
    ensures
        escape_spec(s) != absent_token(),
{
    let h = crate::utils::escape_char(s[0]);
    let t = crate::utils::escape_each(s);
    assert(t == h + crate::utils::escape_each(s.skip(1)));
    assert(t[0] == h[0]);
    if h.len() == 2 {
        assert(t[1] == h[1]);
    }
    assert(absent_token()[0] == '\\' && absent_token()[1] == '@');
}

/// No decimal number is written as the token of the absent value.
pub proof fn lemma_digits_absent(n: nat)
    ensures
        decimal_digits(n) != absent_token(),
{
    crate::decimal::lemma_decimal_digits(n);
    assert(absent_token()[0] == '\\');
}

/// A value that is read back from the tokens it is written as.
pub open spec fn arguments_roundtrip<T: ToKatcpArguments + FromKatcpArguments>(v: T) -> bool {
    T::failure(v.arguments_spec()) is None && T::yields(v.arguments_spec(), v)
}

/// A typed message that is read back from the raw message it is written
/// as.
pub open spec fn message_roundtrips<M: KatcpMessage>(v: M, id: Option<u32>) -> bool {
    M::failure(v.message_spec(id)) is None && M::yields(v.message_spec(id), v)
}

/// The token of every text, of every integer and of every boolean is an
/// argument: messages built from them follow the grammar.
pub proof fn lemma_tokens_are_arguments(text: String, unsigned: u32, signed: i32, flag: bool)
    ensures
        crate::protocol::is_argument(text.argument_spec()),
        crate::protocol::is_argument(unsigned.argument_spec()),
        crate::protocol::is_argument(signed.argument_spec()),
        crate::protocol::is_argument(flag.argument_spec()),
{
    crate::protocol_laws::lemma_escape_is_argument(text@);
    crate::decimal::lemma_decimal_digits(unsigned as nat);
    crate::protocol_laws::lemma_plain_is_argument(unsigned.argument_spec());
    let s = signed.argument_spec();
    if signed < 0 {
        let digits = decimal_digits((-(signed as int)) as nat);
        crate::decimal::lemma_decimal_digits((-(signed as int)) as nat);
        assert forall|k: int| 0 <= k < s.len() implies crate::protocol::is_plain(
            #[trigger] s[k],
        ) by {
            if k > 0 {
                assert(s[k] == digits[k - 1]);
            }
        }
    } else {
        crate::decimal::lemma_decimal_digits(signed as nat);
    }
    crate::protocol_laws::lemma_plain_is_argument(s);
    crate::protocol_laws::lemma_plain_is_argument(flag.argument_spec());
}

/// A typed message goes through its line and back: where the value is
/// read back from its raw message, and that raw message follows the
/// grammar, parsing the line written for it gives a raw message that reads
/// as the value.
pub proof fn lemma_line_roundtrip<M: KatcpMessage>(v: M, id: Option<u32>)
    requires
        message_roundtrips(v, id),
        v.message_spec(id).well_formed(),
    ensures
        parse_spec(crate::protocol::serialize_spec(v.message_spec(id))) matches Ok((m, rest))
            && rest.len() == 0 && M::failure(m) is None && M::yields(m, v),
{
    crate::protocol::lemma_parse_serialize(v.message_spec(id));
}

} // verus!
