//! Homogeneous lists of arguments, whose kind an earlier argument names.

use vstd::prelude::*;
use crate::messages::address::KatcpAddress;
use crate::messages::common::{
    argument_roundtrips, ArgumentType, FromKatcpArgument, ToKatcpArgument, ToKatcpArguments,
};
use crate::messages::float_literal::FloatLiteral;
use crate::messages::timestamp::KatcpTimestamp;
use crate::protocol::KatcpError;

verus! {

/// The tokens of the values, in order.
pub open spec fn encoded<T: ToKatcpArgument>(v: Seq<T>) -> Seq<Seq<char>> {
    Seq::new(v.len(), |i: int| v[i].argument_spec())
}

/// The error of the first token that does not decode as a `T`; `None`
/// where all do.
pub open spec fn first_failure<T: FromKatcpArgument>(tokens: Seq<Seq<char>>) -> Option<T::Err>
    decreases tokens.len(),
{
    if tokens.len() == 0 {
        None
    } else {
        match T::failure(tokens[0]) {
            Some(e) => Some(e),
            None => first_failure::<T>(tokens.skip(1)),
        }
    }
}

/// Each value is what the token at its place decodes to.
pub open spec fn all_yield<T: FromKatcpArgument>(tokens: Seq<Seq<char>>, v: Seq<T>) -> bool {
    &&& v.len() == tokens.len()
    &&& forall|i: int| 0 <= i < tokens.len() ==> T::yields(#[trigger] tokens[i], v[i])
}

/// Writes each value as a token.
pub fn encode_all<T: ToKatcpArgument>(v: &Vec<T>) -> (out: Vec<String>)
    ensures
        out.deep_view() == encoded(v@),
{
    let mut out: Vec<String> = Vec::new();
    let mut i: usize = 0;
    while i < v.len()
        invariant
            i <= v.len(),
            out.len() == i,
            forall|k: int| 0 <= k < i ==> out@[k]@ == v@[k].argument_spec(),
        decreases v.len() - i,
    {
        out.push(v[i].to_argument());
        i += 1;
    }
    assert(out.deep_view() =~= encoded(v@));
    out
}

/// Reads every argument of `strings[from..]` as a `T`; the first that does
/// not decode gives the error.
pub fn decode_all<T: FromKatcpArgument>(strings: &Vec<String>, from: usize) -> (r: Result<
    Vec<T>,
    T::Err,
>)
    requires
        from <= strings.len(),
    ensures
        match r {
            Ok(v) => first_failure::<T>(strings.deep_view().skip(from as int)) is None
                && all_yield::<T>(strings.deep_view().skip(from as int), v@),
            Err(e) => first_failure::<T>(strings.deep_view().skip(from as int)) == Some(e),
        },
{
    let ghost tokens = strings.deep_view().skip(from as int);
    let mut out: Vec<T> = Vec::new();
    let mut i: usize = from;
    assert(tokens.skip(0) =~= tokens);
    while i < strings.len()
        invariant
            from <= i <= strings.len(),
            tokens == strings.deep_view().skip(from as int),
            out.len() == i - from,
            first_failure::<T>(tokens.skip(i - from)) == first_failure::<T>(tokens),
            forall|k: int| 0 <= k < i - from ==> T::yields(#[trigger] tokens[k], out@[k]),
        decreases strings.len() - i,
    {
        let ghost rest = tokens.skip(i - from);
        assert(rest[0] == strings@[i as int]@);
        assert(rest.skip(1) =~= tokens.skip(i - from + 1));
        match T::from_argument(strings[i].as_str()) {
            Ok(v) => {
                out.push(v);
            },
            Err(e) => {
                return Err(e);
            },
        }
        i += 1;
    }
    Ok(out)
}

/// A list of values of one kind.
#[derive(Debug, PartialEq, Eq, Clone)]
pub enum ArgumentVec {
    Integer(Vec<i32>),
    Float(Vec<FloatLiteral>),
    Boolean(Vec<bool>),
    Timestamp(Vec<KatcpTimestamp>),
    String(Vec<String>),
    Discrete(Vec<String>),
    Address(Vec<KatcpAddress>),
}

impl ArgumentVec {
    /// The kind of the values.
    pub open spec fn kind(&self) -> ArgumentType {
        match self {
            ArgumentVec::Integer(_) => ArgumentType::Integer,
            ArgumentVec::Float(_) => ArgumentType::Float,
            ArgumentVec::Boolean(_) => ArgumentType::Boolean,
            ArgumentVec::Timestamp(_) => ArgumentType::Timestamp,
            ArgumentVec::String(_) => ArgumentType::String,
            ArgumentVec::Discrete(_) => ArgumentType::Discrete,
            ArgumentVec::Address(_) => ArgumentType::Address,
        }
    }

    /// The label of the kind of the values.
    pub fn to_string(&self) -> (label: String)
        ensures
            label@ == self.kind().label(),
    {
        match self {
            ArgumentVec::Integer(_) => "integer".to_owned(),
            ArgumentVec::Float(_) => "float".to_owned(),
            ArgumentVec::Boolean(_) => "boolean".to_owned(),
            ArgumentVec::Timestamp(_) => "timestamp".to_owned(),
            ArgumentVec::String(_) => "string".to_owned(),
            ArgumentVec::Discrete(_) => "discrete".to_owned(),
            ArgumentVec::Address(_) => "address".to_owned(),
        }
    }
}

impl ToKatcpArguments for ArgumentVec {
    open spec fn arguments_spec(&self) -> Seq<Seq<char>> {
        match self {
            ArgumentVec::Integer(v) => encoded(v@),
            ArgumentVec::Float(v) => encoded(v@),
            ArgumentVec::Boolean(v) => encoded(v@),
            ArgumentVec::Timestamp(v) => encoded(v@),
            ArgumentVec::String(v) => encoded(v@),
            ArgumentVec::Discrete(v) => encoded(v@),
            ArgumentVec::Address(v) => encoded(v@),
        }
    }

    fn to_arguments(&self) -> (tokens: Vec<String>) {
        match self {
            ArgumentVec::Integer(v) => encode_all(v),
            ArgumentVec::Float(v) => encode_all(v),
            ArgumentVec::Boolean(v) => encode_all(v),
            ArgumentVec::Timestamp(v) => encode_all(v),
            ArgumentVec::String(v) => encode_all(v),
            ArgumentVec::Discrete(v) => encode_all(v),
            ArgumentVec::Address(v) => encode_all(v),
        }
    }
}

/// The error that reading every token as a value of kind `ty` gives.
pub open spec fn vec_failure(ty: ArgumentType, tokens: Seq<Seq<char>>) -> Option<KatcpError> {
    match ty {
        ArgumentType::Integer => first_failure::<i32>(tokens),
        ArgumentType::Float => first_failure::<FloatLiteral>(tokens),
        ArgumentType::Boolean => first_failure::<bool>(tokens),
        ArgumentType::Timestamp => first_failure::<KatcpTimestamp>(tokens),
        ArgumentType::String => first_failure::<String>(tokens),
        ArgumentType::Discrete => first_failure::<String>(tokens),
        ArgumentType::Address => first_failure::<KatcpAddress>(tokens),
    }
}

/// Whether `v` is the list of kind `ty` that the tokens decode to.
pub open spec fn vec_yields(ty: ArgumentType, tokens: Seq<Seq<char>>, v: ArgumentVec) -> bool {
    &&& v.kind() == ty
    &&& match v {
        ArgumentVec::Integer(x) => all_yield::<i32>(tokens, x@),
        ArgumentVec::Float(x) => all_yield::<FloatLiteral>(tokens, x@),
        ArgumentVec::Boolean(x) => all_yield::<bool>(tokens, x@),
        ArgumentVec::Timestamp(x) => all_yield::<KatcpTimestamp>(tokens, x@),
        ArgumentVec::String(x) => all_yield::<String>(tokens, x@),
        ArgumentVec::Discrete(x) => all_yield::<String>(tokens, x@),
        ArgumentVec::Address(x) => all_yield::<KatcpAddress>(tokens, x@),
    }
}

/// Reads all of `strings[from..]` as values of the kind that `ty` names.
pub fn from_argument_vec(ty: &ArgumentType, strings: &Vec<String>, from: usize) -> (r: Result<
    ArgumentVec,
    KatcpError,
>)
    requires
        from <= strings.len(),
    ensures
        match r {
            Ok(v) => vec_failure(*ty, strings.deep_view().skip(from as int)) is None && vec_yields(
                *ty,
                strings.deep_view().skip(from as int),
                v,
            ),
            Err(e) => vec_failure(*ty, strings.deep_view().skip(from as int)) == Some(e),
        },
{
    match ty {
        ArgumentType::Integer => match decode_all::<i32>(strings, from) {
            Ok(v) => Ok(ArgumentVec::Integer(v)),
            Err(e) => Err(e),
        },
        ArgumentType::Float => match decode_all::<FloatLiteral>(strings, from) {
            Ok(v) => Ok(ArgumentVec::Float(v)),
            Err(e) => Err(e),
        },
        ArgumentType::Boolean => match decode_all::<bool>(strings, from) {
            Ok(v) => Ok(ArgumentVec::Boolean(v)),
            Err(e) => Err(e),
        },
        ArgumentType::Timestamp => match decode_all::<KatcpTimestamp>(strings, from) {
            Ok(v) => Ok(ArgumentVec::Timestamp(v)),
            Err(e) => Err(e),
        },
        ArgumentType::String => match decode_all::<String>(strings, from) {
            Ok(v) => Ok(ArgumentVec::String(v)),
            Err(e) => Err(e),
        },
        ArgumentType::Discrete => match decode_all::<String>(strings, from) {
            Ok(v) => Ok(ArgumentVec::Discrete(v)),
            Err(e) => Err(e),
        },
        ArgumentType::Address => match decode_all::<KatcpAddress>(strings, from) {
            Ok(v) => Ok(ArgumentVec::Address(v)),
            Err(e) => Err(e),
        },
    }
}

/// Every value is read back from its token.
pub open spec fn all_roundtrip<T: ToKatcpArgument + FromKatcpArgument>(v: Seq<T>) -> bool {
    forall|i: int| 0 <= i < v.len() ==> argument_roundtrips(#[trigger] v[i])
}

/// Values that are each read back from their token are read back from the
/// list of their tokens.
pub proof fn lemma_encoded_roundtrip<T: ToKatcpArgument + FromKatcpArgument>(v: Seq<T>)
    requires
        all_roundtrip(v),
    ensures
        first_failure::<T>(encoded(v)) is None,
        all_yield::<T>(encoded(v), v),
    decreases v.len(),
{
    let tokens = encoded(v);
    if v.len() > 0 {
        let tail = v.skip(1);
        assert forall|i: int| 0 <= i < tail.len() implies argument_roundtrips(
            #[trigger] tail[i],
        ) by {
            assert(tail[i] == v[i + 1]);
        }
        lemma_encoded_roundtrip(tail);
        assert(tokens.skip(1) =~= encoded(tail));
        assert(argument_roundtrips(v[0]));
    }
    assert forall|i: int| 0 <= i < tokens.len() implies T::yields(#[trigger] tokens[i], v[i]) by {
        assert(argument_roundtrips(v[i]));
    }
}

impl ArgumentVec {
    /// Every value of the list is read back from its token.
    pub open spec fn canonical(&self) -> bool {
        match self {
            ArgumentVec::Integer(v) => all_roundtrip(v@),
            ArgumentVec::Float(v) => all_roundtrip(v@),
            ArgumentVec::Boolean(v) => all_roundtrip(v@),
            ArgumentVec::Timestamp(v) => all_roundtrip(v@),
            ArgumentVec::String(v) => all_roundtrip(v@),
            ArgumentVec::Discrete(v) => all_roundtrip(v@),
            ArgumentVec::Address(v) => all_roundtrip(v@),
        }
    }

    /// Reading the tokens of a canonical list as values of its kind gives
    /// the list back.
    pub proof fn lemma_roundtrip(self)
        requires
            self.canonical(),
        ensures
            vec_failure(self.kind(), self.arguments_spec()) is None,
            vec_yields(self.kind(), self.arguments_spec(), self),
    {
        match self {
            ArgumentVec::Integer(v) => lemma_encoded_roundtrip(v@),
            ArgumentVec::Float(v) => lemma_encoded_roundtrip(v@),
            ArgumentVec::Boolean(v) => lemma_encoded_roundtrip(v@),
            ArgumentVec::Timestamp(v) => lemma_encoded_roundtrip(v@),
            ArgumentVec::String(v) => lemma_encoded_roundtrip(v@),
            ArgumentVec::Discrete(v) => lemma_encoded_roundtrip(v@),
            ArgumentVec::Address(v) => lemma_encoded_roundtrip(v@),
        }
    }
}

} // verus!
