//! Coercion of one raw token occurrence into a field's typed value.
//!
//! A raw input is tagged by where it came from: a recognized option key
//! (for every scalar kind but boolean this consumes one following token as
//! the value) or a positional token (the token itself is the value). The
//! scalar kinds coerce a token by parsing it; the container kinds wrap the
//! scalar — an optional value is overwritten on repeat, a repeated value
//! appends in encounter order.

use vstd::prelude::*;

use crate::value::{
    clone_scalars, scalar_of, spec_parsed_bool, parse_bool, parse_i64, parse_u64, Scalar,
    ScalarValue, SpecScalarValue, SpecValue, Value, ValueType,
};
use crate::value::{spec_parsed_i64, spec_parsed_u64};

verus! {

/// One raw input handed to coercion: the text of a matched option key, or
/// a positional token.
#[derive(Debug)]
pub enum ArgValue {
    FromOption(String),
    FromArgument(String),
}

/// Mathematical model of an [`ArgValue`].
pub enum SpecArgValue {
    FromOption(Seq<char>),
    FromArgument(Seq<char>),
}

impl View for ArgValue {
    type V = SpecArgValue;

    open spec fn view(&self) -> SpecArgValue {
        match self {
            ArgValue::FromOption(k) => SpecArgValue::FromOption(k@),
            ArgValue::FromArgument(t) => SpecArgValue::FromArgument(t@),
        }
    }
}

/// A fatal parse fault.
#[derive(Debug)]
pub enum ParseError {
    /// This option key stood at the end of the stream, with no token left
    /// to take as its value.
    MissingOptionValue(String),
    /// A token failed to parse as the field's scalar kind.
    InvalidValue,
    /// The stream ended before every argument field received a value.
    MissingArgument,
}

/// Mathematical model of a [`ParseError`].
pub enum SpecParseError {
    MissingOptionValue(Seq<char>),
    InvalidValue,
    MissingArgument,
}

impl View for ParseError {
    type V = SpecParseError;

    open spec fn view(&self) -> SpecParseError {
        match self {
            ParseError::MissingOptionValue(k) => SpecParseError::MissingOptionValue(k@),
            ParseError::InvalidValue => SpecParseError::InvalidValue,
            ParseError::MissingArgument => SpecParseError::MissingArgument,
        }
    }
}

/// One field's slot of parse state: not yet assigned, or holding a value.
#[derive(Debug)]
pub enum Slot {
    Vacant,
    Filled(Value),
}

/// Mathematical model of a [`Slot`].
pub enum SpecSlot {
    Vacant,
    Filled(SpecValue),
}

impl View for Slot {
    type V = SpecSlot;

    open spec fn view(&self) -> SpecSlot {
        match self {
            Slot::Vacant => SpecSlot::Vacant,
            Slot::Filled(v) => SpecSlot::Filled(v@),
        }
    }
}

impl DeepView for Slot {
    type V = SpecSlot;

    open spec fn deep_view(&self) -> SpecSlot {
        self.view()
    }
}

/// The reading of one token as a scalar of the given kind.
pub open spec fn spec_scalar_from_token(sc: Scalar, raw: Seq<char>) -> Result<
    SpecScalarValue,
    SpecParseError,
> {
    match sc {
        Scalar::Bool => match spec_parsed_bool(raw) {
            Some(b) => Ok(SpecScalarValue::Bool(b)),
            None => Err(SpecParseError::InvalidValue),
        },
        Scalar::Int => match spec_parsed_i64(raw) {
            Some(v) => Ok(SpecScalarValue::Int(v as int)),
            None => Err(SpecParseError::InvalidValue),
        },
        Scalar::Uint => match spec_parsed_u64(raw) {
            Some(v) => Ok(SpecScalarValue::Uint(v as int)),
            None => Err(SpecParseError::InvalidValue),
        },
        Scalar::Str => Ok(SpecScalarValue::Str(raw)),
    }
}

/// The scalar produced by one occurrence, and the stream position after it.
///
/// A boolean option is presence-only: it produces `true` and consumes no
/// token. Every other kind occurring as an option takes the next token from
/// the stream as its value, and fails where the stream is exhausted. A
/// positional occurrence is its own value and never touches the stream.
pub open spec fn spec_scalar_coerce(
    sc: Scalar,
    arg: SpecArgValue,
    tokens: Seq<Seq<char>>,
    pos: int,
) -> (Result<SpecScalarValue, SpecParseError>, int) {
    match arg {
        SpecArgValue::FromOption(key) => {
            if sc is Bool {
                (Ok(SpecScalarValue::Bool(true)), pos)
            } else if pos < tokens.len() {
                (spec_scalar_from_token(sc, tokens[pos]), pos + 1)
            } else {
                (Err(SpecParseError::MissingOptionValue(key)), pos)
            }
        },
        SpecArgValue::FromArgument(t) => (spec_scalar_from_token(sc, t), pos),
    }
}

/// The list a repeated field has accumulated so far; empty anywhere else.
pub open spec fn spec_prev_list(prev: SpecSlot) -> Seq<SpecScalarValue> {
    match prev {
        SpecSlot::Filled(SpecValue::Repeated(l)) => l,
        _ => Seq::empty(),
    }
}

/// The value a field's slot takes after one occurrence, and the stream
/// position after it: the scalar itself, the scalar wrapped as present
/// (overwriting any earlier occurrence), or the accumulated list with the
/// scalar appended.
pub open spec fn spec_coerce(
    vt: ValueType,
    prev: SpecSlot,
    arg: SpecArgValue,
    tokens: Seq<Seq<char>>,
    pos: int,
) -> (Result<SpecValue, SpecParseError>, int) {
    let (r, p2) = spec_scalar_coerce(scalar_of(vt), arg, tokens, pos);
    match r {
        Ok(sv) => (
            Ok(
                match vt {
                    ValueType::Single(_) => SpecValue::Single(sv),
                    ValueType::Optional(_) => SpecValue::Optional(Some(sv)),
                    ValueType::Repeated(_) => SpecValue::Repeated(spec_prev_list(prev).push(sv)),
                },
            ),
            p2,
        ),
        Err(e) => (Err(e), p2),
    }
}

/// The scalar kind a value type coerces to.
pub fn scalar_kind(vt: &ValueType) -> (r: Scalar)
    ensures
        r == scalar_of(*vt),
{
    match vt {
        ValueType::Single(s) => *s,
        ValueType::Optional(s) => *s,
        ValueType::Repeated(s) => *s,
    }
}

/// Parses one token as a scalar of the given kind.
fn scalar_from_token(sc: Scalar, raw: String) -> (r: Result<ScalarValue, ParseError>)
    ensures
        match (r, spec_scalar_from_token(sc, raw@)) {
            (Ok(v), Ok(sv)) => v@ == sv,
            (Err(e), Err(se)) => e@ == se,
            _ => false,
        },
{
    match sc {
        Scalar::Bool => match parse_bool(&raw) {
            Some(b) => Ok(ScalarValue::Bool(b)),
            None => Err(ParseError::InvalidValue),
        },
        Scalar::Int => match parse_i64(raw.as_str()) {
            Some(v) => Ok(ScalarValue::Int(v)),
            None => Err(ParseError::InvalidValue),
        },
        Scalar::Uint => match parse_u64(raw.as_str()) {
            Some(v) => Ok(ScalarValue::Uint(v)),
            None => Err(ParseError::InvalidValue),
        },
        Scalar::Str => Ok(ScalarValue::Str(raw)),
    }
}

/// Applies one occurrence to a field's slot: produces the slot's new value
/// and advances the stream cursor past any token the occurrence consumed.
pub fn coerce(
    vt: &ValueType,
    prev: &Slot,
    arg: ArgValue,
    tokens: &Vec<String>,
    pos: &mut usize,
) -> (r: Result<Value, ParseError>)
    requires
        *old(pos) <= tokens@.len(),
    ensures
        ({
            let (sr, sp) = spec_coerce(*vt, prev@, arg@, tokens.deep_view(), *old(pos) as int);
            &&& match (r, sr) {
                (Ok(v), Ok(sv)) => v@ == sv,
                (Err(e), Err(se)) => e@ == se,
                _ => false,
            }
            &&& *final(pos) == sp
            &&& *final(pos) <= tokens@.len()
        }),
{
    let sc = scalar_kind(vt);
    let scalar: Result<ScalarValue, ParseError> = match arg {
        ArgValue::FromOption(key) => {
            if let Scalar::Bool = sc {
                Ok(ScalarValue::Bool(true))
            } else if *pos < tokens.len() {
                let raw = tokens[*pos].clone();
                proof {
                    assert(tokens.deep_view()[*pos as int] == raw@);
                }
                *pos += 1;
                scalar_from_token(sc, raw)
            } else {
                Err(ParseError::MissingOptionValue(key))
            }
        },
        ArgValue::FromArgument(t) => scalar_from_token(sc, t),
    };
    match scalar {
        Ok(sv) => Ok(
            match vt {
                ValueType::Single(_) => Value::Single(sv),
                ValueType::Optional(_) => Value::Optional(Some(sv)),
                ValueType::Repeated(_) => {
                    let mut l = match prev {
                        Slot::Filled(Value::Repeated(p)) => clone_scalars(p),
                        _ => Vec::new(),
                    };
                    proof {
                        assert(l.deep_view() =~= spec_prev_list(prev@));
                    }
                    let ghost before = l.deep_view();
                    l.push(sv);
                    proof {
                        assert(l.deep_view() =~= before.push(sv@));
                    }
                    Value::Repeated(l)
                },
            },
        ),
        Err(e) => Err(e),
    }
}

} // verus!
