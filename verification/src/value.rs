//! Typed values carried by command fields.
//!
//! The set of value types is closed: a field holds one scalar (boolean,
//! signed integer, unsigned integer, or string), an optional scalar, or a
//! growing sequence of scalars. Each executable type has a mathematical
//! model (its view), and the decimal-numeral readers are specified against
//! a recursive definition of the value of a digit string.

use vstd::prelude::*;

verus! {

/// The closed set of scalar kinds a field can be declared with.
#[derive(Clone, Copy, Debug, PartialEq, Eq, Structural)]
pub enum Scalar {
    Bool,
    Int,
    Uint,
    Str,
}

/// A field's declared value type: one scalar, an optional scalar that is
/// overwritten on repeat, or a sequence of scalars that grows on repeat.
#[derive(Clone, Copy, Debug, PartialEq, Eq, Structural)]
pub enum ValueType {
    Single(Scalar),
    Optional(Scalar),
    Repeated(Scalar),
}

/// The scalar kind a value type coerces its tokens to.
pub open spec fn scalar_of(t: ValueType) -> Scalar {
    match t {
        ValueType::Single(s) => s,
        ValueType::Optional(s) => s,
        ValueType::Repeated(s) => s,
    }
}

/// One scalar value.
#[derive(Debug)]
pub enum ScalarValue {
    Bool(bool),
    Int(i64),
    Uint(u64),
    Str(String),
}

/// Mathematical model of a [`ScalarValue`].
pub enum SpecScalarValue {
    Bool(bool),
    Int(int),
    Uint(int),
    Str(Seq<char>),
}

impl View for ScalarValue {
    type V = SpecScalarValue;

    open spec fn view(&self) -> SpecScalarValue {
        match self {
            ScalarValue::Bool(b) => SpecScalarValue::Bool(*b),
            ScalarValue::Int(i) => SpecScalarValue::Int(*i as int),
            ScalarValue::Uint(u) => SpecScalarValue::Uint(*u as int),
            ScalarValue::Str(s) => SpecScalarValue::Str(s@),
        }
    }
}

impl DeepView for ScalarValue {
    type V = SpecScalarValue;

    open spec fn deep_view(&self) -> SpecScalarValue {
        self.view()
    }
}

/// The value held by one field: shaped by the field's [`ValueType`].
#[derive(Debug)]
pub enum Value {
    Single(ScalarValue),
    Optional(Option<ScalarValue>),
    Repeated(Vec<ScalarValue>),
}

/// Mathematical model of a [`Value`].
pub enum SpecValue {
    Single(SpecScalarValue),
    Optional(Option<SpecScalarValue>),
    Repeated(Seq<SpecScalarValue>),
}

impl View for Value {
    type V = SpecValue;

    open spec fn view(&self) -> SpecValue {
        match self {
            Value::Single(v) => SpecValue::Single(v@),
            Value::Optional(o) => SpecValue::Optional(
                match o {
                    Some(v) => Some(v@),
                    None => None,
                },
            ),
            Value::Repeated(l) => SpecValue::Repeated(l.deep_view()),
        }
    }
}

impl DeepView for Value {
    type V = SpecValue;

    open spec fn deep_view(&self) -> SpecValue {
        self.view()
    }
}

/// Whether a scalar value is of the given scalar kind.
pub open spec fn scalar_has_kind(v: SpecScalarValue, s: Scalar) -> bool {
    match v {
        SpecScalarValue::Bool(_) => s == Scalar::Bool,
        SpecScalarValue::Int(_) => s == Scalar::Int,
        SpecScalarValue::Uint(_) => s == Scalar::Uint,
        SpecScalarValue::Str(_) => s == Scalar::Str,
    }
}

/// Whether a value is shaped by the given value type.
pub open spec fn value_has_type(v: SpecValue, t: ValueType) -> bool {
    match v {
        SpecValue::Single(sv) => t is Single && scalar_has_kind(sv, scalar_of(t)),
        SpecValue::Optional(o) => t is Optional && match o {
            Some(sv) => scalar_has_kind(sv, scalar_of(t)),
            None => true,
        },
        SpecValue::Repeated(l) => t is Repeated && forall|i: int|
            0 <= i < l.len() ==> scalar_has_kind(#[trigger] l[i], scalar_of(t)),
    }
}

/// The zero value of a scalar kind: `false`, `0`, `0`, or the empty string.
pub open spec fn spec_default_scalar(s: Scalar) -> SpecScalarValue {
    match s {
        Scalar::Bool => SpecScalarValue::Bool(false),
        Scalar::Int => SpecScalarValue::Int(0),
        Scalar::Uint => SpecScalarValue::Uint(0),
        Scalar::Str => SpecScalarValue::Str(Seq::empty()),
    }
}

/// The zero value of a value type: the scalar's zero, an absent optional,
/// or the empty sequence.
pub open spec fn spec_default_value(t: ValueType) -> SpecValue {
    match t {
        ValueType::Single(s) => SpecValue::Single(spec_default_scalar(s)),
        ValueType::Optional(_) => SpecValue::Optional(None),
        ValueType::Repeated(_) => SpecValue::Repeated(Seq::empty()),
    }
}

/// Builds the zero value of a scalar kind.
pub fn default_scalar(s: &Scalar) -> (r: ScalarValue)
    ensures
        r@ == spec_default_scalar(*s),
{
    match s {
        Scalar::Bool => ScalarValue::Bool(false),
        Scalar::Int => ScalarValue::Int(0),
        Scalar::Uint => ScalarValue::Uint(0),
        Scalar::Str => ScalarValue::Str(String::new()),
    }
}

/// Builds the zero value of a value type.
pub fn default_value(t: &ValueType) -> (r: Value)
    ensures
        r@ == spec_default_value(*t),
{
    match t {
        ValueType::Single(s) => Value::Single(default_scalar(s)),
        ValueType::Optional(_) => Value::Optional(None),
        ValueType::Repeated(_) => {
            let l: Vec<ScalarValue> = Vec::new();
            assert(l.deep_view() =~= Seq::<SpecScalarValue>::empty());
            Value::Repeated(l)
        },
    }
}

impl ScalarValue {
    /// An exact copy of the scalar value.
    pub fn duplicate(&self) -> (r: ScalarValue)
        ensures
            r@ == self@,
    {
        match self {
            ScalarValue::Bool(b) => ScalarValue::Bool(*b),
            ScalarValue::Int(i) => ScalarValue::Int(*i),
            ScalarValue::Uint(u) => ScalarValue::Uint(*u),
            ScalarValue::Str(s) => ScalarValue::Str(s.clone()),
        }
    }
}

/// Copies a list of scalar values.
pub fn clone_scalars(l: &Vec<ScalarValue>) -> (r: Vec<ScalarValue>)
    ensures
        r.deep_view() == l.deep_view(),
{
    let mut r: Vec<ScalarValue> = Vec::new();
    let mut i: usize = 0;
    while i < l.len()
        invariant
            i <= l.len(),
            r@.len() == i,
            forall|k: int| 0 <= k < i ==> #[trigger] r@[k]@ == l@[k]@,
        decreases l.len() - i,
    {
        let v = l[i].duplicate();
        r.push(v);
        i += 1;
    }
    proof {
        assert(r.deep_view() =~= l.deep_view());
    }
    r
}

impl Value {
    /// An exact copy of the value.
    pub fn duplicate(&self) -> (r: Value)
        ensures
            r@ == self@,
    {
        match self {
            Value::Single(v) => Value::Single(v.duplicate()),
            Value::Optional(o) => Value::Optional(
                match o {
                    Some(v) => Some(v.duplicate()),
                    None => None,
                },
            ),
            Value::Repeated(l) => Value::Repeated(clone_scalars(l)),
        }
    }
}

/// Whether a character is a decimal digit.
pub open spec fn is_dec_digit(c: char) -> bool {
    '0' as int <= c as int && c as int <= '9' as int
}

/// The numeric value of one decimal digit.
pub open spec fn dec_digit_value(c: char) -> int {
    c as int - '0' as int
}

/// Whether every character of the sequence is a decimal digit.
pub open spec fn all_dec_digits(s: Seq<char>) -> bool {
    forall|i: int| 0 <= i < s.len() ==> is_dec_digit(#[trigger] s[i])
}

/// The value of a digit sequence read as a decimal numeral.
pub open spec fn dec_value(s: Seq<char>) -> int
    decreases s.len(),
{
    if s.len() == 0 {
        0
    } else {
        dec_value(s.drop_last()) * 10 + dec_digit_value(s.last())
    }
}

pub proof fn lemma_dec_value_nonneg(s: Seq<char>)
    requires
        all_dec_digits(s),
    ensures
        dec_value(s) >= 0,
    decreases s.len(),
{
    if s.len() > 0 {
        assert(all_dec_digits(s.drop_last()));
        lemma_dec_value_nonneg(s.drop_last());
    }
}

/// Extending a digit string on the right never lowers its value.
pub proof fn lemma_dec_value_extend(s: Seq<char>, t: Seq<char>)
    requires
        dec_value(s) >= 0,
        all_dec_digits(t),
    ensures
        dec_value(s + t) >= dec_value(s),
    decreases t.len(),
{
    if t.len() == 0 {
        assert(s + t =~= s);
    } else {
        assert(all_dec_digits(t.drop_last()));
        lemma_dec_value_extend(s, t.drop_last());
        assert((s + t).drop_last() =~= s + t.drop_last());
        assert((s + t).last() == t.last());
        assert(dec_value(s + t) == dec_value(s + t.drop_last()) * 10 + dec_digit_value(t.last()));
        assert(dec_value(s + t.drop_last()) * 10 >= dec_value(s + t.drop_last()));
    }
}

/// The value of a nonempty, all-digit sequence that fits in a `u64`;
/// `None` where the sequence is empty, holds a non-digit, or overflows.
pub open spec fn spec_dec_magnitude(s: Seq<char>) -> Option<u64> {
    if s.len() > 0 && all_dec_digits(s) && dec_value(s) <= u64::MAX {
        Some(dec_value(s) as u64)
    } else {
        None
    }
}

/// Reads the suffix of `s` starting at `start` as an unsigned decimal
/// numeral without sign.
fn parse_dec_magnitude(s: &str, start: usize) -> (r: Option<u64>)
    requires
        start <= s@.len(),
    ensures
        r == spec_dec_magnitude(s@.subrange(start as int, s@.len() as int)),
{
    let ghost body = s@.subrange(start as int, s@.len() as int);
    let len = s.unicode_len();
    if start >= len {
        return None;
    }
    let mut acc: u64 = 0;
    let mut i: usize = start;
    while i < len
        invariant
            start <= i <= len,
            len == s@.len(),
            body == s@.subrange(start as int, len as int),
            all_dec_digits(s@.subrange(start as int, i as int)),
            acc == dec_value(s@.subrange(start as int, i as int)),
        decreases len - i,
    {
        let ghost done = s@.subrange(start as int, i as int);
        let c = s.get_char(i);
        let u = c as u32;
        if u < 48 || u > 57 {
            assert(!is_dec_digit(s@[i as int]));
            assert(body[i - start] == s@[i as int]);
            assert(!all_dec_digits(body));
            return None;
        }
        let d = (u - 48) as u64;
        assert(is_dec_digit(s@[i as int]));
        assert(d == dec_digit_value(s@[i as int]));
        let ghost done1 = s@.subrange(start as int, i + 1);
        assert(done1.drop_last() =~= done);
        assert(done1.last() == s@[i as int]);
        assert(forall|k: int| 0 <= k < done1.len() ==> #[trigger] done1[k] == s@[start + k]);
        let next = match acc.checked_mul(10) {
            Some(a) => a.checked_add(d),
            None => None,
        };
        match next {
            Some(v) => {
                assert(v == dec_value(done1));
                acc = v;
            },
            None => {
                // The numeral overflows here, so the whole numeral does too.
                proof {
                    assert(dec_value(done1) > u64::MAX);
                    if all_dec_digits(body) {
                        let rest = s@.subrange(i + 1, len as int);
                        assert(all_dec_digits(rest)) by {
                            assert(forall|k: int|
                                0 <= k < rest.len() ==> #[trigger] rest[k] == body[i + 1 - start
                                    + k]);
                        }
                        assert(done1 + rest =~= body);
                        lemma_dec_value_nonneg(done1);
                        lemma_dec_value_extend(done1, rest);
                        assert(dec_value(body) > u64::MAX);
                    }
                }
                return None;
            },
        }
        i += 1;
    }
    assert(s@.subrange(start as int, i as int) =~= body);
    Some(acc)
}

/// The signed-integer reading of a token: an optional `+` or `-` sign, then
/// one or more decimal digits, within the range of `i64`.
pub open spec fn spec_parsed_i64(s: Seq<char>) -> Option<i64> {
    if s.len() > 0 && (s[0] == '+' || s[0] == '-') {
        let body = s.drop_first();
        if body.len() > 0 && all_dec_digits(body) {
            if s[0] == '-' {
                if -dec_value(body) >= i64::MIN {
                    Some((-dec_value(body)) as i64)
                } else {
                    None
                }
            } else {
                if dec_value(body) <= i64::MAX {
                    Some(dec_value(body) as i64)
                } else {
                    None
                }
            }
        } else {
            None
        }
    } else {
        if s.len() > 0 && all_dec_digits(s) && dec_value(s) <= i64::MAX {
            Some(dec_value(s) as i64)
        } else {
            None
        }
    }
}

/// The unsigned-integer reading of a token: an optional `+` sign, then one
/// or more decimal digits, within the range of `u64`.
pub open spec fn spec_parsed_u64(s: Seq<char>) -> Option<u64> {
    if s.len() > 0 && s[0] == '+' {
        spec_dec_magnitude(s.drop_first())
    } else {
        spec_dec_magnitude(s)
    }
}

/// Reads a token as an unsigned decimal integer.
pub fn parse_u64(s: &str) -> (r: Option<u64>)
    ensures
        r == spec_parsed_u64(s@),
{
    let len = s.unicode_len();
    let start: usize = if len > 0 && s.get_char(0) as u32 == '+' as u32 {
        1
    } else {
        0
    };
    let r = parse_dec_magnitude(s, start);
    proof {
        if start == 1 {
            assert(s@.subrange(1, s@.len() as int) =~= s@.drop_first());
        } else {
            assert(s@.subrange(0, s@.len() as int) =~= s@);
        }
    }
    r
}

/// Reads a token as a signed decimal integer.
pub fn parse_i64(s: &str) -> (r: Option<i64>)
    ensures
        r == spec_parsed_i64(s@),
{
    let len = s.unicode_len();
    let signed: bool = len > 0 && (s.get_char(0) as u32 == '+' as u32 || s.get_char(0) as u32
        == '-' as u32);
    let negative: bool = len > 0 && s.get_char(0) as u32 == '-' as u32;
    let start: usize = if signed {
        1
    } else {
        0
    };
    let mag = parse_dec_magnitude(s, start);
    proof {
        if signed {
            assert(s@.subrange(1, s@.len() as int) =~= s@.drop_first());
        } else {
            assert(s@.subrange(0, s@.len() as int) =~= s@);
        }
        if mag is Some {
            lemma_dec_value_nonneg(s@.subrange(start as int, s@.len() as int));
        }
    }
    match mag {
        Some(m) => {
            if negative {
                if m <= 0x7fff_ffff_ffff_ffffu64 {
                    Some(-(m as i64))
                } else if m == 0x8000_0000_0000_0000u64 {
                    Some(i64::MIN)
                } else {
                    None
                }
            } else {
                if m <= 0x7fff_ffff_ffff_ffffu64 {
                    Some(m as i64)
                } else {
                    None
                }
            }
        },
        None => None,
    }
}

/// The boolean reading of a token: exactly `true` or `false`.
pub open spec fn spec_parsed_bool(s: Seq<char>) -> Option<bool> {
    if s == "true"@ {
        Some(true)
    } else if s == "false"@ {
        Some(false)
    } else {
        None
    }
}

/// Reads a token as a boolean literal.
pub fn parse_bool(s: &String) -> (r: Option<bool>)
    ensures
        r == spec_parsed_bool(s@),
{
    if *s == String::from_str("true") {
        Some(true)
    } else if *s == String::from_str("false") {
        Some(false)
    } else {
        None
    }
}

} // verus!
