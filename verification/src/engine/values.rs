//! The values held in table rows, the literals of the query language, the
//! column types, and how values compare.

use vstd::prelude::*;
use crate::text::chars_of;

verus! {

/// A binary64 floating-point number, kept as its IEEE 754 bit pattern.
#[derive(Debug, Clone, Copy, PartialEq, Eq, Structural)]
pub struct RealNumber {
    pub bits: u64,
}

/// Whether a bit pattern is a NaN: all exponent bits set, mantissa not zero.
pub open spec fn real_is_nan(bits: u64) -> bool {
    (bits & 0x7ff0_0000_0000_0000u64) == 0x7ff0_0000_0000_0000u64 && (bits & 0x000f_ffff_ffff_ffffu64) != 0
}

/// Whether a bit pattern is positive or negative zero.
pub open spec fn real_is_zero(bits: u64) -> bool {
    (bits & 0x7fff_ffff_ffff_ffffu64) == 0
}

/// Whether the sign bit is set.
pub open spec fn real_negative(bits: u64) -> bool {
    (bits & 0x8000_0000_0000_0000u64) != 0
}

/// The bit pattern without its sign bit; for numbers of one sign it grows
/// with the magnitude.
pub open spec fn real_magnitude(bits: u64) -> u64 {
    bits & 0x7fff_ffff_ffff_ffffu64
}

/// IEEE 754 equality: no NaN is equal to anything, and the two zeros are
/// equal.
pub open spec fn real_eq(a: u64, b: u64) -> bool {
    !real_is_nan(a) && !real_is_nan(b) && (a == b || (real_is_zero(a) && real_is_zero(b)))
}

/// IEEE 754 "less than" on two bit patterns.
pub open spec fn real_less(a: u64, b: u64) -> bool {
    &&& !real_is_nan(a)
    &&& !real_is_nan(b)
    &&& !(real_is_zero(a) && real_is_zero(b))
    &&& if real_negative(a) != real_negative(b) {
        real_negative(a)
    } else if real_negative(a) {
        real_magnitude(b) < real_magnitude(a)
    } else {
        real_magnitude(a) < real_magnitude(b)
    }
}

fn is_nan(bits: u64) -> (r: bool)
    ensures
        r == real_is_nan(bits),
{
    (bits & 0x7ff0_0000_0000_0000u64) == 0x7ff0_0000_0000_0000u64 && (bits & 0x000f_ffff_ffff_ffffu64) != 0
}

fn is_zero(bits: u64) -> (r: bool)
    ensures
        r == real_is_zero(bits),
{
    (bits & 0x7fff_ffff_ffff_ffffu64) == 0
}

fn real_equal(a: u64, b: u64) -> (r: bool)
    ensures
        r == real_eq(a, b),
{
    !is_nan(a) && !is_nan(b) && (a == b || (is_zero(a) && is_zero(b)))
}

fn real_less_than(a: u64, b: u64) -> (r: bool)
    ensures
        r == real_less(a, b),
{
    if is_nan(a) || is_nan(b) || (is_zero(a) && is_zero(b)) {
        return false;
    }
    let na = (a & 0x8000_0000_0000_0000u64) != 0;
    let nb = (b & 0x8000_0000_0000_0000u64) != 0;
    let ma = a & 0x7fff_ffff_ffff_ffffu64;
    let mb = b & 0x7fff_ffff_ffff_ffffu64;
    if na != nb {
        na
    } else if na {
        mb < ma
    } else {
        ma < mb
    }
}

/// The outcome of comparing two values for ordering.
#[derive(Debug, Clone, Copy, PartialEq, Eq, Structural)]
pub enum ValueOrder {
    Less,
    Equal,
    Greater,
}

impl ValueOrder {
    /// The opposite outcome (what comparing the other way round gives).
    pub open spec fn flipped(self) -> ValueOrder {
        match self {
            ValueOrder::Less => ValueOrder::Greater,
            ValueOrder::Equal => ValueOrder::Equal,
            ValueOrder::Greater => ValueOrder::Less,
        }
    }

    /// The opposite outcome.
    pub fn reverse(self) -> (r: ValueOrder)
        ensures
            r == self.flipped(),
    {
        match self {
            ValueOrder::Less => ValueOrder::Greater,
            ValueOrder::Equal => ValueOrder::Equal,
            ValueOrder::Greater => ValueOrder::Less,
        }
    }
}

/// How two integers compare.
pub open spec fn int_order(a: int, b: int) -> ValueOrder {
    if a < b {
        ValueOrder::Less
    } else if a == b {
        ValueOrder::Equal
    } else {
        ValueOrder::Greater
    }
}

/// How two floating-point numbers compare; a comparison with a NaN counts
/// as equal.
pub open spec fn real_order(a: u64, b: u64) -> ValueOrder {
    if real_less(a, b) {
        ValueOrder::Less
    } else if real_less(b, a) {
        ValueOrder::Greater
    } else {
        ValueOrder::Equal
    }
}

/// Lexicographic order of two texts, character by character (the order of
/// `str`'s comparison).
pub open spec fn text_order(a: Seq<char>, b: Seq<char>) -> ValueOrder
    decreases a.len(),
{
    if a.len() == 0 {
        if b.len() == 0 {
            ValueOrder::Equal
        } else {
            ValueOrder::Less
        }
    } else if b.len() == 0 {
        ValueOrder::Greater
    } else if a[0] < b[0] {
        ValueOrder::Less
    } else if b[0] < a[0] {
        ValueOrder::Greater
    } else {
        text_order(a.drop_first(), b.drop_first())
    }
}

proof fn lemma_text_order_skip(a: Seq<char>, b: Seq<char>, i: int)
    requires
        0 <= i < a.len(),
        i < b.len(),
        a[i] == b[i],
    ensures
        text_order(a.skip(i), b.skip(i)) == text_order(a.skip(i + 1), b.skip(i + 1)),
{
    assert(a.skip(i).drop_first() =~= a.skip(i + 1));
    assert(b.skip(i).drop_first() =~= b.skip(i + 1));
}

/// Compares two texts lexicographically.
pub fn compare_text(a: &str, b: &str) -> (r: ValueOrder)
    ensures
        r == text_order(a@, b@),
{
    let x = chars_of(a);
    let y = chars_of(b);
    let mut i: usize = 0;
    proof {
        assert(x@.skip(0) =~= x@);
        assert(y@.skip(0) =~= y@);
    }
    while i < x.len() && i < y.len()
        invariant
            i <= x@.len(),
            i <= y@.len(),
            x@ == a@,
            y@ == b@,
            text_order(a@, b@) == text_order(x@.skip(i as int), y@.skip(i as int)),
        decreases x.len() - i,
    {
        if x[i] < y[i] {
            return ValueOrder::Less;
        }
        if y[i] < x[i] {
            return ValueOrder::Greater;
        }
        proof {
            lemma_text_order_skip(x@, y@, i as int);
        }
        i = i + 1;
    }
    if i == x.len() {
        if i == y.len() {
            ValueOrder::Equal
        } else {
            ValueOrder::Less
        }
    } else {
        ValueOrder::Greater
    }
}

/// A value held in a row.
#[derive(Debug, Clone, PartialEq)]
pub enum DataValue {
    Null,
    Integer(i64),
    Real(RealNumber),
    Text(String),
    Boolean(bool),
}

/// Whether two values are equal: the same kind and equal contents, floating
/// point numbers by IEEE 754 equality.
pub open spec fn value_eq(a: DataValue, b: DataValue) -> bool {
    match a {
        DataValue::Null => b is Null,
        DataValue::Integer(x) => b matches DataValue::Integer(y) && x == y,
        DataValue::Real(x) => b matches DataValue::Real(y) && real_eq(x.bits, y.bits),
        DataValue::Text(x) => b matches DataValue::Text(y) && x@ == y@,
        DataValue::Boolean(x) => b matches DataValue::Boolean(y) && x == y,
    }
}

/// How two values compare for ordering: integers, floating-point numbers and
/// texts among themselves; any other pair counts as equal.
pub open spec fn value_order(a: DataValue, b: DataValue) -> ValueOrder {
    match (a, b) {
        (DataValue::Integer(x), DataValue::Integer(y)) => int_order(x as int, y as int),
        (DataValue::Real(x), DataValue::Real(y)) => real_order(x.bits, y.bits),
        (DataValue::Text(x), DataValue::Text(y)) => text_order(x@, y@),
        _ => ValueOrder::Equal,
    }
}

/// The smaller of two floating-point numbers; a NaN gives way to the other.
pub open spec fn real_min(a: u64, b: u64) -> u64 {
    if real_is_nan(a) {
        b
    } else if real_is_nan(b) {
        a
    } else if real_less(b, a) {
        b
    } else {
        a
    }
}

/// The larger of two floating-point numbers; a NaN gives way to the other.
pub open spec fn real_max(a: u64, b: u64) -> u64 {
    if real_is_nan(a) {
        b
    } else if real_is_nan(b) {
        a
    } else if real_less(a, b) {
        b
    } else {
        a
    }
}

/// The smaller of two values of one kind (integers, floating-point numbers or
/// texts); for any other pair, the first.
pub open spec fn value_min(a: DataValue, b: DataValue) -> DataValue {
    match (a, b) {
        (DataValue::Integer(x), DataValue::Integer(y)) => DataValue::Integer(if y < x { y } else { x }),
        (DataValue::Real(x), DataValue::Real(y)) => DataValue::Real(RealNumber { bits: real_min(x.bits, y.bits) }),
        (DataValue::Text(x), DataValue::Text(y)) => if text_order(y@, x@) == ValueOrder::Less {
            DataValue::Text(y)
        } else {
            DataValue::Text(x)
        },
        _ => a,
    }
}

/// The larger of two values of one kind (integers, floating-point numbers or
/// texts); for any other pair, the first.
pub open spec fn value_max(a: DataValue, b: DataValue) -> DataValue {
    match (a, b) {
        (DataValue::Integer(x), DataValue::Integer(y)) => DataValue::Integer(if x < y { y } else { x }),
        (DataValue::Real(x), DataValue::Real(y)) => DataValue::Real(RealNumber { bits: real_max(x.bits, y.bits) }),
        (DataValue::Text(x), DataValue::Text(y)) => if text_order(x@, y@) == ValueOrder::Greater {
            DataValue::Text(x)
        } else {
            DataValue::Text(y)
        },
        _ => a,
    }
}

impl DataValue {
    /// A copy of the value.
    pub fn duplicate(&self) -> (r: DataValue)
        ensures
            r == *self,
    {
        match self {
            DataValue::Null => DataValue::Null,
            DataValue::Integer(i) => DataValue::Integer(*i),
            DataValue::Real(x) => DataValue::Real(*x),
            DataValue::Text(s) => DataValue::Text(s.clone()),
            DataValue::Boolean(b) => DataValue::Boolean(*b),
        }
    }

    /// Whether the value is the null value.
    pub fn is_null(&self) -> (r: bool)
        ensures
            r == (*self is Null),
    {
        match self {
            DataValue::Null => true,
            _ => false,
        }
    }
}

/// Whether two values are equal (see `value_eq`).
pub fn values_equal(a: &DataValue, b: &DataValue) -> (r: bool)
    ensures
        r == value_eq(*a, *b),
{
    match (a, b) {
        (DataValue::Null, DataValue::Null) => true,
        (DataValue::Integer(x), DataValue::Integer(y)) => *x == *y,
        (DataValue::Real(x), DataValue::Real(y)) => real_equal(x.bits, y.bits),
        (DataValue::Text(x), DataValue::Text(y)) => crate::text::str_equal(x.as_str(), y.as_str()),
        (DataValue::Boolean(x), DataValue::Boolean(y)) => *x == *y,
        _ => false,
    }
}

/// Compares two values for ordering (see `value_order`).
pub fn compare_values(a: &DataValue, b: &DataValue) -> (r: ValueOrder)
    ensures
        r == value_order(*a, *b),
{
    match (a, b) {
        (DataValue::Integer(x), DataValue::Integer(y)) => {
            if *x < *y {
                ValueOrder::Less
            } else if *x == *y {
                ValueOrder::Equal
            } else {
                ValueOrder::Greater
            }
        },
        (DataValue::Real(x), DataValue::Real(y)) => {
            if real_less_than(x.bits, y.bits) {
                ValueOrder::Less
            } else if real_less_than(y.bits, x.bits) {
                ValueOrder::Greater
            } else {
                ValueOrder::Equal
            }
        },
        (DataValue::Text(x), DataValue::Text(y)) => compare_text(x.as_str(), y.as_str()),
        _ => ValueOrder::Equal,
    }
}

fn real_minimum(a: u64, b: u64) -> (r: u64)
    ensures
        r == real_min(a, b),
{
    if is_nan(a) {
        b
    } else if is_nan(b) {
        a
    } else if real_less_than(b, a) {
        b
    } else {
        a
    }
}

fn real_maximum(a: u64, b: u64) -> (r: u64)
    ensures
        r == real_max(a, b),
{
    if is_nan(a) {
        b
    } else if is_nan(b) {
        a
    } else if real_less_than(a, b) {
        b
    } else {
        a
    }
}

/// The smaller of two values (see `value_min`).
pub fn min_of_values(a: &DataValue, b: &DataValue) -> (r: DataValue)
    ensures
        r == value_min(*a, *b),
{
    match (a, b) {
        (DataValue::Integer(x), DataValue::Integer(y)) => DataValue::Integer(if *y < *x { *y } else { *x }),
        (DataValue::Real(x), DataValue::Real(y)) => DataValue::Real(RealNumber { bits: real_minimum(x.bits, y.bits) }),
        (DataValue::Text(x), DataValue::Text(y)) => {
            if compare_text(y.as_str(), x.as_str()) == ValueOrder::Less {
                DataValue::Text(y.clone())
            } else {
                DataValue::Text(x.clone())
            }
        },
        _ => a.duplicate(),
    }
}

/// The larger of two values (see `value_max`).
pub fn max_of_values(a: &DataValue, b: &DataValue) -> (r: DataValue)
    ensures
        r == value_max(*a, *b),
{
    match (a, b) {
        (DataValue::Integer(x), DataValue::Integer(y)) => DataValue::Integer(if *x < *y { *y } else { *x }),
        (DataValue::Real(x), DataValue::Real(y)) => DataValue::Real(RealNumber { bits: real_maximum(x.bits, y.bits) }),
        (DataValue::Text(x), DataValue::Text(y)) => {
            if compare_text(x.as_str(), y.as_str()) == ValueOrder::Greater {
                DataValue::Text(x.clone())
            } else {
                DataValue::Text(y.clone())
            }
        },
        _ => a.duplicate(),
    }
}

/// A literal of the query language.
#[derive(Debug, Clone)]
pub enum Literal {
    Integer(i64),
    Float(RealNumber),
    String(String),
    Boolean(bool),
    Null,
}

/// The value a literal stands for.
pub open spec fn literal_value(lit: Literal) -> DataValue {
    match lit {
        Literal::Integer(i) => DataValue::Integer(i),
        Literal::Float(f) => DataValue::Real(f),
        Literal::String(s) => DataValue::Text(s),
        Literal::Boolean(b) => DataValue::Boolean(b),
        Literal::Null => DataValue::Null,
    }
}

/// The value a literal stands for.
pub fn literal_to_datavalue(lit: &Literal) -> (r: DataValue)
    ensures
        r == literal_value(*lit),
{
    match lit {
        Literal::Integer(i) => DataValue::Integer(*i),
        Literal::Float(f) => DataValue::Real(*f),
        Literal::String(s) => DataValue::Text(s.clone()),
        Literal::Boolean(b) => DataValue::Boolean(*b),
        Literal::Null => DataValue::Null,
    }
}

/// The column types of a table.
#[derive(Debug)]
pub enum DataType {
    Integer,
    BigInt,
    Float,
    Double,
    Text,
    Boolean,
    Timestamp,
    Json,
    Blob,
    /// A vector of the given dimension.
    Vector(usize),
    Array(Box<DataType>),
}

impl DataType {
    /// A copy of the type.
    pub fn duplicate(&self) -> (r: DataType)
        ensures
            r == *self,
        decreases self,
    {
        match self {
            DataType::Integer => DataType::Integer,
            DataType::BigInt => DataType::BigInt,
            DataType::Float => DataType::Float,
            DataType::Double => DataType::Double,
            DataType::Text => DataType::Text,
            DataType::Boolean => DataType::Boolean,
            DataType::Timestamp => DataType::Timestamp,
            DataType::Json => DataType::Json,
            DataType::Blob => DataType::Blob,
            DataType::Vector(n) => DataType::Vector(*n),
            DataType::Array(inner) => DataType::Array(Box::new(inner.duplicate())),
        }
    }
}

/// Whether a value may be stored in a column of a type: integers in integer
/// columns, any number in floating-point columns, text in text and blob
/// columns, booleans in boolean columns.  Nothing else fits (not even null).
pub open spec fn type_accepts(t: DataType, v: DataValue) -> bool {
    match t {
        DataType::Integer | DataType::BigInt => v is Integer,
        DataType::Float | DataType::Double => v is Integer || v is Real,
        DataType::Text | DataType::Blob => v is Text,
        DataType::Boolean => v is Boolean,
        _ => false,
    }
}

/// Whether a value may be stored in a column of type `t` (see
/// `type_accepts`).
pub fn type_accepts_value(t: &DataType, v: &DataValue) -> (r: bool)
    ensures
        r == type_accepts(*t, *v),
{
    match (t, v) {
        (DataType::Integer, DataValue::Integer(_)) => true,
        (DataType::BigInt, DataValue::Integer(_)) => true,
        (DataType::Float, DataValue::Integer(_)) => true,
        (DataType::Float, DataValue::Real(_)) => true,
        (DataType::Double, DataValue::Integer(_)) => true,
        (DataType::Double, DataValue::Real(_)) => true,
        (DataType::Text, DataValue::Text(_)) => true,
        (DataType::Blob, DataValue::Text(_)) => true,
        (DataType::Boolean, DataValue::Boolean(_)) => true,
        _ => false,
    }
}

} // verus!
