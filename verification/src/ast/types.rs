//! Values of Arc and their types: coercion, truthiness, equality and order.

use crate::ast::error::ErrorKind;
use crate::ast::float::{FloatBits, FloatOperation, FloatUnit};
use crate::ast::order::{compare_text, text_order};
use crate::ast::text::{boolean_text, decimal_text, integer_text, render_boolean};
use std::cmp::Ordering;
use vstd::prelude::*;

verus! {

/// The type of a value.
#[derive(Clone, Copy, Debug, PartialEq, Eq, Structural)]
pub enum DataType {
    Integer,
    Float,
    Boolean,
    String,
    Unknown,
}

/// A value at run time, tagged with its type.
#[derive(Debug, PartialEq)]
pub enum Value {
    Integer(i64),
    Float(FloatBits),
    Boolean(bool),
    String(String),
}

/// A value as contracts see it: a text is the sequence of its characters.
pub enum ValueView {
    Integer(i64),
    Float(FloatBits),
    Boolean(bool),
    String(Seq<char>),
}

impl View for Value {
    type V = ValueView;

    open spec fn view(&self) -> ValueView {
        match self {
            Value::Integer(i) => ValueView::Integer(*i),
            Value::Float(f) => ValueView::Float(*f),
            Value::Boolean(b) => ValueView::Boolean(*b),
            Value::String(s) => ValueView::String(s@),
        }
    }
}

impl Clone for Value {
    fn clone(&self) -> (r: Self)
        ensures
            r == *self,
    {
        match self {
            Value::Integer(i) => Value::Integer(*i),
            Value::Float(f) => Value::Float(*f),
            Value::Boolean(b) => Value::Boolean(*b),
            Value::String(s) => Value::String(s.clone()),
        }
    }
}

/// Order of two integers.
pub open spec fn integer_order(a: i64, b: i64) -> Ordering {
    if a < b {
        Ordering::Less
    } else if a > b {
        Ordering::Greater
    } else {
        Ordering::Equal
    }
}

/// Order of two truth values: `false` comes before `true`.
pub open spec fn boolean_order(a: bool, b: bool) -> Ordering {
    if !a && b {
        Ordering::Less
    } else if a && !b {
        Ordering::Greater
    } else {
        Ordering::Equal
    }
}

/// Order of two binary64 numbers; a pair with a not-a-number counts as equal.
pub open spec fn float_order(a: FloatBits, b: FloatBits) -> Ordering {
    if a.less_than(b) {
        Ordering::Less
    } else if b.less_than(a) {
        Ordering::Greater
    } else {
        Ordering::Equal
    }
}

impl ValueView {
    /// The type that tags the value.
    pub open spec fn data_type(self) -> DataType {
        match self {
            ValueView::Integer(_) => DataType::Integer,
            ValueView::Float(_) => DataType::Float,
            ValueView::Boolean(_) => DataType::Boolean,
            ValueView::String(_) => DataType::String,
        }
    }

    /// Truthiness: a truth value is itself, a number is true unless zero, a
    /// text is true unless empty.
    pub open spec fn truthy(self) -> bool {
        match self {
            ValueView::Boolean(b) => b,
            ValueView::Integer(i) => i != 0,
            ValueView::Float(f) => !f.is_zero(),
            ValueView::String(s) => s.len() != 0,
        }
    }

    /// The text form of a value, where the float unit has no part in it.
    pub open spec fn text(self) -> Option<Seq<char>> {
        match self {
            ValueView::Integer(i) => Some(decimal_text(i as int)),
            ValueView::Float(_) => None,
            ValueView::Boolean(b) => Some(boolean_text(b)),
            ValueView::String(s) => Some(s),
        }
    }

    /// The order of two values, where the float unit has no part in it: `None`
    /// for an integer beside a float, an error for types that have no order.
    pub open spec fn order(self, other: ValueView) -> Option<Result<Ordering, ErrorKind>> {
        match (self, other) {
            (ValueView::Integer(a), ValueView::Integer(b)) => Some(
                Ok(integer_order(a, b)),
            ),
            (ValueView::Float(a), ValueView::Float(b)) => Some(Ok(float_order(a, b))),
            (ValueView::Boolean(a), ValueView::Boolean(b)) => Some(Ok(boolean_order(a, b))),
            (ValueView::String(a), ValueView::String(b)) => Some(Ok(text_order(a, b))),
            (ValueView::Integer(_), ValueView::Float(_)) => None,
            (ValueView::Float(_), ValueView::Integer(_)) => None,
            _ => Some(
                Err(ErrorKind::CannotOrder { left: self.data_type(), right: other.data_type() }),
            ),
        }
    }

    /// Equality of two values, where the float unit has no part in it: `None`
    /// where a float is compared, an error for types that cannot be equated.
    pub open spec fn equality(self, other: ValueView) -> Option<Result<bool, ErrorKind>> {
        match (self, other) {
            (ValueView::Integer(a), ValueView::Integer(b)) => Some(Ok(a == b)),
            (ValueView::Boolean(a), ValueView::Boolean(b)) => Some(Ok(a == b)),
            (ValueView::String(a), ValueView::String(b)) => Some(Ok(a == b)),
            (ValueView::Float(_), ValueView::Float(_)) => None,
            (ValueView::Integer(_), ValueView::Float(_)) => None,
            (ValueView::Float(_), ValueView::Integer(_)) => None,
            _ => Some(
                Err(ErrorKind::CannotEquate { left: self.data_type(), right: other.data_type() }),
            ),
        }
    }

    /// The 64-bit integer that a bitwise operation reads from a value, where
    /// the float unit has no part in it.
    pub open spec fn integer(self) -> Option<Result<i64, ErrorKind>> {
        match self {
            ValueView::Integer(i) => Some(Ok(i)),
            ValueView::Float(_) => None,
            ValueView::Boolean(b) => Some(Ok(if b { 1i64 } else { 0i64 })),
            ValueView::String(_) => Some(Err(ErrorKind::TextToInteger)),
        }
    }

    /// Whether two values can be brought to a common type.
    pub open spec fn coercible(self, other: ValueView) -> bool {
        ||| self.data_type() == other.data_type()
        ||| self is String
        ||| other is String
        ||| (self is Integer && other is Float)
        ||| (self is Float && other is Integer)
    }
}

impl Value {
    /// The type that tags the value.
    pub fn get_type(&self) -> (r: DataType)
        ensures
            r == self@.data_type(),
    {
        match self {
            Value::Integer(_) => DataType::Integer,
            Value::Float(_) => DataType::Float,
            Value::Boolean(_) => DataType::Boolean,
            Value::String(_) => DataType::String,
        }
    }

    /// The text form of the value: a number in decimal, a truth value as
    /// `true` or `false`, a text as it is.
    pub fn to_text<F: FloatUnit>(&self, unit: &F) -> (r: String)
        ensures
            self@.text() matches Some(t) ==> r@ == t,
    {
        match self {
            Value::Integer(i) => integer_text(*i),
            Value::Float(f) => unit.render(*f),
            Value::Boolean(b) => render_boolean(*b),
            Value::String(s) => s.clone(),
        }
    }

    /// Brings two operands to a common type: equal types pass, an integer
    /// beside a float becomes a float, anything beside a text becomes its text
    /// form; other pairs have no common type.
    pub fn coerce_to_common_type<F: FloatUnit>(left: &Value, right: &Value, unit: &F) -> (r: Result<
        (Value, Value),
        ErrorKind,
    >)
        ensures
            !left@.coercible(right@) ==> r == Err::<(Value, Value), ErrorKind>(
                ErrorKind::CannotCoerce { left: left@.data_type(), right: right@.data_type() },
            ),
            left@.coercible(right@) ==> r is Ok,
            r matches Ok(pair) ==> {
                &&& pair.0@.data_type() == pair.1@.data_type()
                &&& left@.data_type() == right@.data_type() ==> pair.0@ == left@ && pair.1@
                    == right@
                &&& left@ is Integer && right@ is Float ==> pair.0@ is Float && pair.1@ == right@
                &&& left@ is Float && right@ is Integer ==> pair.0@ == left@ && pair.1@ is Float
                &&& left@ is String ==> pair.0@ == left@ && pair.1@ is String
                &&& left@ is String ==> (right@.text() matches Some(t) ==> pair.1@
                    == ValueView::String(t))
                &&& right@ is String ==> pair.1@ == right@ && pair.0@ is String
                &&& right@ is String ==> (left@.text() matches Some(t) ==> pair.0@
                    == ValueView::String(t))
            },
    {
        match (left, right) {
            (Value::Integer(l), Value::Integer(r)) => Ok((Value::Integer(*l), Value::Integer(*r))),
            (Value::Float(l), Value::Float(r)) => Ok((Value::Float(*l), Value::Float(*r))),
            (Value::Boolean(l), Value::Boolean(r)) => Ok((Value::Boolean(*l), Value::Boolean(*r))),
            (Value::String(l), Value::String(r)) => Ok(
                (Value::String(l.clone()), Value::String(r.clone())),
            ),
            (Value::Integer(i), Value::Float(f)) => Ok(
                (Value::Float(unit.from_integer(*i)), Value::Float(*f)),
            ),
            (Value::Float(f), Value::Integer(i)) => Ok(
                (Value::Float(*f), Value::Float(unit.from_integer(*i))),
            ),
            (Value::String(s), other) => Ok(
                (Value::String(s.clone()), Value::String(other.to_text(unit))),
            ),
            (other, Value::String(s)) => Ok(
                (Value::String(other.to_text(unit)), Value::String(s.clone())),
            ),
            _ => Err(ErrorKind::CannotCoerce { left: left.get_type(), right: right.get_type() }),
        }
    }

    /// Truthiness of the value.
    pub fn to_boolean(&self) -> (r: bool)
        ensures
            r == self@.truthy(),
    {
        match self {
            Value::Boolean(b) => *b,
            Value::Integer(i) => *i != 0,
            Value::Float(f) => !f.zero(),
            Value::String(s) => s.as_str().unicode_len() != 0,
        }
    }

    /// The 64-bit integer that a bitwise operation reads from the value: an
    /// integer is itself, a float is cut to its integer part, a truth value is
    /// 0 or 1; a text is none.
    pub fn to_integer<F: FloatUnit>(&self, unit: &F) -> (r: Result<i64, ErrorKind>)
        ensures
            self@.integer() matches Some(i) ==> r == i,
            self@ is Float ==> r is Ok,
    {
        match self {
            Value::Integer(i) => Ok(*i),
            Value::Float(f) => Ok(unit.truncate(*f)),
            Value::Boolean(b) => Ok(
                if *b {
                    1
                } else {
                    0
                },
            ),
            Value::String(_) => Err(ErrorKind::TextToInteger),
        }
    }

    /// Tests two values for equality. Floats are equal when they differ by less
    /// than the machine epsilon; an integer beside a float is compared as a float.
    pub fn equals<F: FloatUnit>(&self, other: &Value, unit: &F) -> (r: Result<bool, ErrorKind>)
        ensures
            self@.equality(other@) matches Some(e) ==> r == e,
            self@.equality(other@) is None ==> r is Ok,
    {
        match (self, other) {
            (Value::Integer(a), Value::Integer(b)) => Ok(*a == *b),
            (Value::Float(a), Value::Float(b)) => Ok(
                FloatBits::within_epsilon(unit.compute(FloatOperation::Subtract, *a, *b)),
            ),
            (Value::Boolean(a), Value::Boolean(b)) => Ok(*a == *b),
            (Value::String(a), Value::String(b)) => Ok(*a == *b),
            (Value::Integer(i), Value::Float(f)) => Ok(
                FloatBits::within_epsilon(
                    unit.compute(FloatOperation::Subtract, unit.from_integer(*i), *f),
                ),
            ),
            (Value::Float(f), Value::Integer(i)) => Ok(
                FloatBits::within_epsilon(
                    unit.compute(FloatOperation::Subtract, unit.from_integer(*i), *f),
                ),
            ),
            _ => Err(ErrorKind::CannotEquate { left: self.get_type(), right: other.get_type() }),
        }
    }

    /// Orders two values of one type, or an integer and a float.
    pub fn compare<F: FloatUnit>(&self, other: &Value, unit: &F) -> (r: Result<Ordering, ErrorKind>)
        ensures
            self@.order(other@) matches Some(o) ==> r == o,
            self@.order(other@) is None ==> r is Ok,
    {
        match (self, other) {
            (Value::Integer(a), Value::Integer(b)) => Ok(
                if *a < *b {
                    Ordering::Less
                } else if *a > *b {
                    Ordering::Greater
                } else {
                    Ordering::Equal
                },
            ),
            (Value::Float(a), Value::Float(b)) => Ok(Self::order_floats(*a, *b)),
            (Value::Boolean(a), Value::Boolean(b)) => Ok(
                if !*a && *b {
                    Ordering::Less
                } else if *a && !*b {
                    Ordering::Greater
                } else {
                    Ordering::Equal
                },
            ),
            (Value::String(a), Value::String(b)) => Ok(compare_text(a.as_str(), b.as_str())),
            (Value::Integer(i), Value::Float(f)) => Ok(
                Self::order_floats(unit.from_integer(*i), *f),
            ),
            (Value::Float(f), Value::Integer(i)) => Ok(
                Self::order_floats(*f, unit.from_integer(*i)),
            ),
            _ => Err(ErrorKind::CannotOrder { left: self.get_type(), right: other.get_type() }),
        }
    }

    /// Orders two binary64 numbers.
    pub fn order_floats(a: FloatBits, b: FloatBits) -> (r: Ordering)
        ensures
            r == float_order(a, b),
    {
        if a.lt(&b) {
            Ordering::Less
        } else if b.lt(&a) {
            Ordering::Greater
        } else {
            Ordering::Equal
        }
    }
}

} // verus!
