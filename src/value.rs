use vstd::prelude::*;

verus! {

/// A runtime value flowing through evaluation.
#[derive(Debug, Clone)]
pub enum Value {
    Null,
    Boolean(bool),
    /// A number carried as the text it was written in, with the
    /// exponent/long flag of the statement parser.
    Number(String, bool),
    String(String),
    /// Marker meaning "all fields of the current record"; used only as a
    /// projection marker.
    Wildcard,
}

/// Why a value could not be used as a number.
#[derive(Debug, Clone, Copy, PartialEq, Eq, Structural)]
pub enum CoercionError {
    NotNumeric,
}

/// Structural equality: same variant and same textual form; numbers are
/// equal exactly when their texts are.
pub open spec fn same_value(a: Value, b: Value) -> bool {
    match (a, b) {
        (Value::Null, Value::Null) => true,
        (Value::Boolean(x), Value::Boolean(y)) => x == y,
        (Value::Number(x, _), Value::Number(y, _)) => x@ == y@,
        (Value::String(x), Value::String(y)) => x@ == y@,
        (Value::Wildcard, Value::Wildcard) => true,
        _ => false,
    }
}

/// The textual rendering of a value.
pub open spec fn render_spec(v: Value) -> Seq<char> {
    match v {
        Value::Null => "NULL"@,
        Value::Boolean(true) => "true"@,
        Value::Boolean(false) => "false"@,
        Value::Number(t, _) => t@,
        Value::String(s) => s@,
        Value::Wildcard => "*"@,
    }
}

impl Value {
    /// An exact copy of the value.
    pub fn copied(&self) -> (r: Value)
        ensures
            r == *self,
    {
        match self {
            Value::Null => Value::Null,
            Value::Boolean(b) => Value::Boolean(*b),
            Value::Number(t, f) => Value::Number(t.clone(), *f),
            Value::String(s) => Value::String(s.clone()),
            Value::Wildcard => Value::Wildcard,
        }
    }

    /// Structural equality of two values.
    pub fn equals(&self, other: &Value) -> (r: bool)
        ensures
            r == same_value(*self, *other),
    {
        match (self, other) {
            (Value::Null, Value::Null) => true,
            (Value::Boolean(x), Value::Boolean(y)) => *x == *y,
            (Value::Number(x, _), Value::Number(y, _)) => *x == *y,
            (Value::String(x), Value::String(y)) => *x == *y,
            (Value::Wildcard, Value::Wildcard) => true,
            _ => false,
        }
    }

    /// The textual form of the value, used for display.
    pub fn render(&self) -> (r: String)
        ensures
            r@ == render_spec(*self),
    {
        match self {
            Value::Null => String::from_str("NULL"),
            Value::Boolean(true) => String::from_str("true"),
            Value::Boolean(false) => String::from_str("false"),
            Value::Number(t, _) => t.clone(),
            Value::String(s) => s.clone(),
            Value::Wildcard => String::from_str("*"),
        }
    }

    /// The numeric text of a `Number`; every other variant is refused.
    pub fn as_number(&self) -> (r: Result<String, CoercionError>)
        ensures
            match *self {
                Value::Number(t, _) => r == Ok::<String, CoercionError>(t),
                _ => r == Err::<String, CoercionError>(CoercionError::NotNumeric),
            },
    {
        match self {
            Value::Number(t, _) => Ok(t.clone()),
            _ => Err(CoercionError::NotNumeric),
        }
    }
}

} // verus!
