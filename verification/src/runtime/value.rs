//! Values: what an expression evaluates to.

use vstd::prelude::*;
use crate::number::Number;

verus! {

/// A value of the language.
#[derive(Debug, PartialEq)]
pub enum Value {
    /// A text.
    String(String),
    /// A number.
    Number(Number),
    /// `true` or `false`.
    Boolean(bool),
    /// No value: what a builtin returns that returns nothing.
    Null,
}

/// What a value is, as a mathematical value.
pub enum SpecValue {
    String(Seq<char>),
    Number(Seq<char>),
    Boolean(bool),
    Null,
}

impl View for Value {
    type V = SpecValue;

    open spec fn view(&self) -> SpecValue {
        match self {
            Value::String(s) => SpecValue::String(s@),
            Value::Number(n) => SpecValue::Number(n@),
            Value::Boolean(b) => SpecValue::Boolean(*b),
            Value::Null => SpecValue::Null,
        }
    }
}

impl Clone for Value {
    fn clone(&self) -> (r: Self)
        ensures
            r@ == self@,
    {
        match self {
            Value::String(s) => Value::String(s.clone()),
            Value::Number(n) => Value::Number(n.clone()),
            Value::Boolean(b) => Value::Boolean(*b),
            Value::Null => Value::Null,
        }
    }
}

/// The text that a value is printed as: a string as it is, a number as its
/// decimal, a boolean as `true` or `false`, and no value as `null`.
pub open spec fn display(v: SpecValue) -> Seq<char> {
    match v {
        SpecValue::String(s) => s,
        SpecValue::Number(n) => n,
        SpecValue::Boolean(b) => if b {
            "true"@
        } else {
            "false"@
        },
        SpecValue::Null => "null"@,
    }
}

impl Value {
    /// The text that the value is printed as.
    pub fn to_text(&self) -> (s: String)
        ensures
            s@ == display(self@),
    {
        match self {
            Value::String(s) => s.clone(),
            Value::Number(n) => n.to_text(),
            Value::Boolean(b) => if *b {
                String::from_str("true")
            } else {
                String::from_str("false")
            },
            Value::Null => String::from_str("null"),
        }
    }
}

} // verus!
