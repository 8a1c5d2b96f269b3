use vstd::prelude::*;

use crate::number::{num_eq, number_equal};

verus! {

/// A runtime value. A number is held as the bit pattern of its IEEE-754
/// binary32 value.
#[derive(Debug)]
pub enum LoxObject {
    Boolean(bool),
    Number(u32),
    String(String),
    Nil,
}

/// The mathematical model of a runtime value.
pub enum ObjectView {
    Boolean(bool),
    Number(u32),
    Str(Seq<char>),
    Nil,
}

impl View for LoxObject {
    type V = ObjectView;

    open spec fn view(&self) -> ObjectView {
        match self {
            LoxObject::Boolean(b) => ObjectView::Boolean(*b),
            LoxObject::Number(n) => ObjectView::Number(*n),
            LoxObject::String(s) => ObjectView::Str(s@),
            LoxObject::Nil => ObjectView::Nil,
        }
    }
}

/// Truthiness: `nil` and `false` are false, every other value is true.
pub open spec fn truthy(v: ObjectView) -> bool {
    match v {
        ObjectView::Nil => false,
        ObjectView::Boolean(b) => b,
        _ => true,
    }
}

/// Equality of values: by variant, numbers as IEEE-754 numbers; values of
/// different variants are never equal.
pub open spec fn values_equal(a: ObjectView, b: ObjectView) -> bool {
    match (a, b) {
        (ObjectView::Boolean(x), ObjectView::Boolean(y)) => x == y,
        (ObjectView::Number(x), ObjectView::Number(y)) => num_eq(x, y),
        (ObjectView::Str(x), ObjectView::Str(y)) => x == y,
        (ObjectView::Nil, ObjectView::Nil) => true,
        _ => false,
    }
}

impl LoxObject {
    /// The number, or `None` for a value of another variant.
    pub fn to_number(&self) -> (r: Option<u32>)
        ensures
            r == match self@ {
                ObjectView::Number(n) => Some(n),
                _ => None::<u32>,
            },
    {
        match self {
            LoxObject::Number(n) => Some(*n),
            _ => None,
        }
    }

    /// The boolean, or `None` for a value of another variant.
    pub fn to_boolean(&self) -> (r: Option<bool>)
        ensures
            r == match self@ {
                ObjectView::Boolean(b) => Some(b),
                _ => None::<bool>,
            },
    {
        match self {
            LoxObject::Boolean(b) => Some(*b),
            _ => None,
        }
    }

    /// The text of a string, or `None` for a value of another variant.
    pub fn to_string(&self) -> (r: Option<&str>)
        ensures
            match self@ {
                ObjectView::Str(s) => r is Some && r->0@ == s,
                _ => r is None,
            },
    {
        match self {
            LoxObject::String(s) => Some(s.as_str()),
            _ => None,
        }
    }

    pub fn is_truthy(&self) -> (r: bool)
        ensures
            r == truthy(self@),
    {
        match self {
            LoxObject::Nil => false,
            LoxObject::Boolean(b) => *b,
            _ => true,
        }
    }

    pub fn equals(&self, other: &LoxObject) -> (r: bool)
        ensures
            r == values_equal(self@, other@),
    {
        match (self, other) {
            (LoxObject::Boolean(x), LoxObject::Boolean(y)) => *x == *y,
            (LoxObject::Number(x), LoxObject::Number(y)) => number_equal(*x, *y),
            (LoxObject::String(x), LoxObject::String(y)) => x.eq(y),
            (LoxObject::Nil, LoxObject::Nil) => true,
            _ => false,
        }
    }
}

impl PartialEq for LoxObject {
    fn eq(&self, other: &LoxObject) -> (r: bool) {
        self.equals(other)
    }
}

impl vstd::std_specs::cmp::PartialEqSpecImpl for LoxObject {
    open spec fn obeys_eq_spec() -> bool {
        true
    }

    open spec fn eq_spec(&self, other: &LoxObject) -> bool {
        values_equal(self@, other@)
    }
}

} // verus!
