//! A sample capability set for heterogeneous elements.
//!
//! The container itself is generic; this enum unifies a few concrete types
//! behind one interface so that values of different shapes can live side by
//! side in the same container. Reading a value back at a concrete type it
//! does not have fails with `TypeMismatch`.

use vstd::prelude::*;
use crate::traitvec::Error;

verus! {

/// One element of a heterogeneous container: an integer, a piece of text, or
/// a list of integers.
#[derive(Debug, PartialEq, Eq)]
pub enum Value {
    Int(i64),
    Text(String),
    List(Vec<i64>),
}

impl Value {
    /// The integer this value holds, or `TypeMismatch` if it is not an integer.
    pub fn as_int(&self) -> (r: Result<i64, Error>)
        ensures
            *self matches Value::Int(n) ==> r == Ok::<i64, Error>(n),
            !(*self is Int) ==> r == Err::<i64, Error>(Error::TypeMismatch),
    {
        match self {
            Value::Int(n) => Ok(*n),
            _ => Err(Error::TypeMismatch),
        }
    }

    /// The text this value holds, or `TypeMismatch` if it is not text.
    pub fn as_text(&self) -> (r: Result<&String, Error>)
        ensures
            *self matches Value::Text(s) ==> (r matches Ok(t) && *t == s),
            !(*self is Text) ==> r == Err::<&String, Error>(Error::TypeMismatch),
    {
        match self {
            Value::Text(s) => Ok(s),
            _ => Err(Error::TypeMismatch),
        }
    }

    /// The list this value holds, or `TypeMismatch` if it is not a list.
    pub fn as_list(&self) -> (r: Result<&Vec<i64>, Error>)
        ensures
            *self matches Value::List(l) ==> (r matches Ok(v) && *v == l),
            !(*self is List) ==> r == Err::<&Vec<i64>, Error>(Error::TypeMismatch),
    {
        match self {
            Value::List(l) => Ok(l),
            _ => Err(Error::TypeMismatch),
        }
    }
}

} // verus!
