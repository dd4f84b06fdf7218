//! Values carried by pins and held in a node's datum map.
use vstd::prelude::*;

verus! {

/// A dynamically typed value: the payload of a pin or of a datum.
#[derive(Debug, PartialEq, Eq)]
pub enum Value {
    Bool(bool),
    Int(i64),
    UInt(u64),
    Text(String),
    /// A structured document (an array, an object, a fraction) kept as its
    /// JSON text.
    Json(String),
}

impl Clone for Value {
    fn clone(&self) -> (r: Self)
        ensures
            r == *self,
    {
        match self {
            Value::Bool(b) => Value::Bool(*b),
            Value::Int(i) => Value::Int(*i),
            Value::UInt(u) => Value::UInt(*u),
            Value::Text(s) => Value::Text(s.clone()),
            Value::Json(s) => Value::Json(s.clone()),
        }
    }
}

/// Copies an optional value.
pub fn clone_opt_value(v: &Option<Value>) -> (r: Option<Value>)
    ensures
        r == *v,
{
    match v {
        Some(x) => Some(x.clone()),
        None => None,
    }
}

} // verus!
