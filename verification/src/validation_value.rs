//! The tri-state value held by scalar field kinds while a submission is in
//! flight: no input yet, input that failed to parse (kept verbatim for
//! redisplay), or input that parsed successfully.

use vstd::prelude::*;

verus! {

/// A sum type to allow restoring a value for form fields where the validation
/// failed, to provide a more user-friendly error flow.
#[derive(Debug)]
pub enum Value<T> {
    /// Input was supplied and parsed successfully.
    Success(T),
    /// Input was supplied but could not be parsed; the first component is the
    /// raw text verbatim, the second a short reason.
    Failure(String, String),
    /// No input was ever supplied.
    Absent,
}

/// The specification-level view of a [`Value`]: the same three states over
/// mathematical values.
pub enum ValueModel<V> {
    Absent,
    Malformed(Seq<char>, Seq<char>),
    Parsed(V),
}

impl<T: View> View for Value<T> {
    type V = ValueModel<T::V>;

    open spec fn view(&self) -> ValueModel<T::V> {
        match self {
            Value::Success(v) => ValueModel::Parsed(v@),
            Value::Failure(raw, reason) => ValueModel::Malformed(raw@, reason@),
            Value::Absent => ValueModel::Absent,
        }
    }
}

impl<T> Value<T> {
    /// Maps the value into a string representation to be displayed again.
    pub fn map<F: FnOnce(&T) -> String>(&self, f: F) -> (r: Option<String>)
        requires
            self is Success ==> call_requires(f, (&self->Success_0,)),
        ensures
            self is Success ==> r is Some && call_ensures(f, (&self->Success_0,), r->0),
            self is Failure ==> r is Some && r->0@ == self->Failure_0@,
            self is Absent ==> r is None,
    {
        match self {
            Value::Success(value) => Some(f(value)),
            Value::Failure(value, _) => Some(value.clone()),
            Value::Absent => None,
        }
    }

    /// Checks if the value has been set.
    pub fn is_none(&self) -> (r: bool)
        ensures
            r == (*self is Absent),
    {
        matches!(self, Value::Absent)
    }

    /// Extracts the success value if it exists.
    pub fn inner(&self) -> (r: Option<&T>)
        ensures
            *self is Success ==> r is Some && *r->0 == self->Success_0,
            !(*self is Success) ==> r is None,
    {
        match self {
            Value::Success(value) => Some(value),
            Value::Failure(_, _) => None,
            Value::Absent => None,
        }
    }
}

} // verus!
