//! A passthrough field: no input element at all. The value is taken
//! verbatim, for fields produced by code rather than by a person — a scalar
//! variant that requires a value, and a list variant that always succeeds.

use vstd::prelude::*;
use crate::{list_parse_step, single_parse_step};

verus! {

/// Static configuration of a passthrough field; it has none, the type
/// parameter only selects the scalar or the list behaviour.
#[derive(Debug)]
pub struct Passthrough<T> {
    _marker: core::marker::PhantomData<T>,
}

impl<T> Passthrough<T> {
    /// Builds the (stateless) passthrough configuration.
    pub fn new() -> Self {
        Passthrough { _marker: core::marker::PhantomData }
    }
}

/// Validation of a scalar passthrough: the value is trusted verbatim, but it
/// must be present.
pub open spec fn passthrough_validate(m: Option<Seq<char>>) -> Result<Seq<char>, Seq<char>> {
    match m {
        None => Err("Value is required"@),
        Some(s) => Ok(s),
    }
}

impl Passthrough<String> {
    /// Records one raw input: empty text resets to absent, anything else
    /// overwrites the previous intermediate.
    pub fn parse(&self, value: &str, intermediate: &mut Option<String>)
        ensures
            final(intermediate).deep_view() == single_parse_step(
                old(intermediate).deep_view(),
                value@,
            ),
    {
        if value.is_empty() {
            *intermediate = None;
        } else {
            *intermediate = Some(value.to_owned());
        }
    }

    /// Validates the current intermediate: present input is returned as is.
    pub fn validate(&self, intermediate: &Option<String>) -> (r: Result<String, &'static str>)
        ensures
            crate::result_model(r) == passthrough_validate(intermediate.deep_view()),
    {
        match intermediate {
            Some(v) => Ok(v.clone()),
            None => Err("Value is required"),
        }
    }

    /// Re-populates the intermediate from an existing value.
    pub fn load(&self, value: String) -> (r: Option<String>)
        ensures
            r.deep_view() == Some(value@),
    {
        Some(value)
    }
}

impl Passthrough<Vec<String>> {
    /// Records one raw input: empty text is a no-op, anything else is
    /// appended.
    pub fn parse(&self, value: &str, intermediate: &mut Vec<String>)
        ensures
            final(intermediate).deep_view() == list_parse_step(
                old(intermediate).deep_view(),
                value@,
            ),
    {
        if !value.is_empty() {
            intermediate.push(value.to_owned());
        }
    }

    /// Validates the current intermediate: a list passthrough always
    /// succeeds, the empty list included.
    pub fn validate(&self, intermediate: &Vec<String>) -> (r: Result<Vec<String>, &'static str>)
        ensures
            crate::result_model(r) == Ok::<_, Seq<char>>(intermediate.deep_view()),
    {
        Ok(intermediate.clone())
    }

    /// Re-populates the intermediate from an existing value.
    pub fn load(&self, value: Vec<String>) -> (r: Vec<String>)
        ensures
            r.deep_view() == value.deep_view(),
    {
        value
    }
}

} // verus!
