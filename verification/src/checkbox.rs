//! A checkbox input: parses to a boolean, with an optional rule that the
//! box must be checked for validation to succeed.

use vstd::prelude::*;

verus! {

/// Static configuration of a checkbox.
#[derive(Debug)]
pub struct Checkbox {
    /// Whether validation demands the box be checked.
    pub required_true: bool,
    /// Whether the box is rendered pre-checked when nothing was entered.
    pub checked: bool,
}

/// How a checkbox reacts to one raw input: empty text resets to absent,
/// the text `true` checks the box, anything else unchecks it.
pub open spec fn checkbox_parse_step(m: Option<bool>, v: Seq<char>) -> Option<bool> {
    if v.len() == 0 {
        None
    } else {
        Some(v == "true"@)
    }
}

/// Validation of a checkbox: a checked box is accepted; an unchecked or
/// absent box resolves to `false`, unless the box is required to be checked,
/// which is then the error.
pub open spec fn checkbox_validate(required_true: bool, m: Option<bool>) -> Result<
    bool,
    Seq<char>,
> {
    match m {
        Some(true) => Ok(true),
        _ => if !required_true {
            Ok(false)
        } else {
            Err("Checkbox is required"@)
        },
    }
}

impl Checkbox {
    /// Records one raw input.
    pub fn parse(&self, value: &str, intermediate: &mut Option<bool>)
        ensures
            *final(intermediate) == checkbox_parse_step(*old(intermediate), value@),
    {
        if value.is_empty() {
            *intermediate = None;
            return;
        }
        *intermediate = if crate::str_eq(value, "true") {
            Some(true)
        } else {
            Some(false)
        };
    }

    /// Validates the current intermediate.
    pub fn validate(&self, intermediate: &Option<bool>) -> (r: Result<bool, &'static str>)
        ensures
            crate::result_model(r) == checkbox_validate(self.required_true, *intermediate),
    {
        match intermediate {
            Some(true) => Ok(true),
            Some(false) => if !self.required_true {
                Ok(false)
            } else {
                Err("Checkbox is required")
            },
            None => if !self.required_true {
                Ok(false)
            } else {
                Err("Checkbox is required")
            },
        }
    }

    /// Re-populates the intermediate from an existing value.
    pub fn load(&self, value: bool) -> (r: Option<bool>)
        ensures
            r == Some(value),
    {
        Some(value)
    }
}

} // verus!
