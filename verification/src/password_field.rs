//! A password input: behaves like text with length bounds, but its value is
//! write-only from the presentation's point of view — a renderer must never
//! echo the intermediate back.

use vstd::prelude::*;
use crate::single_parse_step;
use crate::text_field::length_validate;

verus! {

/// Static configuration of a password input.
#[derive(Debug)]
pub struct PasswordField {
    pub min_length: Option<usize>,
    pub max_length: Option<usize>,
}

impl PasswordField {
    /// Records one raw input: empty text resets to absent, anything else
    /// overwrites the previous intermediate.
    pub fn parse(&self, value: &str, intermediate: &mut Option<String>)
        ensures
            final(intermediate).deep_view() == single_parse_step(
                old(intermediate).deep_view(),
                value@,
            ),
    {
        if value.is_empty() {
            *intermediate = None;
        } else {
            *intermediate = Some(value.to_owned());
        }
    }

    /// Validates the current intermediate against the configured length
    /// bounds; lengths are counted in UTF-8 bytes.
    pub fn validate(&self, intermediate: &Option<String>) -> (r: Result<String, &'static str>)
        ensures
            crate::result_model(r) == length_validate(
                self.min_length,
                self.max_length,
                intermediate.deep_view(),
            ),
    {
        let value = match intermediate {
            Some(v) => v,
            None => {
                return Err("Value is required");
            },
        };
        let byte_len = value.as_str().as_bytes().len();
        if let Some(min_length) = self.min_length {
            if byte_len < min_length {
                return Err("Value is shorter than min length");
            }
        }
        if let Some(max_length) = self.max_length {
            if byte_len > max_length {
                return Err("Value exceeds max length");
            }
        }
        Ok(value.clone())
    }

    /// Re-populates the intermediate from an existing value.
    pub fn load(&self, value: String) -> (r: Option<String>)
        ensures
            r.deep_view() == Some(value@),
    {
        Some(value)
    }
}

} // verus!
