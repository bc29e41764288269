//! A text input: free-form text with optional length bounds.

use vstd::prelude::*;
use vstd::utf8::encode_utf8;
use crate::single_parse_step;

verus! {

/// Static configuration of a text input.
#[derive(Debug)]
pub struct TextField {
    pub placeholder: Option<String>,
    pub min_length: Option<usize>,
    pub max_length: Option<usize>,
}

/// The specification-level view of a [`TextField`].
pub struct TextConfig {
    pub placeholder: Option<Seq<char>>,
    pub min_length: Option<usize>,
    pub max_length: Option<usize>,
}

impl View for TextField {
    type V = TextConfig;

    open spec fn view(&self) -> TextConfig {
        TextConfig {
            placeholder: self.placeholder.deep_view(),
            min_length: self.min_length,
            max_length: self.max_length,
        }
    }
}

/// Validation of text against length bounds: absent input is an error,
/// lengths below the minimum or above the maximum are errors, in that
/// priority order; anything else is returned as is. Lengths are counted in
/// UTF-8 bytes, the unit the transport carries.
pub open spec fn length_validate(
    min_length: Option<usize>,
    max_length: Option<usize>,
    m: Option<Seq<char>>,
) -> Result<Seq<char>, Seq<char>> {
    match m {
        None => Err("Value is required"@),
        Some(s) => if min_length is Some && encode_utf8(s).len() < min_length->0 {
            Err("Value is shorter than min length"@)
        } else if max_length is Some && encode_utf8(s).len() > max_length->0 {
            Err("Value exceeds max length"@)
        } else {
            Ok(s)
        },
    }
}

impl TextField {
    /// Records one raw input: empty text resets to absent, anything else
    /// overwrites the previous intermediate.
    pub fn parse(&self, value: &str, intermediate: &mut Option<String>)
        ensures
            final(intermediate).deep_view() == single_parse_step(
                old(intermediate).deep_view(),
                value@,
            ),
    {
        if value.is_empty() {
            *intermediate = None;
        } else {
            *intermediate = Some(value.to_owned());
        }
    }

    /// Validates the current intermediate against the configured length
    /// bounds; lengths are counted in UTF-8 bytes.
    pub fn validate(&self, intermediate: &Option<String>) -> (r: Result<String, &'static str>)
        ensures
            crate::result_model(r) == length_validate(
                self.min_length,
                self.max_length,
                intermediate.deep_view(),
            ),
    {
        let value = match intermediate {
            Some(v) => v,
            None => {
                return Err("Value is required");
            },
        };
        let byte_len = value.as_str().as_bytes().len();
        if let Some(min_length) = self.min_length {
            if byte_len < min_length {
                return Err("Value is shorter than min length");
            }
        }
        if let Some(max_length) = self.max_length {
            if byte_len > max_length {
                return Err("Value exceeds max length");
            }
        }
        Ok(value.clone())
    }

    /// Re-populates the intermediate from an existing value.
    pub fn load(&self, value: String) -> (r: Option<String>)
        ensures
            r.deep_view() == Some(value@),
    {
        Some(value)
    }
}

} // verus!
