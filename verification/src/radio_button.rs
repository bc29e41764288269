//! A radio button group: exactly one choice out of a configured option list.

use vstd::prelude::*;
use crate::single_parse_step;
use crate::selectable::{SelectOption, SelectOptionModel, find_by_key, find_key, has_key};

verus! {

/// Static configuration of a radio button group.
#[derive(Debug)]
pub struct RadioButton {
    pub options: Vec<SelectOption>,
    pub default_value: SelectOption,
}

/// The specification-level view of a [`RadioButton`].
pub struct RadioConfig {
    pub options: Seq<SelectOptionModel>,
    pub default_value: SelectOptionModel,
}

impl View for RadioButton {
    type V = RadioConfig;

    open spec fn view(&self) -> RadioConfig {
        RadioConfig { options: self.options.deep_view(), default_value: self.default_value@ }
    }
}

/// Validation of a single choice against an option list: an absent key is
/// missing input, a key no current option carries is invalid, and otherwise
/// the first option carrying the key is the chosen one.
pub open spec fn choice_validate(options: Seq<SelectOptionModel>, m: Option<Seq<char>>) -> Result<
    SelectOptionModel,
    Seq<char>,
> {
    match m {
        None => Err("Value is required"@),
        Some(key) => if has_key(options, key) {
            Ok(options[find_key(options, key)])
        } else {
            Err("Invalid value"@)
        },
    }
}

impl RadioButton {
    /// Records one raw input: empty text resets to absent, anything else
    /// overwrites the stored key.
    pub fn parse(&self, value: &str, key: &mut Option<String>)
        ensures
            final(key).deep_view() == single_parse_step(old(key).deep_view(), value@),
    {
        if value.is_empty() {
            *key = None;
        } else {
            *key = Some(value.to_owned());
        }
    }

    /// Validates the stored key against the current option list.
    pub fn validate(&self, key: &Option<String>) -> (r: Result<SelectOption, &'static str>)
        ensures
            crate::result_model(r) == choice_validate(self.options.deep_view(), key.deep_view()),
    {
        let key = match key {
            Some(k) => k,
            None => {
                return Err("Value is required");
            },
        };
        match find_by_key(&self.options, key.as_str()) {
            Some(option) => Ok(option),
            None => Err("Invalid value"),
        }
    }

    /// Re-populates the stored key from an existing choice.
    pub fn load(&self, value: SelectOption) -> (r: Option<String>)
        ensures
            r.deep_view() == Some(value@.key),
    {
        Some(value.key)
    }
}

} // verus!
