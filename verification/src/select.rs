//! A dropdown select: one choice out of a configured option list, with a
//! placeholder label shown while nothing is selected.

use vstd::prelude::*;
use crate::single_parse_step;
use crate::selectable::{SelectOption, SelectOptionModel, find_by_key};
use crate::radio_button::choice_validate;

verus! {

/// Static configuration of a dropdown select.
#[derive(Debug)]
pub struct Select {
    pub default_value: Option<SelectOption>,
    pub options: Vec<SelectOption>,
    pub placeholder: String,
}

/// The specification-level view of a [`Select`].
pub struct SelectConfig {
    pub default_value: Option<SelectOptionModel>,
    pub options: Seq<SelectOptionModel>,
    pub placeholder: Seq<char>,
}

impl View for Select {
    type V = SelectConfig;

    open spec fn view(&self) -> SelectConfig {
        SelectConfig {
            default_value: self.default_value.deep_view(),
            options: self.options.deep_view(),
            placeholder: self.placeholder@,
        }
    }
}

impl Select {
    /// Records one raw input: empty text resets to absent, anything else
    /// overwrites the stored key.
    pub fn parse(&self, value: &str, key: &mut Option<String>)
        ensures
            final(key).deep_view() == single_parse_step(old(key).deep_view(), value@),
    {
        if value.is_empty() {
            *key = None;
        } else {
            *key = Some(value.to_owned());
        }
    }

    /// Validates the stored key against the current option list.
    pub fn validate(&self, key: &Option<String>) -> (r: Result<SelectOption, &'static str>)
        ensures
            crate::result_model(r) == choice_validate(self.options.deep_view(), key.deep_view()),
    {
        let key = match key {
            Some(k) => k,
            None => {
                return Err("Value is required");
            },
        };
        match find_by_key(&self.options, key.as_str()) {
            Some(option) => Ok(option),
            None => Err("Invalid value"),
        }
    }

    /// Re-populates the stored key from an existing choice.
    pub fn load(&self, value: SelectOption) -> (r: Option<String>)
        ensures
            r.deep_view() == Some(value@.key),
    {
        Some(value.key)
    }
}

} // verus!
