//! A number input: parses signed 64-bit integers, with optional bounds.

use vstd::prelude::*;
use crate::numeric::{parse_i64, spec_parse_i64};
use crate::validation_value::{Value, ValueModel};

verus! {

/// Static configuration of a number input.
#[derive(Debug)]
pub struct NumberField {
    pub min: Option<i64>,
    pub max: Option<i64>,
}

/// How a number input reacts to one raw input: empty text resets to absent;
/// text that denotes an integer overwrites the intermediate with it; other
/// text is kept verbatim as malformed.
pub open spec fn number_parse_step(m: ValueModel<i64>, v: Seq<char>) -> ValueModel<i64> {
    if v.len() == 0 {
        ValueModel::Absent
    } else {
        match spec_parse_i64(v) {
            Some(n) => ValueModel::Parsed(n),
            None => ValueModel::Malformed(v, "Invalid number"@),
        }
    }
}

/// Validation of a number: malformed input surfaces its malformed error
/// first; only a parsed value can succeed, and only within the configured
/// bounds; absent input is reported as missing.
pub open spec fn number_validate(min: Option<i64>, max: Option<i64>, m: ValueModel<i64>) -> Result<
    i64,
    Seq<char>,
> {
    match m {
        ValueModel::Malformed(_, _) => Err("Invalid number"@),
        ValueModel::Parsed(n) => if min is Some && n < min->0 {
            Err("Value is less than min"@)
        } else if max is Some && n > max->0 {
            Err("Value exceeds max"@)
        } else {
            Ok(n)
        },
        ValueModel::Absent => Err("Value is required"@),
    }
}

impl NumberField {
    /// Records one raw input.
    pub fn parse(&self, value: &str, intermediate: &mut Value<i64>)
        ensures
            final(intermediate)@ == number_parse_step(old(intermediate)@, value@),
    {
        if value.is_empty() {
            *intermediate = Value::Absent;
            return;
        }
        match parse_i64(value) {
            Some(n) => {
                *intermediate = Value::Success(n);
            },
            None => {
                *intermediate = Value::Failure(value.to_owned(), "Invalid number".to_owned());
            },
        }
    }

    /// Validates the current intermediate against the configured bounds.
    pub fn validate(&self, intermediate: &Value<i64>) -> (r: Result<i64, &'static str>)
        ensures
            crate::result_model(r) == number_validate(self.min, self.max, intermediate@),
    {
        let value = match intermediate {
            Value::Success(v) => *v,
            Value::Failure(_, _) => {
                return Err("Invalid number");
            },
            Value::Absent => {
                return Err("Value is required");
            },
        };
        if let Some(min) = self.min {
            if value < min {
                return Err("Value is less than min");
            }
        }
        if let Some(max) = self.max {
            if value > max {
                return Err("Value exceeds max");
            }
        }
        Ok(value)
    }

    /// Re-populates the intermediate from an existing value.
    pub fn load(&self, value: i64) -> (r: Value<i64>)
        ensures
            r@ == ValueModel::Parsed(value),
    {
        Value::Success(value)
    }
}

} // verus!
