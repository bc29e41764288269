//! A date picker input: parses `YYYY-MM-DD` text into a calendar date, with
//! optional earliest and latest bounds.

use vstd::prelude::*;
use crate::date::{Date, date_before, parse_date, spec_parse_date};
use crate::validation_value::{Value, ValueModel};

verus! {

/// Static configuration of a date picker.
#[derive(Debug)]
pub struct DatePicker {
    pub min: Option<Date>,
    pub max: Option<Date>,
}

/// How a date picker reacts to one raw input: empty text resets to absent;
/// text that denotes a calendar date overwrites the intermediate with it;
/// other text is kept verbatim as malformed.
pub open spec fn date_parse_step(m: ValueModel<Date>, v: Seq<char>) -> ValueModel<Date> {
    if v.len() == 0 {
        ValueModel::Absent
    } else {
        match spec_parse_date(v) {
            Some(d) => ValueModel::Parsed(d),
            None => ValueModel::Malformed(v, "Invalid date"@),
        }
    }
}

/// Validation of a date: malformed input surfaces its malformed error
/// first; only a parsed date can succeed, and only within the configured
/// bounds; absent input is reported as missing.
pub open spec fn date_validate(min: Option<Date>, max: Option<Date>, m: ValueModel<Date>) -> Result<
    Date,
    Seq<char>,
> {
    match m {
        ValueModel::Malformed(_, _) => Err("Invalid date"@),
        ValueModel::Parsed(d) => if min is Some && date_before(d, min->0) {
            Err("Value is less than min"@)
        } else if max is Some && date_before(max->0, d) {
            Err("Value exceeds max"@)
        } else {
            Ok(d)
        },
        ValueModel::Absent => Err("Value is required"@),
    }
}

impl DatePicker {
    /// Records one raw input.
    pub fn parse(&self, value: &str, intermediate: &mut Value<Date>)
        ensures
            final(intermediate)@ == date_parse_step(old(intermediate)@, value@),
    {
        if value.is_empty() {
            *intermediate = Value::Absent;
            return;
        }
        match parse_date(value) {
            Some(d) => {
                *intermediate = Value::Success(d);
            },
            None => {
                *intermediate = Value::Failure(value.to_owned(), "Invalid date".to_owned());
            },
        }
    }

    /// Validates the current intermediate against the configured bounds.
    pub fn validate(&self, intermediate: &Value<Date>) -> (r: Result<Date, &'static str>)
        ensures
            crate::result_model(r) == date_validate(self.min, self.max, intermediate@),
    {
        let value = match intermediate {
            Value::Success(v) => *v,
            Value::Failure(_, _) => {
                return Err("Invalid date");
            },
            Value::Absent => {
                return Err("Value is required");
            },
        };
        if let Some(min) = &self.min {
            if value.before(min) {
                return Err("Value is less than min");
            }
        }
        if let Some(max) = &self.max {
            if max.before(&value) {
                return Err("Value exceeds max");
            }
        }
        Ok(value)
    }

    /// Re-populates the intermediate from an existing value.
    pub fn load(&self, value: Date) -> (r: Value<Date>)
        ensures
            r@ == ValueModel::Parsed(value),
    {
        Value::Success(value)
    }
}

} // verus!
