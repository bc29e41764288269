//! The closed set of input element kinds. An [`Element`] pairs one kind's
//! static configuration with that kind's intermediate state, so that a form
//! can hold structurally different fields in one collection; every
//! per-submission operation (parse, validate, load) dispatches on the kind.

use vstd::prelude::*;
use crate::checkbox::{Checkbox, checkbox_parse_step, checkbox_validate};
use crate::date::Date;
use crate::date_picker::{DatePicker, date_parse_step, date_validate};
use crate::multiselect::{MultiSelect, MultiSelectConfig, multi_validate, option_keys};
use crate::number_field::{NumberField, number_parse_step, number_validate};
use crate::passthrough::{Passthrough, passthrough_validate};
use crate::password_field::PasswordField;
use crate::radio_button::{RadioButton, RadioConfig, choice_validate};
use crate::select::{Select, SelectConfig};
use crate::selectable::{SelectOption, SelectOptionModel};
use crate::text_field::{TextField, TextConfig, length_validate};
use crate::validation_value::{Value, ValueModel};
use crate::{Intermediate, list_parse_step, single_parse_step};

verus! {

/// One field's kind-specific state: the kind's static configuration paired
/// with the kind's mutable intermediate.
#[derive(Debug)]
pub enum Element {
    Text(TextField, Option<String>),
    Password(PasswordField, Option<String>),
    Number(NumberField, Value<i64>),
    Date(DatePicker, Value<Date>),
    Checkbox(Checkbox, Option<bool>),
    Radio(RadioButton, Option<String>),
    Select(Select, Option<String>),
    MultiSelect(MultiSelect, Vec<String>),
    Passthrough(Passthrough<String>, Option<String>),
    PassthroughList(Passthrough<Vec<String>>, Vec<String>),
}

/// The specification-level view of an [`Element`].
pub enum ElementModel {
    Text(TextConfig, Option<Seq<char>>),
    Password(PasswordField, Option<Seq<char>>),
    Number(NumberField, ValueModel<i64>),
    Date(DatePicker, ValueModel<Date>),
    Checkbox(Checkbox, Option<bool>),
    Radio(RadioConfig, Option<Seq<char>>),
    Select(SelectConfig, Option<Seq<char>>),
    MultiSelect(MultiSelectConfig, Seq<Seq<char>>),
    Passthrough(Option<Seq<char>>),
    PassthroughList(Seq<Seq<char>>),
}

impl View for Element {
    type V = ElementModel;

    open spec fn view(&self) -> ElementModel {
        match self {
            Element::Text(d, m) => ElementModel::Text(d@, m.deep_view()),
            Element::Password(d, m) => ElementModel::Password(*d, m.deep_view()),
            Element::Number(d, m) => ElementModel::Number(*d, m@),
            Element::Date(d, m) => ElementModel::Date(*d, m@),
            Element::Checkbox(d, m) => ElementModel::Checkbox(*d, *m),
            Element::Radio(d, m) => ElementModel::Radio(d@, m.deep_view()),
            Element::Select(d, m) => ElementModel::Select(d@, m.deep_view()),
            Element::MultiSelect(d, m) => ElementModel::MultiSelect(d@, m.deep_view()),
            Element::Passthrough(_, m) => ElementModel::Passthrough(m.deep_view()),
            Element::PassthroughList(_, m) => ElementModel::PassthroughList(m.deep_view()),
        }
    }
}

impl DeepView for Element {
    type V = ElementModel;

    open spec fn deep_view(&self) -> ElementModel {
        self.view()
    }
}

/// One field's validated, typed value.
#[derive(Debug, Clone, PartialEq)]
pub enum FieldValue {
    Text(String),
    Number(i64),
    Date(Date),
    Toggle(bool),
    Choice(SelectOption),
    Choices(Vec<SelectOption>),
    Raw(String),
    RawList(Vec<String>),
}

/// The specification-level view of a [`FieldValue`].
pub enum FieldValueModel {
    Text(Seq<char>),
    Number(i64),
    Date(Date),
    Toggle(bool),
    Choice(SelectOptionModel),
    Choices(Seq<SelectOptionModel>),
    Raw(Seq<char>),
    RawList(Seq<Seq<char>>),
}

impl View for FieldValue {
    type V = FieldValueModel;

    open spec fn view(&self) -> FieldValueModel {
        match self {
            FieldValue::Text(s) => FieldValueModel::Text(s@),
            FieldValue::Number(n) => FieldValueModel::Number(*n),
            FieldValue::Date(d) => FieldValueModel::Date(*d),
            FieldValue::Toggle(b) => FieldValueModel::Toggle(*b),
            FieldValue::Choice(o) => FieldValueModel::Choice(o@),
            FieldValue::Choices(os) => FieldValueModel::Choices(os.deep_view()),
            FieldValue::Raw(s) => FieldValueModel::Raw(s@),
            FieldValue::RawList(l) => FieldValueModel::RawList(l.deep_view()),
        }
    }
}

impl DeepView for FieldValue {
    type V = FieldValueModel;

    open spec fn deep_view(&self) -> FieldValueModel {
        self.view()
    }
}

/// How an element reacts to one raw input: the kind's parse step on the
/// intermediate; the configuration never changes.
pub open spec fn element_parse(e: ElementModel, v: Seq<char>) -> ElementModel {
    match e {
        ElementModel::Text(c, m) => ElementModel::Text(c, single_parse_step(m, v)),
        ElementModel::Password(c, m) => ElementModel::Password(c, single_parse_step(m, v)),
        ElementModel::Number(c, m) => ElementModel::Number(c, number_parse_step(m, v)),
        ElementModel::Date(c, m) => ElementModel::Date(c, date_parse_step(m, v)),
        ElementModel::Checkbox(c, m) => ElementModel::Checkbox(c, checkbox_parse_step(m, v)),
        ElementModel::Radio(c, m) => ElementModel::Radio(c, single_parse_step(m, v)),
        ElementModel::Select(c, m) => ElementModel::Select(c, single_parse_step(m, v)),
        ElementModel::MultiSelect(c, m) => ElementModel::MultiSelect(c, list_parse_step(m, v)),
        ElementModel::Passthrough(m) => ElementModel::Passthrough(single_parse_step(m, v)),
        ElementModel::PassthroughList(m) => ElementModel::PassthroughList(list_parse_step(m, v)),
    }
}

/// What validating an element yields: the kind's validation of the current
/// intermediate against the kind's configuration.
pub open spec fn element_validate(e: ElementModel) -> Result<FieldValueModel, Seq<char>> {
    match e {
        ElementModel::Text(c, m) => match length_validate(c.min_length, c.max_length, m) {
            Ok(s) => Ok(FieldValueModel::Text(s)),
            Err(e) => Err(e),
        },
        ElementModel::Password(c, m) => match length_validate(c.min_length, c.max_length, m) {
            Ok(s) => Ok(FieldValueModel::Text(s)),
            Err(e) => Err(e),
        },
        ElementModel::Number(c, m) => match number_validate(c.min, c.max, m) {
            Ok(n) => Ok(FieldValueModel::Number(n)),
            Err(e) => Err(e),
        },
        ElementModel::Date(c, m) => match date_validate(c.min, c.max, m) {
            Ok(d) => Ok(FieldValueModel::Date(d)),
            Err(e) => Err(e),
        },
        ElementModel::Checkbox(c, m) => match checkbox_validate(c.required_true, m) {
            Ok(b) => Ok(FieldValueModel::Toggle(b)),
            Err(e) => Err(e),
        },
        ElementModel::Radio(c, m) => match choice_validate(c.options, m) {
            Ok(o) => Ok(FieldValueModel::Choice(o)),
            Err(e) => Err(e),
        },
        ElementModel::Select(c, m) => match choice_validate(c.options, m) {
            Ok(o) => Ok(FieldValueModel::Choice(o)),
            Err(e) => Err(e),
        },
        ElementModel::MultiSelect(c, m) => match multi_validate(c.options, m) {
            Ok(os) => Ok(FieldValueModel::Choices(os)),
            Err(e) => Err(e),
        },
        ElementModel::Passthrough(m) => match passthrough_validate(m) {
            Ok(s) => Ok(FieldValueModel::Raw(s)),
            Err(e) => Err(e),
        },
        ElementModel::PassthroughList(m) => Ok(FieldValueModel::RawList(m)),
    }
}

/// Whether an element's intermediate holds any input at all.
pub open spec fn element_has_value(e: ElementModel) -> bool {
    match e {
        ElementModel::Text(_, m) => m is Some,
        ElementModel::Password(_, m) => m is Some,
        ElementModel::Number(_, m) => !(m is Absent),
        ElementModel::Date(_, m) => !(m is Absent),
        ElementModel::Checkbox(_, m) => m is Some,
        ElementModel::Radio(_, m) => m is Some,
        ElementModel::Select(_, m) => m is Some,
        ElementModel::MultiSelect(_, m) => m.len() > 0,
        ElementModel::Passthrough(m) => m is Some,
        ElementModel::PassthroughList(m) => m.len() > 0,
    }
}

/// How an element's intermediate is re-populated from an existing typed
/// value; a value of a kind other than the element's leaves it unchanged.
pub open spec fn element_load(e: ElementModel, v: FieldValueModel) -> ElementModel {
    match (e, v) {
        (ElementModel::Text(c, _), FieldValueModel::Text(s)) => ElementModel::Text(c, Some(s)),
        (ElementModel::Password(c, _), FieldValueModel::Text(s)) => ElementModel::Password(
            c,
            Some(s),
        ),
        (ElementModel::Number(c, _), FieldValueModel::Number(n)) => ElementModel::Number(
            c,
            ValueModel::Parsed(n),
        ),
        (ElementModel::Date(c, _), FieldValueModel::Date(d)) => ElementModel::Date(
            c,
            ValueModel::Parsed(d),
        ),
        (ElementModel::Checkbox(c, _), FieldValueModel::Toggle(b)) => ElementModel::Checkbox(
            c,
            Some(b),
        ),
        (ElementModel::Radio(c, _), FieldValueModel::Choice(o)) => ElementModel::Radio(
            c,
            Some(o.key),
        ),
        (ElementModel::Select(c, _), FieldValueModel::Choice(o)) => ElementModel::Select(
            c,
            Some(o.key),
        ),
        (ElementModel::MultiSelect(c, _), FieldValueModel::Choices(os)) => ElementModel::MultiSelect(
            c,
            option_keys(os),
        ),
        (ElementModel::Passthrough(_), FieldValueModel::Raw(s)) => ElementModel::Passthrough(
            Some(s),
        ),
        (ElementModel::PassthroughList(_), FieldValueModel::RawList(l)) => ElementModel::PassthroughList(
            l,
        ),
        (_, _) => e,
    }
}

impl Element {
    /// Records one raw input into the element's intermediate.
    pub fn parse(&mut self, value: &str)
        ensures
            final(self)@ == element_parse(old(self)@, value@),
    {
        match self {
            Element::Text(d, m) => d.parse(value, m),
            Element::Password(d, m) => d.parse(value, m),
            Element::Number(d, m) => d.parse(value, m),
            Element::Date(d, m) => d.parse(value, m),
            Element::Checkbox(d, m) => d.parse(value, m),
            Element::Radio(d, m) => d.parse(value, m),
            Element::Select(d, m) => d.parse(value, m),
            Element::MultiSelect(d, m) => d.parse(value, m),
            Element::Passthrough(d, m) => d.parse(value, m),
            Element::PassthroughList(d, m) => d.parse(value, m),
        }
    }

    /// Validates the element's current intermediate.
    pub fn validate(&self) -> (r: Result<FieldValue, &'static str>)
        ensures
            crate::result_model(r) == element_validate(self@),
    {
        match self {
            Element::Text(d, m) => match d.validate(m) {
                Ok(s) => Ok(FieldValue::Text(s)),
                Err(e) => Err(e),
            },
            Element::Password(d, m) => match d.validate(m) {
                Ok(s) => Ok(FieldValue::Text(s)),
                Err(e) => Err(e),
            },
            Element::Number(d, m) => match d.validate(m) {
                Ok(n) => Ok(FieldValue::Number(n)),
                Err(e) => Err(e),
            },
            Element::Date(d, m) => match d.validate(m) {
                Ok(dt) => Ok(FieldValue::Date(dt)),
                Err(e) => Err(e),
            },
            Element::Checkbox(d, m) => match d.validate(m) {
                Ok(b) => Ok(FieldValue::Toggle(b)),
                Err(e) => Err(e),
            },
            Element::Radio(d, m) => match d.validate(m) {
                Ok(o) => Ok(FieldValue::Choice(o)),
                Err(e) => Err(e),
            },
            Element::Select(d, m) => match d.validate(m) {
                Ok(o) => Ok(FieldValue::Choice(o)),
                Err(e) => Err(e),
            },
            Element::MultiSelect(d, m) => match d.validate(m) {
                Ok(os) => Ok(FieldValue::Choices(os)),
                Err(e) => Err(e),
            },
            Element::Passthrough(d, m) => match d.validate(m) {
                Ok(s) => Ok(FieldValue::Raw(s)),
                Err(e) => Err(e),
            },
            Element::PassthroughList(d, m) => match d.validate(m) {
                Ok(l) => Ok(FieldValue::RawList(l)),
                Err(e) => Err(e),
            },
        }
    }

    /// Whether the element's intermediate holds any input at all.
    pub fn has_value(&self) -> (r: bool)
        ensures
            r == element_has_value(self@),
    {
        match self {
            Element::Text(_, m) => m.has_value(),
            Element::Password(_, m) => m.has_value(),
            Element::Number(_, m) => m.has_value(),
            Element::Date(_, m) => m.has_value(),
            Element::Checkbox(_, m) => m.has_value(),
            Element::Radio(_, m) => m.has_value(),
            Element::Select(_, m) => m.has_value(),
            Element::MultiSelect(_, m) => m.has_value(),
            Element::Passthrough(_, m) => m.has_value(),
            Element::PassthroughList(_, m) => m.has_value(),
        }
    }

    /// Re-populates the element's intermediate from an existing typed value;
    /// a value of a kind other than the element's leaves it unchanged.
    pub fn load(&mut self, value: FieldValue)
        ensures
            final(self)@ == element_load(old(self)@, value@),
    {
        match self {
            Element::Text(d, m) => {
                if let FieldValue::Text(s) = value {
                    *m = d.load(s);
                }
            },
            Element::Password(d, m) => {
                if let FieldValue::Text(s) = value {
                    *m = d.load(s);
                }
            },
            Element::Number(d, m) => {
                if let FieldValue::Number(n) = value {
                    *m = d.load(n);
                }
            },
            Element::Date(d, m) => {
                if let FieldValue::Date(dt) = value {
                    *m = d.load(dt);
                }
            },
            Element::Checkbox(d, m) => {
                if let FieldValue::Toggle(b) = value {
                    *m = d.load(b);
                }
            },
            Element::Radio(d, m) => {
                if let FieldValue::Choice(o) = value {
                    *m = d.load(o);
                }
            },
            Element::Select(d, m) => {
                if let FieldValue::Choice(o) = value {
                    *m = d.load(o);
                }
            },
            Element::MultiSelect(d, m) => {
                if let FieldValue::Choices(os) = value {
                    *m = d.load(os);
                }
            },
            Element::Passthrough(d, m) => {
                if let FieldValue::Raw(s) = value {
                    *m = d.load(s);
                }
            },
            Element::PassthroughList(d, m) => {
                if let FieldValue::RawList(l) = value {
                    *m = d.load(l);
                }
            },
        }
    }
}

} // verus!
