//! A field-level input validation engine for web forms.
//!
//! Raw textual key/value pairs are applied one at a time to a set of typed
//! form fields; each field parses its input into a kind-specific intermediate
//! state, and a final validation pass turns the intermediates into typed
//! values or collects one error per invalid field, never short-circuiting, so
//! that a caller can re-render a form showing every problem at once.
//!
//! The kinds of input element form a closed set, one module each; the
//! [`element::Element`] enum tags a kind's static configuration together with
//! its mutable intermediate state, and [`from_form::Form`] composes any
//! number of fields into one aggregate with apply / finish / load operations.

pub mod checkbox;
pub mod date;
pub mod date_picker;
pub mod element;
pub mod from_form;
pub mod laws;
pub mod multiselect;
pub mod number_field;
pub mod numeric;
pub mod passthrough;
pub mod password_field;
pub mod radio_button;
pub mod select;
pub mod selectable;
pub mod text_field;
pub mod urlencoded;
pub mod validation_value;

use vstd::prelude::*;

verus! {

/// The capability shared by all intermediate representations: reporting
/// whether the field has received any input at all.
pub trait Intermediate: Sized {
    /// Whether this intermediate holds input, at the specification level.
    spec fn spec_has_value(&self) -> bool;

    /// Whether this intermediate holds input.
    fn has_value(&self) -> (r: bool)
        ensures
            r == self.spec_has_value(),
    ;
}

impl<T> Intermediate for Option<T> {
    open spec fn spec_has_value(&self) -> bool {
        self is Some
    }

    fn has_value(&self) -> (r: bool)
        ensures
            r == self.spec_has_value(),
    {
        self.is_some()
    }
}

impl<T> Intermediate for crate::validation_value::Value<T> {
    open spec fn spec_has_value(&self) -> bool {
        !(*self is Absent)
    }

    fn has_value(&self) -> (r: bool)
        ensures
            r == self.spec_has_value(),
    {
        !self.is_none()
    }
}

impl<T> Intermediate for Vec<T> {
    open spec fn spec_has_value(&self) -> bool {
        self@.len() > 0
    }

    fn has_value(&self) -> (r: bool)
        ensures
            r == self.spec_has_value(),
    {
        self.len() > 0
    }
}

/// How a single-valued kind reacts to one raw input: empty text resets the
/// intermediate to the absent state, any other text overwrites it.
pub open spec fn single_parse_step(m: Option<Seq<char>>, v: Seq<char>) -> Option<Seq<char>> {
    if v.len() == 0 {
        None
    } else {
        Some(v)
    }
}

/// How a multi-valued kind reacts to one raw input: empty text is a no-op,
/// any other text is appended, without deduplication.
pub open spec fn list_parse_step(m: Seq<Seq<char>>, v: Seq<char>) -> Seq<Seq<char>> {
    if v.len() == 0 {
        m
    } else {
        m.push(v)
    }
}

/// The mathematical value of a validation result: the typed value's view on
/// success, the message's view on failure.
pub open spec fn result_model<T: DeepView>(r: Result<T, &'static str>) -> Result<
    T::V,
    Seq<char>,
> {
    match r {
        Ok(v) => Ok(v.deep_view()),
        Err(e) => Err(e@),
    }
}

/// Character-by-character string equality, proved against the views.
pub fn str_eq(a: &str, b: &str) -> (r: bool)
    ensures
        r == (a@ == b@),
{
    let n = a.unicode_len();
    if n != b.unicode_len() {
        return false;
    }
    let mut i: usize = 0;
    while i < n
        invariant
            i <= n,
            n == a@.len(),
            n == b@.len(),
            forall|j: int| 0 <= j < i ==> a@[j] == b@[j],
        decreases n - i,
    {
        if a.get_char(i) != b.get_char(i) {
            return false;
        }
        i += 1;
    }
    proof {
        assert(a@ =~= b@);
    }
    true
}

/// Whether the list of strings contains `key`, proved against the views.
pub fn contains_str(keys: &Vec<String>, key: &str) -> (r: bool)
    ensures
        r == keys.deep_view().contains(key@),
{
    let n = keys.len();
    let mut i: usize = 0;
    while i < n
        invariant
            i <= n,
            n == keys.deep_view().len(),
            forall|j: int| 0 <= j < i ==> keys.deep_view()[j] != key@,
        decreases n - i,
    {
        proof {
            assert(keys.deep_view()[i as int] == keys@[i as int]@);
        }
        if str_eq(keys[i].as_str(), key) {
            assert(keys.deep_view().contains(key@)) by {
                assert(keys.deep_view()[i as int] == key@);
            }
            return true;
        }
        i += 1;
    }
    assert(!keys.deep_view().contains(key@));
    false
}

/// One form input's full state: immutable identity and configuration, the
/// mutable intermediate capturing what has been typed or selected so far, and
/// the last validation error, if any.
///
/// Only `element`'s intermediate part and `error` change during a
/// submission's lifetime; everything else is fixed at construction.
#[derive(Debug)]
pub struct FormField {
    pub display_name: String,
    pub field_name: String,
    pub element: crate::element::Element,
    pub required: bool,
    pub error: Option<String>,
    pub help_text: Option<String>,
}

/// The specification-level view of a [`FormField`].
pub struct FieldModel {
    pub display_name: Seq<char>,
    pub field_name: Seq<char>,
    pub element: crate::element::ElementModel,
    pub required: bool,
    pub error: Option<Seq<char>>,
    pub help_text: Option<Seq<char>>,
}

impl View for FormField {
    type V = FieldModel;

    open spec fn view(&self) -> FieldModel {
        FieldModel {
            display_name: self.display_name@,
            field_name: self.field_name@,
            element: self.element@,
            required: self.required,
            error: self.error.deep_view(),
            help_text: self.help_text.deep_view(),
        }
    }
}

impl DeepView for FormField {
    type V = FieldModel;

    open spec fn deep_view(&self) -> FieldModel {
        self.view()
    }
}

impl FormField {
    /// Records a validation failure message on the field; everything else is
    /// left untouched.
    pub fn set_error(&mut self, error: String)
        ensures
            final(self)@ == (FieldModel { error: Some(error@), ..old(self)@ }),
    {
        self.error = Some(error);
    }
}

} // verus!
