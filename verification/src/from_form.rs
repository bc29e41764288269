//! The aggregate engine: any number of fields composed into one form, with
//! the three whole-form operations. `apply` dispatches one raw named value
//! to the field owning that wire name (an unknown name is a hard failure);
//! `finish` validates every field without short-circuiting, records every
//! error, and yields the typed values only when no field is in error;
//! `load_from` re-populates every field's intermediate from existing values.

use vstd::prelude::*;
use crate::element::{
    FieldValue,
    FieldValueModel,
    element_has_value,
    element_load,
    element_parse,
    element_validate,
};
use crate::{FieldModel, FormField};

verus! {

/// The per-submission aggregate: one [`FormField`] per domain field.
#[derive(Debug)]
pub struct Form {
    pub fields: Vec<FormField>,
}

impl View for Form {
    type V = Seq<FieldModel>;

    open spec fn view(&self) -> Seq<FieldModel> {
        self.fields.deep_view()
    }
}

/// The first position whose field owns wire name `name`, or `-1` when no
/// field does.
pub open spec fn find_field(fs: Seq<FieldModel>, name: Seq<char>) -> int
    decreases fs.len(),
{
    if fs.len() == 0 {
        -1
    } else if fs[0].field_name == name {
        0
    } else {
        let r = find_field(fs.subrange(1, fs.len() as int), name);
        if r == -1 {
            -1
        } else {
            r + 1
        }
    }
}

/// What [`find_field`] returns: `-1` exactly when no field owns the name,
/// and otherwise the first position that does.
pub proof fn lemma_find_field(fs: Seq<FieldModel>, name: Seq<char>)
    ensures
        find_field(fs, name) == -1 ==> forall|i: int|
            0 <= i < fs.len() ==> (#[trigger] fs[i]).field_name != name,
        find_field(fs, name) != -1 ==> {
            let j = find_field(fs, name);
            &&& 0 <= j < fs.len()
            &&& fs[j].field_name == name
            &&& forall|i: int| 0 <= i < j ==> (#[trigger] fs[i]).field_name != name
        },
    decreases fs.len(),
{
    if fs.len() > 0 && fs[0].field_name != name {
        let tail = fs.subrange(1, fs.len() as int);
        lemma_find_field(tail, name);
        assert(forall|i: int| 1 <= i < fs.len() ==> (#[trigger] fs[i]) == tail[i - 1]);
    }
}

/// If position `at` owns the name and no earlier position does, then `at` is
/// what [`find_field`] returns.
pub proof fn lemma_find_field_at(fs: Seq<FieldModel>, name: Seq<char>, at: int)
    requires
        0 <= at < fs.len(),
        fs[at].field_name == name,
        forall|i: int| 0 <= i < at ==> (#[trigger] fs[i]).field_name != name,
    ensures
        find_field(fs, name) == at,
    decreases at,
{
    if at > 0 {
        lemma_find_field_at(fs.subrange(1, fs.len() as int), name, at - 1);
    }
}

/// One field after one raw input was dispatched to it.
pub open spec fn field_parse(f: FieldModel, v: Seq<char>) -> FieldModel {
    FieldModel { element: element_parse(f.element, v), ..f }
}

/// The whole form after one named raw value: the first field owning the
/// name, if any, takes the input; nothing else changes.
pub open spec fn form_apply(fs: Seq<FieldModel>, name: Seq<char>, v: Seq<char>) -> Seq<FieldModel> {
    let i = find_field(fs, name);
    if i == -1 {
        fs
    } else {
        fs.update(i, field_parse(fs[i], v))
    }
}

/// One field's outcome at finish time: an optional field with no input at
/// all resolves to no value without being validated; every other field is
/// validated, yielding its typed value or its error.
///
/// The optional-field rule takes precedence over a checkbox's required-true
/// rule: an untouched checkbox on an *optional* field resolves to no value,
/// so `required_true` only bites on required (plain boolean) fields — the
/// only shape on which the flag is meaningful.
pub open spec fn field_outcome(f: FieldModel) -> Result<Option<FieldValueModel>, Seq<char>> {
    if !f.required && !element_has_value(f.element) {
        Ok(None)
    } else {
        match element_validate(f.element) {
            Ok(v) => Ok(Some(v)),
            Err(e) => Err(e),
        }
    }
}

/// One field after finish: a failed validation records its message as the
/// field's error; a field that was not in error keeps its previous error
/// state, and intermediates are never touched.
pub open spec fn field_finish(f: FieldModel) -> FieldModel {
    match field_outcome(f) {
        Err(e) => FieldModel { error: Some(e), ..f },
        Ok(_) => f,
    }
}

/// The whole form after finish: every field validated independently.
pub open spec fn finish_fields(fs: Seq<FieldModel>) -> Seq<FieldModel> {
    fs.map_values(|f: FieldModel| field_finish(f))
}

/// Whether finish succeeds: every field's outcome is a success and no field
/// carried an error from before.
pub open spec fn form_success(fs: Seq<FieldModel>) -> bool {
    forall|i: int|
        0 <= i < fs.len() ==> field_outcome(#[trigger] fs[i]) is Ok && fs[i].error is None
}

/// The typed values yielded by a successful finish, one per field.
pub open spec fn finish_values(fs: Seq<FieldModel>) -> Seq<Option<FieldValueModel>> {
    fs.map_values(|f: FieldModel| field_outcome(f)->Ok_0)
}

/// The whole form after existing values were loaded: each provided value
/// re-populates its field's intermediate, a missing value leaves its field
/// untouched.
pub open spec fn form_load(fs: Seq<FieldModel>, vs: Seq<Option<FieldValueModel>>) -> Seq<
    FieldModel,
> {
    Seq::new(
        fs.len(),
        |i: int|
            if i < vs.len() && vs[i] is Some {
                FieldModel { element: element_load(fs[i].element, vs[i]->0), ..fs[i] }
            } else {
                fs[i]
            },
    )
}

impl Form {
    /// Builds a form from its fields.
    pub fn new(fields: Vec<FormField>) -> (r: Form)
        ensures
            r@ == fields.deep_view(),
    {
        Form { fields }
    }

    /// Dispatches one named raw value to the field owning the wire name.
    /// Returns whether such a field exists; an unknown name changes nothing
    /// and is a hard failure for the whole submission.
    pub fn apply(&mut self, name: &str, value: &str) -> (r: bool)
        ensures
            r == (find_field(old(self)@, name@) != -1),
            final(self)@ == form_apply(old(self)@, name@, value@),
    {
        let n = self.fields.len();
        let mut i: usize = 0;
        while i < n
            invariant
                i <= n,
                n == self.fields.len(),
                self@ == old(self)@,
                forall|j: int| 0 <= j < i ==> (#[trigger] self@[j]).field_name != name@,
            decreases n - i,
        {
            proof {
                assert(self@[i as int] == self.fields@[i as int].deep_view());
            }
            if crate::str_eq(self.fields[i].field_name.as_str(), name) {
                proof {
                    lemma_find_field_at(self@, name@, i as int);
                }
                let field = &mut self.fields[i];
                field.element.parse(value);
                return true;
            }
            i += 1;
        }
        proof {
            lemma_find_field(self@, name@);
        }
        false
    }

    /// Validates every field exactly once, recording each failure as that
    /// field's error, and yields the typed values — one entry per field, with
    /// nothing for an optional field that received no input — only when no
    /// field is in error. Intermediates always keep their last parsed state,
    /// so a failed submission can be re-rendered in full.
    pub fn finish(&mut self) -> (r: Option<Vec<Option<FieldValue>>>)
        ensures
            final(self)@ == finish_fields(old(self)@),
            r is Some <==> form_success(old(self)@),
            r is Some ==> r->0.deep_view() == finish_values(old(self)@),
    {
        let n = self.fields.len();
        let mut values: Vec<Option<FieldValue>> = Vec::new();
        let mut ok = true;
        let mut i: usize = 0;
        while i < n
            invariant
                i <= n,
                n == self.fields.len(),
                self@.len() == old(self)@.len(),
                forall|j: int| i <= j < n ==> self@[j] == old(self)@[j],
                forall|j: int| 0 <= j < i ==> self@[j] == field_finish(#[trigger] old(self)@[j]),
                values.deep_view().len() == i,
                forall|j: int|
                    0 <= j < i ==> field_outcome(#[trigger] old(self)@[j]) is Ok
                        ==> values.deep_view()[j] == field_outcome(old(self)@[j])->Ok_0,
                ok <==> forall|j: int|
                    0 <= j < i ==> field_outcome(#[trigger] old(self)@[j]) is Ok && old(
                        self,
                    )@[j].error is None,
            decreases n - i,
        {
            proof {
                assert(self@[i as int] == self.fields@[i as int].deep_view());
            }
            let skip = !self.fields[i].required && !self.fields[i].element.has_value();
            if skip {
                values.push(None);
            } else {
                match self.fields[i].element.validate() {
                    Ok(v) => {
                        values.push(Some(v));
                    },
                    Err(e) => {
                        values.push(None);
                        let field = &mut self.fields[i];
                        field.set_error(e.to_owned());
                        ok = false;
                    },
                }
            }
            if self.fields[i].error.is_some() {
                ok = false;
            }
            i += 1;
        }
        proof {
            assert(self@ =~= finish_fields(old(self)@));
        }
        if ok {
            proof {
                assert(values.deep_view() =~= finish_values(old(self)@));
            }
            Some(values)
        } else {
            None
        }
    }

    /// Whether no field currently carries an error.
    pub fn valid(&self) -> (r: Option<()>)
        ensures
            r is Some <==> forall|i: int| 0 <= i < self@.len() ==> (#[trigger] self@[i]).error is None,
    {
        let n = self.fields.len();
        let mut i: usize = 0;
        while i < n
            invariant
                i <= n,
                n == self.fields.len(),
                forall|j: int| 0 <= j < i ==> (#[trigger] self@[j]).error is None,
            decreases n - i,
        {
            proof {
                assert(self@[i as int] == self.fields@[i as int].deep_view());
            }
            if self.fields[i].error.is_some() {
                return None;
            }
            i += 1;
        }
        Some(())
    }

    /// Re-populates every field's intermediate from existing typed values,
    /// one entry per field; a missing entry leaves its field untouched, so
    /// optional domain fields holding nothing keep their absent state.
    pub fn load_from(&mut self, values: Vec<Option<FieldValue>>)
        ensures
            final(self)@ == form_load(old(self)@, values.deep_view()),
    {
        let n = self.fields.len();
        let ghost all = values.deep_view();
        let mut values = values;
        // entries beyond the fields correspond to nothing and are dropped
        while values.len() > n
            invariant
                n == self.fields.len(),
                self@ == old(self)@,
                values.deep_view().len() <= all.len(),
                values.deep_view().len() >= n || values.deep_view().len() == all.len(),
                forall|k: int|
                    0 <= k < values.deep_view().len() ==> values.deep_view()[k] == all[k],
            decreases values.len(),
        {
            values.pop();
        }
        proof {
            assert(forall|j: int|
                values@.len() <= j < n ==> form_load(old(self)@, all)[j] == old(self)@[j]);
        }
        while values.len() > 0
            invariant
                n == self.fields.len(),
                self@.len() == old(self)@.len(),
                values.deep_view().len() <= n,
                values.deep_view().len() <= all.len(),
                forall|k: int|
                    0 <= k < values.deep_view().len() ==> values.deep_view()[k] == all[k],
                forall|j: int| 0 <= j < values@.len() ==> self@[j] == old(self)@[j],
                forall|j: int|
                    values@.len() <= j < n ==> self@[j] == form_load(old(self)@, all)[j],
            decreases values.len(),
        {
            let ghost pre = self@;
            let ghost prevv = values@;
            let v = values.pop().unwrap();
            let i = values.len();
            proof {
                assert(v == prevv[prevv.len() - 1]);
                assert(v.deep_view() == all[i as int]);
                assert(forall|k: int| 0 <= k < values@.len() ==> values@[k] == prevv[k]);
            }
            match v {
                Some(value) => {
                    let field = &mut self.fields[i];
                    field.element.load(value);
                },
                None => {},
            }
            proof {
                assert(self@[i as int] == form_load(old(self)@, all)[i as int]);
                assert forall|j: int| 0 <= j < n && j != i implies self@[j] == pre[j] by {
                    assert(self@[j] == self.fields@[j].deep_view());
                }
                assert forall|j: int|
                    values@.len() <= j < n implies self@[j] == form_load(old(self)@, all)[j] by {
                    if j == i as int {
                        assert(self@[j] == form_load(old(self)@, all)[j]);
                    } else {
                        assert(j > i);
                        assert(self@[j] == pre[j]);
                        assert(pre[j] == form_load(old(self)@, all)[j]);
                    }
                }
            }
        }
        proof {
            assert(self@ =~= form_load(old(self)@, all));
        }
    }
}

/// The capability of a per-submission aggregate: it can be freshly built,
/// and it accepts one named raw value at a time.
pub trait FormSpec: Sized {
    /// Builds the fresh aggregate, all fields at their absent state.
    fn generate_spec() -> Self;

    /// Dispatches one named raw value; returns whether the name was known.
    fn parse_field(&mut self, name: &str, value: &str) -> bool;
}

impl FormSpec for Form {
    fn generate_spec() -> Self {
        Form { fields: Vec::new() }
    }

    fn parse_field(&mut self, name: &str, value: &str) -> bool {
        self.apply(name, value)
    }
}

/// Ties a domain type to the aggregate that collects and validates its
/// fields.
pub trait FormSpecable {
    type Spec: FormSpec;
}

/// A freshly populated aggregate for the domain type `T`, as produced from
/// one incoming submission.
pub struct FromForm<T: FormSpecable>(pub T::Spec);

} // verus!
