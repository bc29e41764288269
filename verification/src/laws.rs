//! The general laws of the field lifecycle, stated over the specification
//! model and proved once and for all: the load round-trip, the empty-input
//! rule, overwrite for single-valued kinds, accumulation for multi-valued
//! kinds, and the absence of short-circuiting at finish time.

use vstd::prelude::*;
use vstd::utf8::encode_utf8;
use crate::element::{
    ElementModel,
    FieldValueModel,
    element_has_value,
    element_load,
    element_parse,
    element_validate,
};
use crate::FieldModel;
use crate::from_form::{field_finish, field_outcome, finish_fields, form_success};
use crate::multiselect::{all_keys_resolve, multi_validate, option_keys, selected_options};
use crate::selectable::{SelectOptionModel, find_key, has_key, lemma_find_key};

verus! {

/// Whether `v` is a legal domain value for the element `e`: it is of the
/// element's kind and the element's static configuration accepts it. For the
/// choice kinds the chosen option must be the first option carrying its key,
/// since keys are the sole identity of a choice; for the multiselect the
/// selection must be exactly the configured options carrying its keys, in
/// option-list order.
pub open spec fn legal_value(e: ElementModel, v: FieldValueModel) -> bool {
    match (e, v) {
        (ElementModel::Text(c, _), FieldValueModel::Text(s)) => {
            &&& (c.min_length is Some ==> c.min_length->0 <= encode_utf8(s).len())
            &&& (c.max_length is Some ==> encode_utf8(s).len() <= c.max_length->0)
        },
        (ElementModel::Password(c, _), FieldValueModel::Text(s)) => {
            &&& (c.min_length is Some ==> c.min_length->0 <= encode_utf8(s).len())
            &&& (c.max_length is Some ==> encode_utf8(s).len() <= c.max_length->0)
        },
        (ElementModel::Number(c, _), FieldValueModel::Number(n)) => {
            &&& (c.min is Some ==> c.min->0 <= n)
            &&& (c.max is Some ==> n <= c.max->0)
        },
        (ElementModel::Date(c, _), FieldValueModel::Date(d)) => {
            &&& (c.min is Some ==> !crate::date::date_before(d, c.min->0))
            &&& (c.max is Some ==> !crate::date::date_before(c.max->0, d))
        },
        (ElementModel::Checkbox(c, _), FieldValueModel::Toggle(b)) => b || !c.required_true,
        (ElementModel::Radio(c, _), FieldValueModel::Choice(o)) => {
            let j = find_key(c.options, o.key);
            j != -1 && c.options[j] == o
        },
        (ElementModel::Select(c, _), FieldValueModel::Choice(o)) => {
            let j = find_key(c.options, o.key);
            j != -1 && c.options[j] == o
        },
        (ElementModel::MultiSelect(c, _), FieldValueModel::Choices(os)) => {
            let keys = option_keys(os);
            &&& all_keys_resolve(c.options, keys)
            &&& os == selected_options(c.options, keys)
        },
        (ElementModel::Passthrough(_), FieldValueModel::Raw(_)) => true,
        (ElementModel::PassthroughList(_), FieldValueModel::RawList(_)) => true,
        (_, _) => false,
    }
}

/// Round-trip law: loading any legal domain value into a field and
/// validating it yields exactly that value back.
pub proof fn lemma_round_trip(e: ElementModel, v: FieldValueModel)
    requires
        legal_value(e, v),
    ensures
        element_validate(element_load(e, v)) == Ok::<FieldValueModel, Seq<char>>(v),
{
}

/// Empty-input law, parse half: empty text resets every single-valued kind
/// to the absent state, whatever was stored before, and is a no-op for the
/// multi-valued kinds.
pub proof fn lemma_empty_input_parse(e: ElementModel, v: Seq<char>)
    requires
        v.len() == 0,
    ensures
        !(e is MultiSelect) && !(e is PassthroughList) ==> !element_has_value(
            element_parse(e, v),
        ),
        e is MultiSelect || e is PassthroughList ==> element_parse(e, v) == e,
{
}

/// Empty-input law, validate half: a field whose intermediate holds no input
/// fails validation exactly when the field is required. The checkbox is
/// excepted: absence is a plain unchecked box, governed by its own
/// required-true rule. So are the two kinds for which an empty selection or
/// list is itself a valid value.
pub proof fn lemma_absent_outcome(f: FieldModel)
    requires
        !element_has_value(f.element),
    ensures
        !(f.element is Checkbox) && !(f.element is MultiSelect) && !(f.element
            is PassthroughList) ==> (field_outcome(f) is Ok <==> !f.required),
        f.element is Checkbox ==> (field_outcome(f) is Ok <==> !f.required || !f.element
            ->Checkbox_0.required_true),
        f.element is MultiSelect ==> field_outcome(f) is Ok,
        f.element is PassthroughList ==> field_outcome(f) is Ok,
{
}

/// Idempotent overwrite law: for every single-valued kind, parsing `a` and
/// then parsing `b` leaves the same state as parsing `b` alone.
pub proof fn lemma_overwrite(e: ElementModel, a: Seq<char>, b: Seq<char>)
    requires
        !(e is MultiSelect),
        !(e is PassthroughList),
    ensures
        element_parse(element_parse(e, a), b) == element_parse(e, b),
{
}

/// Accumulation law: for the multi-valued kinds, parsing `k1` and then `k2`
/// appends both, in call order, without deduplication.
pub proof fn lemma_accumulate(e: ElementModel, k1: Seq<char>, k2: Seq<char>)
    requires
        k1.len() > 0,
        k2.len() > 0,
    ensures
        e is MultiSelect ==> element_parse(element_parse(e, k1), k2) == ElementModel::MultiSelect(
            e->MultiSelect_0,
            e->MultiSelect_1.push(k1).push(k2),
        ),
        e is PassthroughList ==> element_parse(element_parse(e, k1), k2)
            == ElementModel::PassthroughList(e->PassthroughList_0.push(k1).push(k2)),
{
}

/// Whether the options' keys are pairwise distinct.
pub open spec fn distinct_keys(options: Seq<SelectOptionModel>) -> bool {
    forall|i: int, j: int|
        0 <= i < j < options.len() ==> (#[trigger] options[i]).key != (#[trigger] options[j]).key
}

/// Whether `v` occurs within `w` as a subsequence: `v`'s elements appear in
/// `w`, in order.
pub open spec fn subsequence_of(v: Seq<SelectOptionModel>, w: Seq<SelectOptionModel>) -> bool
    decreases w.len(),
{
    if v.len() == 0 {
        true
    } else if w.len() == 0 {
        false
    } else if v.last() == w.last() {
        subsequence_of(v.drop_last(), w.drop_last())
    } else {
        subsequence_of(v, w.drop_last())
    }
}

/// Appending an option adds exactly its key to the keys an option list
/// carries.
proof fn lemma_has_key_push(options: Seq<SelectOptionModel>, o: SelectOptionModel, k: Seq<char>)
    ensures
        has_key(options.push(o), k) == (has_key(options, k) || o.key == k),
    decreases options.len(),
{
    let w = options.push(o);
    if options.len() == 0 {
        assert(w[0] == o);
        assert(w.subrange(1, w.len() as int) =~= Seq::<SelectOptionModel>::empty());
        assert(find_key(Seq::<SelectOptionModel>::empty(), k) == -1);
        if o.key == k {
            assert(find_key(w, k) == 0);
        } else {
            assert(find_key(w, k) == -1);
        }
        assert(find_key(options, k) == -1);
    } else {
        let wtail = w.subrange(1, w.len() as int);
        let tail = options.subrange(1, options.len() as int);
        assert(w[0] == options[0]);
        assert(wtail =~= tail.push(o));
        lemma_has_key_push(tail, o, k);
        lemma_find_key(wtail, k);
        lemma_find_key(tail, k);
        if options[0].key == k {
            assert(find_key(w, k) == 0);
            assert(find_key(options, k) == 0);
        } else {
            assert(find_key(w, k) == (if find_key(wtail, k) == -1 {
                -1
            } else {
                find_key(wtail, k) + 1
            }));
            assert(find_key(options, k) == (if find_key(tail, k) == -1 {
                -1
            } else {
                find_key(tail, k) + 1
            }));
        }
    }
}

/// A key no option carries does not change which options a key set selects.
proof fn lemma_selected_extra_key(
    options: Seq<SelectOptionModel>,
    keys: Seq<Seq<char>>,
    k: Seq<char>,
)
    requires
        !has_key(options, k),
    ensures
        selected_options(options, keys.push(k)) == selected_options(options, keys),
    decreases options.len(),
{
    if options.len() > 0 {
        let o = options.last();
        lemma_find_key(options, k);
        assert(options[options.len() - 1].key != k);
        lemma_find_key(options.drop_last(), k);
        if has_key(options.drop_last(), k) {
            let j = find_key(options.drop_last(), k);
            assert(options.drop_last()[j] == options[j]);
            assert(false);
        }
        lemma_selected_extra_key(options.drop_last(), keys, k);
        assert(keys.push(k).contains(o.key) == keys.contains(o.key)) by {
            if keys.contains(o.key) {
                let i = choose|i: int| 0 <= i < keys.len() && keys[i] == o.key;
                assert(keys.push(k)[i] == o.key);
            }
            if keys.push(k).contains(o.key) {
                let i = choose|i: int|
                    0 <= i < keys.push(k).len() && keys.push(k)[i] == o.key;
                if i < keys.len() {
                    assert(keys[i] == o.key);
                } else {
                    assert(keys.push(k)[i] == k);
                }
            }
        }
    }
}

/// Round-trip law for the multiselect in subsequence form: when the option
/// keys are pairwise distinct, every in-order subselection of the option
/// list — the empty one included — validates back to exactly itself from its
/// keys, which are what loading the selection stores.
pub proof fn lemma_multiselect_round_trip(
    options: Seq<SelectOptionModel>,
    v: Seq<SelectOptionModel>,
)
    requires
        distinct_keys(options),
        subsequence_of(v, options),
    ensures
        all_keys_resolve(options, option_keys(v)),
        selected_options(options, option_keys(v)) == v,
        multi_validate(options, option_keys(v)) == Ok::<Seq<SelectOptionModel>, Seq<char>>(v),
    decreases options.len(),
{
    let keys = option_keys(v);
    if options.len() == 0 {
        assert(v.len() == 0);
        assert(selected_options(options, keys) =~= v);
    } else {
        let o = options.last();
        let rest = options.drop_last();
        assert(options =~= rest.push(o));
        assert(distinct_keys(rest)) by {
            assert forall|i: int, j: int|
                0 <= i < j < rest.len() implies (#[trigger] rest[i]).key != (
            #[trigger] rest[j]).key by {
                assert(rest[i] == options[i]);
                assert(rest[j] == options[j]);
            }
        }
        if v.len() > 0 && v.last() == o {
            let v2 = v.drop_last();
            let keys2 = option_keys(v2);
            lemma_multiselect_round_trip(rest, v2);
            assert(keys =~= keys2.push(o.key)) by {
                assert(forall|i: int| 0 <= i < v.len() ==> keys[i] == (#[trigger] v[i]).key);
                assert(forall|i: int| 0 <= i < v2.len() ==> keys2[i] == (#[trigger] v2[i]).key);
                assert(forall|i: int| 0 <= i < v2.len() ==> v2[i] == v[i]);
            }
            lemma_find_key(rest, o.key);
            if has_key(rest, o.key) {
                let j = find_key(rest, o.key);
                assert(rest[j] == options[j]);
                assert(false);
            }
            lemma_selected_extra_key(rest, keys2, o.key);
            assert(keys.contains(o.key)) by {
                assert(keys[keys.len() - 1] == o.key);
            }
            assert(selected_options(options, keys) == selected_options(rest, keys).push(o));
            assert(selected_options(rest, keys) == selected_options(rest, keys2));
            assert(selected_options(options, keys) =~= v);
            assert forall|i: int| 0 <= i < keys.len() implies has_key(
                options,
                #[trigger] keys[i],
            ) by {
                lemma_has_key_push(rest, o, keys[i]);
                if i < keys2.len() {
                    assert(keys[i] == keys2[i]);
                }
            }
        } else {
            lemma_multiselect_round_trip(rest, v);
            assert(!keys.contains(o.key)) by {
                if keys.contains(o.key) {
                    let i = choose|i: int| 0 <= i < keys.len() && keys[i] == o.key;
                    assert(keys[i] == (#[trigger] v[i]).key);
                    assert(has_key(rest, o.key));
                    lemma_find_key(rest, o.key);
                    let j = find_key(rest, o.key);
                    assert(rest[j] == options[j]);
                    assert(false);
                }
            }
            assert(selected_options(options, keys) == selected_options(rest, keys));
            assert forall|i: int| 0 <= i < keys.len() implies has_key(
                options,
                #[trigger] keys[i],
            ) by {
                lemma_has_key_push(rest, o, keys[i]);
            }
        }
    }
}

/// No-short-circuit law: at finish time every field is judged on its own.
/// A field whose outcome fails gets exactly its own message recorded, a
/// field whose outcome succeeds stays free of errors — whether or not any
/// other field failed — and one failing field is enough to fail the whole
/// form.
pub proof fn lemma_no_short_circuit(fs: Seq<FieldModel>, i: int, j: int)
    requires
        0 <= i < fs.len(),
        0 <= j < fs.len(),
        field_outcome(fs[i]) is Ok,
        fs[i].error is None,
        field_outcome(fs[j]) is Err,
    ensures
        finish_fields(fs)[i].error is None,
        finish_fields(fs)[j].error == Some(field_outcome(fs[j])->Err_0),
        !form_success(fs),
{
    assert(finish_fields(fs)[i] == field_finish(fs[i]));
    assert(finish_fields(fs)[j] == field_finish(fs[j]));
}

} // verus!
