//! The option value used by the choice-based kinds (radio button, select,
//! multiselect): a wire-level key that identifies the choice, and a label
//! shown to the person filling the form. Two options are the same choice
//! exactly when their keys are equal.

use vstd::prelude::*;

verus! {

/// One selectable option.
#[derive(Debug, PartialEq)]
pub struct SelectOption {
    /// The wire-level identifier round-tripped through the form payload.
    pub key: String,
    /// The label rendered next to or inside the input element.
    pub display_value: String,
}

/// The specification-level view of a [`SelectOption`].
pub struct SelectOptionModel {
    pub key: Seq<char>,
    pub display_value: Seq<char>,
}

impl View for SelectOption {
    type V = SelectOptionModel;

    open spec fn view(&self) -> SelectOptionModel {
        SelectOptionModel { key: self.key@, display_value: self.display_value@ }
    }
}

impl DeepView for SelectOption {
    type V = SelectOptionModel;

    open spec fn deep_view(&self) -> SelectOptionModel {
        self.view()
    }
}

impl Clone for SelectOption {
    fn clone(&self) -> (r: Self)
        ensures
            r@ == self@,
    {
        SelectOption { key: self.key.clone(), display_value: self.display_value.clone() }
    }
}

impl SelectOption {
    /// Builds an option from its key and label.
    pub fn new(key: &str, display_value: &str) -> (r: SelectOption)
        ensures
            r@ == (SelectOptionModel { key: key@, display_value: display_value@ }),
    {
        SelectOption { key: key.to_owned(), display_value: display_value.to_owned() }
    }
}

/// The first position in `options` whose key is `key`, or `-1` when no
/// option has that key.
pub open spec fn find_key(options: Seq<SelectOptionModel>, key: Seq<char>) -> int
    decreases options.len(),
{
    if options.len() == 0 {
        -1
    } else if options[0].key == key {
        0
    } else {
        let r = find_key(options.subrange(1, options.len() as int), key);
        if r == -1 {
            -1
        } else {
            r + 1
        }
    }
}

/// Whether some option in `options` carries `key`.
pub open spec fn has_key(options: Seq<SelectOptionModel>, key: Seq<char>) -> bool {
    find_key(options, key) != -1
}

/// What [`find_key`] returns: `-1` exactly when no option has the key, and
/// otherwise the first position that does.
pub proof fn lemma_find_key(options: Seq<SelectOptionModel>, key: Seq<char>)
    ensures
        find_key(options, key) == -1 ==> forall|i: int|
            0 <= i < options.len() ==> (#[trigger] options[i]).key != key,
        find_key(options, key) != -1 ==> {
            let j = find_key(options, key);
            &&& 0 <= j < options.len()
            &&& options[j].key == key
            &&& forall|i: int| 0 <= i < j ==> (#[trigger] options[i]).key != key
        },
    decreases options.len(),
{
    if options.len() > 0 && options[0].key != key {
        let tail = options.subrange(1, options.len() as int);
        lemma_find_key(tail, key);
        assert(forall|i: int| 1 <= i < options.len() ==> (#[trigger] options[i]) == tail[i - 1]);
    }
}

/// Looks up the first option whose key is `key`.
pub fn find_by_key(options: &Vec<SelectOption>, key: &str) -> (r: Option<SelectOption>)
    ensures
        ({
            let j = find_key(options.deep_view(), key@);
            match r {
                Some(o) => j != -1 && o@ == options.deep_view()[j],
                None => j == -1,
            }
        }),
{
    proof {
        lemma_find_key(options.deep_view(), key@);
    }
    let n = options.len();
    let mut i: usize = 0;
    while i < n
        invariant
            i <= n,
            n == options.deep_view().len(),
            forall|j: int| 0 <= j < i ==> (#[trigger] options.deep_view()[j]).key != key@,
        decreases n - i,
    {
        proof {
            assert(options.deep_view()[i as int] == options@[i as int].deep_view());
        }
        if crate::str_eq(options[i].key.as_str(), key) {
            proof {
                lemma_find_key_at(options.deep_view(), key@, i as int);
            }
            return Some(options[i].clone());
        }
        i += 1;
    }
    proof {
        if find_key(options.deep_view(), key@) != -1 {
            let j = find_key(options.deep_view(), key@);
            assert(options.deep_view()[j].key == key@);
        }
    }
    None
}

/// If position `at` holds the key and no earlier position does, then `at` is
/// what [`find_key`] returns.
pub proof fn lemma_find_key_at(options: Seq<SelectOptionModel>, key: Seq<char>, at: int)
    requires
        0 <= at < options.len(),
        options[at].key == key,
        forall|i: int| 0 <= i < at ==> (#[trigger] options[i]).key != key,
    ensures
        find_key(options, key) == at,
    decreases at,
{
    if at > 0 {
        lemma_find_key_at(options.subrange(1, options.len() as int), key, at - 1);
    }
}

} // verus!
