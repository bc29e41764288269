//! A multiselect: any number of choices out of a configured option list,
//! realized as a group of checkboxes sharing one wire name.

use vstd::prelude::*;
use crate::list_parse_step;
use crate::selectable::{SelectOption, SelectOptionModel, find_by_key, has_key};

verus! {

/// Static configuration of a multiselect.
#[derive(Debug)]
pub struct MultiSelect {
    pub options: Vec<SelectOption>,
}

/// The specification-level view of a [`MultiSelect`].
pub struct MultiSelectConfig {
    pub options: Seq<SelectOptionModel>,
}

impl View for MultiSelect {
    type V = MultiSelectConfig;

    open spec fn view(&self) -> MultiSelectConfig {
        MultiSelectConfig { options: self.options.deep_view() }
    }
}

/// The keys of a selection, in selection order.
pub open spec fn option_keys(v: Seq<SelectOptionModel>) -> Seq<Seq<char>> {
    v.map_values(|o: SelectOptionModel| o.key)
}

/// The options whose key occurs in `keys`, in option-list order; duplicated
/// keys therefore select an option only once.
pub open spec fn selected_options(
    options: Seq<SelectOptionModel>,
    keys: Seq<Seq<char>>,
) -> Seq<SelectOptionModel>
    decreases options.len(),
{
    if options.len() == 0 {
        Seq::empty()
    } else {
        let rest = selected_options(options.drop_last(), keys);
        if keys.contains(options.last().key) {
            rest.push(options.last())
        } else {
            rest
        }
    }
}

/// Whether every stored key resolves against the current option list.
pub open spec fn all_keys_resolve(options: Seq<SelectOptionModel>, keys: Seq<Seq<char>>) -> bool {
    forall|i: int| 0 <= i < keys.len() ==> has_key(options, #[trigger] keys[i])
}

/// Validation of a multiselect: every stored key is re-resolved against the
/// current option list; any stale key fails the whole field, and otherwise
/// the selection is the matching options in option-list order. An empty
/// selection is valid.
pub open spec fn multi_validate(options: Seq<SelectOptionModel>, keys: Seq<Seq<char>>) -> Result<
    Seq<SelectOptionModel>,
    Seq<char>,
> {
    if all_keys_resolve(options, keys) {
        Ok(selected_options(options, keys))
    } else {
        Err("Invalid option selected"@)
    }
}

impl MultiSelect {
    /// Records one raw input: empty text is a no-op, any other text appends
    /// the key, without deduplication.
    pub fn parse(&self, value: &str, intermediate: &mut Vec<String>)
        ensures
            final(intermediate).deep_view() == list_parse_step(
                old(intermediate).deep_view(),
                value@,
            ),
    {
        if !value.is_empty() {
            intermediate.push(value.to_owned());
        }
    }

    /// Validates the stored keys against the current option list.
    pub fn validate(&self, keys: &Vec<String>) -> (r: Result<Vec<SelectOption>, &'static str>)
        ensures
            crate::result_model(r) == multi_validate(self.options.deep_view(), keys.deep_view()),
    {
        let nk = keys.len();
        let mut i: usize = 0;
        while i < nk
            invariant
                i <= nk,
                nk == keys.deep_view().len(),
                forall|j: int|
                    0 <= j < i ==> has_key(self.options.deep_view(), #[trigger] keys.deep_view()[j]),
        decreases nk - i,
        {
            proof {
                assert(keys.deep_view()[i as int] == keys@[i as int]@);
            }
            if find_by_key(&self.options, keys[i].as_str()).is_none() {
                return Err("Invalid option selected");
            }
            i += 1;
        }
        let n = self.options.len();
        let mut result: Vec<SelectOption> = Vec::new();
        let mut j: usize = 0;
        while j < n
            invariant
                j <= n,
                n == self.options.deep_view().len(),
                all_keys_resolve(self.options.deep_view(), keys.deep_view()),
                result.deep_view() == selected_options(
                    self.options.deep_view().subrange(0, j as int),
                    keys.deep_view(),
                ),
            decreases n - j,
        {
            let ghost opts = self.options.deep_view();
            proof {
                assert(opts.subrange(0, j + 1).drop_last() =~= opts.subrange(0, j as int));
                assert(opts.subrange(0, j + 1).last() == opts[j as int]);
                assert(opts[j as int] == self.options@[j as int]@);
            }
            if crate::contains_str(keys, self.options[j].key.as_str()) {
                result.push(self.options[j].clone());
            }
            j += 1;
        }
        proof {
            assert(self.options.deep_view().subrange(0, n as int) =~= self.options.deep_view());
        }
        Ok(result)
    }

    /// Re-populates the stored keys from an existing selection.
    pub fn load(&self, value: Vec<SelectOption>) -> (r: Vec<String>)
        ensures
            r.deep_view() == option_keys(value.deep_view()),
    {
        let n = value.len();
        let mut keys: Vec<String> = Vec::new();
        let mut i: usize = 0;
        while i < n
            invariant
                i <= n,
                n == value@.len(),
                keys.deep_view().len() == i,
                forall|k: int|
                    0 <= k < i ==> keys.deep_view()[k] == (#[trigger] value.deep_view()[k]).key,
            decreases n - i,
        {
            proof {
                assert(value.deep_view()[i as int] == value@[i as int]@);
            }
            keys.push(value[i].key.clone());
            proof {
                assert(keys.deep_view()[i as int] == keys@[i as int]@);
            }
            i += 1;
        }
        proof {
            assert(keys.deep_view() =~= option_keys(value.deep_view()));
        }
        keys
    }
}

} // verus!
