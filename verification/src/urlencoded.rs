//! Applying an `application/x-www-form-urlencoded` body to a form: the
//! body's bytes are decoded into key/value pairs by an outside crate, and
//! every pair is dispatched to its field in order, aborting on the first
//! unknown name.

use vstd::prelude::*;
use vstd::utf8::valid_utf8;
use crate::from_form::{Form, find_field, form_apply};

verus! {

/// The key/value pairs that the `application/x-www-form-urlencoded` syntax
/// assigns to a byte string; a pure function of the bytes alone.
pub uninterp spec fn urlencoded_pairs(bytes: Seq<u8>) -> Seq<(Seq<char>, Seq<char>)>;

/// Relies on form_urlencoded::parse: decodes urlencoded bytes into
/// percent-decoded (name, value) pairs, a deterministic function of the
/// bytes; an empty input yields no pairs.
#[verifier::external_body]
fn decode_pairs(body: &[u8]) -> (r: Vec<(String, String)>)
    ensures
        r.deep_view() == urlencoded_pairs(body@),
        body@.len() == 0 ==> r.deep_view().len() == 0,
{
    form_urlencoded::parse(body).into_owned().collect()
}

/// Relies on core::str::from_utf8: returns whether the bytes are valid
/// UTF-8.
#[verifier::external_body]
fn utf8_ok(body: &[u8]) -> (r: bool)
    ensures
        r == valid_utf8(body@),
{
    core::str::from_utf8(body).is_ok()
}

/// The form after a sequence of pairs was applied in order, stopping at the
/// first unknown name, and whether every pair's name was known.
pub open spec fn apply_pairs_spec(
    fs: Seq<crate::FieldModel>,
    pairs: Seq<(Seq<char>, Seq<char>)>,
) -> (Seq<crate::FieldModel>, bool)
    decreases pairs.len(),
{
    if pairs.len() == 0 {
        (fs, true)
    } else if find_field(fs, pairs[0].0) == -1 {
        (fs, false)
    } else {
        apply_pairs_spec(
            form_apply(fs, pairs[0].0, pairs[0].1),
            pairs.subrange(1, pairs.len() as int),
        )
    }
}

impl Form {
    /// Applies decoded (name, value) pairs in order; stops at and reports
    /// the first unknown name.
    pub fn apply_all(&mut self, pairs: &Vec<(String, String)>) -> (r: bool)
        ensures
            final(self)@ == apply_pairs_spec(old(self)@, pairs.deep_view()).0,
            r == apply_pairs_spec(old(self)@, pairs.deep_view()).1,
    {
        let n = pairs.len();
        let ghost all = pairs.deep_view();
        proof {
            assert(all.subrange(0, all.len() as int) =~= all);
        }
        let mut i: usize = 0;
        while i < n
            invariant
                i <= n,
                n == pairs@.len(),
                all == pairs.deep_view(),
                apply_pairs_spec(old(self)@, all) == apply_pairs_spec(
                    self@,
                    all.subrange(i as int, all.len() as int),
                ),
            decreases n - i,
        {
            let ghost rest = all.subrange(i as int, all.len() as int);
            proof {
                assert(rest[0] == all[i as int]);
                assert(all[i as int] == pairs@[i as int].deep_view());
                assert(rest.subrange(1, rest.len() as int) =~= all.subrange(
                    i + 1,
                    all.len() as int,
                ));
            }
            let pair = &pairs[i];
            if !self.apply(pair.0.as_str(), pair.1.as_str()) {
                return false;
            }
            i += 1;
        }
        proof {
            assert(all.subrange(n as int, all.len() as int) =~= Seq::<(Seq<char>, Seq<char>)>::empty());
        }
        true
    }
}

/// Decodes a urlencoded request body into its (name, value) pairs, for any
/// consumer of named raw values: nothing when the body is not valid UTF-8.
pub fn decode_form_urlencoded(body: &[u8]) -> (r: Option<Vec<(String, String)>>)
    ensures
        r is Some <==> valid_utf8(body@),
        r is Some ==> r->0.deep_view() == urlencoded_pairs(body@),
{
    if !utf8_ok(body) {
        return None;
    }
    Some(decode_pairs(body))
}

/// Parses a urlencoded request body into the form. A body that is not valid
/// UTF-8 changes nothing and fails; otherwise the decoded pairs are applied
/// in order and the whole submission fails on the first unknown name, with
/// the pairs before it still applied.
pub fn parse_form_urlencoded(form: &mut Form, body: &[u8]) -> (r: Option<()>)
    ensures
        !valid_utf8(body@) ==> r is None && final(form)@ == old(form)@,
        valid_utf8(body@) ==> {
            &&& final(form)@ == apply_pairs_spec(old(form)@, urlencoded_pairs(body@)).0
            &&& (r is Some) == apply_pairs_spec(old(form)@, urlencoded_pairs(body@)).1
        },
{
    let pairs = match decode_form_urlencoded(body) {
        Some(pairs) => pairs,
        None => {
            return None;
        },
    };
    if form.apply_all(&pairs) {
        Some(())
    } else {
        None
    }
}

} // verus!
