use vstd::prelude::*;

use crate::isa::Label;

verus! {

#[verifier::external_type_specification]
#[verifier::external_body]
pub struct ExFxHasher(fxhash::FxHasher);

#[verifier::external_type_specification]
#[verifier::external_body]
#[verifier::reject_recursive_types(H)]
pub struct ExBuildHasherDefault<H>(std::hash::BuildHasherDefault<H>);

/// What a label table maps each label id to.
pub uninterp spec fn label_entries(t: fxhash::FxHashMap<i32, i32>) -> Map<i32, i32>;

/// Relies on `FxHashMap::default` (std's `HashMap::default` with fxhash's hasher):
/// the new map is empty.
#[verifier::external_body]
pub(crate) fn new_label_table() -> (r: fxhash::FxHashMap<i32, i32>)
    ensures
        label_entries(r) =~= Map::empty(),
{
    fxhash::FxHashMap::default()
}

/// Relies on `HashMap::insert` on an `FxHashMap`: the key now maps to the value,
/// replacing any earlier one, and every other key is kept.
#[verifier::external_body]
pub(crate) fn insert_label(t: &mut fxhash::FxHashMap<i32, i32>, id: i32, address: i32)
    ensures
        label_entries(*final(t)) == label_entries(*old(t)).insert(id, address),
{
    t.insert(id, address);
}

/// Relies on `HashMap::get` on an `FxHashMap`: the value stored under the key, if any.
#[verifier::external_body]
pub(crate) fn find_label(t: &fxhash::FxHashMap<i32, i32>, id: i32) -> (r: Option<i32>)
    ensures
        r is Some <==> label_entries(*t).contains_key(id),
        r is Some ==> r->0 == label_entries(*t)[id],
{
    t.get(&id).copied()
}

/// What a `Match` case table maps each tag to.
pub uninterp spec fn case_entries(t: fxhash::FxHashMap<i8, Label>) -> Map<i8, Label>;

/// Relies on `HashMap::get` on an `FxHashMap`: the label stored under the tag, if any.
#[verifier::external_body]
pub(crate) fn find_case(t: &fxhash::FxHashMap<i8, Label>, tag: i8) -> (r: Option<Label>)
    ensures
        r is Some <==> case_entries(*t).contains_key(tag),
        r is Some ==> r->0 == case_entries(*t)[tag],
{
    t.get(&tag).copied()
}

} // verus!
