//! Finding the struct that holds the contract's storage.
use vstd::prelude::*;
use crate::hir::{find_first, lemma_find_first_at, lemma_find_first_none, lemma_find_first_unique, Hir, Item, ItemId, ItemKind};

verus! {

/// The marker that current code generation puts on the storage struct, inside
/// `#[cfg(not(target_vendor = "fortanix"))]`: a target that no contract is
/// built for, so that the condition names no undeclared feature.
pub const STORAGE_MARKER: &'static str = "fortanix";

/// The marker of older code generation,
/// `#[cfg(not(feature = "__ink_dylint_Storage"))]`, still recognized.
pub const LEGACY_STORAGE_MARKER: &'static str = "__ink_dylint_Storage";

/// `pat` occurs in `s` as a contiguous run.
pub open spec fn contains_seq(s: Seq<char>, pat: Seq<char>) -> bool {
    exists|i: int| 0 <= i && i + pat.len() <= s.len() && #[trigger] s.subrange(i, i + pat.len()) == pat
}

/// Relies on `str::contains`: true iff `pat` matches a sub-slice of `s`.
#[verifier::external_body]
fn str_contains(s: &str, pat: &str) -> (r: bool)
    ensures
        r == contains_seq(s@, pat@),
{
    s.contains(pat)
}

/// The rendered attribute text carries one of the storage markers.
pub open spec fn has_storage_marker(attrs: Seq<char>) -> bool {
    contains_seq(attrs, STORAGE_MARKER@) || contains_seq(attrs, LEGACY_STORAGE_MARKER@)
}

/// The item is a struct whose attributes carry a storage marker.
pub open spec fn is_storage_struct(item: Item) -> bool {
    item.kind is Struct && has_storage_marker(item.attrs@)
}

/// `storage_pred(cx)(id)`: item `id` of `cx` is the storage struct.
pub open spec fn storage_pred(cx: Hir) -> spec_fn(ItemId) -> bool {
    |id: ItemId| is_storage_struct(cx.item_of(id))
}

/// Whether the attributes of item `id` carry a storage marker.
///
/// The attributes are matched as text, so a marker that only occurs inside an
/// unrelated attribute counts too.
pub fn has_storage_attr(cx: &Hir, id: ItemId) -> (r: bool)
    requires
        cx.valid_id(id),
    ensures
        r == has_storage_marker(cx.item_of(id).attrs@),
{
    let attrs = cx.item(id).attrs.as_str();
    str_contains(attrs, LEGACY_STORAGE_MARKER) || str_contains(attrs, STORAGE_MARKER)
}

/// The first of `item_ids` that is a struct with a storage marker.
pub fn find_storage_struct(cx: &Hir, item_ids: &[ItemId]) -> (r: Option<ItemId>)
    requires
        cx.all_valid(item_ids@),
    ensures
        r == find_first(item_ids@, storage_pred(*cx)),
{
    let mut i: usize = 0;
    while i < item_ids.len()
        invariant
            i <= item_ids@.len(),
            cx.all_valid(item_ids@),
            forall|j: int| 0 <= j < i ==> !#[trigger] storage_pred(*cx)(item_ids@[j]),
        decreases item_ids@.len() - i,
    {
        let id = item_ids[i];
        assert(cx.valid_id(item_ids@[i as int]));
        if has_storage_attr(cx, id) {
            if let ItemKind::Struct = cx.item(id).kind {
                proof {
                    lemma_find_first_at(item_ids@, storage_pred(*cx), i as int);
                }
                return Some(id);
            }
        }
        i += 1;
    }
    proof {
        lemma_find_first_none(item_ids@, storage_pred(*cx));
    }
    None
}

/// Attribute text that holds the current marker is recognized, whether the
/// legacy marker is there or not; text that holds neither marker is not.
pub proof fn lemma_storage_marker_detection(attrs: Seq<char>)
    ensures
        contains_seq(attrs, STORAGE_MARKER@) ==> has_storage_marker(attrs),
        contains_seq(attrs, LEGACY_STORAGE_MARKER@) ==> has_storage_marker(attrs),
        !contains_seq(attrs, STORAGE_MARKER@) && !contains_seq(attrs, LEGACY_STORAGE_MARKER@)
            ==> !has_storage_marker(attrs),
{
}

/// Among items of which exactly one is a struct with a storage marker, that
/// one is found; among items of which none is, nothing is found.
pub proof fn lemma_storage_struct_lookup(cx: Hir, ids: Seq<ItemId>, i: int)
    ensures
        0 <= i < ids.len() && is_storage_struct(cx.item_of(ids[i])) && (forall|j: int|
            0 <= j < ids.len() && j != i ==> !is_storage_struct(#[trigger] cx.item_of(ids[j])))
            ==> find_first(ids, storage_pred(cx)) == Some(ids[i]),
        (forall|j: int| 0 <= j < ids.len() ==> !is_storage_struct(#[trigger] cx.item_of(ids[j])))
            ==> find_first(ids, storage_pred(cx)) == None::<ItemId>,
{
    let p = storage_pred(cx);
    if 0 <= i < ids.len() && is_storage_struct(cx.item_of(ids[i])) && (forall|j: int|
        0 <= j < ids.len() && j != i ==> !is_storage_struct(#[trigger] cx.item_of(ids[j]))) {
        assert forall|j: int| 0 <= j < ids.len() && j != i implies !#[trigger] p(ids[j]) by {
            assert(!is_storage_struct(cx.item_of(ids[j])));
        }
        lemma_find_first_unique(ids, p, i);
    }
    if forall|j: int| 0 <= j < ids.len() ==> !is_storage_struct(#[trigger] cx.item_of(ids[j])) {
        assert forall|j: int| 0 <= j < ids.len() implies !#[trigger] p(ids[j]) by {
            assert(!is_storage_struct(cx.item_of(ids[j])));
        }
        lemma_find_first_none(ids, p);
    }
}

} // verus!
