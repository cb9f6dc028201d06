//! Finding the inherent `impl` block of the contract type.
use vstd::prelude::*;
use crate::hir::{
    find_first, lemma_find_first_at, lemma_find_first_none, lemma_find_first_unique, DefId, Hir, Item,
    ItemId, ItemKind, TypeRef,
};

verus! {

/// The fully qualified path of the contract environment trait.
pub open spec fn contract_env_path() -> Seq<Seq<char>> {
    seq!["ink_env"@, "contract"@, "ContractEnv"@]
}

/// The segments of a path as character sequences.
pub open spec fn path_view(path: Seq<String>) -> Seq<Seq<char>> {
    path.map_values(|s: String| s@)
}

/// The item implements the contract environment trait.
pub open spec fn is_contract_env_impl(item: Item) -> bool {
    item.kind matches ItemKind::Impl { of_trait: Some(t), .. } && path_view(t.path@) == contract_env_path()
}

/// The item is an `impl` block that implements no trait.
pub open spec fn is_inherent_impl(item: Item) -> bool {
    item.kind matches ItemKind::Impl { of_trait: None, .. }
}

/// The self type of an `impl` block.
pub open spec fn impl_self_ty(item: Item) -> TypeRef
    recommends
        item.kind is Impl,
{
    match item.kind {
        ItemKind::Impl { self_ty, .. } => self_ty,
        _ => TypeRef::Other,
    }
}

/// Both types are paths resolved to one and the same declaration.
pub open spec fn same_type(lhs: TypeRef, rhs: TypeRef) -> bool {
    match (lhs, rhs) {
        (TypeRef::Path { target: a, .. }, TypeRef::Path { target: b, .. }) => a == b,
        _ => false,
    }
}

/// `contract_env_pred(cx)(id)`: item `id` of `cx` implements the contract
/// environment trait.
pub open spec fn contract_env_pred(cx: Hir) -> spec_fn(ItemId) -> bool {
    |id: ItemId| is_contract_env_impl(cx.item_of(id))
}

/// `inherent_impl_pred(cx, ty)(id)`: item `id` of `cx` is an inherent impl of
/// the same type as `ty`.
pub open spec fn inherent_impl_pred(cx: Hir, ty: TypeRef) -> spec_fn(ItemId) -> bool {
    |id: ItemId| is_inherent_impl(cx.item_of(id)) && same_type(ty, impl_self_ty(cx.item_of(id)))
}

/// The self type of the first `impl` of the contract environment trait.
pub open spec fn contract_type(cx: Hir, ids: Seq<ItemId>) -> Option<TypeRef> {
    match find_first(ids, contract_env_pred(cx)) {
        Some(id) => Some(impl_self_ty(cx.item_of(id))),
        None => None,
    }
}

/// The first inherent `impl` of the contract type, if there is a contract type.
pub open spec fn contract_impl(cx: Hir, ids: Seq<ItemId>) -> Option<ItemId> {
    match contract_type(cx, ids) {
        Some(ty) => find_first(ids, inherent_impl_pred(cx, ty)),
        None => None,
    }
}

/// Whether the segments of `path` are `ink_env::contract::ContractEnv`.
fn is_contract_env_path(path: &Vec<String>) -> (r: bool)
    ensures
        r == (path_view(path@) == contract_env_path()),
{
    let expected: [String; 3] = ["ink_env".to_owned(), "contract".to_owned(), "ContractEnv".to_owned()];
    assert(expected@.map_values(|s: String| s@) == contract_env_path());
    if path.len() != 3 {
        assert(path_view(path@).len() != 3);
        return false;
    }
    let mut i: usize = 0;
    while i < 3
        invariant
            i <= 3,
            path@.len() == 3,
            expected@.map_values(|s: String| s@) == contract_env_path(),
            forall|j: int| 0 <= j < i ==> #[trigger] path@[j]@ == expected@[j]@,
        decreases 3 - i,
    {
        if path[i] != expected[i] {
            assert(path_view(path@)[i as int] != contract_env_path()[i as int]);
            return false;
        }
        i += 1;
    }
    assert(path_view(path@) =~= contract_env_path());
    true
}

/// The self type of the first of `item_ids` that implements
/// `ink_env::contract::ContractEnv`: the type of the contract.
pub fn find_contract_ty_hir<'a>(cx: &'a Hir, item_ids: &[ItemId]) -> (r: Option<&'a TypeRef>)
    requires
        cx.all_valid(item_ids@),
    ensures
        match r {
            Some(ty) => contract_type(*cx, item_ids@) == Some(*ty),
            None => contract_type(*cx, item_ids@) is None,
        },
{
    let mut i: usize = 0;
    while i < item_ids.len()
        invariant
            i <= item_ids@.len(),
            cx.all_valid(item_ids@),
            forall|j: int| 0 <= j < i ==> !#[trigger] contract_env_pred(*cx)(item_ids@[j]),
        decreases item_ids@.len() - i,
    {
        let id = item_ids[i];
        assert(cx.valid_id(item_ids@[i as int]));
        let item = cx.item(id);
        if let ItemKind::Impl { self_ty, of_trait: Some(trait_ref) } = &item.kind {
            if is_contract_env_path(&trait_ref.path) {
                proof {
                    lemma_find_first_at(item_ids@, contract_env_pred(*cx), i as int);
                }
                return Some(self_ty);
            }
        }
        i += 1;
    }
    proof {
        lemma_find_first_none(item_ids@, contract_env_pred(*cx));
    }
    None
}

/// Whether both types are paths resolved to the same declaration, however
/// they are spelled.
pub fn eq_hir_struct_tys(lhs: &TypeRef, rhs: &TypeRef) -> (r: bool)
    ensures
        r == same_type(*lhs, *rhs),
{
    match (lhs, rhs) {
        (TypeRef::Path { target: a, .. }, TypeRef::Path { target: b, .. }) => *a == *b,
        _ => false,
    }
}

/// The first of `item_ids` that is an `impl` block of no trait for the
/// contract type; `None` when no item implements the contract environment
/// trait.
pub fn find_contract_impl_id(cx: &Hir, item_ids: Vec<ItemId>) -> (r: Option<ItemId>)
    requires
        cx.all_valid(item_ids@),
    ensures
        r == contract_impl(*cx, item_ids@),
{
    let contract_ty = match find_contract_ty_hir(cx, item_ids.as_slice()) {
        Some(ty) => ty,
        None => return None,
    };
    let ghost pred = inherent_impl_pred(*cx, *contract_ty);
    assert(contract_type(*cx, item_ids@) == Some(*contract_ty));
    let mut i: usize = 0;
    while i < item_ids.len()
        invariant
            i <= item_ids@.len(),
            cx.all_valid(item_ids@),
            pred == inherent_impl_pred(*cx, *contract_ty),
            contract_type(*cx, item_ids@) == Some(*contract_ty),
            forall|j: int| 0 <= j < i ==> !#[trigger] pred(item_ids@[j]),
        decreases item_ids@.len() - i,
    {
        let id = item_ids[i];
        assert(cx.valid_id(item_ids@[i as int]));
        let item = cx.item(id);
        if let ItemKind::Impl { self_ty, of_trait: None } = &item.kind {
            if eq_hir_struct_tys(contract_ty, self_ty) {
                proof {
                    lemma_find_first_at(item_ids@, pred, i as int);
                }
                return Some(id);
            }
        }
        i += 1;
    }
    proof {
        lemma_find_first_none(item_ids@, pred);
    }
    None
}

/// Type identity goes by the resolved declaration alone: two paths are the
/// same type exactly when they resolve to the same declaration, however they
/// are spelled, and a path is never the same type as a type of another shape.
pub proof fn lemma_same_type_by_resolution(
    lhs_segments: Vec<String>,
    rhs_segments: Vec<String>,
    lhs_target: DefId,
    rhs_target: DefId,
    other: TypeRef,
)
    ensures
        same_type(
            TypeRef::Path { segments: lhs_segments, target: lhs_target },
            TypeRef::Path { segments: rhs_segments, target: rhs_target },
        ) <==> lhs_target == rhs_target,
        !(other is Path) ==> !same_type(TypeRef::Path { segments: lhs_segments, target: lhs_target }, other),
        !(other is Path) ==> !same_type(other, TypeRef::Path { segments: lhs_segments, target: lhs_target }),
{
}

/// Among items of which exactly one implements the contract environment trait,
/// the contract type is that impl's self type; among items of which none does,
/// there is no contract type.
pub proof fn lemma_contract_type_discovery(cx: Hir, ids: Seq<ItemId>, i: int)
    ensures
        0 <= i < ids.len() && is_contract_env_impl(cx.item_of(ids[i])) && (forall|j: int|
            0 <= j < ids.len() && j != i ==> !is_contract_env_impl(#[trigger] cx.item_of(ids[j])))
            ==> contract_type(cx, ids) == Some(impl_self_ty(cx.item_of(ids[i]))),
        (forall|j: int| 0 <= j < ids.len() ==> !is_contract_env_impl(#[trigger] cx.item_of(ids[j])))
            ==> contract_type(cx, ids) is None,
{
    let p = contract_env_pred(cx);
    if 0 <= i < ids.len() && is_contract_env_impl(cx.item_of(ids[i])) && (forall|j: int|
        0 <= j < ids.len() && j != i ==> !is_contract_env_impl(#[trigger] cx.item_of(ids[j]))) {
        assert forall|j: int| 0 <= j < ids.len() && j != i implies !#[trigger] p(ids[j]) by {
            assert(!is_contract_env_impl(cx.item_of(ids[j])));
        }
        lemma_find_first_unique(ids, p, i);
    }
    if forall|j: int| 0 <= j < ids.len() ==> !is_contract_env_impl(#[trigger] cx.item_of(ids[j])) {
        assert forall|j: int| 0 <= j < ids.len() implies !#[trigger] p(ids[j]) by {
            assert(!is_contract_env_impl(cx.item_of(ids[j])));
        }
        lemma_find_first_none(ids, p);
    }
}

/// With one impl of the contract environment trait, at `e`, and one inherent
/// impl whose self type is the same type as that impl's, at `t`, the inherent
/// impl at `t` is the one found: impls of other traits for the contract type,
/// and items about other types, are passed over.
pub proof fn lemma_contract_impl_resolution(cx: Hir, ids: Seq<ItemId>, e: int, t: int)
    requires
        0 <= e < ids.len(),
        0 <= t < ids.len(),
        is_contract_env_impl(cx.item_of(ids[e])),
        forall|j: int| 0 <= j < ids.len() && j != e ==> !is_contract_env_impl(#[trigger] cx.item_of(ids[j])),
        is_inherent_impl(cx.item_of(ids[t])),
        same_type(impl_self_ty(cx.item_of(ids[e])), impl_self_ty(cx.item_of(ids[t]))),
        forall|j: int|
            0 <= j < ids.len() && j != t && is_inherent_impl(#[trigger] cx.item_of(ids[j])) ==> !same_type(
                impl_self_ty(cx.item_of(ids[e])),
                impl_self_ty(cx.item_of(ids[j])),
            ),
    ensures
        contract_impl(cx, ids) == Some(ids[t]),
{
    lemma_contract_type_discovery(cx, ids, e);
    let ty = impl_self_ty(cx.item_of(ids[e]));
    let p = inherent_impl_pred(cx, ty);
    assert forall|j: int| 0 <= j < ids.len() && j != t implies !#[trigger] p(ids[j]) by {
        if is_inherent_impl(cx.item_of(ids[j])) {
            assert(!same_type(ty, impl_self_ty(cx.item_of(ids[j]))));
        }
    }
    lemma_find_first_unique(ids, p, t);
}

/// Without an impl of the contract environment trait nothing is found, whatever
/// inherent impls the items hold.
pub proof fn lemma_no_contract_type_no_impl(cx: Hir, ids: Seq<ItemId>)
    requires
        forall|j: int| 0 <= j < ids.len() ==> !is_contract_env_impl(#[trigger] cx.item_of(ids[j])),
    ensures
        contract_impl(cx, ids) is None,
{
    lemma_contract_type_discovery(cx, ids, 0);
}

} // verus!
