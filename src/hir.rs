//! A read-only model of the resolved item tree of one compilation unit.
use vstd::prelude::*;

verus! {

/// Identifies one item of a [`Hir`]: its position in `Hir::items`.
#[derive(Clone, Copy, PartialEq, Eq, Structural, Debug)]
pub struct ItemId {
    pub index: usize,
}

/// Identifies a resolved declaration.
#[derive(Clone, Copy, PartialEq, Eq, Structural, Debug)]
pub struct DefId {
    pub krate: u32,
    pub index: u32,
}

/// A type as written in the tree.
#[derive(Debug)]
pub enum TypeRef {
    /// A path that name resolution mapped to the declaration `target`.
    Path { segments: Vec<String>, target: DefId },
    /// A type-relative path (`<T>::Assoc`), not resolved to one declaration.
    Relative { segments: Vec<String> },
    /// A tuple type; `()` has no elements.
    Tuple { elems: Vec<TypeRef> },
    /// Any other shape: references, slices, arrays, function pointers, ...
    Other,
}

/// A statement of a block.
#[derive(Debug)]
pub enum Stmt {
    Local,
    Item(ItemId),
    Expr,
    Semi,
}

/// The initializer of a constant.
#[derive(Debug)]
pub enum Expr {
    Block { stmts: Vec<Stmt> },
    Other,
}

/// The trait that an `impl` block implements, by its fully qualified path.
#[derive(Debug)]
pub struct TraitRef {
    pub path: Vec<String>,
}

/// What an item declares.
#[derive(Debug)]
pub enum ItemKind {
    Struct,
    Const { ty: TypeRef, body: Expr },
    Impl { self_ty: TypeRef, of_trait: Option<TraitRef> },
    Other,
}

/// One item, with the rendered text of its attribute set.
#[derive(Debug)]
pub struct Item {
    pub attrs: String,
    pub kind: ItemKind,
}

/// The resolved items of one compilation unit, addressed by [`ItemId`].
#[derive(Debug)]
pub struct Hir {
    pub items: Vec<Item>,
}

/// The first element of `s` that satisfies `p`, if any.
pub open spec fn find_first(s: Seq<ItemId>, p: spec_fn(ItemId) -> bool) -> Option<ItemId> {
    if exists|i: int| 0 <= i < s.len() && #[trigger] p(s[i]) {
        Some(s[choose|i: int| is_first(s, p, i)])
    } else {
        None
    }
}

/// `i` is the position of the first element of `s` that satisfies `p`.
pub open spec fn is_first(s: Seq<ItemId>, p: spec_fn(ItemId) -> bool, i: int) -> bool {
    &&& 0 <= i < s.len()
    &&& p(s[i])
    &&& forall|j: int| 0 <= j < i ==> !#[trigger] p(s[j])
}

/// A scan that found its first match at `i` has found `find_first`.
pub proof fn lemma_find_first_at(s: Seq<ItemId>, p: spec_fn(ItemId) -> bool, i: int)
    requires
        is_first(s, p, i),
    ensures
        find_first(s, p) == Some(s[i]),
{
    assert(p(s[i]));
    let k = choose|k: int| is_first(s, p, k);
    assert(is_first(s, p, k));
    if k < i {
        assert(!p(s[k]));
    } else if i < k {
        assert(!p(s[i]));
    }
}

/// A scan that found no match has found `find_first`.
pub proof fn lemma_find_first_none(s: Seq<ItemId>, p: spec_fn(ItemId) -> bool)
    requires
        forall|j: int| 0 <= j < s.len() ==> !#[trigger] p(s[j]),
    ensures
        find_first(s, p) == None::<ItemId>,
{
}

/// When exactly one element of `s` satisfies `p`, `find_first` is that element.
pub proof fn lemma_find_first_unique(s: Seq<ItemId>, p: spec_fn(ItemId) -> bool, i: int)
    requires
        0 <= i < s.len(),
        p(s[i]),
        forall|j: int| 0 <= j < s.len() && j != i ==> !#[trigger] p(s[j]),
    ensures
        find_first(s, p) == Some(s[i]),
{
    lemma_find_first_at(s, p, i);
}

impl Hir {
    /// `id` names an item of this tree.
    pub open spec fn valid_id(&self, id: ItemId) -> bool {
        id.index < self.items@.len()
    }

    /// Every id of `ids` names an item of this tree.
    pub open spec fn all_valid(&self, ids: Seq<ItemId>) -> bool {
        forall|i: int| 0 <= i < ids.len() ==> self.valid_id(#[trigger] ids[i])
    }

    /// The item that `id` names.
    pub open spec fn item_of(&self, id: ItemId) -> Item {
        self.items@[id.index as int]
    }

    /// Every item named by a statement of a constant's block is an item of
    /// this tree.
    pub open spec fn wf(&self) -> bool {
        forall|k: int, j: int|
            0 <= k < self.items@.len() && 0 <= j < block_stmts(self.items@[k]).len()
                ==> (#[trigger] block_stmts(self.items@[k])[j] matches Stmt::Item(id)
                ==> self.valid_id(id))
    }

    /// Looks up an item by its id.
    pub fn item(&self, id: ItemId) -> (r: &Item)
        requires
            self.valid_id(id),
        ensures
            *r == self.item_of(id),
    {
        &self.items[id.index]
    }
}

/// The statements of a constant whose initializer is a block.
pub open spec fn block_stmts(item: Item) -> Seq<Stmt> {
    match item.kind {
        ItemKind::Const { body: Expr::Block { stmts }, .. } => stmts@,
        _ => Seq::empty(),
    }
}

} // verus!
