//! Items that code generation hides in `const _: () = { .. }` blocks.
use vstd::prelude::*;
use crate::hir::{block_stmts, Expr, Hir, Item, ItemId, ItemKind, Stmt, TypeRef};

verus! {

/// The ids of the item statements among `stmts`, in order.
pub open spec fn stmt_items(stmts: Seq<Stmt>) -> Seq<ItemId>
    decreases stmts.len(),
{
    if stmts.len() == 0 {
        Seq::empty()
    } else {
        let init = stmt_items(stmts.drop_last());
        match stmts.last() {
            Stmt::Item(id) => init.push(id),
            _ => init,
        }
    }
}

/// The item is a constant of type `()` whose initializer is a block.
pub open spec fn is_unnamed_const(item: Item) -> bool {
    item.kind matches ItemKind::Const { ty: TypeRef::Tuple { elems }, body: Expr::Block { .. } }
        && elems@.len() == 0
}

/// The items declared directly in the block of a `const _: () = { .. }`;
/// nothing for any other item.
pub open spec fn nested_items(item: Item) -> Seq<ItemId> {
    if is_unnamed_const(item) {
        stmt_items(block_stmts(item))
    } else {
        Seq::empty()
    }
}

/// Each id of `ids`, followed at once by the items nested in it, one level deep.
pub open spec fn expanded(cx: Hir, ids: Seq<ItemId>) -> Seq<ItemId>
    decreases ids.len(),
{
    if ids.len() == 0 {
        Seq::empty()
    } else {
        expanded(cx, ids.drop_last()) + seq![ids.last()] + nested_items(cx.item_of(ids.last()))
    }
}

/// Every item of `stmt_items(stmts)` is named by a statement of `stmts`.
proof fn lemma_stmt_items_named(stmts: Seq<Stmt>, k: int)
    requires
        0 <= k < stmt_items(stmts).len(),
    ensures
        exists|j: int| 0 <= j < stmts.len() && #[trigger] stmts[j] == Stmt::Item(stmt_items(stmts)[k]),
    decreases stmts.len(),
{
    let init = stmts.drop_last();
    if k < stmt_items(init).len() {
        lemma_stmt_items_named(init, k);
        let j = choose|j: int| 0 <= j < init.len() && #[trigger] init[j] == Stmt::Item(stmt_items(init)[k]);
        assert(stmts[j] == init[j]);
    } else {
        assert(stmts[stmts.len() - 1] == Stmt::Item(stmt_items(stmts)[k]));
    }
}

/// In a well-formed tree the items nested in an item are items of the tree.
proof fn lemma_nested_valid(cx: Hir, id: ItemId)
    requires
        cx.wf(),
        cx.valid_id(id),
    ensures
        cx.all_valid(nested_items(cx.item_of(id))),
{
    let stmts = block_stmts(cx.item_of(id));
    if is_unnamed_const(cx.item_of(id)) {
        assert forall|k: int| 0 <= k < stmt_items(stmts).len() implies cx.valid_id(
            #[trigger] stmt_items(stmts)[k],
        ) by {
            lemma_stmt_items_named(stmts, k);
            let j = choose|j: int| 0 <= j < stmts.len() && #[trigger] stmts[j] == Stmt::Item(stmt_items(stmts)[k]);
            assert(block_stmts(cx.items@[id.index as int])[j] matches Stmt::Item(x));
        }
    }
}

/// The ids of the items declared directly inside `const _: () = { .. }`, in
/// the order of the block; empty for any other item. Nested blocks are not
/// entered.
pub fn items_in_unnamed_const(cx: &Hir, id: &ItemId) -> (r: Vec<ItemId>)
    requires
        cx.valid_id(*id),
    ensures
        r@ == nested_items(cx.item_of(*id)),
{
    let mut acc: Vec<ItemId> = Vec::new();
    if let ItemKind::Const { ty: TypeRef::Tuple { elems }, body: Expr::Block { stmts } } = &cx.item(*id).kind {
        if elems.len() == 0 {
            let mut i: usize = 0;
            while i < stmts.len()
                invariant
                    i <= stmts@.len(),
                    acc@ == stmt_items(stmts@.subrange(0, i as int)),
                decreases stmts@.len() - i,
            {
                assert(stmts@.subrange(0, i + 1).drop_last() == stmts@.subrange(0, i as int));
                if let Stmt::Item(nested) = &stmts[i] {
                    acc.push(*nested);
                }
                i += 1;
            }
            assert(stmts@.subrange(0, stmts@.len() as int) == stmts@);
        }
    }
    acc
}

/// `item_ids`, each followed at once by the items declared directly in it when
/// it is a `const _: () = { .. }`.
pub fn expand_unnamed_consts(cx: &Hir, item_ids: &[ItemId]) -> (r: Vec<ItemId>)
    requires
        cx.all_valid(item_ids@),
    ensures
        r@ == expanded(*cx, item_ids@),
        r@.len() >= item_ids@.len(),
        cx.wf() ==> cx.all_valid(r@),
{
    let mut acc: Vec<ItemId> = Vec::new();
    let mut i: usize = 0;
    while i < item_ids.len()
        invariant
            i <= item_ids@.len(),
            cx.all_valid(item_ids@),
            acc@ == expanded(*cx, item_ids@.subrange(0, i as int)),
            acc@.len() >= i,
            cx.wf() ==> cx.all_valid(acc@),
        decreases item_ids@.len() - i,
    {
        let id = item_ids[i];
        assert(cx.valid_id(item_ids@[i as int]));
        assert(item_ids@.subrange(0, i + 1).drop_last() == item_ids@.subrange(0, i as int));
        let ghost before = acc@;
        acc.push(id);
        let mut nested = items_in_unnamed_const(cx, &id);
        proof {
            if cx.wf() {
                lemma_nested_valid(*cx, id);
            }
        }
        acc.append(&mut nested);
        assert(acc@ == before + seq![id] + nested_items(cx.item_of(id)));
        i += 1;
    }
    assert(item_ids@.subrange(0, item_ids@.len() as int) == item_ids@);
    acc
}

/// Expanding a concatenation expands each part in place: the input order is
/// kept, and every id comes before the items nested in it.
pub proof fn lemma_expand_append(cx: Hir, a: Seq<ItemId>, b: Seq<ItemId>)
    ensures
        expanded(cx, a + b) == expanded(cx, a) + expanded(cx, b),
    decreases b.len(),
{
    if b.len() == 0 {
        assert(a + b == a);
        assert(expanded(cx, a) + expanded(cx, b) == expanded(cx, a));
    } else {
        let init = b.drop_last();
        lemma_expand_append(cx, a, init);
        assert((a + b).drop_last() == a + init);
        assert((a + b).last() == b.last());
        assert(expanded(cx, a + b) == expanded(cx, a + init) + seq![b.last()] + nested_items(
            cx.item_of(b.last()),
        ));
    }
}

/// Expansion goes one level deep: one id expands to itself and the items
/// declared directly in it, and an unnamed constant among those items is not
/// expanded in turn.
pub proof fn lemma_expand_single(cx: Hir, id: ItemId)
    ensures
        expanded(cx, seq![id]) == seq![id] + nested_items(cx.item_of(id)),
{
    assert(seq![id].drop_last() =~= Seq::<ItemId>::empty());
    assert(expanded(cx, Seq::<ItemId>::empty()) == Seq::<ItemId>::empty());
    assert(Seq::<ItemId>::empty() + seq![id] =~= seq![id]);
}

/// An ordinary item followed by an unnamed constant expands to the item, the
/// constant, and the items of the constant's block, in that order.
pub proof fn lemma_expand_item_then_const(cx: Hir, x: ItemId, c: ItemId)
    requires
        !is_unnamed_const(cx.item_of(x)),
    ensures
        expanded(cx, seq![x, c]) == seq![x, c] + nested_items(cx.item_of(c)),
{
    assert(seq![x, c] == seq![x] + seq![c]);
    lemma_expand_append(cx, seq![x], seq![c]);
    lemma_expand_single(cx, x);
    lemma_expand_single(cx, c);
    assert(seq![x] + Seq::<ItemId>::empty() == seq![x]);
    assert(seq![x] + (seq![c] + nested_items(cx.item_of(c))) == seq![x, c] + nested_items(cx.item_of(c)));
}

} // verus!
