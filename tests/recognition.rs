use ink_linting_utils::{
    eq_hir_struct_tys, expand_unnamed_consts, find_contract_impl_id, find_contract_ty_hir,
    find_storage_struct, has_storage_attr, items_in_unnamed_const, DefId, Expr, Hir, Item, ItemId,
    ItemKind, Stmt, TraitRef, TypeRef,
};

const CURRENT_ATTR: &str = "[Attribute { kind: Normal(cfg(not(target_vendor = \"fortanix\"))) }]";
const LEGACY_ATTR: &str = "[Attribute { kind: Normal(cfg(not(feature = \"__ink_dylint_Storage\"))) }]";
const BOTH_ATTRS: &str = "[Attribute { kind: Normal(cfg(not(target_vendor = \"fortanix\"))) }, \
                          Attribute { kind: Normal(cfg(not(feature = \"__ink_dylint_Storage\"))) }]";
const PLAIN_ATTR: &str = "[Attribute { kind: Normal(derive(Debug)) }]";

fn id(index: usize) -> ItemId {
    ItemId { index }
}

fn def(index: u32) -> DefId {
    DefId { krate: 0, index }
}

fn strings(parts: &[&str]) -> Vec<String> {
    parts.iter().map(|s| s.to_string()).collect()
}

fn path_ty(segments: &[&str], target: DefId) -> TypeRef {
    TypeRef::Path { segments: strings(segments), target }
}

fn unit_ty() -> TypeRef {
    TypeRef::Tuple { elems: vec![] }
}

fn item(attrs: &str, kind: ItemKind) -> Item {
    Item { attrs: attrs.to_string(), kind }
}

fn structure(attrs: &str) -> Item {
    item(attrs, ItemKind::Struct)
}

fn unnamed_const(stmts: Vec<Stmt>) -> Item {
    item("[]", ItemKind::Const { ty: unit_ty(), body: Expr::Block { stmts } })
}

fn impl_of(self_ty: TypeRef, trait_path: Option<&[&str]>) -> Item {
    let of_trait = trait_path.map(|p| TraitRef { path: strings(p) });
    item("[]", ItemKind::Impl { self_ty, of_trait })
}

const CONTRACT_ENV: &[&str] = &["ink_env", "contract", "ContractEnv"];

#[test]
fn storage_attr_current_marker() {
    let cx = Hir { items: vec![structure(CURRENT_ATTR)] };
    assert!(has_storage_attr(&cx, id(0)));
}

#[test]
fn storage_attr_both_markers() {
    let cx = Hir { items: vec![structure(BOTH_ATTRS)] };
    assert!(has_storage_attr(&cx, id(0)));
}

#[test]
fn storage_attr_legacy_marker() {
    let cx = Hir { items: vec![structure(LEGACY_ATTR)] };
    assert!(has_storage_attr(&cx, id(0)));
}

#[test]
fn storage_attr_absent() {
    let cx = Hir { items: vec![structure(PLAIN_ATTR), structure("")] };
    assert!(!has_storage_attr(&cx, id(0)));
    assert!(!has_storage_attr(&cx, id(1)));
}

#[test]
fn storage_attr_marker_inside_unrelated_attribute() {
    let cx = Hir { items: vec![structure("[Attribute { kind: Normal(doc(\"runs on fortanix\")) }]")] };
    assert!(has_storage_attr(&cx, id(0)));
}

#[test]
fn storage_struct_among_non_matching_items() {
    let cx = Hir {
        items: vec![
            item(CURRENT_ATTR, ItemKind::Other),
            structure(PLAIN_ATTR),
            impl_of(path_ty(&["Flipper"], def(1)), None),
            structure(CURRENT_ATTR),
            item(LEGACY_ATTR, ItemKind::Impl { self_ty: unit_ty(), of_trait: None }),
        ],
    };
    let ids = [id(0), id(1), id(2), id(3), id(4)];
    assert_eq!(find_storage_struct(&cx, &ids), Some(id(3)));
}

#[test]
fn storage_struct_absent() {
    let cx = Hir {
        items: vec![item(CURRENT_ATTR, ItemKind::Other), structure(PLAIN_ATTR)],
    };
    assert_eq!(find_storage_struct(&cx, &[id(0), id(1)]), None);
    assert_eq!(find_storage_struct(&cx, &[]), None);
}

#[test]
fn storage_struct_first_match_wins() {
    let cx = Hir { items: vec![structure(LEGACY_ATTR), structure(CURRENT_ATTR)] };
    assert_eq!(find_storage_struct(&cx, &[id(1), id(0)]), Some(id(1)));
}

fn nested_tree() -> Hir {
    // 0: X, an ordinary struct
    // 1: C = const _: () = { A; B; let ..; }
    // 2: A, 3: B
    Hir {
        items: vec![
            structure(PLAIN_ATTR),
            unnamed_const(vec![Stmt::Item(id(2)), Stmt::Item(id(3)), Stmt::Local]),
            structure(PLAIN_ATTR),
            impl_of(path_ty(&["Flipper"], def(1)), None),
        ],
    }
}

#[test]
fn nested_items_in_order() {
    let cx = nested_tree();
    assert_eq!(items_in_unnamed_const(&cx, &id(1)), vec![id(2), id(3)]);
}

#[test]
fn nested_items_skip_non_item_statements() {
    let cx = Hir {
        items: vec![
            unnamed_const(vec![Stmt::Expr, Stmt::Item(id(1)), Stmt::Semi, Stmt::Local, Stmt::Item(id(2))]),
            structure(""),
            structure(""),
        ],
    };
    assert_eq!(items_in_unnamed_const(&cx, &id(0)), vec![id(1), id(2)]);
}

#[test]
fn nested_items_of_other_shapes() {
    let cx = Hir {
        items: vec![
            structure(""),
            item("[]", ItemKind::Const {
                ty: path_ty(&["u32"], def(9)),
                body: Expr::Block { stmts: vec![Stmt::Item(id(0))] },
            }),
            item("[]", ItemKind::Const { ty: unit_ty(), body: Expr::Other }),
            item("[]", ItemKind::Const {
                ty: TypeRef::Tuple { elems: vec![unit_ty()] },
                body: Expr::Block { stmts: vec![Stmt::Item(id(0))] },
            }),
        ],
    };
    for i in 0..4 {
        assert_eq!(items_in_unnamed_const(&cx, &id(i)), vec![]);
    }
}

#[test]
fn expand_ordinary_then_const() {
    let cx = nested_tree();
    assert_eq!(expand_unnamed_consts(&cx, &[id(0), id(1)]), vec![id(0), id(1), id(2), id(3)]);
}

#[test]
fn expand_is_one_level_deep() {
    // 0: C = const _: () = { A; }
    // 1: A = const _: () = { B; }
    // 2: B
    let cx = Hir {
        items: vec![
            unnamed_const(vec![Stmt::Item(id(1))]),
            unnamed_const(vec![Stmt::Item(id(2))]),
            structure(""),
        ],
    };
    assert_eq!(expand_unnamed_consts(&cx, &[id(0)]), vec![id(0), id(1)]);
}

#[test]
fn expand_empty_and_plain() {
    let cx = nested_tree();
    assert_eq!(expand_unnamed_consts(&cx, &[]), vec![]);
    assert_eq!(expand_unnamed_consts(&cx, &[id(3), id(0)]), vec![id(3), id(0)]);
}

#[test]
fn same_type_differently_spelled() {
    let lhs = path_ty(&["Flipper"], def(1));
    let rhs = path_ty(&["crate", "flipper", "Flipper"], def(1));
    assert!(eq_hir_struct_tys(&lhs, &rhs));
}

#[test]
fn same_type_different_declarations() {
    let lhs = path_ty(&["Flipper"], def(1));
    let rhs = path_ty(&["Flipper"], def(2));
    assert!(!eq_hir_struct_tys(&lhs, &rhs));
}

#[test]
fn same_type_path_against_composite() {
    let path = path_ty(&["Flipper"], def(1));
    let tuple = TypeRef::Tuple { elems: vec![path_ty(&["Flipper"], def(1))] };
    assert!(!eq_hir_struct_tys(&path, &tuple));
    assert!(!eq_hir_struct_tys(&tuple, &path));
    assert!(!eq_hir_struct_tys(&tuple, &tuple));
    assert!(!eq_hir_struct_tys(&path, &TypeRef::Other));
    let relative = TypeRef::Relative { segments: strings(&["Flipper", "Assoc"]) };
    assert!(!eq_hir_struct_tys(&relative, &relative));
}

fn contract_tree() -> Hir {
    // 0: impl ContractEnv for T
    // 1: impl T
    // 2: impl Other for T
    // 3: struct U
    // 4: impl U
    Hir {
        items: vec![
            impl_of(path_ty(&["Flipper"], def(1)), Some(CONTRACT_ENV)),
            impl_of(path_ty(&["self", "Flipper"], def(1)), None),
            impl_of(path_ty(&["Flipper"], def(1)), Some(&["ink", "codegen", "ContractName"])),
            structure(PLAIN_ATTR),
            impl_of(path_ty(&["Other"], def(2)), None),
        ],
    }
}

#[test]
fn contract_type_found() {
    let cx = contract_tree();
    let ty = find_contract_ty_hir(&cx, &[id(3), id(2), id(0), id(1)]).unwrap();
    assert!(eq_hir_struct_tys(ty, &path_ty(&["Flipper"], def(1))));
    assert!(!eq_hir_struct_tys(ty, &path_ty(&["Other"], def(2))));
}

#[test]
fn contract_type_absent() {
    let cx = contract_tree();
    assert!(find_contract_ty_hir(&cx, &[id(1), id(2), id(3), id(4)]).is_none());
    assert!(find_contract_ty_hir(&cx, &[]).is_none());
}

#[test]
fn contract_type_needs_full_trait_path() {
    let cx = Hir {
        items: vec![
            impl_of(path_ty(&["Flipper"], def(1)), Some(&["ContractEnv"])),
            impl_of(path_ty(&["Flipper"], def(1)), Some(&["ink_env", "contract", "ContractEnv", "Env"])),
            impl_of(path_ty(&["Flipper"], def(1)), Some(&["ink_env", "contract", "ContractRef"])),
        ],
    };
    assert!(find_contract_ty_hir(&cx, &[id(0), id(1), id(2)]).is_none());
}

#[test]
fn contract_impl_resolved() {
    let cx = contract_tree();
    assert_eq!(find_contract_impl_id(&cx, vec![id(0), id(1), id(2), id(3)]), Some(id(1)));
    assert_eq!(find_contract_impl_id(&cx, vec![id(4), id(3), id(2), id(1), id(0)]), Some(id(1)));
}

#[test]
fn contract_impl_without_contract_type() {
    let cx = contract_tree();
    assert_eq!(find_contract_impl_id(&cx, vec![id(1), id(2), id(3), id(4)]), None);
}

#[test]
fn contract_impl_only_trait_impls() {
    let cx = contract_tree();
    assert_eq!(find_contract_impl_id(&cx, vec![id(0), id(2), id(4)]), None);
}

#[test]
fn contract_impl_inside_unnamed_const() {
    // 0: const _: () = { impl ContractEnv for T; impl T; }
    let mut cx = contract_tree();
    cx.items.push(unnamed_const(vec![Stmt::Item(id(0)), Stmt::Item(id(1))]));
    let top = [id(3), id(5)];
    assert_eq!(find_contract_impl_id(&cx, top.to_vec()), None);
    let expanded = expand_unnamed_consts(&cx, &top);
    assert_eq!(find_contract_impl_id(&cx, expanded), Some(id(1)));
}
