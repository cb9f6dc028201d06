//! Structural recognition over the resolved item tree of one compilation unit:
//! the storage struct, items nested in `const _: () = { .. }` blocks, and the
//! inherent `impl` block of the contract type.

pub mod contract;
pub mod hir;
pub mod scope;
pub mod storage;

pub use contract::{eq_hir_struct_tys, find_contract_impl_id, find_contract_ty_hir};
pub use hir::{DefId, Expr, Hir, Item, ItemId, ItemKind, Stmt, TraitRef, TypeRef};
pub use storage::{find_storage_struct, has_storage_attr};
pub use scope::{expand_unnamed_consts, items_in_unnamed_const};
