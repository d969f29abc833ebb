//! Reference-counted handles to a bounded pool of binary decision diagrams.
//!
//! A [`Store`] holds managers and the diagrams made from them. A manager
//! fixes a universe of Boolean variables and a budget of nodes; every diagram
//! that is handed out is charged to its manager, and none is handed out that
//! the budget does not hold. Managers and diagrams are named by handles and
//! live until their last reference is released.
//!
//! The diagrams themselves are built by the engine `biodivine_lib_bdd`. What
//! is assumed of it stands in `engine` and `algebra`; everything else is
//! proved: the protocol in `heap`, `store` and `laws`, the operations in
//! `ops` and `rename`, the picking of cubes in `cube`, and what diagrams mean
//! in `diagram` and `meaning`.

#![allow(non_camel_case_types)]

pub mod diagram;
pub mod engine;
pub mod algebra;
pub mod cube;
pub mod meaning;
pub mod heap;
pub mod store;
pub mod ops;
pub mod rename;
pub mod laws;
pub mod validate;

pub use cube::{bdd_assignment_t, OptBool};
pub use validate::is_valid_diagram;
pub use rename::{bdd_rename_variable, bdd_rename_variables, VarPair};
pub use ops::{
    bdd_and, bdd_and_exists, bdd_and_forall, bdd_and_not, bdd_eq, bdd_exists, bdd_forall, bdd_iff,
    bdd_imp, bdd_ite, bdd_not, bdd_or, bdd_or_exists, bdd_or_forall, bdd_pickcube, bdd_var_exists,
    bdd_to_bytes, bdd_var_forall, bdd_xor, manager_false, manager_ithvar, manager_nithvar,
    manager_true,
};
pub use store::{
    bdd_diagram, bdd_is_live, bdd_manager, bdd_nodecount, bdd_ref, bdd_refs, bdd_same_manager,
    bdd_t, bdd_unref, manager_handles, manager_is_live, manager_num_vars, manager_refs,
    manager_new, manager_node_count, manager_ref, manager_t, manager_unref, BddError, Store,
};
