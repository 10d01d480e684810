//! Data contract with the menu-catalog collaborator.
//!
//! The catalog itself is managed elsewhere; the ledger only snapshots
//! an item's `(item_id, item_name, price)` at the moment of sale, so a
//! later menu edit never alters a recorded order.

use vstd::prelude::*;

verus! {

/// One catalog category as the menu collaborator exposes it.
#[derive(Clone, Debug)]
pub struct Category {
    pub id: String,
    pub name: String,
    pub icon: String,
}

} // verus!
