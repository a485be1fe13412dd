//! An account ledger whose state is authenticated by a hash tree: amounts with
//! checked arithmetic, the tree with its membership paths, signed transfers, and
//! the laws that hold of them.

pub mod account;
pub mod amount;
pub mod gate;
pub mod hash;
pub mod ledger;
pub mod ledger_laws;
pub mod path;
pub mod positions;
pub mod sha256;
pub mod signature;
pub mod transaction;
pub mod tree;
pub mod tree_laws;
