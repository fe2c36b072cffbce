//! The column-family-scoped dispatch layer.
//!
//! Each operation family comes in four shapes — bare, with options, with
//! an explicit column family, and with both — and the convenience shapes
//! are derived from the fully parameterized one by blanket delegation, so
//! the default and the explicit paths cannot diverge.

use vstd::prelude::*;

pub mod get;
pub mod transaction;

verus! {

/// Marker for readers: values whose operations leave store state
/// unchanged.
pub trait Read {

}

/// Marker for writers: values whose operations mutate store state.
pub trait Write {

}

impl Read for crate::snapshot::Snapshot {

}

impl Read for crate::transaction_db::TransactionDB {

}

impl Write for crate::transaction_db::TransactionDB {

}

impl Read for crate::transaction::Transaction {

}

impl Write for crate::transaction::Transaction {

}

} // verus!
