//! Personal-finance ledger core: a shared cache cell with a claim-based
//! refresh protocol, a frame clock, exact ledger arithmetic and an
//! authenticated codec for wallet snapshots.

pub mod cell;
pub mod clock;
pub mod codec;
pub mod error;
pub mod ledger;
pub mod models;
pub mod money;
pub mod text;
pub mod types;
