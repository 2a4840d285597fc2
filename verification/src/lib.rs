//! Ledger contracts of a cross-chain bridge, as state machines over plain
//! values, with their rules stated as contracts and proved.

pub mod amounts;
pub mod bridge;
pub mod bytes;
pub mod env;
pub mod escrow;
pub mod escrow_id;
pub mod escrow_laws;
pub mod escrow_model;
pub mod escrow_types;
pub mod hashing;
pub mod liquidity_pool;
pub mod price_oracle;
pub mod registry;
pub mod roots;
pub mod router;
pub mod search;
pub mod test_contract;
pub mod text;
