//! Verified state transitions of a pallet that keeps Assets Generating VCU
//! (Verified Carbon Credits), their shares, minting schedules and oracles.
pub mod distribution;
pub mod key_order;
pub mod laws;
pub mod model;
pub mod pallet;
pub mod store;
pub mod types;
