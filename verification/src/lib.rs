pub mod spec;
pub mod errors;
pub mod beacon_state;
pub mod churn;
pub mod common;
pub mod operations;
pub mod process_operations;
pub mod signing;
pub mod verify_operations;
pub mod deposits;
pub mod sync;
pub mod handlers;
pub mod lighthouse;
pub mod health;
pub mod upgrade;
pub mod sync_committee;
pub mod attester_slashing;
pub mod attestations;
pub mod block;
pub mod store;
pub mod enr;
pub mod laws;
