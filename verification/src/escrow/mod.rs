pub mod conservation;
pub mod contract;
pub mod errors;
pub mod laws;
pub mod model;
pub mod safety;
pub mod snapshots;
pub mod state;
pub mod types;
pub mod outcomes;
