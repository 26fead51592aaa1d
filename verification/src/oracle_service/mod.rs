pub mod dead_letter;
pub mod errors;
pub mod paths;
pub mod poller;
pub mod queue;
pub mod laws;
pub mod replay;
pub mod decimal;
pub mod soroban;
pub mod submit_tx;
