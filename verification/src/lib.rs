pub mod escrow;
pub mod oracle_service;
