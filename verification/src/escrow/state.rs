use vstd::prelude::*;

use super::types::{
    Address, BalanceSnapshot, Dispute, DisputeView, Invocation, Match, MatchView, SnapshotView, Winner,
};

verus! {

/// Default match expiration timeout (~30 days at 5s/ledger).
pub const DEFAULT_MATCH_TIMEOUT_LEDGERS: u32 = 518_400;

/// Minimum match timeout: 1 day (17,280 ledgers at 5s/ledger).
pub const MIN_MATCH_TIMEOUT_LEDGERS: u32 = 17_280;

/// Maximum match timeout: 90 days (1,555,200 ledgers at 5s/ledger).
pub const MAX_MATCH_TIMEOUT_LEDGERS: u32 = 1_555_200;

/// Voting period for disputes: 1 day (17,280 ledgers at 5s/ledger).
pub const VOTING_PERIOD_LEDGERS: u32 = 17_280;

/// Ring-buffer capacity for balance snapshots per match.
pub const MAX_SNAPSHOTS_PER_MATCH: u32 = 8;

/// Maximum allowed byte length for a game id.
pub const MAX_GAME_ID_LEN: usize = 64;

/// Everything the contract stores about one match.
pub struct MatchRecord {
    pub m: Match,
    /// Total number of snapshots ever recorded (saturating).
    pub snapshot_count: u32,
    /// Ring-buffer slots `0..snapshots.len()`; slot `i % 8` holds snapshot `i`.
    pub snapshots: Vec<BalanceSnapshot>,
    /// Winner submitted by the oracle while the result is pending.
    pub pending_winner: Option<Winner>,
    /// Ledger sequence by which a dispute must be raised.
    pub result_deadline: Option<u32>,
    /// Dispute raised against this match's result, if any.
    pub dispute_id: Option<u64>,
    /// Game id recorded by the oracle-record submission path.
    pub oracle_record: Option<Vec<u8>>,
}

/// Mathematical value of a [`MatchRecord`].
#[verifier::ext_equal]
pub struct RecordView {
    pub m: MatchView,
    pub snapshot_count: u32,
    pub snapshots: Seq<SnapshotView>,
    pub pending_winner: Option<Winner>,
    pub result_deadline: Option<u32>,
    pub dispute_id: Option<u64>,
    pub oracle_record: Option<Seq<u8>>,
}

pub open spec fn snapshots_view(v: Seq<BalanceSnapshot>) -> Seq<SnapshotView> {
    v.map_values(|s: BalanceSnapshot| s@)
}

pub open spec fn records_view(v: Seq<MatchRecord>) -> Seq<RecordView> {
    v.map_values(|r: MatchRecord| r@)
}

pub open spec fn disputes_view(v: Seq<DisputeRecord>) -> Seq<DisputeRecordView> {
    v.map_values(|d: DisputeRecord| d@)
}

pub open spec fn bytes_view(o: Option<Vec<u8>>) -> Option<Seq<u8>> {
    match o {
        Some(v) => Some(v@),
        None => None,
    }
}

impl View for MatchRecord {
    type V = RecordView;

    open spec fn view(&self) -> RecordView {
        RecordView {
            m: self.m@,
            snapshot_count: self.snapshot_count,
            snapshots: snapshots_view(self.snapshots@),
            pending_winner: self.pending_winner,
            result_deadline: self.result_deadline,
            dispute_id: self.dispute_id,
            oracle_record: bytes_view(self.oracle_record),
        }
    }
}

/// A dispute together with the votes cast on it.
pub struct DisputeRecord {
    pub dispute: Dispute,
    /// Voters in the order they voted, with their vote (`true` = overturn).
    pub votes: Vec<(Address, bool)>,
}

/// Mathematical value of a [`DisputeRecord`].
#[verifier::ext_equal]
pub struct DisputeRecordView {
    pub dispute: DisputeView,
    pub votes: Seq<(Address, bool)>,
}

impl View for DisputeRecord {
    type V = DisputeRecordView;

    open spec fn view(&self) -> DisputeRecordView {
        DisputeRecordView { dispute: self.dispute@, votes: self.votes@ }
    }
}

/// Mathematical value of the contract's storage.
#[verifier::ext_equal]
pub struct EscrowState {
    pub oracle: Option<Address>,
    pub admin: Option<Address>,
    pub pending_admin: Option<Address>,
    pub paused: bool,
    pub allowlist_enforced: bool,
    pub allowed_token_count: u32,
    pub allowed_tokens: Seq<Address>,
    pub match_timeout: Option<u32>,
    pub dispute_period: u32,
    pub match_count: u64,
    pub matches: Seq<RecordView>,
    pub active_matches: Seq<u64>,
    pub disputes: Seq<DisputeRecordView>,
}

/// Mathematical value of an [`Invocation`].
pub struct InvocationView {
    pub ledger: u32,
    pub contract: Address,
    pub signers: Seq<Address>,
    pub token_symbol: Seq<u8>,
}

impl View for Invocation {
    type V = InvocationView;

    open spec fn view(&self) -> InvocationView {
        InvocationView {
            ledger: self.ledger,
            contract: self.contract,
            signers: self.signers@,
            token_symbol: self.token_symbol@,
        }
    }
}

} // verus!
