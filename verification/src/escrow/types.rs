use vstd::prelude::*;

verus! {

/// An account or contract identifier on the ledger.
pub type Address = u64;

/// Lifecycle state of a match.
#[derive(Clone, Copy, Debug, PartialEq, Eq, Structural)]
pub enum MatchState {
    /// Created, awaiting deposits.
    Pending,
    /// Both players deposited, game in progress.
    Active,
    /// Oracle submitted a result; awaiting the dispute window or finalization.
    PendingResult,
    /// Payout executed.
    Completed,
    /// Cancelled (or expired) before activation.
    Cancelled,
}

/// Chess platform that issued a game id.
#[derive(Clone, Copy, Debug, PartialEq, Eq, Structural)]
pub enum Platform {
    Lichess,
    ChessDotCom,
}

/// Outcome of a game.
#[derive(Clone, Copy, Debug, PartialEq, Eq, Structural)]
pub enum Winner {
    Player1,
    Player2,
    Draw,
}

/// The lifecycle event that triggered a balance snapshot.
#[derive(Clone, Copy, Debug, PartialEq, Eq, Structural)]
pub enum SnapshotReason {
    Created,
    Deposit,
    Completed,
    Cancelled,
    ResultSubmitted,
    Finalized,
}

/// State of a dispute against an oracle result.
#[derive(Clone, Copy, Debug, PartialEq, Eq, Structural)]
pub enum DisputeState {
    Active,
    ResolvedUpheld,
    ResolvedOverturned,
}

/// A match between two players with escrowed stakes.
#[derive(Debug)]
pub struct Match {
    pub id: u64,
    pub player1: Address,
    pub player2: Address,
    pub stake_amount: i128,
    pub token: Address,
    /// Platform-specific game identifier, as bytes.
    pub game_id: Vec<u8>,
    pub platform: Platform,
    pub state: MatchState,
    pub player1_deposited: bool,
    pub player2_deposited: bool,
    /// Ledger sequence number at match creation.
    pub created_ledger: u32,
    /// Ledger sequence number when the match reached a terminal state.
    pub completed_ledger: Option<u32>,
}

/// Mathematical value of a [`Match`].
#[verifier::ext_equal]
pub struct MatchView {
    pub id: u64,
    pub player1: Address,
    pub player2: Address,
    pub stake_amount: i128,
    pub token: Address,
    pub game_id: Seq<u8>,
    pub platform: Platform,
    pub state: MatchState,
    pub player1_deposited: bool,
    pub player2_deposited: bool,
    pub created_ledger: u32,
    pub completed_ledger: Option<u32>,
}

impl View for Match {
    type V = MatchView;

    open spec fn view(&self) -> MatchView {
        MatchView {
            id: self.id,
            player1: self.player1,
            player2: self.player2,
            stake_amount: self.stake_amount,
            token: self.token,
            game_id: self.game_id@,
            platform: self.platform,
            state: self.state,
            player1_deposited: self.player1_deposited,
            player2_deposited: self.player2_deposited,
            created_ledger: self.created_ledger,
            completed_ledger: self.completed_ledger,
        }
    }
}

/// A point-in-time record of a match's escrowed balance, taken at key
/// lifecycle transitions for audit purposes.
#[derive(Debug)]
pub struct BalanceSnapshot {
    pub match_id: u64,
    /// Position in the match's snapshot history.
    pub index: u32,
    pub reason: SnapshotReason,
    /// Ledger sequence number at the time of the snapshot.
    pub ledger: u32,
    pub token: Address,
    pub token_symbol: Vec<u8>,
    pub stake_amount: i128,
    /// Total tokens held in escrow for this match at snapshot time.
    pub escrow_balance: i128,
    pub player1_deposited: bool,
    pub player2_deposited: bool,
}

/// Mathematical value of a [`BalanceSnapshot`].
#[verifier::ext_equal]
pub struct SnapshotView {
    pub match_id: u64,
    pub index: u32,
    pub reason: SnapshotReason,
    pub ledger: u32,
    pub token: Address,
    pub token_symbol: Seq<u8>,
    pub stake_amount: i128,
    pub escrow_balance: i128,
    pub player1_deposited: bool,
    pub player2_deposited: bool,
}

impl View for BalanceSnapshot {
    type V = SnapshotView;

    open spec fn view(&self) -> SnapshotView {
        SnapshotView {
            match_id: self.match_id,
            index: self.index,
            reason: self.reason,
            ledger: self.ledger,
            token: self.token,
            token_symbol: self.token_symbol@,
            stake_amount: self.stake_amount,
            escrow_balance: self.escrow_balance,
            player1_deposited: self.player1_deposited,
            player2_deposited: self.player2_deposited,
        }
    }
}

/// A community dispute raised against an oracle-submitted match result.
#[derive(Debug)]
pub struct Dispute {
    pub id: u64,
    pub match_id: u64,
    pub disputer: Address,
    pub evidence_hash: Vec<u8>,
    /// Total "yes" votes (overturn the oracle result).
    pub yes_votes: i128,
    /// Total "no" votes (uphold the oracle result).
    pub no_votes: i128,
    /// Ledger sequence by which voting must conclude.
    pub voting_deadline: u32,
    pub state: DisputeState,
}

/// Mathematical value of a [`Dispute`].
#[verifier::ext_equal]
pub struct DisputeView {
    pub id: u64,
    pub match_id: u64,
    pub disputer: Address,
    pub evidence_hash: Seq<u8>,
    pub yes_votes: i128,
    pub no_votes: i128,
    pub voting_deadline: u32,
    pub state: DisputeState,
}

impl View for Dispute {
    type V = DisputeView;

    open spec fn view(&self) -> DisputeView {
        DisputeView {
            id: self.id,
            match_id: self.match_id,
            disputer: self.disputer,
            evidence_hash: self.evidence_hash@,
            yes_votes: self.yes_votes,
            no_votes: self.no_votes,
            voting_deadline: self.voting_deadline,
            state: self.state,
        }
    }
}

/// A token movement that an operation asks the token contract to perform.
#[derive(Clone, Copy, Debug, PartialEq, Eq, Structural)]
pub struct Transfer {
    pub token: Address,
    pub from: Address,
    pub to: Address,
    pub amount: i128,
}

/// An event the contract publishes; each variant names its topic pair.
#[derive(Clone, Debug, PartialEq, Eq)]
pub enum Event {
    /// `("escrow", "init")`.
    Initialized { oracle: Address, admin: Address },
    /// `("admin", "paused")`.
    Paused,
    /// `("admin", "unpaused")`.
    Unpaused,
    /// `("admin", "token_add")`.
    TokenAdded { token: Address },
    /// `("admin", "tok_rm")`.
    TokenRemoved { token: Address },
    /// `("match", "created")`.
    MatchCreated { match_id: u64, player1: Address, player2: Address, stake_amount: i128 },
    /// `("match", "deposit")`; `state` is `Some(Active)` for the deposit that
    /// activates the match.
    Deposited { match_id: u64, player: Address, state: Option<MatchState> },
    /// `("match", "activated")`.
    MatchActivated { match_id: u64 },
    /// `("match", "completed")`.
    MatchCompleted { match_id: u64, winner: Winner },
    /// `("match", "pending_result")`.
    ResultPending { match_id: u64, winner: Winner, deadline: u32 },
    /// `("match", "cancelled")`.
    MatchCancelled { match_id: u64 },
    /// `("match", "expired")`.
    MatchExpired { match_id: u64 },
    /// `("match", "finalized")`.
    MatchFinalized { match_id: u64, winner: Winner },
    /// `("match", "snapshot")`.
    SnapshotRecorded { match_id: u64, index: u32, escrow_balance: i128 },
    /// `("admin", "timeout")`.
    TimeoutChanged { old_timeout: u32, new_timeout: u32 },
    /// `("admin", "propose")`.
    AdminProposed { new_admin: Address },
    /// `("admin", "xfer")`, published by `accept_admin`.
    AdminAccepted { admin: Address },
    /// `("admin", "xfer")`, published by `transfer_admin`.
    AdminTransferred { old_admin: Address, new_admin: Address },
    /// `("admin", "oracle_up")`.
    OracleUpdated { old_oracle: Address, new_oracle: Address },
    /// `("admin", "dispute_period")`.
    DisputePeriodSet { period: u32 },
    /// `("dispute", "created")`.
    DisputeCreated { dispute_id: u64, match_id: u64, disputer: Address, evidence_hash: Vec<u8> },
    /// `("dispute", "voted")`.
    Voted { dispute_id: u64, voter: Address, vote: bool },
    /// `("dispute", "resolved")`.
    DisputeResolved { dispute_id: u64, match_id: u64, state: DisputeState, winner: Winner },
}

/// Mathematical value of an [`Event`].
pub enum EventView {
    Initialized { oracle: Address, admin: Address },
    Paused,
    Unpaused,
    TokenAdded { token: Address },
    TokenRemoved { token: Address },
    MatchCreated { match_id: u64, player1: Address, player2: Address, stake_amount: i128 },
    Deposited { match_id: u64, player: Address, state: Option<MatchState> },
    MatchActivated { match_id: u64 },
    MatchCompleted { match_id: u64, winner: Winner },
    ResultPending { match_id: u64, winner: Winner, deadline: u32 },
    MatchCancelled { match_id: u64 },
    MatchExpired { match_id: u64 },
    MatchFinalized { match_id: u64, winner: Winner },
    SnapshotRecorded { match_id: u64, index: u32, escrow_balance: i128 },
    TimeoutChanged { old_timeout: u32, new_timeout: u32 },
    AdminProposed { new_admin: Address },
    AdminAccepted { admin: Address },
    AdminTransferred { old_admin: Address, new_admin: Address },
    OracleUpdated { old_oracle: Address, new_oracle: Address },
    DisputePeriodSet { period: u32 },
    DisputeCreated { dispute_id: u64, match_id: u64, disputer: Address, evidence_hash: Seq<u8> },
    Voted { dispute_id: u64, voter: Address, vote: bool },
    DisputeResolved { dispute_id: u64, match_id: u64, state: DisputeState, winner: Winner },
}

impl View for Event {
    type V = EventView;

    open spec fn view(&self) -> EventView {
        match *self {
            Event::Initialized { oracle, admin } => EventView::Initialized { oracle, admin },
            Event::Paused => EventView::Paused,
            Event::Unpaused => EventView::Unpaused,
            Event::TokenAdded { token } => EventView::TokenAdded { token },
            Event::TokenRemoved { token } => EventView::TokenRemoved { token },
            Event::MatchCreated { match_id, player1, player2, stake_amount } => EventView::MatchCreated {
                match_id,
                player1,
                player2,
                stake_amount,
            },
            Event::Deposited { match_id, player, state } => EventView::Deposited { match_id, player, state },
            Event::MatchActivated { match_id } => EventView::MatchActivated { match_id },
            Event::MatchCompleted { match_id, winner } => EventView::MatchCompleted { match_id, winner },
            Event::ResultPending { match_id, winner, deadline } => EventView::ResultPending {
                match_id,
                winner,
                deadline,
            },
            Event::MatchCancelled { match_id } => EventView::MatchCancelled { match_id },
            Event::MatchExpired { match_id } => EventView::MatchExpired { match_id },
            Event::MatchFinalized { match_id, winner } => EventView::MatchFinalized { match_id, winner },
            Event::SnapshotRecorded { match_id, index, escrow_balance } => EventView::SnapshotRecorded {
                match_id,
                index,
                escrow_balance,
            },
            Event::TimeoutChanged { old_timeout, new_timeout } => EventView::TimeoutChanged {
                old_timeout,
                new_timeout,
            },
            Event::AdminProposed { new_admin } => EventView::AdminProposed { new_admin },
            Event::AdminAccepted { admin } => EventView::AdminAccepted { admin },
            Event::AdminTransferred { old_admin, new_admin } => EventView::AdminTransferred {
                old_admin,
                new_admin,
            },
            Event::OracleUpdated { old_oracle, new_oracle } => EventView::OracleUpdated {
                old_oracle,
                new_oracle,
            },
            Event::DisputePeriodSet { period } => EventView::DisputePeriodSet { period },
            Event::DisputeCreated { dispute_id, match_id, disputer, evidence_hash } =>
                EventView::DisputeCreated { dispute_id, match_id, disputer, evidence_hash: evidence_hash@ },
            Event::Voted { dispute_id, voter, vote } => EventView::Voted { dispute_id, voter, vote },
            Event::DisputeResolved { dispute_id, match_id, state, winner } => EventView::DisputeResolved {
                dispute_id,
                match_id,
                state,
                winner,
            },
        }
    }
}

pub open spec fn events_view(v: Seq<Event>) -> Seq<EventView> {
    v.map_values(|e: Event| e@)
}

/// What the host reports about the current invocation.
pub struct Invocation {
    /// Current ledger sequence number.
    pub ledger: u32,
    /// Address of the escrow contract itself.
    pub contract: Address,
    /// Addresses that authorized this invocation.
    pub signers: Vec<Address>,
    /// Symbol reported by the token contract of the match that the call
    /// records a snapshot for; empty when the token does not answer.
    pub token_symbol: Vec<u8>,
}

pub open spec fn matches_view(v: Seq<Match>) -> Seq<MatchView> {
    v.map_values(|m: Match| m@)
}

pub open spec fn snapshot_list_view(v: Seq<BalanceSnapshot>) -> Seq<SnapshotView> {
    v.map_values(|s: BalanceSnapshot| s@)
}

/// Copy of a byte string, with its contents known.
pub fn copy_bytes(v: &Vec<u8>) -> (r: Vec<u8>)
    ensures
        r@ == v@,
{
    let mut r: Vec<u8> = Vec::new();
    let mut i: usize = 0;
    while i < v.len()
        invariant
            i <= v.len(),
            r@ == v@.take(i as int),
        decreases v.len() - i,
    {
        r.push(v[i]);
        i = i + 1;
        assert(r@ =~= v@.take(i as int));
    }
    assert(v@.take(v.len() as int) =~= v@);
    r
}

/// Byte-wise equality of two byte strings.
pub fn bytes_eq(a: &Vec<u8>, b: &Vec<u8>) -> (r: bool)
    ensures
        r == (a@ == b@),
{
    if a.len() != b.len() {
        return false;
    }
    let mut i: usize = 0;
    while i < a.len()
        invariant
            i <= a.len(),
            a.len() == b.len(),
            forall|j: int| 0 <= j < i ==> a@[j] == b@[j],
        decreases a.len() - i,
    {
        if a[i] != b[i] {
            return false;
        }
        i = i + 1;
    }
    assert(a@ =~= b@);
    true
}

impl Match {
    /// A copy of this match.
    pub fn copy(&self) -> (r: Match)
        ensures
            r@ == self@,
    {
        Match {
            id: self.id,
            player1: self.player1,
            player2: self.player2,
            stake_amount: self.stake_amount,
            token: self.token,
            game_id: copy_bytes(&self.game_id),
            platform: self.platform,
            state: self.state,
            player1_deposited: self.player1_deposited,
            player2_deposited: self.player2_deposited,
            created_ledger: self.created_ledger,
            completed_ledger: self.completed_ledger,
        }
    }
}

impl BalanceSnapshot {
    /// A copy of this snapshot.
    pub fn copy(&self) -> (r: BalanceSnapshot)
        ensures
            r@ == self@,
    {
        BalanceSnapshot {
            match_id: self.match_id,
            index: self.index,
            reason: self.reason,
            ledger: self.ledger,
            token: self.token,
            token_symbol: copy_bytes(&self.token_symbol),
            stake_amount: self.stake_amount,
            escrow_balance: self.escrow_balance,
            player1_deposited: self.player1_deposited,
            player2_deposited: self.player2_deposited,
        }
    }
}

impl Dispute {
    /// A copy of this dispute.
    pub fn copy(&self) -> (r: Dispute)
        ensures
            r@ == self@,
    {
        Dispute {
            id: self.id,
            match_id: self.match_id,
            disputer: self.disputer,
            evidence_hash: copy_bytes(&self.evidence_hash),
            yes_votes: self.yes_votes,
            no_votes: self.no_votes,
            voting_deadline: self.voting_deadline,
            state: self.state,
        }
    }
}

} // verus!
