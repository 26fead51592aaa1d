use vstd::prelude::*;

use super::errors::Error;
use super::state::{
    DisputeRecordView, EscrowState, InvocationView, RecordView, DEFAULT_MATCH_TIMEOUT_LEDGERS,
    MAX_GAME_ID_LEN, MAX_MATCH_TIMEOUT_LEDGERS, MAX_SNAPSHOTS_PER_MATCH, MIN_MATCH_TIMEOUT_LEDGERS,
    VOTING_PERIOD_LEDGERS,
};
use super::types::{
    Address, DisputeState, DisputeView, EventView, MatchState, MatchView, Platform, SnapshotReason,
    SnapshotView, Transfer, Winner,
};

verus! {

// ── Basic notions ──────────────────────────────────────────────────────────

pub open spec fn is_terminal(st: MatchState) -> bool {
    st == MatchState::Completed || st == MatchState::Cancelled
}

/// Number of players who have deposited (0, 1 or 2).
pub open spec fn depositors(m: MatchView) -> int {
    (if m.player1_deposited { 1int } else { 0int }) + (if m.player2_deposited { 1int } else { 0int })
}

/// Tokens held in escrow for a match: zero once terminal, otherwise one
/// stake per depositor.
pub open spec fn escrow_balance(m: MatchView) -> int {
    if is_terminal(m.state) {
        0
    } else {
        depositors(m) * m.stake_amount
    }
}

pub open spec fn signed(inv: InvocationView, a: Address) -> bool {
    inv.signers.contains(a)
}

pub open spec fn is_player(m: MatchView, a: Address) -> bool {
    a == m.player1 || a == m.player2
}

/// `s` without any occurrence of `x`, order kept.
pub open spec fn without(s: Seq<u64>, x: u64) -> Seq<u64>
    decreases s.len(),
{
    if s.len() == 0 {
        s
    } else {
        let rest = without(s.drop_last(), x);
        if s.last() == x {
            rest
        } else {
            rest.push(s.last())
        }
    }
}

pub open spec fn no_dups(s: Seq<u64>) -> bool {
    forall|i: int, j: int| 0 <= i < s.len() && 0 <= j < s.len() && i != j ==> s[i] != s[j]
}

pub open spec fn current_timeout(s: EscrowState) -> u32 {
    match s.match_timeout {
        Some(t) => t,
        None => DEFAULT_MATCH_TIMEOUT_LEDGERS,
    }
}

pub open spec fn game_id_taken(s: EscrowState, game_id: Seq<u8>) -> bool {
    exists|i: int| 0 <= i < s.matches.len() && #[trigger] s.matches[i].m.game_id == game_id
}

pub open spec fn saturating_add_i128(a: i128, b: i128) -> i128 {
    if a + b > i128::MAX {
        i128::MAX
    } else if a + b < i128::MIN {
        i128::MIN
    } else {
        (a + b) as i128
    }
}

// ── Snapshots ──────────────────────────────────────────────────────────────

/// The snapshot taken of `m` as the `index`-th of its history.
pub open spec fn snapshot_of(
    m: MatchView,
    index: u32,
    reason: SnapshotReason,
    inv: InvocationView,
) -> SnapshotView {
    SnapshotView {
        match_id: m.id,
        index,
        reason,
        ledger: inv.ledger,
        token: m.token,
        token_symbol: inv.token_symbol,
        stake_amount: m.stake_amount,
        escrow_balance: escrow_balance(m) as i128,
        player1_deposited: m.player1_deposited,
        player2_deposited: m.player2_deposited,
    }
}

/// Record a snapshot of the record's match in ring-buffer slot
/// `count % 8` and advance the (saturating) count.
pub open spec fn with_snapshot(r: RecordView, reason: SnapshotReason, inv: InvocationView) -> RecordView {
    let index = r.snapshot_count;
    let slot = (index % MAX_SNAPSHOTS_PER_MATCH) as int;
    let snap = snapshot_of(r.m, index, reason, inv);
    RecordView {
        snapshot_count: if index == u32::MAX { index } else { (index + 1) as u32 },
        snapshots: if slot < r.snapshots.len() {
            r.snapshots.update(slot, snap)
        } else {
            r.snapshots.push(snap)
        },
        ..r
    }
}

pub open spec fn min_int(a: int, b: int) -> int {
    if a <= b { a } else { b }
}

/// Snapshots still held in the ring buffer, oldest first.
pub open spec fn snapshot_history(r: RecordView) -> Seq<SnapshotView> {
    let count = r.snapshot_count as int;
    let available = min_int(count, MAX_SNAPSHOTS_PER_MATCH as int);
    let start = count - available;
    Seq::new(available as nat, |j: int| r.snapshots[(start + j) % (MAX_SNAPSHOTS_PER_MATCH as int)])
}

/// Each snapshot the ring buffer holds carries its position in the match's
/// history as index: with `count` snapshots recorded and `n = min(count, 8)`
/// held, the held history has indices `count - n .. count`. (Once the count
/// has saturated at `u32::MAX` the newest snapshot overwrites a slot and
/// this no longer holds.)
pub open spec fn held_indices_ok(snapshots: Seq<SnapshotView>, count: u32) -> bool {
    let n = min_int(count as int, MAX_SNAPSHOTS_PER_MATCH as int);
    count < u32::MAX ==> forall|j: int|
        0 <= j < n ==> (#[trigger] snapshots[(count - n + j) % (MAX_SNAPSHOTS_PER_MATCH as int)]).index
            == count - n + j
}

/// Amounts zeroed for callers without full access.
pub open spec fn redact(s: SnapshotView) -> SnapshotView {
    SnapshotView { stake_amount: 0, escrow_balance: 0, ..s }
}

pub open spec fn redact_all(s: Seq<SnapshotView>) -> Seq<SnapshotView> {
    s.map_values(|x: SnapshotView| redact(x))
}

// ── Payouts ────────────────────────────────────────────────────────────────

pub open spec fn transfer(token: Address, from: Address, to: Address, amount: int) -> Transfer {
    Transfer { token, from, to, amount: amount as i128 }
}

/// Transfers from the contract paying out a match for `winner`.
pub open spec fn payout(m: MatchView, winner: Winner, contract: Address) -> Seq<Transfer> {
    match winner {
        Winner::Player1 => seq![transfer(m.token, contract, m.player1, 2 * m.stake_amount)],
        Winner::Player2 => seq![transfer(m.token, contract, m.player2, 2 * m.stake_amount)],
        Winner::Draw => seq![
            transfer(m.token, contract, m.player1, m.stake_amount as int),
            transfer(m.token, contract, m.player2, m.stake_amount as int),
        ],
    }
}

/// Transfers from the contract returning each deposited stake.
pub open spec fn refunds(m: MatchView, contract: Address) -> Seq<Transfer> {
    let first = if m.player1_deposited {
        seq![transfer(m.token, contract, m.player1, m.stake_amount as int)]
    } else {
        Seq::<Transfer>::empty()
    };
    if m.player2_deposited {
        first.push(transfer(m.token, contract, m.player2, m.stake_amount as int))
    } else {
        first
    }
}

pub open spec fn pot_overflows(m: MatchView) -> bool {
    2 * m.stake_amount > i128::MAX
}

// ── Operations ─────────────────────────────────────────────────────────────

/// The state-changing entry points of the contract, with their arguments.
pub enum Op {
    Initialize { oracle: Address, admin: Address },
    Pause,
    Unpause,
    AddAllowedToken { token: Address },
    RemoveAllowedToken { token: Address },
    CreateMatch {
        player1: Address,
        player2: Address,
        stake_amount: i128,
        token: Address,
        game_id: Seq<u8>,
        platform: Platform,
    },
    Deposit { match_id: u64, player: Address },
    SubmitResult { match_id: u64, winner: Winner },
    SubmitResultWithOracleRecord { match_id: u64, winner: Winner, game_id: Seq<u8> },
    CancelMatch { match_id: u64, caller: Address },
    ExpireMatch { match_id: u64 },
    SetMatchTimeout { timeout: u32 },
    ProposeAdmin { new_admin: Address },
    AcceptAdmin,
    FinalizeMatch { match_id: u64 },
    DisputeOracleResult { match_id: u64, disputer: Address, evidence_hash: Seq<u8> },
    /// `balance` is the voter's balance of the match token, as the token reports it.
    VoteOnDispute { dispute_id: u64, voter: Address, vote: bool, balance: i128 },
    ResolveDisputeByVote { dispute_id: u64 },
    SetDisputePeriod { period: u32 },
    UpdateOracle { new_oracle: Address },
    TransferAdmin { new_admin: Address },
}

/// Outcome of one operation: the new state, its result (an id where the
/// operation returns one, else 0), the transfers it performs and the events
/// it publishes, in order.
pub struct Step {
    pub state: EscrowState,
    pub result: Result<u64, Error>,
    pub transfers: Seq<Transfer>,
    pub events: Seq<EventView>,
}

/// A refused operation: nothing changes, moves or is published.
pub open spec fn fail(s: EscrowState, e: Error) -> Step {
    Step { state: s, result: Err(e), transfers: Seq::empty(), events: Seq::empty() }
}

pub open spec fn done(s: EscrowState, v: u64, t: Seq<Transfer>, e: Seq<EventView>) -> Step {
    Step { state: s, result: Ok(v), transfers: t, events: e }
}

/// The event published when a snapshot of record `r`'s match is recorded.
pub open spec fn snapshot_event(r: RecordView) -> EventView {
    EventView::SnapshotRecorded {
        match_id: r.m.id,
        index: r.snapshot_count,
        escrow_balance: escrow_balance(r.m) as i128,
    }
}

/// The snapshot event of a match that is being closed (nothing is left in
/// escrow).
pub open spec fn closing_snapshot_event(r: RecordView) -> EventView {
    EventView::SnapshotRecorded { match_id: r.m.id, index: r.snapshot_count, escrow_balance: 0 }
}

pub open spec fn set_record(s: EscrowState, i: int, r: RecordView) -> EscrowState {
    EscrowState { matches: s.matches.update(i, r), ..s }
}

pub open spec fn op_initialize(s: EscrowState, inv: InvocationView, oracle: Address, admin: Address) -> Step {
    if s.oracle is Some {
        fail(s, Error::AlreadyInitialized)
    } else if oracle == inv.contract {
        fail(s, Error::InvalidAddress)
    } else {
        done(
            EscrowState {
                oracle: Some(oracle),
                admin: Some(admin),
                match_count: 0,
                paused: false,
                allowlist_enforced: false,
                allowed_token_count: 0,
                dispute_period: 0,
                ..s
            },
            0,
            Seq::empty(),
            seq![EventView::Initialized { oracle, admin }],
        )
    }
}

pub open spec fn op_set_paused(s: EscrowState, paused: bool) -> Step {
    if s.admin is None {
        fail(s, Error::Unauthorized)
    } else {
        done(
            EscrowState { paused, ..s },
            0,
            Seq::empty(),
            seq![if paused { EventView::Paused } else { EventView::Unpaused }],
        )
    }
}

pub open spec fn op_add_allowed_token(s: EscrowState, token: Address) -> Step {
    if s.admin is None {
        fail(s, Error::Unauthorized)
    } else if s.allowed_tokens.contains(token) {
        done(
            EscrowState { allowlist_enforced: true, ..s },
            0,
            Seq::empty(),
            seq![EventView::TokenAdded { token }],
        )
    } else if s.allowed_token_count == u32::MAX {
        fail(s, Error::Overflow)
    } else {
        done(
            EscrowState {
                allowed_token_count: (s.allowed_token_count + 1) as u32,
                allowlist_enforced: s.allowed_token_count == 0 || s.allowlist_enforced,
                allowed_tokens: s.allowed_tokens.push(token),
                ..s
            },
            0,
            Seq::empty(),
            seq![EventView::TokenAdded { token }],
        )
    }
}

pub open spec fn op_remove_allowed_token(s: EscrowState, token: Address) -> Step {
    if s.admin is None {
        fail(s, Error::Unauthorized)
    } else {
        let was = s.allowed_tokens.contains(token);
        let count = if was {
            if s.allowed_token_count == 0 { 0u32 } else { (s.allowed_token_count - 1) as u32 }
        } else {
            s.allowed_token_count
        };
        done(
            EscrowState {
                allowed_token_count: count,
                allowlist_enforced: if was && count == 0 { false } else { s.allowlist_enforced },
                allowed_tokens: without(s.allowed_tokens, token),
                ..s
            },
            0,
            Seq::empty(),
            seq![EventView::TokenRemoved { token }],
        )
    }
}

/// The first check that `create_match` fails, if any.
pub open spec fn create_match_error(
    s: EscrowState,
    inv: InvocationView,
    player1: Address,
    player2: Address,
    stake_amount: i128,
    token: Address,
    game_id: Seq<u8>,
) -> Option<Error> {
    if s.paused {
        Some(Error::ContractPaused)
    } else if s.allowlist_enforced && !s.allowed_tokens.contains(token) {
        Some(Error::TokenNotAllowed)
    } else if stake_amount <= 0 {
        Some(Error::InvalidAmount)
    } else if game_id.len() == 0 || game_id.len() > MAX_GAME_ID_LEN {
        Some(Error::InvalidGameId)
    } else if player1 == player2 || player2 == inv.contract {
        Some(Error::InvalidPlayers)
    } else if game_id_taken(s, game_id) || s.match_count < s.matches.len() {
        Some(Error::AlreadyExists)
    } else if s.match_count == u64::MAX {
        Some(Error::Overflow)
    } else {
        None
    }
}

/// The match that `create_match` stores under id `id`.
pub open spec fn new_match(
    id: u64,
    inv: InvocationView,
    player1: Address,
    player2: Address,
    stake_amount: i128,
    token: Address,
    game_id: Seq<u8>,
    platform: Platform,
) -> MatchView {
    MatchView {
        id,
        player1,
        player2,
        stake_amount,
        token,
        game_id,
        platform,
        state: MatchState::Pending,
        player1_deposited: false,
        player2_deposited: false,
        created_ledger: inv.ledger,
        completed_ledger: None,
    }
}

pub open spec fn fresh_record(m: MatchView) -> RecordView {
    RecordView {
        m,
        snapshot_count: 0,
        snapshots: Seq::empty(),
        pending_winner: None,
        result_deadline: None,
        dispute_id: None,
        oracle_record: None,
    }
}

pub open spec fn op_create_match(
    s: EscrowState,
    inv: InvocationView,
    player1: Address,
    player2: Address,
    stake_amount: i128,
    token: Address,
    game_id: Seq<u8>,
    platform: Platform,
) -> Step {
    match create_match_error(s, inv, player1, player2, stake_amount, token, game_id) {
        Some(e) => fail(s, e),
        None => {
            let id = s.match_count;
            let m = new_match(id, inv, player1, player2, stake_amount, token, game_id, platform);
            let r = with_snapshot(fresh_record(m), SnapshotReason::Created, inv);
            done(
                EscrowState { matches: s.matches.push(r), match_count: (id + 1) as u64, ..s },
                id,
                Seq::empty(),
                seq![
                    snapshot_event(fresh_record(m)),
                    EventView::MatchCreated { match_id: id, player1, player2, stake_amount },
                ],
            )
        },
    }
}

pub open spec fn deposit_error(s: EscrowState, match_id: u64, player: Address) -> Option<Error> {
    if s.paused {
        Some(Error::ContractPaused)
    } else if match_id >= s.matches.len() {
        Some(Error::MatchNotFound)
    } else {
        let m = s.matches[match_id as int].m;
        if m.state != MatchState::Pending {
            Some(Error::InvalidState)
        } else if !is_player(m, player) {
            Some(Error::Unauthorized)
        } else if (player == m.player1 && m.player1_deposited) || (player == m.player2
            && m.player2_deposited) {
            Some(Error::AlreadyFunded)
        } else {
            None
        }
    }
}

/// The match after `player` deposited (activated once both have).
pub open spec fn deposited_match(m: MatchView, player: Address) -> MatchView {
    let m1 = if player == m.player1 {
        MatchView { player1_deposited: true, ..m }
    } else {
        MatchView { player2_deposited: true, ..m }
    };
    if m1.player1_deposited && m1.player2_deposited {
        MatchView { state: MatchState::Active, ..m1 }
    } else {
        m1
    }
}

/// A successful deposit would make the escrowed amount exceed `i128`.
pub open spec fn deposit_overflows(s: EscrowState, match_id: u64, player: Address) -> bool {
    deposit_error(s, match_id, player) is None && {
        let m = deposited_match(s.matches[match_id as int].m, player);
        m.player1_deposited && m.player2_deposited && pot_overflows(m)
    }
}

pub open spec fn op_deposit(s: EscrowState, inv: InvocationView, match_id: u64, player: Address) -> Step {
    match deposit_error(s, match_id, player) {
        Some(e) => fail(s, e),
        None => {
            let r = s.matches[match_id as int];
            let m = deposited_match(r.m, player);
            let activated = m.state == MatchState::Active;
            let r2 = with_snapshot(RecordView { m, ..r }, SnapshotReason::Deposit, inv);
            let s2 = set_record(s, match_id as int, r2);
            done(
                EscrowState {
                    active_matches: if activated {
                        s.active_matches.push(match_id)
                    } else {
                        s.active_matches
                    },
                    ..s2
                },
                0,
                seq![transfer(r.m.token, player, inv.contract, r.m.stake_amount as int)],
                deposit_events(r, m, match_id, player),
            )
        },
    }
}

/// Events of a deposit by `player` that turns record `r`'s match into `m`.
pub open spec fn deposit_events(r: RecordView, m: MatchView, match_id: u64, player: Address) -> Seq<EventView> {
    let snap = snapshot_event(RecordView { m, ..r });
    if m.state == MatchState::Active {
        seq![
            EventView::Deposited { match_id, player, state: Some(MatchState::Active) },
            EventView::MatchActivated { match_id },
            snap,
        ]
    } else {
        seq![EventView::Deposited { match_id, player, state: None }, snap]
    }
}

/// The record of a match that is paid out and completed.
pub open spec fn completed_record(r: RecordView, inv: InvocationView, reason: SnapshotReason) -> RecordView {
    with_snapshot(
        RecordView {
            m: MatchView {
                state: MatchState::Completed,
                completed_ledger: Some(inv.ledger),
                ..r.m
            },
            ..r
        },
        reason,
        inv,
    )
}

pub open spec fn complete_match(
    s: EscrowState,
    match_id: u64,
    inv: InvocationView,
    reason: SnapshotReason,
) -> EscrowState {
    EscrowState {
        active_matches: without(s.active_matches, match_id),
        ..set_record(s, match_id as int, completed_record(s.matches[match_id as int], inv, reason))
    }
}

pub open spec fn op_submit_result(s: EscrowState, inv: InvocationView, match_id: u64, winner: Winner) -> Step {
    if s.paused {
        fail(s, Error::ContractPaused)
    } else if s.oracle is None {
        fail(s, Error::Unauthorized)
    } else if match_id >= s.matches.len() {
        fail(s, Error::MatchNotFound)
    } else {
        let r = s.matches[match_id as int];
        if r.m.state != MatchState::Active {
            fail(s, Error::InvalidState)
        } else if !r.m.player1_deposited || !r.m.player2_deposited {
            fail(s, Error::NotFunded)
        } else if s.dispute_period == 0 {
            if pot_overflows(r.m) {
                fail(s, Error::Overflow)
            } else {
                done(
                    complete_match(s, match_id, inv, SnapshotReason::Completed),
                    0,
                    payout(r.m, winner, inv.contract),
                    seq![closing_snapshot_event(r), EventView::MatchCompleted { match_id, winner }],
                )
            }
        } else if inv.ledger + s.dispute_period > u32::MAX {
            fail(s, Error::Overflow)
        } else {
            let deadline = (inv.ledger + s.dispute_period) as u32;
            let r1 = RecordView {
                m: MatchView { state: MatchState::PendingResult, ..r.m },
                pending_winner: Some(winner),
                result_deadline: Some(deadline),
                ..r
            };
            let r2 = with_snapshot(r1, SnapshotReason::ResultSubmitted, inv);
            done(
                set_record(s, match_id as int, r2),
                0,
                Seq::empty(),
                seq![snapshot_event(r1), EventView::ResultPending { match_id, winner, deadline }],
            )
        }
    }
}

pub open spec fn op_submit_result_with_oracle_record(
    s: EscrowState,
    inv: InvocationView,
    match_id: u64,
    winner: Winner,
    game_id: Seq<u8>,
) -> Step {
    let st = op_submit_result(s, inv, match_id, winner);
    if st.result is Err {
        st
    } else {
        let r = st.state.matches[match_id as int];
        Step {
            state: set_record(st.state, match_id as int, RecordView { oracle_record: Some(game_id), ..r }),
            ..st
        }
    }
}

/// The record of a match that is cancelled with its deposits refunded.
pub open spec fn cancelled_record(r: RecordView, inv: InvocationView) -> RecordView {
    with_snapshot(
        RecordView {
            m: MatchView {
                state: MatchState::Cancelled,
                completed_ledger: Some(inv.ledger),
                ..r.m
            },
            ..r
        },
        SnapshotReason::Cancelled,
        inv,
    )
}

pub open spec fn cancel_match_error(s: EscrowState, match_id: u64, caller: Address) -> Option<Error> {
    if match_id >= s.matches.len() {
        Some(Error::MatchNotFound)
    } else {
        let m = s.matches[match_id as int].m;
        if m.state == MatchState::Active {
            Some(Error::MatchAlreadyActive)
        } else if m.state != MatchState::Pending {
            Some(Error::InvalidState)
        } else if !is_player(m, caller) {
            Some(Error::Unauthorized)
        } else {
            None
        }
    }
}

pub open spec fn op_cancel_match(s: EscrowState, inv: InvocationView, match_id: u64, caller: Address) -> Step {
    match cancel_match_error(s, match_id, caller) {
        Some(e) => fail(s, e),
        None => {
            let r = s.matches[match_id as int];
            done(
                set_record(s, match_id as int, cancelled_record(r, inv)),
                0,
                refunds(r.m, inv.contract),
                seq![closing_snapshot_event(r), EventView::MatchCancelled { match_id }],
            )
        },
    }
}

/// Ledgers elapsed since creation (saturating at zero).
pub open spec fn elapsed(inv: InvocationView, m: MatchView) -> int {
    if inv.ledger >= m.created_ledger {
        inv.ledger - m.created_ledger
    } else {
        0
    }
}

pub open spec fn op_expire_match(s: EscrowState, inv: InvocationView, match_id: u64) -> Step {
    if match_id >= s.matches.len() {
        fail(s, Error::MatchNotFound)
    } else {
        let r = s.matches[match_id as int];
        if r.m.state != MatchState::Pending {
            fail(s, Error::InvalidState)
        } else if elapsed(inv, r.m) < current_timeout(s) {
            fail(s, Error::MatchNotExpired)
        } else {
            done(
                set_record(s, match_id as int, cancelled_record(r, inv)),
                0,
                refunds(r.m, inv.contract),
                seq![closing_snapshot_event(r), EventView::MatchExpired { match_id }],
            )
        }
    }
}

pub open spec fn op_set_match_timeout(s: EscrowState, timeout: u32) -> Step {
    if s.admin is None {
        fail(s, Error::Unauthorized)
    } else if timeout < MIN_MATCH_TIMEOUT_LEDGERS || timeout > MAX_MATCH_TIMEOUT_LEDGERS {
        fail(s, Error::InvalidTimeout)
    } else {
        done(
            EscrowState { match_timeout: Some(timeout), ..s },
            0,
            Seq::empty(),
            seq![EventView::TimeoutChanged { old_timeout: current_timeout(s), new_timeout: timeout }],
        )
    }
}

pub open spec fn op_propose_admin(s: EscrowState, new_admin: Address) -> Step {
    if s.admin is None {
        fail(s, Error::Unauthorized)
    } else {
        done(
            EscrowState { pending_admin: Some(new_admin), ..s },
            0,
            Seq::empty(),
            seq![EventView::AdminProposed { new_admin }],
        )
    }
}

pub open spec fn op_accept_admin(s: EscrowState) -> Step {
    if s.pending_admin is None {
        fail(s, Error::Unauthorized)
    } else {
        done(
            EscrowState { admin: s.pending_admin, pending_admin: None, ..s },
            0,
            Seq::empty(),
            seq![EventView::AdminAccepted { admin: s.pending_admin->0 }],
        )
    }
}

pub open spec fn op_transfer_admin(s: EscrowState, new_admin: Address) -> Step {
    if s.admin is None {
        fail(s, Error::Unauthorized)
    } else {
        done(
            EscrowState { admin: Some(new_admin), ..s },
            0,
            Seq::empty(),
            seq![EventView::AdminTransferred { old_admin: s.admin->0, new_admin }],
        )
    }
}

pub open spec fn op_update_oracle(s: EscrowState, inv: InvocationView, new_oracle: Address) -> Step {
    if s.admin is None {
        fail(s, Error::Unauthorized)
    } else if new_oracle == inv.contract {
        fail(s, Error::InvalidAddress)
    } else if s.oracle is None {
        fail(s, Error::Unauthorized)
    } else {
        done(
            EscrowState { oracle: Some(new_oracle), ..s },
            0,
            Seq::empty(),
            seq![EventView::OracleUpdated { old_oracle: s.oracle->0, new_oracle }],
        )
    }
}

pub open spec fn op_set_dispute_period(s: EscrowState, period: u32) -> Step {
    if s.admin is None {
        fail(s, Error::Unauthorized)
    } else {
        done(
            EscrowState { dispute_period: period, ..s },
            0,
            Seq::empty(),
            seq![EventView::DisputePeriodSet { period }],
        )
    }
}

pub open spec fn op_finalize_match(s: EscrowState, inv: InvocationView, match_id: u64) -> Step {
    if match_id >= s.matches.len() {
        fail(s, Error::MatchNotFound)
    } else {
        let r = s.matches[match_id as int];
        if r.m.state != MatchState::PendingResult {
            fail(s, Error::MatchNotInPendingResult)
        } else if r.result_deadline is None {
            fail(s, Error::PendingResultNotFound)
        } else if inv.ledger < r.result_deadline->0 {
            fail(s, Error::DisputePeriodNotElapsed)
        } else if r.dispute_id is Some {
            fail(s, Error::DisputeAlreadyRaised)
        } else if r.pending_winner is None {
            fail(s, Error::PendingResultNotFound)
        } else if pot_overflows(r.m) {
            fail(s, Error::Overflow)
        } else {
            done(
                complete_match(s, match_id, inv, SnapshotReason::Finalized),
                0,
                payout(r.m, r.pending_winner->0, inv.contract),
                seq![
                    closing_snapshot_event(r),
                    EventView::MatchFinalized { match_id, winner: r.pending_winner->0 },
                ],
            )
        }
    }
}

pub open spec fn dispute_error(
    s: EscrowState,
    inv: InvocationView,
    match_id: u64,
    disputer: Address,
    evidence_hash: Seq<u8>,
) -> Option<Error> {
    if match_id >= s.matches.len() {
        Some(Error::MatchNotFound)
    } else {
        let r = s.matches[match_id as int];
        if r.m.state != MatchState::PendingResult {
            Some(Error::MatchNotInPendingResult)
        } else if !is_player(r.m, disputer) {
            Some(Error::Unauthorized)
        } else if r.result_deadline is None {
            Some(Error::PendingResultNotFound)
        } else if inv.ledger >= r.result_deadline->0 {
            Some(Error::DisputePeriodNotElapsed)
        } else if evidence_hash.len() == 0 {
            Some(Error::InvalidEvidenceHash)
        } else if r.dispute_id is Some {
            Some(Error::DisputeAlreadyRaised)
        } else if inv.ledger + VOTING_PERIOD_LEDGERS > u32::MAX || s.disputes.len() >= u64::MAX {
            Some(Error::Overflow)
        } else {
            None
        }
    }
}

pub open spec fn op_dispute_oracle_result(
    s: EscrowState,
    inv: InvocationView,
    match_id: u64,
    disputer: Address,
    evidence_hash: Seq<u8>,
) -> Step {
    match dispute_error(s, inv, match_id, disputer, evidence_hash) {
        Some(e) => fail(s, e),
        None => {
            let id = s.disputes.len() as u64;
            let d = DisputeView {
                id,
                match_id,
                disputer,
                evidence_hash,
                yes_votes: 0,
                no_votes: 0,
                voting_deadline: (inv.ledger + VOTING_PERIOD_LEDGERS) as u32,
                state: DisputeState::Active,
            };
            let r = s.matches[match_id as int];
            let s2 = set_record(s, match_id as int, RecordView { dispute_id: Some(id), ..r });
            done(
                EscrowState {
                    disputes: s.disputes.push(DisputeRecordView { dispute: d, votes: Seq::empty() }),
                    ..s2
                },
                id,
                Seq::empty(),
                seq![EventView::DisputeCreated { dispute_id: id, match_id, disputer, evidence_hash }],
            )
        },
    }
}

pub open spec fn has_voted(votes: Seq<(Address, bool)>, voter: Address) -> bool {
    exists|i: int| 0 <= i < votes.len() && (#[trigger] votes[i]).0 == voter
}

/// The checks `vote_on_dispute` makes before it asks for the voter's balance.
pub open spec fn vote_precheck_error(
    s: EscrowState,
    inv: InvocationView,
    dispute_id: u64,
    voter: Address,
) -> Option<Error> {
    if dispute_id >= s.disputes.len() {
        Some(Error::DisputeNotFound)
    } else {
        let d = s.disputes[dispute_id as int];
        if d.dispute.state != DisputeState::Active {
            Some(Error::DisputeAlreadyResolved)
        } else if inv.ledger >= d.dispute.voting_deadline {
            Some(Error::VotingPeriodElapsed)
        } else if has_voted(d.votes, voter) {
            Some(Error::AlreadyVoted)
        } else if d.dispute.match_id >= s.matches.len() {
            Some(Error::MatchNotFound)
        } else {
            None
        }
    }
}

pub open spec fn op_vote_on_dispute(
    s: EscrowState,
    inv: InvocationView,
    dispute_id: u64,
    voter: Address,
    vote: bool,
    balance: i128,
) -> Step {
    match vote_precheck_error(s, inv, dispute_id, voter) {
        Some(e) => fail(s, e),
        None => if balance <= 0 {
            fail(s, Error::NotStaker)
        } else {
            let dr = s.disputes[dispute_id as int];
            let d = dr.dispute;
            let d2 = if vote {
                DisputeView { yes_votes: saturating_add_i128(d.yes_votes, balance), ..d }
            } else {
                DisputeView { no_votes: saturating_add_i128(d.no_votes, balance), ..d }
            };
            done(
                EscrowState {
                    disputes: s.disputes.update(
                        dispute_id as int,
                        DisputeRecordView { dispute: d2, votes: dr.votes.push((voter, vote)) },
                    ),
                    ..s
                },
                0,
                Seq::empty(),
                seq![EventView::Voted { dispute_id, voter, vote }],
            )
        },
    }
}

pub open spec fn op_resolve_dispute_by_vote(s: EscrowState, inv: InvocationView, dispute_id: u64) -> Step {
    if dispute_id >= s.disputes.len() {
        fail(s, Error::DisputeNotFound)
    } else {
        let dr = s.disputes[dispute_id as int];
        let d = dr.dispute;
        if d.state != DisputeState::Active {
            fail(s, Error::DisputeAlreadyResolved)
        } else if inv.ledger < d.voting_deadline {
            fail(s, Error::VotingPeriodNotElapsed)
        } else if d.match_id >= s.matches.len() {
            fail(s, Error::MatchNotFound)
        } else {
            let r = s.matches[d.match_id as int];
            if r.m.state != MatchState::PendingResult {
                fail(s, Error::MatchNotInPendingResult)
            } else if r.pending_winner is None {
                fail(s, Error::PendingResultNotFound)
            } else if pot_overflows(r.m) {
                fail(s, Error::Overflow)
            } else {
                let overturned = d.yes_votes > d.no_votes;
                let winner = if overturned { Winner::Draw } else { r.pending_winner->0 };
                let d2 = DisputeView {
                    state: if overturned {
                        DisputeState::ResolvedOverturned
                    } else {
                        DisputeState::ResolvedUpheld
                    },
                    ..d
                };
                let s2 = complete_match(s, d.match_id, inv, SnapshotReason::Finalized);
                done(
                    EscrowState {
                        disputes: s.disputes.update(
                            dispute_id as int,
                            DisputeRecordView { dispute: d2, ..dr },
                        ),
                        ..s2
                    },
                    0,
                    payout(r.m, winner, inv.contract),
                    seq![
                        closing_snapshot_event(r),
                        EventView::DisputeResolved {
                            dispute_id,
                            match_id: d.match_id,
                            state: d2.state,
                            winner,
                        },
                    ],
                )
            }
        }
    }
}

/// The outcome of running `op` on state `s` in invocation `inv`.
pub open spec fn step(s: EscrowState, inv: InvocationView, op: Op) -> Step {
    match op {
        Op::Initialize { oracle, admin } => op_initialize(s, inv, oracle, admin),
        Op::Pause => op_set_paused(s, true),
        Op::Unpause => op_set_paused(s, false),
        Op::AddAllowedToken { token } => op_add_allowed_token(s, token),
        Op::RemoveAllowedToken { token } => op_remove_allowed_token(s, token),
        Op::CreateMatch { player1, player2, stake_amount, token, game_id, platform } =>
            op_create_match(s, inv, player1, player2, stake_amount, token, game_id, platform),
        Op::Deposit { match_id, player } => op_deposit(s, inv, match_id, player),
        Op::SubmitResult { match_id, winner } => op_submit_result(s, inv, match_id, winner),
        Op::SubmitResultWithOracleRecord { match_id, winner, game_id } =>
            op_submit_result_with_oracle_record(s, inv, match_id, winner, game_id),
        Op::CancelMatch { match_id, caller } => op_cancel_match(s, inv, match_id, caller),
        Op::ExpireMatch { match_id } => op_expire_match(s, inv, match_id),
        Op::SetMatchTimeout { timeout } => op_set_match_timeout(s, timeout),
        Op::ProposeAdmin { new_admin } => op_propose_admin(s, new_admin),
        Op::AcceptAdmin => op_accept_admin(s),
        Op::FinalizeMatch { match_id } => op_finalize_match(s, inv, match_id),
        Op::DisputeOracleResult { match_id, disputer, evidence_hash } =>
            op_dispute_oracle_result(s, inv, match_id, disputer, evidence_hash),
        Op::VoteOnDispute { dispute_id, voter, vote, balance } =>
            op_vote_on_dispute(s, inv, dispute_id, voter, vote, balance),
        Op::ResolveDisputeByVote { dispute_id } => op_resolve_dispute_by_vote(s, inv, dispute_id),
        Op::SetDisputePeriod { period } => op_set_dispute_period(s, period),
        Op::UpdateOracle { new_oracle } => op_update_oracle(s, inv, new_oracle),
        Op::TransferAdmin { new_admin } => op_transfer_admin(s, new_admin),
    }
}

pub open spec fn admin_signed(s: EscrowState, inv: InvocationView) -> bool {
    s.admin matches Some(a) ==> signed(inv, a)
}

/// The host aborts the invocation unless this holds: the authorization that
/// the operation demands was given, and no arithmetic overflows.
pub open spec fn admissible(s: EscrowState, inv: InvocationView, op: Op) -> bool {
    match op {
        Op::Initialize { .. } => true,
        Op::Pause | Op::Unpause | Op::AddAllowedToken { .. } | Op::RemoveAllowedToken { .. }
        | Op::SetMatchTimeout { .. } | Op::ProposeAdmin { .. } | Op::SetDisputePeriod { .. }
        | Op::UpdateOracle { .. } | Op::TransferAdmin { .. } => admin_signed(s, inv),
        Op::CreateMatch { player1, .. } => signed(inv, player1),
        Op::Deposit { match_id, player } => signed(inv, player) && !deposit_overflows(
            s,
            match_id,
            player,
        ),
        Op::SubmitResult { .. } | Op::SubmitResultWithOracleRecord { .. } => (!s.paused
            && s.oracle is Some) ==> signed(inv, s.oracle->0),
        Op::CancelMatch { match_id, caller } => cancel_match_error(s, match_id, caller) is None
            ==> signed(inv, caller),
        Op::ExpireMatch { .. } | Op::FinalizeMatch { .. } | Op::ResolveDisputeByVote { .. } => true,
        Op::AcceptAdmin => s.pending_admin matches Some(p) ==> signed(inv, p),
        Op::DisputeOracleResult { disputer, .. } => signed(inv, disputer),
        Op::VoteOnDispute { voter, .. } => signed(inv, voter),
    }
}

// ── Queries ────────────────────────────────────────────────────────────────

/// The matches among `rs` whose state is `st`, in id order.
pub open spec fn matches_in_state(rs: Seq<RecordView>, st: MatchState) -> Seq<MatchView>
    decreases rs.len(),
{
    if rs.len() == 0 {
        Seq::empty()
    } else {
        let pre = matches_in_state(rs.drop_last(), st);
        if rs.last().m.state == st {
            pre.push(rs.last().m)
        } else {
            pre
        }
    }
}

/// Ids of the matches among `rs` that `player` plays in, in id order.
pub open spec fn player_match_ids(rs: Seq<RecordView>, player: Address) -> Seq<u64>
    decreases rs.len(),
{
    if rs.len() == 0 {
        Seq::empty()
    } else {
        let pre = player_match_ids(rs.drop_last(), player);
        if is_player(rs.last().m, player) {
            pre.push(rs.last().m.id)
        } else {
            pre
        }
    }
}

/// The page of at most `limit` items starting at position `offset`.
pub open spec fn page<A>(s: Seq<A>, offset: u32, limit: u32) -> Seq<A> {
    if limit == 0 || offset >= s.len() {
        Seq::empty()
    } else {
        s.subrange(offset as int, min_int(s.len() as int, offset + limit))
    }
}

/// Matches with ids below the match count whose state is `st`.
pub open spec fn listed_matches(s: EscrowState, st: MatchState) -> Seq<MatchView> {
    matches_in_state(s.matches.take(s.match_count as int), st)
}

/// Whether `caller` may read a match's snapshots (`Ok(true)`: exact
/// amounts; `Ok(false)`: amounts redacted).
pub open spec fn snapshot_access(s: EscrowState, caller: Address, m: MatchView) -> Result<bool, Error> {
    match s.admin {
        None => Err(Error::Unauthorized),
        Some(a) => if caller == a {
            Ok(true)
        } else if is_player(m, caller) {
            Ok(false)
        } else {
            Err(Error::Unauthorized)
        },
    }
}

pub open spec fn snapshots_result(s: EscrowState, caller: Address, match_id: u64) -> Result<
    Seq<SnapshotView>,
    Error,
> {
    if match_id >= s.matches.len() {
        Err(Error::MatchNotFound)
    } else {
        let r = s.matches[match_id as int];
        match snapshot_access(s, caller, r.m) {
            Err(e) => Err(e),
            Ok(full) => if full {
                Ok(snapshot_history(r))
            } else {
                Ok(redact_all(snapshot_history(r)))
            },
        }
    }
}

pub open spec fn latest_snapshot_result(s: EscrowState, caller: Address, match_id: u64) -> Result<
    SnapshotView,
    Error,
> {
    if match_id >= s.matches.len() {
        Err(Error::MatchNotFound)
    } else {
        let r = s.matches[match_id as int];
        match snapshot_access(s, caller, r.m) {
            Err(e) => Err(e),
            Ok(full) => if r.snapshot_count == 0 {
                Err(Error::SnapshotNotFound)
            } else {
                let snap = r.snapshots[((r.snapshot_count - 1) % (MAX_SNAPSHOTS_PER_MATCH as int))];
                if full {
                    Ok(snap)
                } else {
                    Ok(redact(snap))
                }
            },
        }
    }
}

// ── Well-formedness ────────────────────────────────────────────────────────

pub open spec fn record_wf(r: RecordView, i: int) -> bool {
    let m = r.m;
    let both = m.player1_deposited && m.player2_deposited;
    &&& m.id == i
    &&& m.player1 != m.player2
    &&& m.stake_amount > 0
    &&& 0 < m.game_id.len() <= MAX_GAME_ID_LEN
    &&& (m.state == MatchState::Active || m.state == MatchState::PendingResult || m.state
        == MatchState::Completed) ==> both
    &&& m.state == MatchState::Pending ==> !both
    &&& both ==> !pot_overflows(m)
    &&& m.state == MatchState::PendingResult ==> (r.pending_winner is Some && r.result_deadline is Some)
    &&& r.snapshots.len() == min_int(r.snapshot_count as int, MAX_SNAPSHOTS_PER_MATCH as int)
    &&& held_indices_ok(r.snapshots, r.snapshot_count)
    &&& r.dispute_id is Some ==> (m.state == MatchState::PendingResult || m.state
        == MatchState::Completed)
}

pub open spec fn is_active_id(matches: Seq<RecordView>, id: u64) -> bool {
    id < matches.len() && (matches[id as int].m.state == MatchState::Active || matches[id as int].m.state
        == MatchState::PendingResult)
}

pub open spec fn unique_voters(votes: Seq<(Address, bool)>) -> bool {
    forall|i: int, j: int|
        0 <= i < votes.len() && 0 <= j < votes.len() && i != j ==> votes[i].0 != votes[j].0
}

pub open spec fn dispute_wf(matches: Seq<RecordView>, dr: DisputeRecordView, d: int) -> bool {
    &&& dr.dispute.id == d
    &&& dr.dispute.match_id < matches.len()
    &&& matches[dr.dispute.match_id as int].dispute_id == Some(d as u64)
    &&& dr.dispute.state == DisputeState::Active ==> matches[dr.dispute.match_id as int].m.state
        == MatchState::PendingResult
    &&& unique_voters(dr.votes)
}

pub open spec fn admin_wf(
    oracle: Option<Address>,
    admin: Option<Address>,
    pending_admin: Option<Address>,
    allowed_tokens: Seq<Address>,
) -> bool {
    &&& oracle.is_none() == admin.is_none()
    &&& admin is None ==> allowed_tokens.len() == 0
    &&& pending_admin is Some ==> admin is Some
}

pub open spec fn tokens_wf(count: u32, enforced: bool, allowed_tokens: Seq<Address>) -> bool {
    &&& count == allowed_tokens.len()
    &&& enforced == (allowed_tokens.len() > 0)
    &&& no_dups(allowed_tokens)
}

pub open spec fn timeout_wf(match_timeout: Option<u32>) -> bool {
    match_timeout matches Some(t) ==> MIN_MATCH_TIMEOUT_LEDGERS <= t <= MAX_MATCH_TIMEOUT_LEDGERS
}

pub open spec fn records_wf(matches: Seq<RecordView>) -> bool {
    forall|i: int| 0 <= i < matches.len() ==> record_wf(#[trigger] matches[i], i)
}

pub open spec fn game_ids_unique(matches: Seq<RecordView>) -> bool {
    forall|i: int, j: int|
        0 <= i < matches.len() && 0 <= j < matches.len() && i != j
            ==> #[trigger] matches[i].m.game_id != #[trigger] matches[j].m.game_id
}

pub open spec fn active_wf(matches: Seq<RecordView>, active: Seq<u64>) -> bool {
    &&& no_dups(active)
    &&& forall|id: u64| #[trigger] active.contains(id) <==> is_active_id(matches, id)
}

pub open spec fn disputes_wf(matches: Seq<RecordView>, disputes: Seq<DisputeRecordView>) -> bool {
    &&& forall|d: int| 0 <= d < disputes.len() ==> dispute_wf(matches, #[trigger] disputes[d], d)
    &&& forall|i: int|
        0 <= i < matches.len() && (#[trigger] matches[i]).dispute_id is Some
            ==> matches[i].dispute_id->0 < disputes.len() && disputes[matches[i].dispute_id->0 as int].dispute.match_id == i
}

/// The invariant that every reachable contract state satisfies.
pub open spec fn wf(s: EscrowState) -> bool {
    &&& admin_wf(s.oracle, s.admin, s.pending_admin, s.allowed_tokens)
    &&& tokens_wf(s.allowed_token_count, s.allowlist_enforced, s.allowed_tokens)
    &&& timeout_wf(s.match_timeout)
    &&& s.match_count <= s.matches.len()
    &&& records_wf(s.matches)
    &&& game_ids_unique(s.matches)
    &&& active_wf(s.matches, s.active_matches)
    &&& disputes_wf(s.matches, s.disputes)
}

} // verus!
