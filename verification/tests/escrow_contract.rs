use checkmate_escrow::escrow::contract::EscrowContract;
use checkmate_escrow::escrow::errors::Error;
use checkmate_escrow::escrow::state::{DEFAULT_MATCH_TIMEOUT_LEDGERS, VOTING_PERIOD_LEDGERS};
use checkmate_escrow::escrow::types::{
    DisputeState, Event, Invocation, MatchState, Platform, SnapshotReason, Transfer, Winner,
};

const CONTRACT: u64 = 1000;
const ADMIN: u64 = 1;
const ORACLE: u64 = 2;
const PLAYER1: u64 = 10;
const PLAYER2: u64 = 11;
const STRANGER: u64 = 12;
const TOKEN: u64 = 500;
const START: u32 = 1_000;

fn inv(ledger: u32, signers: &[u64]) -> Invocation {
    Invocation {
        ledger,
        contract: CONTRACT,
        signers: signers.to_vec(),
        token_symbol: b"XLM".to_vec(),
    }
}

fn setup() -> EscrowContract {
    let mut c = EscrowContract::new();
    c.initialize(&inv(START, &[ADMIN]), ORACLE, ADMIN).unwrap();
    c
}

fn create(c: &mut EscrowContract, ledger: u32, game_id: &str) -> Result<u64, Error> {
    c.create_match(
        &inv(ledger, &[PLAYER1]),
        PLAYER1,
        PLAYER2,
        100,
        TOKEN,
        game_id.as_bytes().to_vec(),
        Platform::Lichess,
    )
}

/// A match with both stakes deposited.
fn active_match(c: &mut EscrowContract, game_id: &str) -> u64 {
    let id = create(c, START, game_id).unwrap();
    c.deposit(&inv(START, &[PLAYER1]), id, PLAYER1).unwrap();
    c.deposit(&inv(START, &[PLAYER2]), id, PLAYER2).unwrap();
    id
}

fn t(from: u64, to: u64, amount: i128) -> Transfer {
    Transfer { token: TOKEN, from, to, amount }
}

#[test]
fn test_game_id_reservation_survives_ledger_advancement() {
    let mut c = setup();
    let _match_id_1 = create(&mut c, START, "game_123").unwrap();
    let result = create(&mut c, START + 100, "game_123");
    assert_eq!(result, Err(Error::AlreadyExists));
}

#[test]
fn create_match_stores_pending_match() {
    let mut c = setup();
    let id = create(&mut c, START, "abcd1234").unwrap();
    assert_eq!(id, 0);
    assert_eq!(c.get_match_count(), Ok(1));
    let m = c.get_match(id).unwrap();
    assert_eq!(m.player1, PLAYER1);
    assert_eq!(m.player2, PLAYER2);
    assert_eq!(m.stake_amount, 100);
    assert_eq!(m.game_id, b"abcd1234".to_vec());
    assert_eq!(m.state, MatchState::Pending);
    assert!(!m.player1_deposited && !m.player2_deposited);
    assert_eq!(m.created_ledger, START);
    assert_eq!(m.completed_ledger, None);
    assert_eq!(create(&mut c, START, "efgh5678"), Ok(1));
}

#[test]
fn deposits_activate_match_and_winner_takes_pot() {
    let mut c = setup();
    let id = create(&mut c, START, "g1").unwrap();
    assert_eq!(c.deposit(&inv(START, &[PLAYER1]), id, PLAYER1), Ok(vec![t(PLAYER1, CONTRACT, 100)]));
    assert_eq!(c.is_funded(id), Ok(false));
    assert_eq!(c.get_depositor_count(id), Ok(1));
    assert_eq!(c.get_escrow_balance(id), Ok(100));
    assert_eq!(c.deposit(&inv(START, &[PLAYER2]), id, PLAYER2), Ok(vec![t(PLAYER2, CONTRACT, 100)]));
    assert_eq!(c.get_match(id).unwrap().state, MatchState::Active);
    assert_eq!(c.is_funded(id), Ok(true));
    assert_eq!(c.get_escrow_balance(id), Ok(200));
    let paid = c.submit_result(&inv(START + 5, &[ORACLE]), id, Winner::Player1).unwrap();
    assert_eq!(paid, vec![t(CONTRACT, PLAYER1, 200)]);
    let m = c.get_match(id).unwrap();
    assert_eq!(m.state, MatchState::Completed);
    assert_eq!(m.completed_ledger, Some(START + 5));
    assert_eq!(c.get_escrow_balance(id), Ok(0));
}

#[test]
fn draw_returns_each_stake() {
    let mut c = setup();
    let id = active_match(&mut c, "g1");
    let paid = c.submit_result(&inv(START, &[ORACLE]), id, Winner::Draw).unwrap();
    assert_eq!(paid, vec![t(CONTRACT, PLAYER1, 100), t(CONTRACT, PLAYER2, 100)]);
}

#[test]
fn player2_win_pays_player2() {
    let mut c = setup();
    let id = active_match(&mut c, "g1");
    let paid = c.submit_result(&inv(START, &[ORACLE]), id, Winner::Player2).unwrap();
    assert_eq!(paid, vec![t(CONTRACT, PLAYER2, 200)]);
}

#[test]
fn deposits_and_payout_conserve_tokens() {
    let mut c = setup();
    let id = create(&mut c, START, "g1").unwrap();
    let mut all = Vec::new();
    all.extend(c.deposit(&inv(START, &[PLAYER1]), id, PLAYER1).unwrap());
    all.extend(c.deposit(&inv(START, &[PLAYER2]), id, PLAYER2).unwrap());
    all.extend(c.submit_result(&inv(START, &[ORACLE]), id, Winner::Draw).unwrap());
    let net: i128 = all
        .iter()
        .map(|x| if x.to == CONTRACT { x.amount } else if x.from == CONTRACT { -x.amount } else { 0 })
        .sum();
    assert_eq!(net, 0);
}

#[test]
fn cancel_refunds_only_deposited_stake() {
    let mut c = setup();
    let id = create(&mut c, START, "g1").unwrap();
    c.deposit(&inv(START, &[PLAYER1]), id, PLAYER1).unwrap();
    let refunds = c.cancel_match(&inv(START + 1, &[PLAYER2]), id, PLAYER2).unwrap();
    assert_eq!(refunds, vec![t(CONTRACT, PLAYER1, 100)]);
    let m = c.get_match(id).unwrap();
    assert_eq!(m.state, MatchState::Cancelled);
    assert_eq!(m.completed_ledger, Some(START + 1));
}

#[test]
fn cancel_by_stranger_is_unauthorized() {
    let mut c = setup();
    let id = create(&mut c, START, "g1").unwrap();
    assert_eq!(c.cancel_match(&inv(START, &[STRANGER]), id, STRANGER), Err(Error::Unauthorized));
}

#[test]
fn cancel_active_match_is_refused() {
    let mut c = setup();
    let id = active_match(&mut c, "g1");
    assert_eq!(c.cancel_match(&inv(START, &[PLAYER1]), id, PLAYER1), Err(Error::MatchAlreadyActive));
}

#[test]
fn expire_only_after_timeout() {
    let mut c = setup();
    let id = create(&mut c, START, "g1").unwrap();
    c.deposit(&inv(START, &[PLAYER2]), id, PLAYER2).unwrap();
    let early = START + DEFAULT_MATCH_TIMEOUT_LEDGERS - 1;
    assert_eq!(c.expire_match(&inv(early, &[]), id), Err(Error::MatchNotExpired));
    let due = START + DEFAULT_MATCH_TIMEOUT_LEDGERS;
    assert_eq!(c.expire_match(&inv(due, &[]), id), Ok(vec![t(CONTRACT, PLAYER2, 100)]));
    assert_eq!(c.get_match(id).unwrap().state, MatchState::Cancelled);
}

#[test]
fn completed_match_is_immutable() {
    let mut c = setup();
    let id = active_match(&mut c, "g1");
    c.submit_result(&inv(START, &[ORACLE]), id, Winner::Player1).unwrap();
    assert_eq!(c.submit_result(&inv(START, &[ORACLE]), id, Winner::Player2), Err(Error::InvalidState));
    assert_eq!(c.deposit(&inv(START, &[PLAYER1]), id, PLAYER1), Err(Error::InvalidState));
    assert_eq!(c.cancel_match(&inv(START, &[PLAYER1]), id, PLAYER1), Err(Error::InvalidState));
    assert_eq!(c.expire_match(&inv(u32::MAX, &[]), id), Err(Error::InvalidState));
    assert_eq!(c.finalize_match(&inv(u32::MAX, &[]), id), Err(Error::MatchNotInPendingResult));
    assert_eq!(c.get_match(id).unwrap().state, MatchState::Completed);
}

#[test]
fn submit_on_pending_match_is_invalid_state() {
    let mut c = setup();
    let id = create(&mut c, START, "g1").unwrap();
    assert_eq!(c.submit_result(&inv(START, &[ORACLE]), id, Winner::Player1), Err(Error::InvalidState));
}

#[test]
fn initialize_twice_is_refused() {
    let mut c = setup();
    assert_eq!(c.initialize(&inv(START, &[ADMIN]), ORACLE, ADMIN), Err(Error::AlreadyInitialized));
}

#[test]
fn oracle_cannot_be_the_contract() {
    let mut c = EscrowContract::new();
    assert_eq!(c.initialize(&inv(START, &[ADMIN]), CONTRACT, ADMIN), Err(Error::InvalidAddress));
    assert!(!c.is_initialized());
}

#[test]
fn getters_before_initialize() {
    let c = EscrowContract::new();
    assert_eq!(c.get_admin(), Err(Error::Unauthorized));
    assert_eq!(c.get_oracle(), Err(Error::Unauthorized));
    assert_eq!(c.get_match_timeout(), Ok(DEFAULT_MATCH_TIMEOUT_LEDGERS));
    assert_eq!(c.get_match_count(), Ok(0));
    assert!(!c.is_paused());
}

#[test]
fn create_match_input_checks() {
    let mut c = setup();
    let i = inv(START, &[PLAYER1]);
    assert_eq!(
        c.create_match(&i, PLAYER1, PLAYER2, 0, TOKEN, b"g".to_vec(), Platform::Lichess),
        Err(Error::InvalidAmount)
    );
    assert_eq!(
        c.create_match(&i, PLAYER1, PLAYER2, 10, TOKEN, Vec::new(), Platform::Lichess),
        Err(Error::InvalidGameId)
    );
    assert_eq!(
        c.create_match(&i, PLAYER1, PLAYER2, 10, TOKEN, vec![b'x'; 65], Platform::Lichess),
        Err(Error::InvalidGameId)
    );
    assert_eq!(
        c.create_match(&i, PLAYER1, PLAYER2, 10, TOKEN, vec![b'x'; 64], Platform::ChessDotCom),
        Ok(0)
    );
    assert_eq!(
        c.create_match(&i, PLAYER1, PLAYER1, 10, TOKEN, b"g2".to_vec(), Platform::Lichess),
        Err(Error::InvalidPlayers)
    );
    assert_eq!(
        c.create_match(&i, PLAYER1, CONTRACT, 10, TOKEN, b"g3".to_vec(), Platform::Lichess),
        Err(Error::InvalidPlayers)
    );
    assert_eq!(c.get_match_count(), Ok(1));
}

#[test]
fn deposit_checks() {
    let mut c = setup();
    let id = create(&mut c, START, "g1").unwrap();
    assert_eq!(c.deposit(&inv(START, &[STRANGER]), id, STRANGER), Err(Error::Unauthorized));
    assert_eq!(c.deposit(&inv(START, &[PLAYER1]), 9, PLAYER1), Err(Error::MatchNotFound));
    c.deposit(&inv(START, &[PLAYER1]), id, PLAYER1).unwrap();
    assert_eq!(c.deposit(&inv(START, &[PLAYER1]), id, PLAYER1), Err(Error::AlreadyFunded));
    assert_eq!(c.get_match(9).err(), Some(Error::MatchNotFound));
}

#[test]
fn pause_blocks_operations() {
    let mut c = setup();
    let id = create(&mut c, START, "g1").unwrap();
    c.pause(&inv(START, &[ADMIN])).unwrap();
    assert!(c.is_paused());
    assert_eq!(create(&mut c, START, "g2"), Err(Error::ContractPaused));
    assert_eq!(c.deposit(&inv(START, &[PLAYER1]), id, PLAYER1), Err(Error::ContractPaused));
    assert_eq!(c.submit_result(&inv(START, &[ORACLE]), id, Winner::Draw), Err(Error::ContractPaused));
    c.unpause(&inv(START, &[ADMIN])).unwrap();
    assert_eq!(create(&mut c, START, "g2"), Ok(1));
}

#[test]
fn allowlist_enforced_after_first_token() {
    let mut c = setup();
    assert!(!c.is_allowlist_enforced());
    c.add_allowed_token(&inv(START, &[ADMIN]), 77).unwrap();
    assert!(c.is_allowlist_enforced());
    assert!(c.is_token_allowed(77));
    assert!(!c.is_token_allowed(TOKEN));
    assert_eq!(create(&mut c, START, "g1"), Err(Error::TokenNotAllowed));
    c.add_allowed_token(&inv(START, &[ADMIN]), TOKEN).unwrap();
    assert_eq!(c.get_allowed_tokens(), Ok(vec![77, TOKEN]));
    assert_eq!(create(&mut c, START, "g1"), Ok(0));
    c.remove_allowed_token(&inv(START, &[ADMIN]), 77).unwrap();
    assert!(!c.is_token_allowed(77));
}

#[test]
fn match_timeout_bounds() {
    let mut c = setup();
    assert_eq!(c.set_match_timeout(&inv(START, &[ADMIN]), 5), Err(Error::InvalidTimeout));
    assert_eq!(c.set_match_timeout(&inv(START, &[ADMIN]), 1_555_201), Err(Error::InvalidTimeout));
    c.set_match_timeout(&inv(START, &[ADMIN]), 17_280).unwrap();
    assert_eq!(c.get_match_timeout(), Ok(17_280));
}

#[test]
fn admin_handover() {
    let mut c = setup();
    c.propose_admin(&inv(START, &[ADMIN]), 50).unwrap();
    assert_eq!(c.get_admin(), Ok(ADMIN));
    c.accept_admin(&inv(START, &[50])).unwrap();
    assert_eq!(c.get_admin(), Ok(50));
    c.transfer_admin(&inv(START, &[50]), 51).unwrap();
    assert_eq!(c.get_admin(), Ok(51));
    c.update_oracle(&inv(START, &[51]), 60).unwrap();
    assert_eq!(c.get_oracle(), Ok(60));
}

#[test]
fn delayed_result_finalizes_after_dispute_window() {
    let mut c = setup();
    c.set_dispute_period(&inv(START, &[ADMIN]), 100).unwrap();
    assert_eq!(c.get_dispute_period(), 100);
    let id = active_match(&mut c, "g1");
    assert_eq!(c.submit_result(&inv(START, &[ORACLE]), id, Winner::Player2), Ok(vec![]));
    assert_eq!(c.get_match(id).unwrap().state, MatchState::PendingResult);
    assert_eq!(c.finalize_match(&inv(START + 99, &[]), id), Err(Error::DisputePeriodNotElapsed));
    assert_eq!(c.finalize_match(&inv(START + 100, &[]), id), Ok(vec![t(CONTRACT, PLAYER2, 200)]));
    assert_eq!(c.get_match(id).unwrap().state, MatchState::Completed);
    assert_eq!(c.finalize_match(&inv(START + 200, &[]), id), Err(Error::MatchNotInPendingResult));
    assert_eq!(c.submit_result(&inv(START + 200, &[ORACLE]), id, Winner::Player2), Err(Error::InvalidState));
}

#[test]
fn dispute_vote_overturns_to_draw() {
    let mut c = setup();
    c.set_dispute_period(&inv(START, &[ADMIN]), 100).unwrap();
    let id = active_match(&mut c, "g1");
    c.submit_result(&inv(START, &[ORACLE]), id, Winner::Player1).unwrap();
    assert_eq!(
        c.dispute_oracle_result(&inv(START + 1, &[PLAYER2]), id, PLAYER2, Vec::new()),
        Err(Error::InvalidEvidenceHash)
    );
    assert_eq!(
        c.dispute_oracle_result(&inv(START + 1, &[STRANGER]), id, STRANGER, vec![1]),
        Err(Error::Unauthorized)
    );
    let did = c.dispute_oracle_result(&inv(START + 1, &[PLAYER2]), id, PLAYER2, vec![7; 32]).unwrap();
    assert_eq!(did, 0);
    assert_eq!(c.get_match_dispute_id(id), Ok(0));
    assert_eq!(
        c.dispute_oracle_result(&inv(START + 2, &[PLAYER1]), id, PLAYER1, vec![1]),
        Err(Error::DisputeAlreadyRaised)
    );
    assert_eq!(c.finalize_match(&inv(START + 500, &[]), id), Err(Error::DisputeAlreadyRaised));
    assert_eq!(c.voting_token(&inv(START + 2, &[20]), did, 20), Ok(TOKEN));
    c.vote_on_dispute(&inv(START + 2, &[20]), did, 20, true, 50).unwrap();
    assert_eq!(c.vote_on_dispute(&inv(START + 3, &[20]), did, 20, false, 50), Err(Error::AlreadyVoted));
    assert_eq!(c.vote_on_dispute(&inv(START + 3, &[21]), did, 21, false, 0), Err(Error::NotStaker));
    c.vote_on_dispute(&inv(START + 3, &[21]), did, 21, false, 30).unwrap();
    let d = c.get_dispute(did).unwrap();
    assert_eq!((d.yes_votes, d.no_votes), (50, 30));
    assert_eq!(d.voting_deadline, START + 1 + VOTING_PERIOD_LEDGERS);
    assert_eq!(c.resolve_dispute_by_vote(&inv(START + 4, &[]), did), Err(Error::VotingPeriodNotElapsed));
    let end = START + 1 + VOTING_PERIOD_LEDGERS;
    assert_eq!(
        c.vote_on_dispute(&inv(end + 1, &[22]), did, 22, true, 5),
        Err(Error::VotingPeriodElapsed)
    );
    let paid = c.resolve_dispute_by_vote(&inv(end, &[]), did).unwrap();
    assert_eq!(paid, vec![t(CONTRACT, PLAYER1, 100), t(CONTRACT, PLAYER2, 100)]);
    assert_eq!(c.get_dispute(did).unwrap().state, DisputeState::ResolvedOverturned);
    assert_eq!(c.resolve_dispute_by_vote(&inv(end, &[]), did), Err(Error::DisputeAlreadyResolved));
    assert_eq!(c.get_match(id).unwrap().state, MatchState::Completed);
}

#[test]
fn dispute_vote_upholds_oracle() {
    let mut c = setup();
    c.set_dispute_period(&inv(START, &[ADMIN]), 100).unwrap();
    let id = active_match(&mut c, "g1");
    c.submit_result(&inv(START, &[ORACLE]), id, Winner::Player1).unwrap();
    let did = c.dispute_oracle_result(&inv(START, &[PLAYER2]), id, PLAYER2, vec![9]).unwrap();
    c.vote_on_dispute(&inv(START, &[20]), did, 20, false, 10).unwrap();
    let end = START + VOTING_PERIOD_LEDGERS;
    assert_eq!(c.resolve_dispute_by_vote(&inv(end, &[]), did), Ok(vec![t(CONTRACT, PLAYER1, 200)]));
    assert_eq!(c.get_dispute(did).unwrap().state, DisputeState::ResolvedUpheld);
}

#[test]
fn dispute_after_deadline_is_refused() {
    let mut c = setup();
    c.set_dispute_period(&inv(START, &[ADMIN]), 100).unwrap();
    let id = active_match(&mut c, "g1");
    c.submit_result(&inv(START, &[ORACLE]), id, Winner::Player1).unwrap();
    assert_eq!(
        c.dispute_oracle_result(&inv(START + 100, &[PLAYER2]), id, PLAYER2, vec![1]),
        Err(Error::DisputePeriodNotElapsed)
    );
}

#[test]
fn missing_dispute_and_wrong_state() {
    let mut c = setup();
    assert_eq!(c.vote_on_dispute(&inv(START, &[20]), 7, 20, true, 1), Err(Error::DisputeNotFound));
    assert_eq!(c.get_dispute(7).err(), Some(Error::DisputeNotFound));
    let id = active_match(&mut c, "g1");
    assert_eq!(c.finalize_match(&inv(START, &[]), id), Err(Error::MatchNotInPendingResult));
}

#[test]
fn result_deadline_overflow() {
    let mut c = setup();
    c.set_dispute_period(&inv(START, &[ADMIN]), u32::MAX).unwrap();
    let id = active_match(&mut c, "g1");
    assert_eq!(c.submit_result(&inv(START, &[ORACLE]), id, Winner::Player1), Err(Error::Overflow));
    assert_eq!(c.get_match(id).unwrap().state, MatchState::Active);
}

#[test]
fn snapshots_visible_to_admin_and_redacted_for_players() {
    let mut c = setup();
    let id = active_match(&mut c, "g1");
    let full = c.get_balance_snapshots(&inv(START, &[ADMIN]), ADMIN, id).unwrap();
    assert_eq!(full.len(), 3);
    assert_eq!(full[0].reason, SnapshotReason::Created);
    assert_eq!(full[2].reason, SnapshotReason::Deposit);
    assert_eq!(full[2].escrow_balance, 200);
    assert_eq!(full[2].index, 2);
    assert_eq!(full[2].token_symbol, b"XLM".to_vec());
    let redacted = c.get_balance_snapshots(&inv(START, &[PLAYER1]), PLAYER1, id).unwrap();
    assert_eq!(redacted[2].escrow_balance, 0);
    assert_eq!(redacted[2].stake_amount, 0);
    assert_eq!(
        c.get_balance_snapshots(&inv(START, &[STRANGER]), STRANGER, id).err(),
        Some(Error::Unauthorized)
    );
    let latest = c.get_latest_snapshot(&inv(START, &[ADMIN]), ADMIN, id).unwrap();
    assert_eq!(latest.index, 2);
    assert_eq!(latest.escrow_balance, 200);
}

#[test]
fn listings_and_pagination() {
    let mut c = setup();
    let a = create(&mut c, START, "a").unwrap();
    let b = active_match(&mut c, "b");
    let d = create(&mut c, START, "d").unwrap();
    let pending: Vec<u64> = c.get_pending_matches().unwrap().iter().map(|m| m.id).collect();
    assert_eq!(pending, vec![a, d]);
    let active: Vec<u64> = c.get_active_matches().unwrap().iter().map(|m| m.id).collect();
    assert_eq!(active, vec![b]);
    let page: Vec<u64> = c.get_pending_matches_paginated(1, 5).unwrap().iter().map(|m| m.id).collect();
    assert_eq!(page, vec![d]);
    assert!(c.get_pending_matches_paginated(0, 0).unwrap().is_empty());
    assert!(c.get_pending_matches_paginated(9, 1).unwrap().is_empty());
    assert_eq!(c.get_player_matches(PLAYER2), Ok(vec![a, b, d]));
    assert_eq!(c.get_player_matches_paginated(PLAYER1, 1, 1), Ok(vec![b]));
    assert_eq!(c.get_player_matches(STRANGER), Ok(vec![]));
    assert_eq!(c.get_live_matches().unwrap().len(), 1);
    assert_eq!(c.get_live_matches_paginated(0, 1).unwrap().len(), 1);
    assert_eq!(c.get_active_matches_paginated(1, 1).unwrap().len(), 0);
}

#[test]
fn oracle_record_submission_stores_game_id() {
    let mut c = setup();
    let id = active_match(&mut c, "g1");
    let paid = c
        .submit_result_with_oracle_record(&inv(START, &[ORACLE]), id, Winner::Player1, b"g1".to_vec())
        .unwrap();
    assert_eq!(paid, vec![t(CONTRACT, PLAYER1, 200)]);
    assert_eq!(c.get_match(id).unwrap().state, MatchState::Completed);
}

#[test]
fn refused_operation_changes_nothing() {
    let mut c = setup();
    let id = create(&mut c, START, "g1").unwrap();
    c.deposit(&inv(START, &[PLAYER1]), id, PLAYER1).unwrap();
    let before = c.get_match(id).unwrap();
    let snaps_before = c.get_balance_snapshots(&inv(START, &[ADMIN]), ADMIN, id).unwrap().len();
    assert_eq!(c.deposit(&inv(START + 3, &[PLAYER1]), id, PLAYER1), Err(Error::AlreadyFunded));
    assert_eq!(c.submit_result(&inv(START + 3, &[ORACLE]), id, Winner::Draw), Err(Error::InvalidState));
    let after = c.get_match(id).unwrap();
    assert_eq!(after.state, before.state);
    assert_eq!(after.player1_deposited, before.player1_deposited);
    assert_eq!(after.player2_deposited, before.player2_deposited);
    assert_eq!(after.completed_ledger, before.completed_ledger);
    let snaps_after = c.get_balance_snapshots(&inv(START, &[ADMIN]), ADMIN, id).unwrap().len();
    assert_eq!(snaps_before, snaps_after);
    assert_eq!(c.get_match_count(), Ok(1));
}

#[test]
fn match_terms_survive_lifecycle() {
    let mut c = setup();
    c.set_dispute_period(&inv(START, &[ADMIN]), 10).unwrap();
    let id = active_match(&mut c, "terms");
    c.submit_result(&inv(START + 1, &[ORACLE]), id, Winner::Player2).unwrap();
    c.finalize_match(&inv(START + 11, &[]), id).unwrap();
    let m = c.get_match(id).unwrap();
    assert_eq!((m.id, m.player1, m.player2, m.stake_amount, m.token), (id, PLAYER1, PLAYER2, 100, TOKEN));
    assert_eq!(m.game_id, b"terms".to_vec());
    assert_eq!(m.platform, Platform::Lichess);
    assert_eq!(m.created_ledger, START);
    let reasons: Vec<SnapshotReason> = c
        .get_balance_snapshots(&inv(START, &[ADMIN]), ADMIN, id)
        .unwrap()
        .iter()
        .map(|s| s.reason)
        .collect();
    assert_eq!(
        reasons,
        vec![
            SnapshotReason::Created,
            SnapshotReason::Deposit,
            SnapshotReason::Deposit,
            SnapshotReason::ResultSubmitted,
            SnapshotReason::Finalized
        ]
    );
}

#[test]
fn lifecycle_publishes_events_in_order() {
    let mut c = setup();
    assert_eq!(c.events, vec![Event::Initialized { oracle: ORACLE, admin: ADMIN }]);
    let id = active_match(&mut c, "ev");
    c.submit_result(&inv(START, &[ORACLE]), id, Winner::Player1).unwrap();
    let expected = vec![
        Event::Initialized { oracle: ORACLE, admin: ADMIN },
        Event::SnapshotRecorded { match_id: id, index: 0, escrow_balance: 0 },
        Event::MatchCreated { match_id: id, player1: PLAYER1, player2: PLAYER2, stake_amount: 100 },
        Event::Deposited { match_id: id, player: PLAYER1, state: None },
        Event::SnapshotRecorded { match_id: id, index: 1, escrow_balance: 100 },
        Event::Deposited { match_id: id, player: PLAYER2, state: Some(MatchState::Active) },
        Event::MatchActivated { match_id: id },
        Event::SnapshotRecorded { match_id: id, index: 2, escrow_balance: 200 },
        Event::SnapshotRecorded { match_id: id, index: 3, escrow_balance: 0 },
        Event::MatchCompleted { match_id: id, winner: Winner::Player1 },
    ];
    assert_eq!(c.events, expected);
}

#[test]
fn refused_operation_publishes_nothing() {
    let mut c = setup();
    let before = c.events.len();
    assert_eq!(create(&mut c, START, ""), Err(Error::InvalidGameId));
    assert_eq!(c.pause(&inv(START, &[ADMIN])), Ok(()));
    assert_eq!(c.events.len(), before + 1);
    assert_eq!(c.events[before], Event::Paused);
    assert_eq!(create(&mut c, START, "g"), Err(Error::ContractPaused));
    assert_eq!(c.events.len(), before + 1);
}

#[test]
fn admin_events_carry_old_values() {
    let mut c = setup();
    c.set_match_timeout(&inv(START, &[ADMIN]), 20_000).unwrap();
    c.update_oracle(&inv(START, &[ADMIN]), 77).unwrap();
    c.transfer_admin(&inv(START, &[ADMIN]), 88).unwrap();
    let n = c.events.len();
    assert_eq!(
        c.events[n - 3..].to_vec(),
        vec![
            Event::TimeoutChanged { old_timeout: DEFAULT_MATCH_TIMEOUT_LEDGERS, new_timeout: 20_000 },
            Event::OracleUpdated { old_oracle: ORACLE, new_oracle: 77 },
            Event::AdminTransferred { old_admin: ADMIN, new_admin: 88 },
        ]
    );
}

#[test]
fn ids_follow_call_order_and_snapshot_indices_follow_history() {
    let mut c = setup();
    assert_eq!(create(&mut c, START, "a"), Ok(0));
    assert_eq!(create(&mut c, START, "a"), Err(Error::AlreadyExists));
    assert_eq!(create(&mut c, START, ""), Err(Error::InvalidGameId));
    assert_eq!(create(&mut c, START, "b"), Ok(1));
    assert_eq!(create(&mut c, START, "c"), Ok(2));
    let id = active_match(&mut c, "d");
    assert_eq!(id, 3);
    let indices: Vec<u32> =
        c.get_balance_snapshots(&inv(START, &[ADMIN]), ADMIN, id).unwrap().iter().map(|s| s.index).collect();
    assert_eq!(indices, vec![0, 1, 2]);
}
