use vstd::prelude::*;

use super::errors::Error;
use super::model::{
    admissible, current_timeout, elapsed, has_voted, is_player, is_terminal, new_match, signed,
    set_record, step, wf, Op, record_wf, Step,
};
use super::state::{EscrowState, InvocationView, RecordView, MIN_MATCH_TIMEOUT_LEDGERS};
use super::types::{Address, MatchState, Platform, Transfer, Winner};

verus! {

/// An operation that is refused changes nothing, moves no tokens and
/// publishes no event.
pub proof fn law_refusal_changes_nothing(s: EscrowState, inv: InvocationView, op: Op)
    requires
        step(s, inv, op).result is Err,
    ensures
        step(s, inv, op).state == s,
        step(s, inv, op).transfers.len() == 0,
        step(s, inv, op).events.len() == 0,
{
    match op {
        Op::Initialize { .. } => {},
        Op::Pause => {},
        Op::Unpause => {},
        Op::AddAllowedToken { .. } => {},
        Op::RemoveAllowedToken { .. } => {},
        Op::CreateMatch { .. } => {},
        Op::Deposit { .. } => {},
        Op::SubmitResult { .. } => {},
        Op::SubmitResultWithOracleRecord { .. } => {},
        Op::CancelMatch { .. } => {},
        Op::ExpireMatch { .. } => {},
        Op::SetMatchTimeout { .. } => {},
        Op::ProposeAdmin { .. } => {},
        Op::AcceptAdmin => {},
        Op::FinalizeMatch { .. } => {},
        Op::DisputeOracleResult { .. } => {},
        Op::VoteOnDispute { .. } => {},
        Op::ResolveDisputeByVote { .. } => {},
        Op::SetDisputePeriod { .. } => {},
        Op::UpdateOracle { .. } => {},
        Op::TransferAdmin { .. } => {},
    }
}

/// Completed and cancelled matches are final: no operation changes their
/// records.
pub proof fn law_terminal_matches_immutable(s: EscrowState, inv: InvocationView, op: Op, i: int)
    requires
        wf(s),
        0 <= i < s.matches.len(),
        is_terminal(s.matches[i].m.state),
    ensures
        step(s, inv, op).state.matches[i] == s.matches[i],
{    assert(record_wf(s.matches[i], i));
    match op {
        Op::Initialize { .. } => {},
        Op::Pause => {},
        Op::Unpause => {},
        Op::AddAllowedToken { .. } => {},
        Op::RemoveAllowedToken { .. } => {},
        Op::CreateMatch { .. } => {},
        Op::Deposit { .. } => {},
        Op::SubmitResult { .. } => {},
        Op::SubmitResultWithOracleRecord { .. } => {},
        Op::CancelMatch { .. } => {},
        Op::ExpireMatch { .. } => {},
        Op::SetMatchTimeout { .. } => {},
        Op::ProposeAdmin { .. } => {},
        Op::AcceptAdmin => {},
        Op::FinalizeMatch { .. } => {},
        Op::DisputeOracleResult { .. } => {},
        Op::VoteOnDispute { .. } => {},
        Op::ResolveDisputeByVote { .. } => {},
        Op::SetDisputePeriod { .. } => {},
        Op::UpdateOracle { .. } => {},
        Op::TransferAdmin { .. } => {},
    }
}

/// The lifecycle moves forward only: Pending to Active or Cancelled,
/// Active to PendingResult or Completed, PendingResult to Completed.
pub open spec fn allowed_transition(a: MatchState, b: MatchState) -> bool {
    ||| a == b
    ||| a == MatchState::Pending && (b == MatchState::Active || b == MatchState::Cancelled)
    ||| a == MatchState::Active && (b == MatchState::PendingResult || b == MatchState::Completed)
    ||| a == MatchState::PendingResult && b == MatchState::Completed
}

/// Every operation moves each stored match along an allowed transition and
/// never removes a match.
pub proof fn law_state_progression(s: EscrowState, inv: InvocationView, op: Op, i: int)
    requires
        wf(s),
        0 <= i < s.matches.len(),
    ensures
        step(s, inv, op).state.matches.len() >= s.matches.len(),
        allowed_transition(s.matches[i].m.state, step(s, inv, op).state.matches[i].m.state),
{    assert(record_wf(s.matches[i], i));
    match op {
        Op::Initialize { .. } => {},
        Op::Pause => {},
        Op::Unpause => {},
        Op::AddAllowedToken { .. } => {},
        Op::RemoveAllowedToken { .. } => {},
        Op::CreateMatch { .. } => {},
        Op::Deposit { .. } => {},
        Op::SubmitResult { .. } => {},
        Op::SubmitResultWithOracleRecord { .. } => {},
        Op::CancelMatch { .. } => {},
        Op::ExpireMatch { .. } => {},
        Op::SetMatchTimeout { .. } => {},
        Op::ProposeAdmin { .. } => {},
        Op::AcceptAdmin => {},
        Op::FinalizeMatch { .. } => {},
        Op::DisputeOracleResult { .. } => {},
        Op::VoteOnDispute { .. } => {},
        Op::ResolveDisputeByVote { .. } => {},
        Op::SetDisputePeriod { .. } => {},
        Op::UpdateOracle { .. } => {},
        Op::TransferAdmin { .. } => {},
    }
}

/// The terms of a stored match (id, players, stake, token, game id,
/// platform, creation ledger) never change.
pub proof fn law_match_terms_fixed(s: EscrowState, inv: InvocationView, op: Op, i: int)
    requires
        wf(s),
        0 <= i < s.matches.len(),
    ensures
        ({
            let m = s.matches[i].m;
            let m2 = step(s, inv, op).state.matches[i].m;
            &&& m2.id == m.id
            &&& m2.player1 == m.player1
            &&& m2.player2 == m.player2
            &&& m2.stake_amount == m.stake_amount
            &&& m2.token == m.token
            &&& m2.game_id == m.game_id
            &&& m2.platform == m.platform
            &&& m2.created_ledger == m.created_ledger
        }),
{    match op {
        Op::Initialize { .. } => {},
        Op::Pause => {},
        Op::Unpause => {},
        Op::AddAllowedToken { .. } => {},
        Op::RemoveAllowedToken { .. } => {},
        Op::CreateMatch { .. } => {},
        Op::Deposit { .. } => {},
        Op::SubmitResult { .. } => {},
        Op::SubmitResultWithOracleRecord { .. } => {},
        Op::CancelMatch { .. } => {},
        Op::ExpireMatch { .. } => {},
        Op::SetMatchTimeout { .. } => {},
        Op::ProposeAdmin { .. } => {},
        Op::AcceptAdmin => {},
        Op::FinalizeMatch { .. } => {},
        Op::DisputeOracleResult { .. } => {},
        Op::VoteOnDispute { .. } => {},
        Op::ResolveDisputeByVote { .. } => {},
        Op::SetDisputePeriod { .. } => {},
        Op::UpdateOracle { .. } => {},
        Op::TransferAdmin { .. } => {},
    }
}

/// A created match gets the next id, which is its position, and is stored
/// as a pending match with nothing deposited.
pub proof fn law_create_match_stores(
    s: EscrowState,
    inv: InvocationView,
    player1: Address,
    player2: Address,
    stake_amount: i128,
    token: Address,
    game_id: Seq<u8>,
    platform: Platform,
)
    requires
        wf(s),
        step(
            s,
            inv,
            Op::CreateMatch { player1, player2, stake_amount, token, game_id, platform },
        ).result is Ok,
    ensures
        ({
            let st = step(
                s,
                inv,
                Op::CreateMatch { player1, player2, stake_amount, token, game_id, platform },
            );
            let id = st.result->Ok_0;
            &&& id == s.match_count
            &&& id == s.matches.len()
            &&& st.state.match_count == id + 1
            &&& st.state.matches.len() == s.matches.len() + 1
            &&& st.state.matches[id as int].m == new_match(
                id,
                inv,
                player1,
                player2,
                stake_amount,
                token,
                game_id,
                platform,
            )
        }),
{
}

/// A game id names at most one match: creating a match whose game id is
/// already used is refused.
pub proof fn law_game_id_reserved(
    s: EscrowState,
    inv: InvocationView,
    player1: Address,
    player2: Address,
    stake_amount: i128,
    token: Address,
    game_id: Seq<u8>,
    platform: Platform,
    i: int,
)
    requires
        wf(s),
        0 <= i < s.matches.len(),
        s.matches[i].m.game_id == game_id,
    ensures
        step(
            s,
            inv,
            Op::CreateMatch { player1, player2, stake_amount, token, game_id, platform },
        ).result is Err,
{
}

/// A player deposits into a match at most once: after a deposit went
/// through, the same player's next deposit into that match is refused, so
/// it changes nothing and moves no tokens.
pub proof fn law_deposit_once(
    s: EscrowState,
    inv: InvocationView,
    inv2: InvocationView,
    match_id: u64,
    player: Address,
)
    requires
        wf(s),
        step(s, inv, Op::Deposit { match_id, player }).result is Ok,
    ensures
        ({
            let s2 = step(s, inv, Op::Deposit { match_id, player }).state;
            let again = step(s2, inv2, Op::Deposit { match_id, player });
            &&& again.result is Err
            &&& again.state == s2
            &&& again.transfers.len() == 0
        }),
{
}

/// Number of matches a step adds: one for a successful creation, none
/// otherwise.
pub open spec fn added_matches(st: Step, op: Op) -> int {
    if op is CreateMatch && st.result is Ok { 1 } else { 0 }
}

proof fn lemma_step_match_count(s: EscrowState, inv: InvocationView, op: Op)
    requires
        wf(s),
    ensures
        step(s, inv, op).state.matches.len() == s.matches.len() + added_matches(step(s, inv, op), op),
        op is CreateMatch && step(s, inv, op).result is Ok ==> step(s, inv, op).result
            == Ok::<u64, Error>(s.matches.len() as u64),
{
    match op {
        Op::SubmitResultWithOracleRecord { match_id, winner, game_id } => {},
        _ => {},
    }
}

/// The state after running the invocations and operations `steps` in
/// order from `s`.
pub open spec fn run(s: EscrowState, steps: Seq<(InvocationView, Op)>) -> EscrowState
    decreases steps.len(),
{
    if steps.len() == 0 {
        s
    } else {
        let prev = run(s, steps.drop_last());
        step(prev, steps.last().0, steps.last().1).state
    }
}

/// Each operation of `steps` is one the host lets run in the state it
/// runs in.
pub open spec fn admissible_run(s: EscrowState, steps: Seq<(InvocationView, Op)>) -> bool
    decreases steps.len(),
{
    if steps.len() == 0 {
        true
    } else {
        admissible_run(s, steps.drop_last()) && admissible(
            run(s, steps.drop_last()),
            steps.last().0,
            steps.last().1,
        )
    }
}

/// The ids that the successful creations among `steps` returned, in call
/// order.
pub open spec fn created_ids(s: EscrowState, steps: Seq<(InvocationView, Op)>) -> Seq<u64>
    decreases steps.len(),
{
    if steps.len() == 0 {
        Seq::empty()
    } else {
        let prev = created_ids(s, steps.drop_last());
        let st = step(run(s, steps.drop_last()), steps.last().0, steps.last().1);
        if steps.last().1 is CreateMatch && st.result is Ok {
            prev.push(st.result->Ok_0)
        } else {
            prev
        }
    }
}

/// Match ids are handed out in call order and never reused: over any run
/// of operations, the successful creations return the ids `n, n + 1,
/// n + 2, ...` where `n` is the number of matches stored before the run
/// (so no id of an existing match comes back), and a refused creation
/// uses up no id.
pub proof fn law_match_ids_in_call_order(s: EscrowState, steps: Seq<(InvocationView, Op)>)
    requires
        wf(s),
        admissible_run(s, steps),
    ensures
        wf(run(s, steps)),
        run(s, steps).matches.len() == s.matches.len() + created_ids(s, steps).len(),
        forall|k: int|
            0 <= k < created_ids(s, steps).len() ==> #[trigger] created_ids(s, steps)[k] == s.matches.len()
                + k,
    decreases steps.len(),
{
    if steps.len() > 0 {
        let pre = steps.drop_last();
        law_match_ids_in_call_order(s, pre);
        let p = run(s, pre);
        let (inv, op) = steps.last();
        super::laws::law_step_keeps_invariant(p, inv, op);
        lemma_step_match_count(p, inv, op);
        let ids = created_ids(s, steps);
        let prev = created_ids(s, pre);
        assert forall|k: int| 0 <= k < ids.len() implies #[trigger] ids[k] == s.matches.len() + k by {
            if k < prev.len() {
                assert(ids[k] == prev[k]);
            }
        }
    }
}

/// Submitting a result with an oracle record is submitting the result: the
/// same result, transfers and events, and the same new state except that
/// on success the match also keeps the oracle's game id; on failure
/// nothing changes.
pub proof fn law_oracle_record_submission(
    s: EscrowState,
    inv: InvocationView,
    match_id: u64,
    winner: Winner,
    game_id: Seq<u8>,
)
    ensures
        ({
            let plain = step(s, inv, Op::SubmitResult { match_id, winner });
            let rec = step(s, inv, Op::SubmitResultWithOracleRecord { match_id, winner, game_id });
            &&& rec.result == plain.result
            &&& rec.transfers == plain.transfers
            &&& rec.events == plain.events
            &&& plain.result is Err ==> rec.state == s
            &&& plain.result is Ok ==> rec.state == set_record(
                plain.state,
                match_id as int,
                RecordView { oracle_record: Some(game_id), ..plain.state.matches[match_id as int] },
            )
        }),
{
}

/// Whether some transfer moves tokens out of the contract.
pub open spec fn pays_out(ts: Seq<Transfer>, contract: Address) -> bool {
    exists|k: int| 0 <= k < ts.len() && (#[trigger] ts[k]).from == contract
}

/// Tokens leave the contract only in the step that closes a match (moves
/// it into Completed or Cancelled), and only to that match's players in its
/// token. With terminal matches immutable, no match is paid out twice.
pub proof fn law_payout_only_when_match_closes(s: EscrowState, inv: InvocationView, op: Op)
    requires
        wf(s),
        admissible(s, inv, op),
        forall|j: int|
            0 <= j < s.matches.len() ==> (#[trigger] s.matches[j]).m.player1 != inv.contract
                && s.matches[j].m.player2 != inv.contract,
        pays_out(step(s, inv, op).transfers, inv.contract),
    ensures
        exists|i: int|
            #![trigger s.matches[i]]
            0 <= i < s.matches.len() && !is_terminal(s.matches[i].m.state) && is_terminal(
                step(s, inv, op).state.matches[i].m.state,
            ) && forall|k: int|
                0 <= k < step(s, inv, op).transfers.len() && (#[trigger] step(
                    s,
                    inv,
                    op,
                ).transfers[k]).from == inv.contract ==> step(s, inv, op).transfers[k].token
                    == s.matches[i].m.token && is_player(
                    s.matches[i].m,
                    step(s, inv, op).transfers[k].to,
                ),
{
    let st = step(s, inv, op);
    let k0 = choose|k: int| 0 <= k < st.transfers.len() && (#[trigger] st.transfers[k]).from == inv.contract;
    match op {
        Op::Deposit { match_id, player } => {
            assert(s.matches[match_id as int].m.player1 != inv.contract);
        },
        Op::SubmitResult { match_id, .. } | Op::SubmitResultWithOracleRecord { match_id, .. }
        | Op::CancelMatch { match_id, .. } | Op::ExpireMatch { match_id }
        | Op::FinalizeMatch { match_id } => {
            let i = match_id as int;
            assert(0 <= i < s.matches.len() && !is_terminal(s.matches[i].m.state) && is_terminal(
                st.state.matches[i].m.state,
            ));
        },
        Op::ResolveDisputeByVote { dispute_id } => {
            let i = s.disputes[dispute_id as int].dispute.match_id as int;
            assert(0 <= i < s.matches.len() && !is_terminal(s.matches[i].m.state) && is_terminal(
                st.state.matches[i].m.state,
            ));
        },
        _ => {},
    }
}

/// Only the configured oracle, having authorized the call, gets a result
/// accepted.
pub proof fn law_only_oracle_submits(s: EscrowState, inv: InvocationView, op: Op)
    requires
        op is SubmitResult || op is SubmitResultWithOracleRecord,
        admissible(s, inv, op),
        step(s, inv, op).result is Ok,
    ensures
        s.oracle matches Some(o) && signed(inv, o),
{
}

/// Administrative operations succeed only for the admin who authorized them.
pub proof fn law_admin_operations_need_admin(s: EscrowState, inv: InvocationView, op: Op)
    requires
        op is Pause || op is Unpause || op is AddAllowedToken || op is RemoveAllowedToken
            || op is SetMatchTimeout || op is ProposeAdmin || op is SetDisputePeriod
            || op is UpdateOracle || op is TransferAdmin,
        admissible(s, inv, op),
        step(s, inv, op).result is Ok,
    ensures
        s.admin matches Some(a) && signed(inv, a),
{
}

/// While the contract is paused, creating matches, depositing and
/// submitting results are refused.
pub proof fn law_pause_blocks(s: EscrowState, inv: InvocationView, op: Op)
    requires
        s.paused,
        op is CreateMatch || op is Deposit || op is SubmitResult || op is SubmitResultWithOracleRecord,
    ensures
        step(s, inv, op).result == Err::<u64, Error>(Error::ContractPaused),
{
}

/// With the allowlist enforced, only an allowed token can back a new match.
pub proof fn law_allowlist_enforced(
    s: EscrowState,
    inv: InvocationView,
    player1: Address,
    player2: Address,
    stake_amount: i128,
    token: Address,
    game_id: Seq<u8>,
    platform: Platform,
)
    requires
        s.allowlist_enforced,
        step(
            s,
            inv,
            Op::CreateMatch { player1, player2, stake_amount, token, game_id, platform },
        ).result is Ok,
    ensures
        s.allowed_tokens.contains(token),
{
}

/// Deadlines: a result is finalized only once its dispute deadline has
/// passed and no dispute was raised; a dispute is raised only before that
/// deadline; votes are cast only before the voting deadline, once per
/// voter; a dispute is resolved only after the voting deadline.
pub proof fn law_deadlines(s: EscrowState, inv: InvocationView, op: Op)
    requires
        step(s, inv, op).result is Ok,
    ensures
        op matches Op::FinalizeMatch { match_id } ==> ({
            let r = s.matches[match_id as int];
            &&& r.result_deadline matches Some(d) && inv.ledger >= d
            &&& r.dispute_id is None
        }),
        op matches Op::DisputeOracleResult { match_id, .. } ==> (s.matches[match_id as int].result_deadline matches Some(d)
            && inv.ledger < d),
        op matches Op::VoteOnDispute { dispute_id, voter, .. } ==> (inv.ledger
            < s.disputes[dispute_id as int].dispute.voting_deadline && !has_voted(
            s.disputes[dispute_id as int].votes,
            voter,
        )),
        op matches Op::ResolveDisputeByVote { dispute_id } ==> inv.ledger
            >= s.disputes[dispute_id as int].dispute.voting_deadline,
{
}

/// While a result is pending, the winner the oracle submitted stays as it
/// was, and the match can only stay pending or complete.
pub proof fn law_pending_result_fixed(s: EscrowState, inv: InvocationView, op: Op, i: int)
    requires
        wf(s),
        0 <= i < s.matches.len(),
        s.matches[i].m.state == MatchState::PendingResult,
    ensures
        step(s, inv, op).state.matches[i].pending_winner == s.matches[i].pending_winner,
        step(s, inv, op).state.matches[i].m.state == MatchState::PendingResult
            || step(s, inv, op).state.matches[i].m.state == MatchState::Completed,
{    assert(record_wf(s.matches[i], i));
    match op {
        Op::Initialize { .. } => {},
        Op::Pause => {},
        Op::Unpause => {},
        Op::AddAllowedToken { .. } => {},
        Op::RemoveAllowedToken { .. } => {},
        Op::CreateMatch { .. } => {},
        Op::Deposit { .. } => {},
        Op::SubmitResult { .. } => {},
        Op::SubmitResultWithOracleRecord { .. } => {},
        Op::CancelMatch { .. } => {},
        Op::ExpireMatch { .. } => {},
        Op::SetMatchTimeout { .. } => {},
        Op::ProposeAdmin { .. } => {},
        Op::AcceptAdmin => {},
        Op::FinalizeMatch { .. } => {},
        Op::DisputeOracleResult { .. } => {},
        Op::VoteOnDispute { .. } => {},
        Op::ResolveDisputeByVote { .. } => {},
        Op::SetDisputePeriod { .. } => {},
        Op::UpdateOracle { .. } => {},
        Op::TransferAdmin { .. } => {},
    }
}

/// A match expires only once the match timeout, which is at least a day of
/// ledgers, has elapsed since its creation.
pub proof fn law_expiry_after_timeout(s: EscrowState, inv: InvocationView, match_id: u64)
    requires
        wf(s),
        step(s, inv, Op::ExpireMatch { match_id }).result is Ok,
    ensures
        elapsed(inv, s.matches[match_id as int].m) >= current_timeout(s) >= MIN_MATCH_TIMEOUT_LEDGERS,
{
}

/// Every funded match has a way out: a pending match can be cancelled by
/// either player; an active match completes on the oracle's result when
/// there is no dispute period; a pending result is finalized once its
/// deadline passes without dispute; a disputed result is settled once the
/// voting period ends.
pub proof fn law_funded_matches_can_close(s: EscrowState, inv: InvocationView, op: Op)
    requires
        wf(s),
    ensures
        op matches Op::CancelMatch { match_id, caller } ==> (match_id < s.matches.len()
            && s.matches[match_id as int].m.state == MatchState::Pending && is_player(
            s.matches[match_id as int].m,
            caller,
        ) ==> step(s, inv, op).result is Ok && step(s, inv, op).state.matches[match_id as int].m.state
            == MatchState::Cancelled),
        op matches Op::SubmitResult { match_id, winner } ==> (match_id < s.matches.len()
            && s.matches[match_id as int].m.state == MatchState::Active && !s.paused && s.oracle is Some
            && s.dispute_period == 0 ==> step(s, inv, op).result is Ok && step(
            s,
            inv,
            op,
        ).state.matches[match_id as int].m.state == MatchState::Completed),
        op matches Op::FinalizeMatch { match_id } ==> (match_id < s.matches.len()
            && s.matches[match_id as int].m.state == MatchState::PendingResult
            && s.matches[match_id as int].dispute_id is None && inv.ledger
            >= s.matches[match_id as int].result_deadline->0 ==> step(s, inv, op).result is Ok
            && step(s, inv, op).state.matches[match_id as int].m.state == MatchState::Completed),
        op matches Op::ResolveDisputeByVote { dispute_id } ==> (dispute_id < s.disputes.len()
            && s.disputes[dispute_id as int].dispute.state == super::types::DisputeState::Active
            && inv.ledger >= s.disputes[dispute_id as int].dispute.voting_deadline ==> step(
            s,
            inv,
            op,
        ).result is Ok && step(s, inv, op).state.matches[s.disputes[dispute_id as int].dispute.match_id as int].m.state
            == MatchState::Completed),
{
    match op {
        Op::SubmitResult { match_id, .. } | Op::FinalizeMatch { match_id } => {
            if match_id < s.matches.len() {
                assert(record_wf(s.matches[match_id as int], match_id as int));
            }
        },
        Op::ResolveDisputeByVote { dispute_id } => {
            if dispute_id < s.disputes.len() {
                let mid = s.disputes[dispute_id as int].dispute.match_id as int;
                assert(super::model::dispute_wf(s.matches, s.disputes[dispute_id as int], dispute_id as int));
                assert(record_wf(s.matches[mid], mid));
            }
        },
        _ => {},
    }
}

} // verus!
