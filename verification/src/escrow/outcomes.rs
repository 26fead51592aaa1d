use vstd::prelude::*;

use super::model::{step, wf, Op};
use super::state::{EscrowState, InvocationView, DEFAULT_MATCH_TIMEOUT_LEDGERS, VOTING_PERIOD_LEDGERS};
use super::types::{Address, DisputeState, MatchState, MatchView, Transfer, Winner};

verus! {

/// The whole pot of match `m` (both stakes) moving from the contract to `to`.
pub open spec fn whole_pot_to(m: MatchView, to: Address, contract: Address) -> Seq<Transfer> {
    seq![Transfer { token: m.token, from: contract, to, amount: (2 * m.stake_amount) as i128 }]
}

/// Each player's stake of match `m` moving back from the contract, player 1
/// first.
pub open spec fn stakes_back(m: MatchView, contract: Address) -> Seq<Transfer> {
    seq![
        Transfer { token: m.token, from: contract, to: m.player1, amount: m.stake_amount },
        Transfer { token: m.token, from: contract, to: m.player2, amount: m.stake_amount },
    ]
}

/// What a decided match pays for `winner`: the pot to the named player, or
/// each stake back on a draw.
pub open spec fn pays_for(ts: Seq<Transfer>, m: MatchView, winner: Winner, contract: Address) -> bool {
    &&& winner == Winner::Player1 ==> ts == whole_pot_to(m, m.player1, contract)
    &&& winner == Winner::Player2 ==> ts == whole_pot_to(m, m.player2, contract)
    &&& winner == Winner::Draw ==> ts == stakes_back(m, contract)
}

/// A finalized result pays the winner the oracle submitted: the whole pot
/// to player 1 when it named player 1, to player 2 when it named player 2,
/// each stake back on a draw; and the match is completed.
pub proof fn law_finalize_pays_submitted_winner(s: EscrowState, inv: InvocationView, match_id: u64)
    requires
        wf(s),
        step(s, inv, Op::FinalizeMatch { match_id }).result is Ok,
    ensures
        match_id < s.matches.len(),
        s.matches[match_id as int].pending_winner is Some,
        pays_for(
            step(s, inv, Op::FinalizeMatch { match_id }).transfers,
            s.matches[match_id as int].m,
            s.matches[match_id as int].pending_winner->0,
            inv.contract,
        ),
        step(s, inv, Op::FinalizeMatch { match_id }).state.matches[match_id as int].m.state
            == MatchState::Completed,
{
}

/// A dispute vote overturns the oracle result exactly when strictly more
/// weight voted to overturn than to uphold: then each stake goes back (a
/// draw) and the dispute is resolved as overturned. Otherwise (a tie, or no
/// votes at all) the oracle's winner is paid and the dispute is upheld.
pub proof fn law_vote_overturns_only_on_majority(s: EscrowState, inv: InvocationView, dispute_id: u64)
    requires
        wf(s),
        step(s, inv, Op::ResolveDisputeByVote { dispute_id }).result is Ok,
    ensures
        dispute_id < s.disputes.len(),
        ({
            let d = s.disputes[dispute_id as int].dispute;
            let r = s.matches[d.match_id as int];
            let st = step(s, inv, Op::ResolveDisputeByVote { dispute_id });
            let resolved = st.state.disputes[dispute_id as int].dispute.state;
            &&& d.match_id < s.matches.len()
            &&& r.pending_winner is Some
            &&& d.yes_votes > d.no_votes ==> resolved == DisputeState::ResolvedOverturned
                && st.transfers == stakes_back(r.m, inv.contract)
            &&& d.yes_votes <= d.no_votes ==> resolved == DisputeState::ResolvedUpheld && pays_for(
                st.transfers,
                r.m,
                r.pending_winner->0,
                inv.contract,
            )
            &&& st.state.matches[d.match_id as int].m.state == MatchState::Completed
        }),
{
}

/// Either player of a match whose result is pending may dispute it before
/// its deadline, with evidence, when no dispute was raised yet: the dispute
/// gets the next dispute id and records the disputer.
pub proof fn law_either_player_may_dispute(
    s: EscrowState,
    inv: InvocationView,
    match_id: u64,
    disputer: Address,
    evidence_hash: Seq<u8>,
)
    requires
        wf(s),
        match_id < s.matches.len(),
        s.matches[match_id as int].m.state == MatchState::PendingResult,
        disputer == s.matches[match_id as int].m.player1 || disputer == s.matches[match_id
            as int].m.player2,
        s.matches[match_id as int].result_deadline matches Some(deadline) && inv.ledger < deadline,
        evidence_hash.len() > 0,
        s.matches[match_id as int].dispute_id is None,
        inv.ledger + VOTING_PERIOD_LEDGERS <= u32::MAX,
        s.disputes.len() < u64::MAX,
    ensures
        ({
            let st = step(s, inv, Op::DisputeOracleResult { match_id, disputer, evidence_hash });
            &&& st.result == Ok::<u64, super::errors::Error>(s.disputes.len() as u64)
            &&& st.state.disputes.len() == s.disputes.len() + 1
            &&& st.state.disputes[s.disputes.len() as int].dispute.disputer == disputer
            &&& st.state.disputes[s.disputes.len() as int].dispute.match_id == match_id
        }),
{
}

/// A pending match expires once the configured match timeout (or the
/// default, when none is configured) has elapsed since its creation: the
/// call succeeds, returns each deposited stake and cancels the match.
pub proof fn law_expiry_once_timeout_elapsed(s: EscrowState, inv: InvocationView, match_id: u64)
    requires
        wf(s),
        match_id < s.matches.len(),
        s.matches[match_id as int].m.state == MatchState::Pending,
        inv.ledger >= s.matches[match_id as int].m.created_ledger,
        inv.ledger - s.matches[match_id as int].m.created_ledger >= (match s.match_timeout {
            Some(t) => t,
            None => DEFAULT_MATCH_TIMEOUT_LEDGERS,
        }),
    ensures
        ({
            let m = s.matches[match_id as int].m;
            let st = step(s, inv, Op::ExpireMatch { match_id });
            let back1 = Transfer { token: m.token, from: inv.contract, to: m.player1, amount: m.stake_amount };
            let back2 = Transfer { token: m.token, from: inv.contract, to: m.player2, amount: m.stake_amount };
            &&& st.result is Ok
            &&& st.state.matches[match_id as int].m.state == MatchState::Cancelled
            &&& st.transfers == (if m.player1_deposited { seq![back1] } else { Seq::empty() }) + (
            if m.player2_deposited {
                seq![back2]
            } else {
                Seq::empty()
            })
        }),
{
    let m = s.matches[match_id as int].m;
    let st = step(s, inv, Op::ExpireMatch { match_id });
    let back1 = Transfer { token: m.token, from: inv.contract, to: m.player1, amount: m.stake_amount };
    let back2 = Transfer { token: m.token, from: inv.contract, to: m.player2, amount: m.stake_amount };
    assert(st.transfers =~= (if m.player1_deposited { seq![back1] } else { Seq::empty() }) + (
    if m.player2_deposited {
        seq![back2]
    } else {
        Seq::empty()
    }));
}

} // verus!
