use vstd::prelude::*;

use super::model::{
    admissible, depositors, escrow_balance, is_terminal, record_wf, step, wf, Op,
};
use super::state::{EscrowState, InvocationView, RecordView};
use super::types::{Address, MatchState, Transfer, Winner};

verus! {

/// Net change of the contract's holdings of `token` under transfers `ts`.
pub open spec fn net_inflow(ts: Seq<Transfer>, contract: Address, token: Address) -> int
    decreases ts.len(),
{
    if ts.len() == 0 {
        0
    } else {
        let t = ts.last();
        net_inflow(ts.drop_last(), contract, token) + if t.token == token {
            (if t.to == contract { t.amount as int } else { 0 }) - (if t.from == contract {
                t.amount as int
            } else {
                0
            })
        } else {
            0
        }
    }
}

/// What a record holds in escrow of `token`.
pub open spec fn held(r: RecordView, token: Address) -> int {
    if r.m.token == token {
        escrow_balance(r.m)
    } else {
        0
    }
}

/// Total held in escrow of `token` over the records `rs`.
pub open spec fn escrowed(rs: Seq<RecordView>, token: Address) -> int
    decreases rs.len(),
{
    if rs.len() == 0 {
        0
    } else {
        escrowed(rs.drop_last(), token) + held(rs.last(), token)
    }
}

proof fn lemma_escrowed_update(rs: Seq<RecordView>, i: int, r2: RecordView, token: Address)
    requires
        0 <= i < rs.len(),
    ensures
        escrowed(rs.update(i, r2), token) == escrowed(rs, token) - held(rs[i], token) + held(
            r2,
            token,
        ),
    decreases rs.len(),
{
    let u = rs.update(i, r2);
    if i == rs.len() - 1 {
        assert(u.drop_last() =~= rs.drop_last());
    } else {
        lemma_escrowed_update(rs.drop_last(), i, r2, token);
        assert(u.drop_last() =~= rs.drop_last().update(i, r2));
    }
}

proof fn lemma_escrowed_push(rs: Seq<RecordView>, r: RecordView, token: Address)
    ensures
        escrowed(rs.push(r), token) == escrowed(rs, token) + held(r, token),
{
    assert(rs.push(r).drop_last() =~= rs);
}

proof fn lemma_net_two(a: Transfer, b: Transfer, contract: Address, token: Address)
    ensures
        net_inflow(seq![a], contract, token) == net_inflow(Seq::<Transfer>::empty(), contract, token)
            + net_inflow(seq![a], contract, token),
        net_inflow(seq![a, b], contract, token) == net_inflow(seq![a], contract, token) + net_inflow(
            seq![b],
            contract,
            token,
        ),
{
    assert(seq![a, b].drop_last() =~= seq![a]);
    assert(seq![a].drop_last() =~= Seq::<Transfer>::empty());
    assert(seq![b].drop_last() =~= Seq::<Transfer>::empty());
}

/// Conservation of funds for one match whose record changes from `r` to
/// `r2`: the tokens moved in and out equal the change of what it holds.
proof fn lemma_one_match(
    s: EscrowState,
    i: int,
    r2: RecordView,
    ts: Seq<Transfer>,
    contract: Address,
    token: Address,
)
    requires
        0 <= i < s.matches.len(),
        net_inflow(ts, contract, token) == held(r2, token) - held(s.matches[i], token),
    ensures
        net_inflow(ts, contract, token) == escrowed(s.matches.update(i, r2), token) - escrowed(
            s.matches,
            token,
        ),
{
    lemma_escrowed_update(s.matches, i, r2, token);
}

proof fn lemma_escrow_cases(m: super::types::MatchView)
    ensures
        is_terminal(m.state) ==> escrow_balance(m) == 0,
        !is_terminal(m.state) && !m.player1_deposited && !m.player2_deposited ==> escrow_balance(m) == 0,
        !is_terminal(m.state) && (m.player1_deposited != m.player2_deposited) ==> escrow_balance(m)
            == m.stake_amount,
        !is_terminal(m.state) && m.player1_deposited && m.player2_deposited ==> escrow_balance(m) == 2
            * m.stake_amount,
{
    let d = depositors(m);
    if !is_terminal(m.state) {
        if !m.player1_deposited && !m.player2_deposited {
            assert(d == 0);
            assert(d * m.stake_amount == 0);
        } else if m.player1_deposited != m.player2_deposited {
            assert(d == 1);
            assert(d * m.stake_amount == m.stake_amount);
        } else {
            assert(d == 2);
            assert(d * m.stake_amount == 2 * m.stake_amount);
        }
    }
}

proof fn lemma_net_one(a: Transfer, contract: Address, token: Address)
    ensures
        net_inflow(seq![a], contract, token) == (if a.token == token {
            (if a.to == contract { a.amount as int } else { 0 }) - (if a.from == contract {
                a.amount as int
            } else {
                0
            })
        } else {
            0
        }),
{
    reveal_with_fuel(net_inflow, 2);
    assert(seq![a].drop_last() =~= Seq::<Transfer>::empty());
    assert(seq![a].last() == a);
}

/// Payout and refund transfers move out exactly what the match holds.
proof fn lemma_closing_flow(
    ms: Seq<RecordView>,
    i: int,
    r2: RecordView,
    ts: Seq<Transfer>,
    contract: Address,
    token: Address,
)
    requires
        0 <= i < ms.len(),
        !is_terminal(ms[i].m.state),
        is_terminal(r2.m.state),
        r2.m.token == ms[i].m.token,
        ts.len() <= 2,
        forall|k: int|
            0 <= k < ts.len() ==> (#[trigger] ts[k]).token == ms[i].m.token && ts[k].from == contract
                && ts[k].to != contract,
        (if ts.len() == 0 {
            0
        } else if ts.len() == 1 {
            ts[0].amount as int
        } else {
            ts[0].amount + ts[1].amount
        }) == escrow_balance(ms[i].m),
    ensures
        net_inflow(ts, contract, token) == escrowed(ms.update(i, r2), token) - escrowed(ms, token),
{
    lemma_escrow_cases(r2.m);
    if ts.len() == 0 {
        assert(ts =~= Seq::<Transfer>::empty());
    } else if ts.len() == 1 {
        assert(ts =~= seq![ts[0]]);
        lemma_net_one(ts[0], contract, token);
    } else {
        assert(ts =~= seq![ts[0], ts[1]]);
        lemma_net_two(ts[0], ts[1], contract, token);
        lemma_net_one(ts[0], contract, token);
        lemma_net_one(ts[1], contract, token);
    }
    lemma_escrowed_update(ms, i, r2, token);
}

/// Operations that leave every match's holdings alone and move nothing.
proof fn lemma_no_flow(s: EscrowState, inv: InvocationView, op: Op, token: Address)
    requires
        step(s, inv, op).transfers.len() == 0,
        step(s, inv, op).state.matches.len() == s.matches.len(),
        forall|j: int|
            0 <= j < s.matches.len() ==> (#[trigger] step(s, inv, op).state.matches[j]).m == s.matches[j].m,
    ensures
        net_inflow(step(s, inv, op).transfers, inv.contract, token) == escrowed(
            step(s, inv, op).state.matches,
            token,
        ) - escrowed(s.matches, token),
{
    lemma_same_holdings(s.matches, step(s, inv, op).state.matches, token);
    assert(step(s, inv, op).transfers =~= Seq::<Transfer>::empty());
}

proof fn lemma_same_holdings(a: Seq<RecordView>, b: Seq<RecordView>, token: Address)
    requires
        a.len() == b.len(),
        forall|j: int| 0 <= j < a.len() ==> (#[trigger] b[j]).m == a[j].m,
    ensures
        escrowed(a, token) == escrowed(b, token),
    decreases a.len(),
{
    if a.len() > 0 {
        lemma_same_holdings(a.drop_last(), b.drop_last(), token);
        assert(b[b.len() - 1].m == a[a.len() - 1].m);
    }
}

proof fn lemma_conservation_closing(
    ms: Seq<RecordView>,
    new_ms: Seq<RecordView>,
    i: int,
    ts: Seq<Transfer>,
    contract: Address,
    token: Address,
)
    requires
        0 <= i < ms.len(),
        record_wf(ms[i], i),
        ms[i].m.player1 != contract,
        ms[i].m.player2 != contract,
        !is_terminal(ms[i].m.state),
        is_terminal(new_ms[i].m.state),
        new_ms == ms.update(i, new_ms[i]),
        new_ms[i].m.token == ms[i].m.token,
        ts == super::model::payout(ms[i].m, Winner::Player1, contract) || ts == super::model::payout(
            ms[i].m,
            Winner::Player2,
            contract,
        ) || ts == super::model::payout(ms[i].m, Winner::Draw, contract) || ts
            == super::model::refunds(ms[i].m, contract),
        (ts == super::model::refunds(ms[i].m, contract)) || (ms[i].m.player1_deposited
            && ms[i].m.player2_deposited),
    ensures
        net_inflow(ts, contract, token) == escrowed(new_ms, token) - escrowed(ms, token),
{
    let m = ms[i].m;
    lemma_escrow_cases(m);
    lemma_closing_flow(ms, i, new_ms[i], ts, contract, token);
}

proof fn lemma_conservation_create(s: EscrowState, inv: InvocationView, op: Op, token: Address)
    requires
        wf(s),
        admissible(s, inv, op),
        forall|j: int|
            0 <= j < s.matches.len() ==> (#[trigger] s.matches[j]).m.player1 != inv.contract
                && s.matches[j].m.player2 != inv.contract,
        op is CreateMatch,
    ensures
        net_inflow(step(s, inv, op).transfers, inv.contract, token) == escrowed(
            step(s, inv, op).state.matches,
            token,
        ) - escrowed(s.matches, token),
{
    match op {
        Op::CreateMatch { .. } => {
            let st = step(s, inv, op);
            assert(st.transfers =~= Seq::<Transfer>::empty());
            if st.result is Ok {
                let r = st.state.matches.last();
                assert(st.state.matches =~= s.matches.push(r));
                lemma_escrowed_push(s.matches, r, token);
                lemma_escrow_cases(r.m);
            }
        },
        _ => {},
    }
}

proof fn lemma_conservation_deposit(s: EscrowState, inv: InvocationView, op: Op, token: Address)
    requires
        wf(s),
        admissible(s, inv, op),
        forall|j: int|
            0 <= j < s.matches.len() ==> (#[trigger] s.matches[j]).m.player1 != inv.contract
                && s.matches[j].m.player2 != inv.contract,
        op is Deposit,
    ensures
        net_inflow(step(s, inv, op).transfers, inv.contract, token) == escrowed(
            step(s, inv, op).state.matches,
            token,
        ) - escrowed(s.matches, token),
{
    match op {
        Op::Deposit { match_id, player } => {
            let st = step(s, inv, op);
            if st.result is Ok {
                let i = match_id as int;
                assert(record_wf(s.matches[i], i));
                let r2 = st.state.matches[i];
                assert(st.state.matches =~= s.matches.update(i, r2));
                assert(s.matches[i].m.player1 != inv.contract);
                lemma_escrow_cases(s.matches[i].m);
                lemma_escrow_cases(r2.m);
                let ts = st.transfers;
                lemma_net_one(ts[0], inv.contract, token);
                assert(ts =~= seq![ts[0]]);
                lemma_one_match(s, i, r2, ts, inv.contract, token);
            } else {
                assert(st.transfers =~= Seq::<Transfer>::empty());
            }
        },
        _ => {},
    }
}

proof fn lemma_conservation_submit(s: EscrowState, inv: InvocationView, op: Op, token: Address)
    requires
        wf(s),
        admissible(s, inv, op),
        forall|j: int|
            0 <= j < s.matches.len() ==> (#[trigger] s.matches[j]).m.player1 != inv.contract
                && s.matches[j].m.player2 != inv.contract,
        op is SubmitResult || op is SubmitResultWithOracleRecord,
    ensures
        net_inflow(step(s, inv, op).transfers, inv.contract, token) == escrowed(
            step(s, inv, op).state.matches,
            token,
        ) - escrowed(s.matches, token),
{
    match op {
        Op::SubmitResult { match_id, winner } | Op::SubmitResultWithOracleRecord { match_id, winner, .. } => {
            let st = step(s, inv, op);
            if st.result is Ok {
                let i = match_id as int;
                assert(record_wf(s.matches[i], i));
                let r2 = st.state.matches[i];
                assert(st.state.matches =~= s.matches.update(i, r2));
                if s.dispute_period == 0 {
                    lemma_conservation_closing(s.matches, st.state.matches, i, st.transfers, inv.contract, token);
                } else {
                    lemma_escrow_cases(s.matches[i].m);
                    lemma_escrow_cases(r2.m);
                    assert(st.transfers =~= Seq::<Transfer>::empty());
                    lemma_one_match(s, i, r2, st.transfers, inv.contract, token);
                }
            } else {
                assert(st.transfers =~= Seq::<Transfer>::empty());
            }
        },
        _ => {},
    }
}

proof fn lemma_conservation_close(s: EscrowState, inv: InvocationView, op: Op, token: Address)
    requires
        wf(s),
        admissible(s, inv, op),
        forall|j: int|
            0 <= j < s.matches.len() ==> (#[trigger] s.matches[j]).m.player1 != inv.contract
                && s.matches[j].m.player2 != inv.contract,
        op is CancelMatch || op is ExpireMatch || op is FinalizeMatch,
    ensures
        net_inflow(step(s, inv, op).transfers, inv.contract, token) == escrowed(
            step(s, inv, op).state.matches,
            token,
        ) - escrowed(s.matches, token),
{
    match op {
        Op::CancelMatch { match_id, .. } | Op::ExpireMatch { match_id } | Op::FinalizeMatch { match_id } => {
            let st = step(s, inv, op);
            if st.result is Ok {
                let i = match_id as int;
                assert(record_wf(s.matches[i], i));
                assert(st.state.matches =~= s.matches.update(i, st.state.matches[i]));
                lemma_conservation_closing(s.matches, st.state.matches, i, st.transfers, inv.contract, token);
            } else {
                assert(st.transfers =~= Seq::<Transfer>::empty());
            }
        },
        _ => {},
    }
}

proof fn lemma_conservation_resolve(s: EscrowState, inv: InvocationView, op: Op, token: Address)
    requires
        wf(s),
        admissible(s, inv, op),
        forall|j: int|
            0 <= j < s.matches.len() ==> (#[trigger] s.matches[j]).m.player1 != inv.contract
                && s.matches[j].m.player2 != inv.contract,
        op is ResolveDisputeByVote,
    ensures
        net_inflow(step(s, inv, op).transfers, inv.contract, token) == escrowed(
            step(s, inv, op).state.matches,
            token,
        ) - escrowed(s.matches, token),
{
    match op {
        Op::ResolveDisputeByVote { dispute_id } => {
            let st = step(s, inv, op);
            if st.result is Ok {
                let i = s.disputes[dispute_id as int].dispute.match_id as int;
                assert(record_wf(s.matches[i], i));
                assert(st.state.matches =~= s.matches.update(i, st.state.matches[i]));
                lemma_conservation_closing(s.matches, st.state.matches, i, st.transfers, inv.contract, token);
            } else {
                assert(st.transfers =~= Seq::<Transfer>::empty());
            }
        },
        _ => {},
    }
}

/// Conservation of funds: in every operation, the net amount of a token
/// that the contract's transfers move in (deposits) or out (payouts,
/// refunds) equals the change of the total that its matches hold in escrow
/// of that token. Nothing is paid that was not escrowed, and nothing
/// escrowed is lost.
pub proof fn law_conservation(s: EscrowState, inv: InvocationView, op: Op, token: Address)
    requires
        wf(s),
        admissible(s, inv, op),
        forall|j: int|
            0 <= j < s.matches.len() ==> (#[trigger] s.matches[j]).m.player1 != inv.contract
                && s.matches[j].m.player2 != inv.contract,
    ensures
        net_inflow(step(s, inv, op).transfers, inv.contract, token) == escrowed(
            step(s, inv, op).state.matches,
            token,
        ) - escrowed(s.matches, token),
{
    match op {
        Op::CreateMatch { .. } => lemma_conservation_create(s, inv, op, token),
        Op::Deposit { .. } => lemma_conservation_deposit(s, inv, op, token),
        Op::SubmitResult { .. } | Op::SubmitResultWithOracleRecord { .. } =>
            lemma_conservation_submit(s, inv, op, token),
        Op::CancelMatch { .. } | Op::ExpireMatch { .. } | Op::FinalizeMatch { .. } =>
            lemma_conservation_close(s, inv, op, token),
        Op::ResolveDisputeByVote { .. } => lemma_conservation_resolve(s, inv, op, token),
        Op::DisputeOracleResult { .. } => {
            let st = step(s, inv, op);
            if st.result is Ok {
                assert forall|j: int| 0 <= j < s.matches.len() implies (#[trigger] st.state.matches[j]).m
                    == s.matches[j].m by {}
            }
            lemma_no_flow(s, inv, op, token);
        },
        Op::VoteOnDispute { .. } | Op::Initialize { .. } | Op::Pause
        | Op::Unpause | Op::AddAllowedToken { .. } | Op::RemoveAllowedToken { .. }
        | Op::SetMatchTimeout { .. } | Op::ProposeAdmin { .. } | Op::AcceptAdmin
        | Op::SetDisputePeriod { .. } | Op::UpdateOracle { .. } | Op::TransferAdmin { .. } => {
            lemma_no_flow(s, inv, op, token);
        },
    }
}

} // verus!
