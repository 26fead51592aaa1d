use vstd::prelude::*;

use super::model::{
    active_wf, admin_wf, admissible, complete_match, completed_record, deposit_error,
    deposit_overflows, deposited_match, disputes_wf, fresh_record, game_ids_unique, is_active_id,
    min_int, new_match, no_dups, op_add_allowed_token, op_create_match, op_deposit, op_initialize,
    op_remove_allowed_token, record_wf, held_indices_ok, snapshot_history, records_wf, set_record, step, tokens_wf, with_snapshot,
    without, wf, create_match_error, game_id_taken, Op, op_submit_result,
    op_submit_result_with_oracle_record, op_cancel_match, op_expire_match, op_finalize_match,
    op_dispute_oracle_result, op_vote_on_dispute, op_resolve_dispute_by_vote, cancelled_record,
    cancel_match_error, dispute_error, vote_precheck_error, dispute_wf, unique_voters, has_voted,
    pot_overflows,
};
use super::state::{
    DisputeRecordView, EscrowState, InvocationView, RecordView, MAX_SNAPSHOTS_PER_MATCH,
};
use super::types::{Address, DisputeState, DisputeView, MatchState, MatchView, Platform, SnapshotReason, Winner};

verus! {

pub proof fn lemma_push_contains(p: Seq<u64>, l: u64, y: u64)
    ensures
        p.push(l).contains(y) <==> (p.contains(y) || y == l),
{
    if p.contains(y) {
        let k = choose|k: int| 0 <= k < p.len() && p[k] == y;
        assert(p.push(l)[k] == y);
    }
    if y == l {
        assert(p.push(l)[p.len() as int] == y);
    }
    if p.push(l).contains(y) {
        let k = choose|k: int| 0 <= k < p.len() + 1 && p.push(l)[k] == y;
        if k < p.len() {
            assert(p[k] == y);
        }
    }
}

pub proof fn lemma_without(s: Seq<u64>, x: u64)
    ensures
        forall|y: u64| #[trigger] without(s, x).contains(y) <==> (s.contains(y) && y != x),
        no_dups(s) ==> no_dups(without(s, x)),
        !s.contains(x) ==> without(s, x) == s,
        (no_dups(s) && s.contains(x)) ==> without(s, x).len() + 1 == s.len(),
        without(s, x).len() <= s.len(),
    decreases s.len(),
{
    if s.len() > 0 {
        let p = s.drop_last();
        let l = s.last();
        lemma_without(p, x);
        assert(s =~= p.push(l));
        let w = without(p, x);
        assert forall|y: u64| #[trigger] without(s, x).contains(y) <==> (s.contains(y) && y != x) by {
            lemma_push_contains(p, l, y);
            lemma_push_contains(w, l, y);
        }
        if no_dups(s) {
            assert(no_dups(p));
            lemma_push_contains(p, l, l);
            if p.contains(l) {
                let k = choose|k: int| 0 <= k < p.len() && p[k] == l;
                assert(s[k] == s[s.len() - 1]);
            }
            if l != x {
                assert(!w.contains(l));
                assert forall|i: int, j: int|
                    0 <= i < w.push(l).len() && 0 <= j < w.push(l).len() && i != j implies w.push(
                        l,
                    )[i] != w.push(l)[j] by {
                    if i == w.len() {
                        assert(w.contains(w[j]));
                    } else if j == w.len() {
                        assert(w.contains(w[i]));
                    }
                }
            }
        }
        if !s.contains(x) {
            lemma_push_contains(p, l, x);
            assert(w == p);
            assert(without(s, x) =~= s);
        }
        if no_dups(s) && s.contains(x) {
            lemma_push_contains(p, l, x);
            if l == x {
                if p.contains(x) {
                    let k = choose|k: int| 0 <= k < p.len() && p[k] == x;
                    assert(s[k] == s[s.len() - 1]);
                }
            }
        }
    }
}

/// A snapshot keeps the ring buffer's length in step with the count, and
/// the held snapshots' indices in step with their positions.
pub proof fn lemma_with_snapshot_len(r: RecordView, reason: SnapshotReason, inv: InvocationView)
    requires
        r.snapshots.len() == min_int(r.snapshot_count as int, MAX_SNAPSHOTS_PER_MATCH as int),
        held_indices_ok(r.snapshots, r.snapshot_count),
    ensures
        with_snapshot(r, reason, inv).snapshots.len() == min_int(
            with_snapshot(r, reason, inv).snapshot_count as int,
            MAX_SNAPSHOTS_PER_MATCH as int,
        ),
        held_indices_ok(
            with_snapshot(r, reason, inv).snapshots,
            with_snapshot(r, reason, inv).snapshot_count,
        ),
{
    let r2 = with_snapshot(r, reason, inv);
    if r.snapshot_count < u32::MAX && r2.snapshot_count < u32::MAX {
        let c = r.snapshot_count as int;
        let h = snapshot_history(r);
        let h2 = snapshot_history(r2);
        super::snapshots::law_snapshot_ring(r, reason, inv);
        assert forall|j: int| 0 <= j < h.len() implies #[trigger] h[j].index == c - h.len() + j by {
            assert(h[j] == r.snapshots[(c - h.len() + j) % 8]);
        }
        let n2 = min_int(c + 1, 8);
        assert forall|j: int| 0 <= j < n2 implies (#[trigger] r2.snapshots[(c + 1 - n2 + j) % 8]).index
            == c + 1 - n2 + j by {
            assert(h2[j] == r2.snapshots[(c + 1 - n2 + j) % 8]);
            if h.len() == 8 {
                if j < 7 {
                    assert(h2[j] == h[j + 1]);
                }
            } else {
                if j < h.len() {
                    assert(h2[j] == h[j]);
                }
            }
        }
    }
}

/// Replacing one match record (and the active list with one that matches
/// the new records) keeps the invariant, given that the new record is
/// well formed and keeps the game id and dispute link.
proof fn lemma_set_record_wf(s: EscrowState, i: int, r2: RecordView, active2: Seq<u64>)
    requires
        wf(s),
        0 <= i < s.matches.len(),
        record_wf(r2, i),
        r2.m.game_id == s.matches[i].m.game_id,
        r2.dispute_id == s.matches[i].dispute_id,
        (r2.dispute_id matches Some(d) && s.disputes[d as int].dispute.state == DisputeState::Active)
            ==> r2.m.state == MatchState::PendingResult,
        active_wf(s.matches.update(i, r2), active2),
    ensures
        wf(EscrowState { active_matches: active2, ..set_record(s, i, r2) }),
{
    let s2 = EscrowState { active_matches: active2, ..set_record(s, i, r2) };
    assert(records_wf(s2.matches));
    assert(game_ids_unique(s2.matches));
    assert forall|d: int| 0 <= d < s2.disputes.len() implies super::model::dispute_wf(
        s2.matches,
        #[trigger] s2.disputes[d],
        d,
    ) by {
        assert(super::model::dispute_wf(s.matches, s.disputes[d], d));
    }
    assert(disputes_wf(s2.matches, s2.disputes));
}

/// The active list stays exact when a match's activity is unchanged.
proof fn lemma_active_same(s: EscrowState, i: int, r2: RecordView)
    requires
        wf(s),
        0 <= i < s.matches.len(),
        is_active_id(s.matches.update(i, r2), i as u64) == is_active_id(s.matches, i as u64),
    ensures
        active_wf(s.matches.update(i, r2), s.active_matches),
{
    let m2 = s.matches.update(i, r2);
    assert forall|id: u64| #[trigger] s.active_matches.contains(id) <==> is_active_id(m2, id) by {
        assert(s.active_matches.contains(id) <==> is_active_id(s.matches, id));
    }
}

/// The active list gains a match that becomes active.
proof fn lemma_active_push(s: EscrowState, i: int, r2: RecordView)
    requires
        wf(s),
        0 <= i < s.matches.len(),
        !is_active_id(s.matches, i as u64),
        is_active_id(s.matches.update(i, r2), i as u64),
    ensures
        active_wf(s.matches.update(i, r2), s.active_matches.push(i as u64)),
{
    let m2 = s.matches.update(i, r2);
    let a2 = s.active_matches.push(i as u64);
    assert forall|id: u64| #[trigger] a2.contains(id) <==> is_active_id(m2, id) by {
        lemma_push_contains(s.active_matches, i as u64, id);
        assert(s.active_matches.contains(id) <==> is_active_id(s.matches, id));
    }
    assert(!s.active_matches.contains(i as u64));
    assert forall|x: int, y: int| 0 <= x < a2.len() && 0 <= y < a2.len() && x != y implies a2[x]
        != a2[y] by {
        if x == s.active_matches.len() {
            assert(s.active_matches.contains(a2[y]));
        } else if y == s.active_matches.len() {
            assert(s.active_matches.contains(a2[x]));
        }
    }
}

/// The active list loses a match that stops being active.
proof fn lemma_active_remove(s: EscrowState, i: int, r2: RecordView)
    requires
        wf(s),
        0 <= i < s.matches.len(),
        !is_active_id(s.matches.update(i, r2), i as u64),
    ensures
        active_wf(s.matches.update(i, r2), without(s.active_matches, i as u64)),
{
    let m2 = s.matches.update(i, r2);
    let a2 = without(s.active_matches, i as u64);
    lemma_without(s.active_matches, i as u64);
    assert forall|id: u64| #[trigger] a2.contains(id) <==> is_active_id(m2, id) by {
        assert(s.active_matches.contains(id) <==> is_active_id(s.matches, id));
    }
}

proof fn lemma_create_wf(
    s: EscrowState,
    inv: InvocationView,
    player1: Address,
    player2: Address,
    stake_amount: i128,
    token: Address,
    game_id: Seq<u8>,
    platform: Platform,
)
    requires
        wf(s),
    ensures
        wf(op_create_match(s, inv, player1, player2, stake_amount, token, game_id, platform).state),
{
    if create_match_error(s, inv, player1, player2, stake_amount, token, game_id) is None {
        let id = s.match_count;
        let m = new_match(id, inv, player1, player2, stake_amount, token, game_id, platform);
        let r = with_snapshot(fresh_record(m), SnapshotReason::Created, inv);
        let s2 = op_create_match(s, inv, player1, player2, stake_amount, token, game_id, platform).state;
        assert(s2.matches == s.matches.push(r));
        assert(records_wf(s2.matches));
        assert forall|i: int, j: int|
            0 <= i < s2.matches.len() && 0 <= j < s2.matches.len() && i != j
                implies #[trigger] s2.matches[i].m.game_id != #[trigger] s2.matches[j].m.game_id by {
            if i == s.matches.len() {
                assert(!game_id_taken(s, game_id));
                assert(s.matches[j].m.game_id != game_id);
            } else if j == s.matches.len() {
                assert(!game_id_taken(s, game_id));
                assert(s.matches[i].m.game_id != game_id);
            }
        }
        assert forall|id2: u64| #[trigger] s2.active_matches.contains(id2) <==> is_active_id(s2.matches, id2) by {
            assert(s.active_matches.contains(id2) <==> is_active_id(s.matches, id2));
        }
        assert forall|d: int| 0 <= d < s2.disputes.len() implies super::model::dispute_wf(
            s2.matches,
            #[trigger] s2.disputes[d],
            d,
        ) by {
            assert(super::model::dispute_wf(s.matches, s.disputes[d], d));
        }
    }
}

proof fn lemma_deposit_wf(s: EscrowState, inv: InvocationView, match_id: u64, player: Address)
    requires
        wf(s),
        !deposit_overflows(s, match_id, player),
    ensures
        wf(op_deposit(s, inv, match_id, player).state),
{
    if deposit_error(s, match_id, player) is None {
        let i = match_id as int;
        let r = s.matches[i];
        assert(record_wf(r, i));
        let m = deposited_match(r.m, player);
        let r2 = with_snapshot(RecordView { m, ..r }, SnapshotReason::Deposit, inv);
        lemma_with_snapshot_len(RecordView { m, ..r }, SnapshotReason::Deposit, inv);
        assert(record_wf(r2, i));
        if m.state == MatchState::Active {
            lemma_active_push(s, i, r2);
            lemma_set_record_wf(s, i, r2, s.active_matches.push(match_id));
        } else {
            lemma_active_same(s, i, r2);
            lemma_set_record_wf(s, i, r2, s.active_matches);
        }
    }
}

proof fn lemma_initialize_wf(s: EscrowState, inv: InvocationView, oracle: Address, admin: Address)
    requires
        wf(s),
    ensures
        wf(op_initialize(s, inv, oracle, admin).state),
{
}

proof fn lemma_admin_ops_wf(s: EscrowState, inv: InvocationView, op: Op)
    requires
        wf(s),
        op is Pause || op is Unpause || op is SetMatchTimeout || op is ProposeAdmin || op is AcceptAdmin
            || op is SetDisputePeriod || op is UpdateOracle || op is TransferAdmin,
    ensures
        wf(step(s, inv, op).state),
{
}

proof fn lemma_add_token_wf(s: EscrowState, token: Address)
    requires
        wf(s),
    ensures
        wf(op_add_allowed_token(s, token).state),
{
}

proof fn lemma_remove_token_wf(s: EscrowState, token: Address)
    requires
        wf(s),
    ensures
        wf(op_remove_allowed_token(s, token).state),
{
    lemma_without(s.allowed_tokens, token);
}

proof fn lemma_complete_wf(s: EscrowState, inv: InvocationView, match_id: u64, reason: SnapshotReason)
    requires
        wf(s),
        match_id < s.matches.len(),
        s.matches[match_id as int].m.state == MatchState::Active || (
        s.matches[match_id as int].m.state == MatchState::PendingResult && (
        s.matches[match_id as int].dispute_id matches Some(d) ==> s.disputes[d as int].dispute.state
            != DisputeState::Active)),
    ensures
        wf(complete_match(s, match_id, inv, reason)),
{
    let i = match_id as int;
    let r = s.matches[i];
    assert(record_wf(r, i));
    let r2 = completed_record(r, inv, reason);
    lemma_with_snapshot_len(
        RecordView {
            m: MatchView { state: MatchState::Completed, completed_ledger: Some(inv.ledger), ..r.m },
            ..r
        },
        reason,
        inv,
    );
    assert(record_wf(r2, i));
    lemma_active_remove(s, i, r2);
    lemma_set_record_wf(s, i, r2, without(s.active_matches, match_id));
}

proof fn lemma_submit_wf(s: EscrowState, inv: InvocationView, match_id: u64, winner: Winner)
    requires
        wf(s),
    ensures
        wf(op_submit_result(s, inv, match_id, winner).state),
{
    let st = op_submit_result(s, inv, match_id, winner);
    if st.result is Ok {
        let i = match_id as int;
        let r = s.matches[i];
        assert(record_wf(r, i));
        if s.dispute_period == 0 {
            lemma_complete_wf(s, inv, match_id, SnapshotReason::Completed);
        } else {
            let r1 = RecordView {
                m: MatchView { state: MatchState::PendingResult, ..r.m },
                pending_winner: Some(winner),
                result_deadline: Some((inv.ledger + s.dispute_period) as u32),
                ..r
            };
            lemma_with_snapshot_len(r1, SnapshotReason::ResultSubmitted, inv);
            let r2 = with_snapshot(r1, SnapshotReason::ResultSubmitted, inv);
            assert(record_wf(r2, i));
            lemma_active_same(s, i, r2);
            lemma_set_record_wf(s, i, r2, s.active_matches);
            assert(st.state == EscrowState { active_matches: s.active_matches, ..set_record(s, i, r2) });
        }
    }
}

proof fn lemma_submit_record_wf(
    s: EscrowState,
    inv: InvocationView,
    match_id: u64,
    winner: Winner,
    game_id: Seq<u8>,
)
    requires
        wf(s),
    ensures
        wf(op_submit_result_with_oracle_record(s, inv, match_id, winner, game_id).state),
{
    lemma_submit_wf(s, inv, match_id, winner);
    let st = op_submit_result(s, inv, match_id, winner);
    if st.result is Ok {
        let s1 = st.state;
        let i = match_id as int;
        assert(s1.matches.len() == s.matches.len());
        let r = s1.matches[i];
        assert(record_wf(r, i));
        let r2 = RecordView { oracle_record: Some(game_id), ..r };
        lemma_active_same(s1, i, r2);
        lemma_set_record_wf(s1, i, r2, s1.active_matches);
        assert(set_record(s1, i, r2) == EscrowState { active_matches: s1.active_matches, ..set_record(s1, i, r2) });
    }
}

proof fn lemma_cancelled_wf(s: EscrowState, inv: InvocationView, match_id: u64)
    requires
        wf(s),
        match_id < s.matches.len(),
        s.matches[match_id as int].m.state == MatchState::Pending,
    ensures
        wf(set_record(s, match_id as int, cancelled_record(s.matches[match_id as int], inv))),
{
    let i = match_id as int;
    let r = s.matches[i];
    assert(record_wf(r, i));
    let r2 = cancelled_record(r, inv);
    lemma_with_snapshot_len(
        RecordView {
            m: MatchView { state: MatchState::Cancelled, completed_ledger: Some(inv.ledger), ..r.m },
            ..r
        },
        SnapshotReason::Cancelled,
        inv,
    );
    assert(record_wf(r2, i));
    lemma_active_same(s, i, r2);
    lemma_set_record_wf(s, i, r2, s.active_matches);
    assert(set_record(s, i, r2) == EscrowState { active_matches: s.active_matches, ..set_record(s, i, r2) });
}

/// Replacing one dispute record keeps the invariant when it keeps the
/// dispute's id and match and its voters stay distinct.
proof fn lemma_set_dispute_wf(s: EscrowState, d: int, dr2: DisputeRecordView)
    requires
        wf(s),
        0 <= d < s.disputes.len(),
        dr2.dispute.id == s.disputes[d].dispute.id,
        dr2.dispute.match_id == s.disputes[d].dispute.match_id,
        unique_voters(dr2.votes),
        dr2.dispute.state == DisputeState::Active ==> s.disputes[d].dispute.state == DisputeState::Active,
    ensures
        wf(EscrowState { disputes: s.disputes.update(d, dr2), ..s }),
{
    let s2 = EscrowState { disputes: s.disputes.update(d, dr2), ..s };
    assert(dispute_wf(s.matches, s.disputes[d], d));
    assert forall|k: int| 0 <= k < s2.disputes.len() implies dispute_wf(
        s2.matches,
        #[trigger] s2.disputes[k],
        k,
    ) by {
        assert(dispute_wf(s.matches, s.disputes[k], k));
    }
}

proof fn lemma_finalize_wf(s: EscrowState, inv: InvocationView, match_id: u64)
    requires
        wf(s),
    ensures
        wf(op_finalize_match(s, inv, match_id).state),
{
    if op_finalize_match(s, inv, match_id).result is Ok {
        lemma_complete_wf(s, inv, match_id, SnapshotReason::Finalized);
    }
}

proof fn lemma_dispute_wf(
    s: EscrowState,
    inv: InvocationView,
    match_id: u64,
    disputer: Address,
    evidence_hash: Seq<u8>,
)
    requires
        wf(s),
    ensures
        wf(op_dispute_oracle_result(s, inv, match_id, disputer, evidence_hash).state),
{
    if dispute_error(s, inv, match_id, disputer, evidence_hash) is None {
        let i = match_id as int;
        let r = s.matches[i];
        assert(record_wf(r, i));
        let id = s.disputes.len() as u64;
        let r2 = RecordView { dispute_id: Some(id), ..r };
        let s2 = op_dispute_oracle_result(s, inv, match_id, disputer, evidence_hash).state;
        assert(records_wf(s2.matches));
        assert(game_ids_unique(s2.matches));
        lemma_active_same(s, i, r2);
        assert(active_wf(s2.matches, s2.active_matches));
        assert forall|k: int| 0 <= k < s2.disputes.len() implies dispute_wf(
            s2.matches,
            #[trigger] s2.disputes[k],
            k,
        ) by {
            if k < s.disputes.len() {
                assert(dispute_wf(s.matches, s.disputes[k], k));
                if s.disputes[k].dispute.match_id == match_id {
                    assert(s.matches[i].dispute_id == Some(k as u64));
                }
            }
        }
        assert forall|j: int|
            0 <= j < s2.matches.len() && (#[trigger] s2.matches[j]).dispute_id is Some
                implies s2.matches[j].dispute_id->0 < s2.disputes.len()
                && s2.disputes[s2.matches[j].dispute_id->0 as int].dispute.match_id == j by {
            if j != i {
                assert(s.matches[j].dispute_id is Some);
            }
        }
    }
}

proof fn lemma_vote_wf(
    s: EscrowState,
    inv: InvocationView,
    dispute_id: u64,
    voter: Address,
    vote: bool,
    balance: i128,
)
    requires
        wf(s),
    ensures
        wf(op_vote_on_dispute(s, inv, dispute_id, voter, vote, balance).state),
{
    if op_vote_on_dispute(s, inv, dispute_id, voter, vote, balance).result is Ok {
        let d = dispute_id as int;
        let dr = s.disputes[d];
        assert(dispute_wf(s.matches, dr, d));
        let votes2 = dr.votes.push((voter, vote));
        assert(!has_voted(dr.votes, voter));
        assert forall|x: int, y: int|
            0 <= x < votes2.len() && 0 <= y < votes2.len() && x != y implies votes2[x].0
            != votes2[y].0 by {
            if x == dr.votes.len() {
                assert(dr.votes[y] == votes2[y]);
            } else if y == dr.votes.len() {
                assert(dr.votes[x] == votes2[x]);
            }
        }
        let st = op_vote_on_dispute(s, inv, dispute_id, voter, vote, balance).state;
        lemma_set_dispute_wf(s, d, st.disputes[d]);
        assert(st == EscrowState { disputes: s.disputes.update(d, st.disputes[d]), ..s });
    }
}

proof fn lemma_resolve_wf(s: EscrowState, inv: InvocationView, dispute_id: u64)
    requires
        wf(s),
    ensures
        wf(op_resolve_dispute_by_vote(s, inv, dispute_id).state),
{
    let st = op_resolve_dispute_by_vote(s, inv, dispute_id);
    if st.result is Ok {
        let d = dispute_id as int;
        let dr = s.disputes[d];
        assert(dispute_wf(s.matches, dr, d));
        let dr2 = st.state.disputes[d];
        lemma_set_dispute_wf(s, d, dr2);
        let s1 = EscrowState { disputes: s.disputes.update(d, dr2), ..s };
        let mid = dr.dispute.match_id;
        assert(s.matches[mid as int].dispute_id == Some(dispute_id));
        lemma_complete_wf(s1, inv, mid, SnapshotReason::Finalized);
        assert(st.state == complete_match(s1, mid, inv, SnapshotReason::Finalized));
    }
}

/// Every operation that the host lets run keeps the contract's invariant.
pub proof fn law_step_keeps_invariant(s: EscrowState, inv: InvocationView, op: Op)
    requires
        wf(s),
        admissible(s, inv, op),
    ensures
        wf(step(s, inv, op).state),
{
    match op {
        Op::Initialize { oracle, admin } => lemma_initialize_wf(s, inv, oracle, admin),
        Op::AddAllowedToken { token } => lemma_add_token_wf(s, token),
        Op::RemoveAllowedToken { token } => lemma_remove_token_wf(s, token),
        Op::Pause | Op::Unpause | Op::SetMatchTimeout { .. } | Op::ProposeAdmin { .. } | Op::AcceptAdmin
        | Op::SetDisputePeriod { .. } | Op::UpdateOracle { .. } | Op::TransferAdmin { .. } =>
            lemma_admin_ops_wf(s, inv, op),
        Op::CreateMatch { player1, player2, stake_amount, token, game_id, platform } =>
            lemma_create_wf(s, inv, player1, player2, stake_amount, token, game_id, platform),
        Op::Deposit { match_id, player } => lemma_deposit_wf(s, inv, match_id, player),
        Op::SubmitResult { match_id, winner } => lemma_submit_wf(s, inv, match_id, winner),
        Op::SubmitResultWithOracleRecord { match_id, winner, game_id } =>
            lemma_submit_record_wf(s, inv, match_id, winner, game_id),
        Op::CancelMatch { match_id, caller } => {
            if cancel_match_error(s, match_id, caller) is None {
                lemma_cancelled_wf(s, inv, match_id);
            }
        },
        Op::ExpireMatch { match_id } => {
            if op_expire_match(s, inv, match_id).result is Ok {
                lemma_cancelled_wf(s, inv, match_id);
            }
        },
        Op::FinalizeMatch { match_id } => lemma_finalize_wf(s, inv, match_id),
        Op::DisputeOracleResult { match_id, disputer, evidence_hash } =>
            lemma_dispute_wf(s, inv, match_id, disputer, evidence_hash),
        Op::VoteOnDispute { dispute_id, voter, vote, balance } =>
            lemma_vote_wf(s, inv, dispute_id, voter, vote, balance),
        Op::ResolveDisputeByVote { dispute_id } => lemma_resolve_wf(s, inv, dispute_id),
    }
}

} // verus!
