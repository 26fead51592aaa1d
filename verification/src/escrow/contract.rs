use vstd::prelude::*;

use super::errors::Error;
use super::laws::law_step_keeps_invariant;
use super::model::{
    admissible, redact_all, has_voted, signed, snapshot_access, saturating_add_i128, vote_precheck_error, cancelled_record, completed_record, current_timeout, depositors, elapsed, payout,
    pot_overflows, refunds, escrow_balance, game_id_taken, is_player,
    latest_snapshot_result, listed_matches, matches_in_state, min_int, page, player_match_ids,
    record_wf, redact, snapshot_history, snapshots_result, step, with_snapshot, without, wf, Op,
    Step, snapshot_event, closing_snapshot_event,
};
use super::state::{
    disputes_view, records_view, DisputeRecord, EscrowState, MatchRecord, RecordView,
    DEFAULT_MATCH_TIMEOUT_LEDGERS, MAX_GAME_ID_LEN, MAX_MATCH_TIMEOUT_LEDGERS,
    MAX_SNAPSHOTS_PER_MATCH, MIN_MATCH_TIMEOUT_LEDGERS, VOTING_PERIOD_LEDGERS,
};
use super::types::{
    bytes_eq, copy_bytes, Address, BalanceSnapshot, Dispute, DisputeState, DisputeView, Event,
    Invocation, Match, MatchState, MatchView, Platform, SnapshotReason, SnapshotView, Transfer, Winner,
    events_view, matches_view, snapshot_list_view,
};

verus! {

/// The escrow contract: its storage and its entry points.
///
/// Every entry point takes the [`Invocation`] that the host reports. An
/// entry point that fails leaves the storage as it was (the host rolls the
/// invocation back). Token movements are returned as [`Transfer`]s, which
/// the host performs in order; if one of them fails the invocation is
/// rolled back as well. The events an entry point publishes are appended
/// to [`EscrowContract::events`].
pub struct EscrowContract {
    pub oracle: Option<Address>,
    pub admin: Option<Address>,
    pub pending_admin: Option<Address>,
    pub paused: bool,
    pub allowlist_enforced: bool,
    pub allowed_token_count: u32,
    /// Allowed tokens in the order they were added.
    pub allowed_tokens: Vec<Address>,
    pub match_timeout: Option<u32>,
    pub dispute_period: u32,
    /// Id that the next match gets.
    pub match_count: u64,
    /// Stored matches; match `i` is at position `i`.
    pub matches: Vec<MatchRecord>,
    /// Ids of funded matches awaiting payout, in activation order.
    pub active_matches: Vec<u64>,
    /// Disputes; dispute `d` is at position `d`.
    pub disputes: Vec<DisputeRecord>,
    /// Events published so far, oldest first.
    pub events: Vec<Event>,
}

impl View for EscrowContract {
    type V = EscrowState;

    open spec fn view(&self) -> EscrowState {
        EscrowState {
            oracle: self.oracle,
            admin: self.admin,
            pending_admin: self.pending_admin,
            paused: self.paused,
            allowlist_enforced: self.allowlist_enforced,
            allowed_token_count: self.allowed_token_count,
            allowed_tokens: self.allowed_tokens@,
            match_timeout: self.match_timeout,
            dispute_period: self.dispute_period,
            match_count: self.match_count,
            matches: records_view(self.matches@),
            active_matches: self.active_matches@,
            disputes: disputes_view(self.disputes@),
        }
    }
}

/// The event log grew by exactly the events of step `st`.
pub open spec fn emits(before: Seq<Event>, after: Seq<Event>, st: Step) -> bool {
    events_view(after) =~= events_view(before) + st.events
}

pub open spec fn unit_result(r: Result<(), Error>, st: Step) -> bool {
    match r {
        Ok(_) => st.result is Ok,
        Err(e) => st.result == Err::<u64, Error>(e),
    }
}

pub open spec fn transfer_result(r: Result<Vec<Transfer>, Error>, st: Step) -> bool {
    match r {
        Ok(t) => st.result is Ok && t@ == st.transfers,
        Err(e) => st.result == Err::<u64, Error>(e),
    }
}

/// Number of players who have deposited (0, 1 or 2).
fn depositor_count(m: &Match) -> (r: i128)
    ensures
        r == depositors(m@),
{
    let mut count: i128 = 0;
    if m.player1_deposited {
        count += 1;
    }
    if m.player2_deposited {
        count += 1;
    }
    count
}

/// Tokens currently held in escrow for a match.
fn escrow_balance_of(m: &Match) -> (r: i128)
    requires
        m.stake_amount > 0,
        (m.player1_deposited && m.player2_deposited) ==> !pot_overflows(m@),
    ensures
        r == escrow_balance(m@),
{
    if m.state == MatchState::Completed || m.state == MatchState::Cancelled {
        0
    } else {
        let count = depositor_count(m);
        let stake = m.stake_amount;
        assert(count * stake == depositors(m@) * stake);
        assert(0 <= count * stake <= i128::MAX) by (nonlinear_arith)
            requires
                0 <= count <= 2,
                stake > 0,
                count == 2 ==> 2 * stake <= i128::MAX,
        ;
        count * stake
    }
}

/// Record a balance snapshot of `rec`'s match in its ring buffer.
fn record_snapshot(rec: &mut MatchRecord, reason: SnapshotReason, inv: &Invocation) -> (ev: Event)
    requires
        old(rec).snapshots.len() == min_int(
            old(rec).snapshot_count as int,
            MAX_SNAPSHOTS_PER_MATCH as int,
        ),
        old(rec).m.stake_amount > 0,
        (old(rec).m.player1_deposited && old(rec).m.player2_deposited) ==> !pot_overflows(
            old(rec).m@,
        ),
    ensures
        final(rec)@ == with_snapshot(old(rec)@, reason, inv@),
        ev@ == snapshot_event(old(rec)@),
{
    let escrow_balance = escrow_balance_of(&rec.m);
    let index = rec.snapshot_count;
    let slot = index % MAX_SNAPSHOTS_PER_MATCH;
    let snapshot = BalanceSnapshot {
        match_id: rec.m.id,
        index,
        reason,
        ledger: inv.ledger,
        token: rec.m.token,
        token_symbol: copy_bytes(&inv.token_symbol),
        stake_amount: rec.m.stake_amount,
        escrow_balance,
        player1_deposited: rec.m.player1_deposited,
        player2_deposited: rec.m.player2_deposited,
    };
    let ghost old_snaps = rec.snapshots@;
    if (slot as usize) < rec.snapshots.len() {
        rec.snapshots.set(slot as usize, snapshot);
        assert(rec.snapshots@.map_values(|s: BalanceSnapshot| s@) =~= old_snaps.map_values(
            |s: BalanceSnapshot| s@,
        ).update(slot as int, snapshot@));
    } else {
        rec.snapshots.push(snapshot);
        assert(rec.snapshots@.map_values(|s: BalanceSnapshot| s@) =~= old_snaps.map_values(
            |s: BalanceSnapshot| s@,
        ).push(snapshot@));
    }
    rec.snapshot_count = index.saturating_add(1);
    Event::SnapshotRecorded { match_id: rec.m.id, index, escrow_balance }
}

/// `v` without any occurrence of `x`, order kept.
fn without_id(v: &Vec<u64>, x: u64) -> (r: Vec<u64>)
    ensures
        r@ == without(v@, x),
{
    let mut r: Vec<u64> = Vec::new();
    let mut i: usize = 0;
    while i < v.len()
        invariant
            i <= v.len(),
            r@ == without(v@.take(i as int), x),
        decreases v.len() - i,
    {
        assert(v@.take(i + 1).drop_last() =~= v@.take(i as int));
        if v[i] != x {
            r.push(v[i]);
        }
        i = i + 1;
    }
    assert(v@.take(v.len() as int) =~= v@);
    r
}

/// Transfers paying out match `m` for `winner`; `Err(Overflow)` when the
/// pot does not fit.
fn execute_payout(m: &Match, winner: Winner, contract: Address) -> (r: Result<Vec<Transfer>, Error>)
    requires
        m.stake_amount > 0,
    ensures
        match r {
            Ok(t) => !pot_overflows(m@) && t@ == payout(m@, winner, contract),
            Err(e) => pot_overflows(m@) && e == Error::Overflow,
        },
{
    let pot = match m.stake_amount.checked_mul(2) {
        Some(p) => p,
        None => return Err(Error::Overflow),
    };
    let mut t: Vec<Transfer> = Vec::new();
    match winner {
        Winner::Player1 => {
            t.push(Transfer { token: m.token, from: contract, to: m.player1, amount: pot });
        },
        Winner::Player2 => {
            t.push(Transfer { token: m.token, from: contract, to: m.player2, amount: pot });
        },
        Winner::Draw => {
            t.push(Transfer { token: m.token, from: contract, to: m.player1, amount: m.stake_amount });
            t.push(Transfer { token: m.token, from: contract, to: m.player2, amount: m.stake_amount });
        },
    }
    assert(t@ =~= payout(m@, winner, contract));
    Ok(t)
}

/// Transfers returning each deposited stake of `m`.
fn refund_deposits(m: &Match, contract: Address) -> (r: Vec<Transfer>)
    ensures
        r@ == refunds(m@, contract),
{
    let mut t: Vec<Transfer> = Vec::new();
    if m.player1_deposited {
        t.push(Transfer { token: m.token, from: contract, to: m.player1, amount: m.stake_amount });
    }
    if m.player2_deposited {
        t.push(Transfer { token: m.token, from: contract, to: m.player2, amount: m.stake_amount });
    }
    assert(t@ =~= refunds(m@, contract));
    t
}

/// `total + weight`, saturating at the bounds of `i128`.
fn add_votes(total: i128, weight: i128) -> (r: i128)
    ensures
        r == saturating_add_i128(total, weight),
{
    if weight > 0 && total > i128::MAX - weight {
        i128::MAX
    } else if weight < 0 && total < i128::MIN - weight {
        i128::MIN
    } else {
        total + weight
    }
}

/// The snapshot with its amounts zeroed, for callers without full access.
fn redact_snapshot(snapshot: BalanceSnapshot) -> (r: BalanceSnapshot)
    ensures
        r@ == redact(snapshot@),
{
    let mut snapshot = snapshot;
    snapshot.stake_amount = 0;
    snapshot.escrow_balance = 0;
    snapshot
}

/// The page of `all` with at most `limit` matches from position `offset`.
fn page_matches(all: &Vec<Match>, offset: u32, limit: u32) -> (r: Vec<Match>)
    ensures
        matches_view(r@) == page(matches_view(all@), offset, limit),
{
    let mut r: Vec<Match> = Vec::new();
    if limit == 0 || offset as usize >= all.len() {
        assert(matches_view(r@) =~= page(matches_view(all@), offset, limit));
        return r;
    }
    let end: usize = if (all.len() - offset as usize) < limit as usize {
        all.len()
    } else {
        offset as usize + limit as usize
    };
    let mut i: usize = offset as usize;
    while i < end
        invariant
            offset <= i <= end <= all.len(),
            end == min_int(all.len() as int, offset + limit),
            matches_view(r@) == matches_view(all@).subrange(offset as int, i as int),
        decreases end - i,
    {
        let c = all[i].copy();
        let ghost before = r@;
        r.push(c);
        assert(matches_view(all@)[i as int] == all@[i as int]@);
        assert(matches_view(before.push(c)) =~= matches_view(before).push(c@));
        assert(matches_view(all@).subrange(offset as int, i + 1) =~= matches_view(all@).subrange(
            offset as int,
            i as int,
        ).push(matches_view(all@)[i as int]));
        i = i + 1;
    }
    r
}

/// The page of `all` with at most `limit` ids from position `offset`.
fn page_ids(all: &Vec<u64>, offset: u32, limit: u32) -> (r: Vec<u64>)
    ensures
        r@ == page(all@, offset, limit),
{
    let mut r: Vec<u64> = Vec::new();
    if limit == 0 || offset as usize >= all.len() {
        assert(r@ =~= page(all@, offset, limit));
        return r;
    }
    let end: usize = if (all.len() - offset as usize) < limit as usize {
        all.len()
    } else {
        offset as usize + limit as usize
    };
    let mut i: usize = offset as usize;
    while i < end
        invariant
            offset <= i <= end <= all.len(),
            end == min_int(all.len() as int, offset + limit),
            r@ == all@.subrange(offset as int, i as int),
        decreases end - i,
    {
        r.push(all[i]);
        i = i + 1;
        assert(r@ =~= all@.subrange(offset as int, i as int));
    }
    r
}

proof fn lemma_records_set(old_v: Seq<MatchRecord>, new_v: Seq<MatchRecord>, i: int)
    requires
        0 <= i < old_v.len(),
        new_v.len() == old_v.len(),
        forall|j: int| 0 <= j < old_v.len() && j != i ==> new_v[j] == old_v[j],
    ensures
        records_view(new_v) == records_view(old_v).update(i, new_v[i]@),
{
    assert(records_view(new_v) =~= records_view(old_v).update(i, new_v[i]@));
}

proof fn lemma_disputes_set(old_v: Seq<DisputeRecord>, new_v: Seq<DisputeRecord>, i: int)
    requires
        0 <= i < old_v.len(),
        new_v.len() == old_v.len(),
        forall|j: int| 0 <= j < old_v.len() && j != i ==> new_v[j] == old_v[j],
    ensures
        disputes_view(new_v) == disputes_view(old_v).update(i, new_v[i]@),
{
    assert(disputes_view(new_v) =~= disputes_view(old_v).update(i, new_v[i]@));
}

impl EscrowContract {
    pub open spec fn well_formed(&self) -> bool {
        wf(self@)
    }

    /// A freshly deployed contract: empty storage.
    pub fn new() -> (c: EscrowContract)
        ensures
            c.well_formed(),
            c@.oracle is None,
            c@.admin is None,
            c@.pending_admin is None,
            !c@.paused,
            c@.match_count == 0,
            c@.matches.len() == 0,
            c@.disputes.len() == 0,
            c@.allowed_tokens.len() == 0,
            c@.match_timeout is None,
            c@.dispute_period == 0,
            c.events@.len() == 0,
    {
        let c = EscrowContract {
            oracle: None,
            admin: None,
            pending_admin: None,
            paused: false,
            allowlist_enforced: false,
            allowed_token_count: 0,
            allowed_tokens: Vec::new(),
            match_timeout: None,
            dispute_period: 0,
            match_count: 0,
            matches: Vec::new(),
            active_matches: Vec::new(),
            disputes: Vec::new(),
            events: Vec::new(),
        };
        assert(c@.matches =~= Seq::empty());
        assert(c@.disputes =~= Seq::empty());
        assert(wf(c@));
        c
    }

    /// Publish event `e`.
    fn publish(&mut self, e: Event)
        ensures
            final(self)@ == old(self)@,
            events_view(final(self).events@) == events_view(old(self).events@).push(e@),
    {
        let ghost before = self.events@;
        let ghost ev = e@;
        self.events.push(e);
        assert(events_view(self.events@) =~= events_view(before).push(ev));
    }

    /// Initialize the contract with a trusted oracle address and an admin.
    pub fn initialize(&mut self, inv: &Invocation, oracle: Address, admin: Address) -> (r: Result<(), Error>)
        requires
            old(self).well_formed(),
        ensures
            final(self).well_formed(),
            final(self)@ == step(old(self)@, inv@, Op::Initialize { oracle, admin }).state,
            emits(old(self).events@, final(self).events@, step(old(self)@, inv@, Op::Initialize { oracle, admin })),
            unit_result(r, step(old(self)@, inv@, Op::Initialize { oracle, admin })),
    {
        proof {
            law_step_keeps_invariant(self@, inv@, Op::Initialize { oracle, admin });
        }
        if self.oracle.is_some() {
            return Err(Error::AlreadyInitialized);
        }
        if oracle == inv.contract {
            return Err(Error::InvalidAddress);
        }
        self.oracle = Some(oracle);
        self.admin = Some(admin);
        self.match_count = 0;
        self.paused = false;
        self.allowlist_enforced = false;
        self.allowed_token_count = 0;
        self.dispute_period = 0;
        self.publish(Event::Initialized { oracle, admin });
        Ok(())
    }

    /// Pause the contract (admin only). Blocks create_match, deposit and submit_result.
    pub fn pause(&mut self, inv: &Invocation) -> (r: Result<(), Error>)
        requires
            old(self).well_formed(),
            admissible(old(self)@, inv@, Op::Pause),
        ensures
            final(self).well_formed(),
            final(self)@ == step(old(self)@, inv@, Op::Pause).state,
            emits(old(self).events@, final(self).events@, step(old(self)@, inv@, Op::Pause)),
            unit_result(r, step(old(self)@, inv@, Op::Pause)),
    {
        proof {
            law_step_keeps_invariant(self@, inv@, Op::Pause);
        }
        if self.admin.is_none() {
            return Err(Error::Unauthorized);
        }
        self.paused = true;
        self.publish(Event::Paused);
        Ok(())
    }

    /// Unpause the contract (admin only).
    pub fn unpause(&mut self, inv: &Invocation) -> (r: Result<(), Error>)
        requires
            old(self).well_formed(),
            admissible(old(self)@, inv@, Op::Unpause),
        ensures
            final(self).well_formed(),
            final(self)@ == step(old(self)@, inv@, Op::Unpause).state,
            emits(old(self).events@, final(self).events@, step(old(self)@, inv@, Op::Unpause)),
            unit_result(r, step(old(self)@, inv@, Op::Unpause)),
    {
        proof {
            law_step_keeps_invariant(self@, inv@, Op::Unpause);
        }
        if self.admin.is_none() {
            return Err(Error::Unauthorized);
        }
        self.paused = false;
        self.publish(Event::Unpaused);
        Ok(())
    }

    /// Check if a token is allowed.
    pub fn is_token_allowed(&self, token: Address) -> (r: bool)
        ensures
            r == self@.allowed_tokens.contains(token),
    {
        let mut i: usize = 0;
        while i < self.allowed_tokens.len()
            invariant
                i <= self.allowed_tokens.len(),
                forall|j: int| 0 <= j < i ==> self.allowed_tokens@[j] != token,
            decreases self.allowed_tokens.len() - i,
        {
            if self.allowed_tokens[i] == token {
                assert(self.allowed_tokens@[i as int] == token);
                return true;
            }
            i = i + 1;
        }
        false
    }

    /// Return the current allowlist, in the order tokens were added.
    pub fn get_allowed_tokens(&self) -> (r: Result<Vec<Address>, Error>)
        ensures
            r matches Ok(v) && v@ == self@.allowed_tokens,
    {
        let mut v: Vec<Address> = Vec::new();
        let mut i: usize = 0;
        while i < self.allowed_tokens.len()
            invariant
                i <= self.allowed_tokens.len(),
                v@ == self.allowed_tokens@.take(i as int),
            decreases self.allowed_tokens.len() - i,
        {
            v.push(self.allowed_tokens[i]);
            i = i + 1;
            assert(v@ =~= self.allowed_tokens@.take(i as int));
        }
        assert(self.allowed_tokens@.take(i as int) =~= self.allowed_tokens@);
        Ok(v)
    }

    /// Add a token to the allowlist (admin only).
    pub fn add_allowed_token(&mut self, inv: &Invocation, token: Address) -> (r: Result<(), Error>)
        requires
            old(self).well_formed(),
            admissible(old(self)@, inv@, Op::AddAllowedToken { token }),
        ensures
            final(self).well_formed(),
            final(self)@ == step(old(self)@, inv@, Op::AddAllowedToken { token }).state,
            emits(old(self).events@, final(self).events@, step(old(self)@, inv@, Op::AddAllowedToken { token })),
            unit_result(r, step(old(self)@, inv@, Op::AddAllowedToken { token })),
    {
        proof {
            law_step_keeps_invariant(self@, inv@, Op::AddAllowedToken { token });
        }
        if self.admin.is_none() {
            return Err(Error::Unauthorized);
        }
        let already_allowed = self.is_token_allowed(token);
        if !already_allowed {
            let count = self.allowed_token_count;
            let next_count = match count.checked_add(1) {
                Some(n) => n,
                None => return Err(Error::Overflow),
            };
            self.allowed_token_count = next_count;
            if count == 0 {
                self.allowlist_enforced = true;
            }
            self.allowed_tokens.push(token);
        } else {
            self.allowlist_enforced = true;
        }
        self.publish(Event::TokenAdded { token });
        Ok(())
    }

    /// Remove a token from the allowlist (admin only).
    pub fn remove_allowed_token(&mut self, inv: &Invocation, token: Address) -> (r: Result<(), Error>)
        requires
            old(self).well_formed(),
            admissible(old(self)@, inv@, Op::RemoveAllowedToken { token }),
        ensures
            final(self).well_formed(),
            final(self)@ == step(old(self)@, inv@, Op::RemoveAllowedToken { token }).state,
            emits(old(self).events@, final(self).events@, step(old(self)@, inv@, Op::RemoveAllowedToken { token })),
            unit_result(r, step(old(self)@, inv@, Op::RemoveAllowedToken { token })),
    {
        proof {
            law_step_keeps_invariant(self@, inv@, Op::RemoveAllowedToken { token });
        }
        if self.admin.is_none() {
            return Err(Error::Unauthorized);
        }
        let was_allowed = self.is_token_allowed(token);
        if was_allowed {
            let next_count = self.allowed_token_count.saturating_sub(1);
            self.allowed_token_count = next_count;
            if next_count == 0 {
                self.allowlist_enforced = false;
            }
        }
        self.allowed_tokens = without_id(&self.allowed_tokens, token);
        self.publish(Event::TokenRemoved { token });
        Ok(())
    }

    /// Return the admin address set at initialization.
    pub fn get_admin(&self) -> (r: Result<Address, Error>)
        ensures
            r == (match self@.admin {
                Some(a) => Ok(a),
                None => Err(Error::Unauthorized),
            }),
    {
        match self.admin {
            Some(a) => Ok(a),
            None => Err(Error::Unauthorized),
        }
    }

    /// Return the oracle address currently configured on the contract.
    pub fn get_oracle(&self) -> (r: Result<Address, Error>)
        ensures
            r == (match self@.oracle {
                Some(a) => Ok(a),
                None => Err(Error::Unauthorized),
            }),
    {
        match self.oracle {
            Some(a) => Ok(a),
            None => Err(Error::Unauthorized),
        }
    }

    fn current_match_timeout(&self) -> (r: u32)
        ensures
            r == current_timeout(self@),
    {
        match self.match_timeout {
            Some(t) => t,
            None => DEFAULT_MATCH_TIMEOUT_LEDGERS,
        }
    }

    /// The match expiration timeout in ledgers.
    pub fn get_match_timeout(&self) -> (r: Result<u32, Error>)
        ensures
            r == Ok::<u32, Error>(current_timeout(self@)),
    {
        Ok(self.current_match_timeout())
    }

    /// Set the match expiration timeout (admin only), within
    /// [`MIN_MATCH_TIMEOUT_LEDGERS`, `MAX_MATCH_TIMEOUT_LEDGERS`].
    pub fn set_match_timeout(&mut self, inv: &Invocation, timeout: u32) -> (r: Result<(), Error>)
        requires
            old(self).well_formed(),
            admissible(old(self)@, inv@, Op::SetMatchTimeout { timeout }),
        ensures
            final(self).well_formed(),
            final(self)@ == step(old(self)@, inv@, Op::SetMatchTimeout { timeout }).state,
            emits(old(self).events@, final(self).events@, step(old(self)@, inv@, Op::SetMatchTimeout { timeout })),
            unit_result(r, step(old(self)@, inv@, Op::SetMatchTimeout { timeout })),
    {
        proof {
            law_step_keeps_invariant(self@, inv@, Op::SetMatchTimeout { timeout });
        }
        if self.admin.is_none() {
            return Err(Error::Unauthorized);
        }
        if timeout < MIN_MATCH_TIMEOUT_LEDGERS || timeout > MAX_MATCH_TIMEOUT_LEDGERS {
            return Err(Error::InvalidTimeout);
        }
        let old_timeout = self.current_match_timeout();
        self.match_timeout = Some(timeout);
        self.publish(Event::TimeoutChanged { old_timeout, new_timeout: timeout });
        Ok(())
    }

    /// Propose a new admin (current admin only); authority moves on acceptance.
    pub fn propose_admin(&mut self, inv: &Invocation, new_admin: Address) -> (r: Result<(), Error>)
        requires
            old(self).well_formed(),
            admissible(old(self)@, inv@, Op::ProposeAdmin { new_admin }),
        ensures
            final(self).well_formed(),
            final(self)@ == step(old(self)@, inv@, Op::ProposeAdmin { new_admin }).state,
            emits(old(self).events@, final(self).events@, step(old(self)@, inv@, Op::ProposeAdmin { new_admin })),
            unit_result(r, step(old(self)@, inv@, Op::ProposeAdmin { new_admin })),
    {
        proof {
            law_step_keeps_invariant(self@, inv@, Op::ProposeAdmin { new_admin });
        }
        if self.admin.is_none() {
            return Err(Error::Unauthorized);
        }
        self.pending_admin = Some(new_admin);
        self.publish(Event::AdminProposed { new_admin });
        Ok(())
    }

    /// Accept the pending admin proposal (pending admin only).
    pub fn accept_admin(&mut self, inv: &Invocation) -> (r: Result<(), Error>)
        requires
            old(self).well_formed(),
            admissible(old(self)@, inv@, Op::AcceptAdmin),
        ensures
            final(self).well_formed(),
            final(self)@ == step(old(self)@, inv@, Op::AcceptAdmin).state,
            emits(old(self).events@, final(self).events@, step(old(self)@, inv@, Op::AcceptAdmin)),
            unit_result(r, step(old(self)@, inv@, Op::AcceptAdmin)),
    {
        proof {
            law_step_keeps_invariant(self@, inv@, Op::AcceptAdmin);
        }
        match self.pending_admin {
            None => Err(Error::Unauthorized),
            Some(p) => {
                self.admin = Some(p);
                self.pending_admin = None;
                self.publish(Event::AdminAccepted { admin: p });
                Ok(())
            },
        }
    }

    /// Direct, single-step admin transfer (current admin only).
    pub fn transfer_admin(&mut self, inv: &Invocation, new_admin: Address) -> (r: Result<(), Error>)
        requires
            old(self).well_formed(),
            admissible(old(self)@, inv@, Op::TransferAdmin { new_admin }),
        ensures
            final(self).well_formed(),
            final(self)@ == step(old(self)@, inv@, Op::TransferAdmin { new_admin }).state,
            emits(old(self).events@, final(self).events@, step(old(self)@, inv@, Op::TransferAdmin { new_admin })),
            unit_result(r, step(old(self)@, inv@, Op::TransferAdmin { new_admin })),
    {
        proof {
            law_step_keeps_invariant(self@, inv@, Op::TransferAdmin { new_admin });
        }
        let old_admin = match self.admin {
            Some(a) => a,
            None => return Err(Error::Unauthorized),
        };
        self.admin = Some(new_admin);
        self.publish(Event::AdminTransferred { old_admin, new_admin });
        Ok(())
    }

    /// Update the oracle address (admin only).
    pub fn update_oracle(&mut self, inv: &Invocation, new_oracle: Address) -> (r: Result<(), Error>)
        requires
            old(self).well_formed(),
            admissible(old(self)@, inv@, Op::UpdateOracle { new_oracle }),
        ensures
            final(self).well_formed(),
            final(self)@ == step(old(self)@, inv@, Op::UpdateOracle { new_oracle }).state,
            emits(old(self).events@, final(self).events@, step(old(self)@, inv@, Op::UpdateOracle { new_oracle })),
            unit_result(r, step(old(self)@, inv@, Op::UpdateOracle { new_oracle })),
    {
        proof {
            law_step_keeps_invariant(self@, inv@, Op::UpdateOracle { new_oracle });
        }
        if self.admin.is_none() {
            return Err(Error::Unauthorized);
        }
        if new_oracle == inv.contract {
            return Err(Error::InvalidAddress);
        }
        let old_oracle = match self.oracle {
            Some(o) => o,
            None => return Err(Error::Unauthorized),
        };
        self.oracle = Some(new_oracle);
        self.publish(Event::OracleUpdated { old_oracle, new_oracle });
        Ok(())
    }

    /// Set the dispute period in ledgers (admin only); 0 means immediate payout.
    pub fn set_dispute_period(&mut self, inv: &Invocation, period: u32) -> (r: Result<(), Error>)
        requires
            old(self).well_formed(),
            admissible(old(self)@, inv@, Op::SetDisputePeriod { period }),
        ensures
            final(self).well_formed(),
            final(self)@ == step(old(self)@, inv@, Op::SetDisputePeriod { period }).state,
            emits(old(self).events@, final(self).events@, step(old(self)@, inv@, Op::SetDisputePeriod { period })),
            unit_result(r, step(old(self)@, inv@, Op::SetDisputePeriod { period })),
    {
        proof {
            law_step_keeps_invariant(self@, inv@, Op::SetDisputePeriod { period });
        }
        if self.admin.is_none() {
            return Err(Error::Unauthorized);
        }
        self.dispute_period = period;
        self.publish(Event::DisputePeriodSet { period });
        Ok(())
    }

    /// The current dispute period in ledgers.
    pub fn get_dispute_period(&self) -> (r: u32)
        ensures
            r == self@.dispute_period,
    {
        self.dispute_period
    }

    /// True when the allowlist is enforced (at least one token allowed).
    pub fn is_allowlist_enforced(&self) -> (r: bool)
        ensures
            r == self@.allowlist_enforced,
    {
        self.allowlist_enforced
    }

    /// True when the contract is paused.
    pub fn is_paused(&self) -> (r: bool)
        ensures
            r == self@.paused,
    {
        self.paused
    }

    /// True once the contract has been initialized.
    pub fn is_initialized(&self) -> (r: bool)
        ensures
            r == self@.oracle is Some,
    {
        self.oracle.is_some()
    }

    /// The total number of matches created (the id the next match gets).
    pub fn get_match_count(&self) -> (r: Result<u64, Error>)
        ensures
            r == Ok::<u64, Error>(self@.match_count),
    {
        Ok(self.match_count)
    }

    /// Whether some stored match already uses `game_id`.
    fn game_id_used(&self, game_id: &Vec<u8>) -> (r: bool)
        ensures
            r == game_id_taken(self@, game_id@),
    {
        let mut i: usize = 0;
        while i < self.matches.len()
            invariant
                i <= self.matches.len(),
                forall|j: int| 0 <= j < i ==> self@.matches[j].m.game_id != game_id@,
            decreases self.matches.len() - i,
        {
            if bytes_eq(&self.matches[i].m.game_id, game_id) {
                assert(self@.matches[i as int].m.game_id == game_id@);
                return true;
            }
            i = i + 1;
        }
        false
    }

    /// Create a new match. Both players must deposit before the game starts.
    ///
    /// `game_id` is the platform's game identifier, 1 to 64 bytes; a game id
    /// already used by a stored match is refused with `AlreadyExists`.
    pub fn create_match(
        &mut self,
        inv: &Invocation,
        player1: Address,
        player2: Address,
        stake_amount: i128,
        token: Address,
        game_id: Vec<u8>,
        platform: Platform,
    ) -> (r: Result<u64, Error>)
        requires
            old(self).well_formed(),
            admissible(
                old(self)@,
                inv@,
                Op::CreateMatch { player1, player2, stake_amount, token, game_id: game_id@, platform },
            ),
        ensures
            final(self).well_formed(),
            final(self)@ == step(
                old(self)@,
                inv@,
                Op::CreateMatch { player1, player2, stake_amount, token, game_id: game_id@, platform },
            ).state,
            emits(
                old(self).events@,
                final(self).events@,
                step(old(self)@, inv@, Op::CreateMatch { player1, player2, stake_amount, token, game_id: game_id@, platform }),
            ),
            r == step(
                old(self)@,
                inv@,
                Op::CreateMatch { player1, player2, stake_amount, token, game_id: game_id@, platform },
            ).result,
    {
        proof {
            law_step_keeps_invariant(
                self@,
                inv@,
                Op::CreateMatch { player1, player2, stake_amount, token, game_id: game_id@, platform },
            );
        }
        if self.paused {
            return Err(Error::ContractPaused);
        }
        if self.allowlist_enforced && !self.is_token_allowed(token) {
            return Err(Error::TokenNotAllowed);
        }
        if stake_amount <= 0 {
            return Err(Error::InvalidAmount);
        }
        if game_id.len() == 0 || game_id.len() > MAX_GAME_ID_LEN {
            return Err(Error::InvalidGameId);
        }
        if player1 == player2 {
            return Err(Error::InvalidPlayers);
        }
        if player2 == inv.contract {
            return Err(Error::InvalidPlayers);
        }
        if self.game_id_used(&game_id) {
            return Err(Error::AlreadyExists);
        }
        let id = self.match_count;
        if id < self.matches.len() as u64 {
            return Err(Error::AlreadyExists);
        }
        let next_id = match id.checked_add(1) {
            Some(n) => n,
            None => return Err(Error::Overflow),
        };
        let m = Match {
            id,
            player1,
            player2,
            stake_amount,
            token,
            game_id,
            platform,
            state: MatchState::Pending,
            player1_deposited: false,
            player2_deposited: false,
            created_ledger: inv.ledger,
            completed_ledger: None,
        };
        let mut rec = MatchRecord {
            m,
            snapshot_count: 0,
            snapshots: Vec::new(),
            pending_winner: None,
            result_deadline: None,
            dispute_id: None,
            oracle_record: None,
        };
        assert(rec@.snapshots =~= Seq::empty());
        let snap = record_snapshot(&mut rec, SnapshotReason::Created, inv);
        let ghost old_v = self.matches@;
        self.matches.push(rec);
        assert(records_view(self.matches@) =~= records_view(old_v).push(rec@));
        self.match_count = next_id;
        self.publish(snap);
        self.publish(Event::MatchCreated { match_id: id, player1, player2, stake_amount });
        Ok(id)
    }

    /// A player deposits their stake into escrow; the match becomes active
    /// once both players have deposited.
    pub fn deposit(&mut self, inv: &Invocation, match_id: u64, player: Address) -> (r: Result<
        Vec<Transfer>,
        Error,
    >)
        requires
            old(self).well_formed(),
            admissible(old(self)@, inv@, Op::Deposit { match_id, player }),
        ensures
            final(self).well_formed(),
            final(self)@ == step(old(self)@, inv@, Op::Deposit { match_id, player }).state,
            emits(old(self).events@, final(self).events@, step(old(self)@, inv@, Op::Deposit { match_id, player })),
            transfer_result(r, step(old(self)@, inv@, Op::Deposit { match_id, player })),
    {
        proof {
            law_step_keeps_invariant(self@, inv@, Op::Deposit { match_id, player });
        }
        if self.paused {
            return Err(Error::ContractPaused);
        }
        if match_id >= self.matches.len() as u64 {
            return Err(Error::MatchNotFound);
        }
        let i = match_id as usize;
        proof {
            assert(record_wf(self@.matches[i as int], i as int));
        }
        if self.matches[i].m.state != MatchState::Pending {
            return Err(Error::InvalidState);
        }
        let is_p1 = player == self.matches[i].m.player1;
        let is_p2 = player == self.matches[i].m.player2;
        if !is_p1 && !is_p2 {
            return Err(Error::Unauthorized);
        }
        if is_p1 && self.matches[i].m.player1_deposited {
            return Err(Error::AlreadyFunded);
        }
        if is_p2 && self.matches[i].m.player2_deposited {
            return Err(Error::AlreadyFunded);
        }
        let mut transfers: Vec<Transfer> = Vec::new();
        transfers.push(
            Transfer {
                token: self.matches[i].m.token,
                from: player,
                to: inv.contract,
                amount: self.matches[i].m.stake_amount,
            },
        );
        let ghost old_v = self.matches@;
        if is_p1 {
            self.matches[i].m.player1_deposited = true;
        } else {
            self.matches[i].m.player2_deposited = true;
        }
        let activated = self.matches[i].m.player1_deposited && self.matches[i].m.player2_deposited;
        if activated {
            self.matches[i].m.state = MatchState::Active;
            self.active_matches.push(match_id);
        }
        let snap = record_snapshot(&mut self.matches[i], SnapshotReason::Deposit, inv);
        proof {
            lemma_records_set(old_v, self.matches@, i as int);
        }
        if activated {
            self.publish(Event::Deposited { match_id, player, state: Some(MatchState::Active) });
            self.publish(Event::MatchActivated { match_id });
        } else {
            self.publish(Event::Deposited { match_id, player, state: None });
        }
        self.publish(snap);
        Ok(transfers)
    }

    /// Mark match `i` completed at the current ledger, take it off the
    /// active list and record a snapshot.
    fn complete(&mut self, i: usize, inv: &Invocation, reason: SnapshotReason) -> (ev: Event)
        requires
            wf(old(self)@),
            i < old(self).matches.len(),
        ensures
            final(self)@ == super::model::complete_match(old(self)@, i as u64, inv@, reason),
            final(self).events@ == old(self).events@,
            ev@ == closing_snapshot_event(old(self)@.matches[i as int]),
    {
        proof {
            assert(record_wf(self@.matches[i as int], i as int));
        }
        let ghost old_v = self.matches@;
        self.active_matches = without_id(&self.active_matches, i as u64);
        self.matches[i].m.state = MatchState::Completed;
        self.matches[i].m.completed_ledger = Some(inv.ledger);
        let ev = record_snapshot(&mut self.matches[i], reason, inv);
        proof {
            lemma_records_set(old_v, self.matches@, i as int);
        }
        ev
    }

    /// Oracle submits the verified match result. With no dispute period the
    /// payout happens at once; otherwise the match awaits the dispute window.
    pub fn submit_result(&mut self, inv: &Invocation, match_id: u64, winner: Winner) -> (r: Result<
        Vec<Transfer>,
        Error,
    >)
        requires
            old(self).well_formed(),
            admissible(old(self)@, inv@, Op::SubmitResult { match_id, winner }),
        ensures
            final(self).well_formed(),
            final(self)@ == step(old(self)@, inv@, Op::SubmitResult { match_id, winner }).state,
            emits(old(self).events@, final(self).events@, step(old(self)@, inv@, Op::SubmitResult { match_id, winner })),
            transfer_result(r, step(old(self)@, inv@, Op::SubmitResult { match_id, winner })),
    {
        proof {
            law_step_keeps_invariant(self@, inv@, Op::SubmitResult { match_id, winner });
        }
        if self.paused {
            return Err(Error::ContractPaused);
        }
        if self.oracle.is_none() {
            return Err(Error::Unauthorized);
        }
        if match_id >= self.matches.len() as u64 {
            return Err(Error::MatchNotFound);
        }
        let i = match_id as usize;
        proof {
            assert(record_wf(self@.matches[i as int], i as int));
        }
        if self.matches[i].m.state != MatchState::Active {
            return Err(Error::InvalidState);
        }
        if !self.matches[i].m.player1_deposited || !self.matches[i].m.player2_deposited {
            return Err(Error::NotFunded);
        }
        if self.dispute_period == 0 {
            let transfers = match execute_payout(&self.matches[i].m, winner, inv.contract) {
                Ok(t) => t,
                Err(e) => return Err(e),
            };
            let snap = self.complete(i, inv, SnapshotReason::Completed);
            self.publish(snap);
            self.publish(Event::MatchCompleted { match_id, winner });
            Ok(transfers)
        } else {
            let deadline = match inv.ledger.checked_add(self.dispute_period) {
                Some(d) => d,
                None => return Err(Error::Overflow),
            };
            let ghost old_v = self.matches@;
            self.matches[i].m.state = MatchState::PendingResult;
            self.matches[i].pending_winner = Some(winner);
            self.matches[i].result_deadline = Some(deadline);
            let snap = record_snapshot(&mut self.matches[i], SnapshotReason::ResultSubmitted, inv);
            proof {
                lemma_records_set(old_v, self.matches@, i as int);
            }
            self.publish(snap);
            self.publish(Event::ResultPending { match_id, winner, deadline });
            Ok(Vec::new())
        }
    }

    /// Submit a result and store the oracle's game id for the audit trail.
    pub fn submit_result_with_oracle_record(
        &mut self,
        inv: &Invocation,
        match_id: u64,
        winner: Winner,
        game_id: Vec<u8>,
    ) -> (r: Result<Vec<Transfer>, Error>)
        requires
            old(self).well_formed(),
            admissible(
                old(self)@,
                inv@,
                Op::SubmitResultWithOracleRecord { match_id, winner, game_id: game_id@ },
            ),
        ensures
            final(self).well_formed(),
            final(self)@ == step(
                old(self)@,
                inv@,
                Op::SubmitResultWithOracleRecord { match_id, winner, game_id: game_id@ },
            ).state,
            emits(
                old(self).events@,
                final(self).events@,
                step(old(self)@, inv@, Op::SubmitResultWithOracleRecord { match_id, winner, game_id: game_id@ }),
            ),
            transfer_result(
                r,
                step(
                    old(self)@,
                    inv@,
                    Op::SubmitResultWithOracleRecord { match_id, winner, game_id: game_id@ },
                ),
            ),
    {
        proof {
            law_step_keeps_invariant(
                self@,
                inv@,
                Op::SubmitResultWithOracleRecord { match_id, winner, game_id: game_id@ },
            );
        }
        let transfers = match self.submit_result(inv, match_id, winner) {
            Ok(t) => t,
            Err(e) => return Err(e),
        };
        let i = match_id as usize;
        assert(i < self.matches.len());
        let ghost old_v = self.matches@;
        let ghost mid = self@;
        self.matches[i].oracle_record = Some(game_id);
        proof {
            lemma_records_set(old_v, self.matches@, i as int);
            assert(self@ =~= super::model::set_record(
                mid,
                i as int,
                RecordView { oracle_record: Some(game_id@), ..mid.matches[i as int] },
            ));
        }
        Ok(transfers)
    }

    /// Mark match `i` cancelled at the current ledger and record a snapshot.
    fn cancel(&mut self, i: usize, inv: &Invocation) -> (ev: Event)
        requires
            wf(old(self)@),
            i < old(self).matches.len(),
            old(self).matches[i as int].m.state == MatchState::Pending,
        ensures
            final(self)@ == super::model::set_record(
                old(self)@,
                i as int,
                cancelled_record(old(self)@.matches[i as int], inv@),
            ),
            final(self).events@ == old(self).events@,
            ev@ == closing_snapshot_event(old(self)@.matches[i as int]),
    {
        proof {
            assert(record_wf(self@.matches[i as int], i as int));
        }
        let ghost old_v = self.matches@;
        self.matches[i].m.state = MatchState::Cancelled;
        self.matches[i].m.completed_ledger = Some(inv.ledger);
        let ev = record_snapshot(&mut self.matches[i], SnapshotReason::Cancelled, inv);
        proof {
            lemma_records_set(old_v, self.matches@, i as int);
        }
        ev
    }

    /// Cancel a pending match and refund any deposits; either player may cancel.
    pub fn cancel_match(&mut self, inv: &Invocation, match_id: u64, caller: Address) -> (r: Result<
        Vec<Transfer>,
        Error,
    >)
        requires
            old(self).well_formed(),
            admissible(old(self)@, inv@, Op::CancelMatch { match_id, caller }),
        ensures
            final(self).well_formed(),
            final(self)@ == step(old(self)@, inv@, Op::CancelMatch { match_id, caller }).state,
            emits(old(self).events@, final(self).events@, step(old(self)@, inv@, Op::CancelMatch { match_id, caller })),
            transfer_result(r, step(old(self)@, inv@, Op::CancelMatch { match_id, caller })),
    {
        proof {
            law_step_keeps_invariant(self@, inv@, Op::CancelMatch { match_id, caller });
        }
        if match_id >= self.matches.len() as u64 {
            return Err(Error::MatchNotFound);
        }
        let i = match_id as usize;
        if self.matches[i].m.state == MatchState::Active {
            return Err(Error::MatchAlreadyActive);
        }
        if self.matches[i].m.state != MatchState::Pending {
            return Err(Error::InvalidState);
        }
        let is_p1 = caller == self.matches[i].m.player1;
        let is_p2 = caller == self.matches[i].m.player2;
        if !is_p1 && !is_p2 {
            return Err(Error::Unauthorized);
        }
        let transfers = refund_deposits(&self.matches[i].m, inv.contract);
        let snap = self.cancel(i, inv);
        self.publish(snap);
        self.publish(Event::MatchCancelled { match_id });
        Ok(transfers)
    }

    /// Expire a pending match that was not fully funded within the match
    /// timeout; anyone may call this, and deposits are returned.
    pub fn expire_match(&mut self, inv: &Invocation, match_id: u64) -> (r: Result<Vec<Transfer>, Error>)
        requires
            old(self).well_formed(),
        ensures
            final(self).well_formed(),
            final(self)@ == step(old(self)@, inv@, Op::ExpireMatch { match_id }).state,
            emits(old(self).events@, final(self).events@, step(old(self)@, inv@, Op::ExpireMatch { match_id })),
            transfer_result(r, step(old(self)@, inv@, Op::ExpireMatch { match_id })),
    {
        proof {
            law_step_keeps_invariant(self@, inv@, Op::ExpireMatch { match_id });
        }
        if match_id >= self.matches.len() as u64 {
            return Err(Error::MatchNotFound);
        }
        let i = match_id as usize;
        if self.matches[i].m.state != MatchState::Pending {
            return Err(Error::InvalidState);
        }
        let elapsed = inv.ledger.saturating_sub(self.matches[i].m.created_ledger);
        let timeout = self.current_match_timeout();
        if elapsed < timeout {
            return Err(Error::MatchNotExpired);
        }
        let transfers = refund_deposits(&self.matches[i].m, inv.contract);
        let snap = self.cancel(i, inv);
        self.publish(snap);
        self.publish(Event::MatchExpired { match_id });
        Ok(transfers)
    }

    /// Finalize an undisputed match once its dispute period has elapsed;
    /// anyone may call this.
    pub fn finalize_match(&mut self, inv: &Invocation, match_id: u64) -> (r: Result<Vec<Transfer>, Error>)
        requires
            old(self).well_formed(),
        ensures
            final(self).well_formed(),
            final(self)@ == step(old(self)@, inv@, Op::FinalizeMatch { match_id }).state,
            emits(old(self).events@, final(self).events@, step(old(self)@, inv@, Op::FinalizeMatch { match_id })),
            transfer_result(r, step(old(self)@, inv@, Op::FinalizeMatch { match_id })),
    {
        proof {
            law_step_keeps_invariant(self@, inv@, Op::FinalizeMatch { match_id });
        }
        if match_id >= self.matches.len() as u64 {
            return Err(Error::MatchNotFound);
        }
        let i = match_id as usize;
        if self.matches[i].m.state != MatchState::PendingResult {
            return Err(Error::MatchNotInPendingResult);
        }
        let deadline = match self.matches[i].result_deadline {
            Some(d) => d,
            None => return Err(Error::PendingResultNotFound),
        };
        if inv.ledger < deadline {
            return Err(Error::DisputePeriodNotElapsed);
        }
        if self.matches[i].dispute_id.is_some() {
            return Err(Error::DisputeAlreadyRaised);
        }
        let winner = match self.matches[i].pending_winner {
            Some(w) => w,
            None => return Err(Error::PendingResultNotFound),
        };
        let transfers = match execute_payout(&self.matches[i].m, winner, inv.contract) {
            Ok(t) => t,
            Err(e) => return Err(e),
        };
        let snap = self.complete(i, inv, SnapshotReason::Finalized);
        self.publish(snap);
        self.publish(Event::MatchFinalized { match_id, winner });
        Ok(transfers)
    }

    /// Raise a dispute against an oracle result before its dispute deadline;
    /// only the match's players may dispute. Returns the dispute's id.
    pub fn dispute_oracle_result(
        &mut self,
        inv: &Invocation,
        match_id: u64,
        disputer: Address,
        evidence_hash: Vec<u8>,
    ) -> (r: Result<u64, Error>)
        requires
            old(self).well_formed(),
            admissible(
                old(self)@,
                inv@,
                Op::DisputeOracleResult { match_id, disputer, evidence_hash: evidence_hash@ },
            ),
        ensures
            final(self).well_formed(),
            final(self)@ == step(
                old(self)@,
                inv@,
                Op::DisputeOracleResult { match_id, disputer, evidence_hash: evidence_hash@ },
            ).state,
            emits(
                old(self).events@,
                final(self).events@,
                step(old(self)@, inv@, Op::DisputeOracleResult { match_id, disputer, evidence_hash: evidence_hash@ }),
            ),
            r == step(
                old(self)@,
                inv@,
                Op::DisputeOracleResult { match_id, disputer, evidence_hash: evidence_hash@ },
            ).result,
    {
        proof {
            law_step_keeps_invariant(
                self@,
                inv@,
                Op::DisputeOracleResult { match_id, disputer, evidence_hash: evidence_hash@ },
            );
        }
        if match_id >= self.matches.len() as u64 {
            return Err(Error::MatchNotFound);
        }
        let i = match_id as usize;
        if self.matches[i].m.state != MatchState::PendingResult {
            return Err(Error::MatchNotInPendingResult);
        }
        if disputer != self.matches[i].m.player1 && disputer != self.matches[i].m.player2 {
            return Err(Error::Unauthorized);
        }
        let deadline = match self.matches[i].result_deadline {
            Some(d) => d,
            None => return Err(Error::PendingResultNotFound),
        };
        if inv.ledger >= deadline {
            return Err(Error::DisputePeriodNotElapsed);
        }
        if evidence_hash.len() == 0 {
            return Err(Error::InvalidEvidenceHash);
        }
        if self.matches[i].dispute_id.is_some() {
            return Err(Error::DisputeAlreadyRaised);
        }
        let dispute_id = self.disputes.len() as u64;
        let voting_deadline = match inv.ledger.checked_add(VOTING_PERIOD_LEDGERS) {
            Some(d) => d,
            None => return Err(Error::Overflow),
        };
        if dispute_id.checked_add(1).is_none() {
            return Err(Error::Overflow);
        }
        let evidence_copy = copy_bytes(&evidence_hash);
        let dispute = Dispute {
            id: dispute_id,
            match_id,
            disputer,
            evidence_hash,
            yes_votes: 0,
            no_votes: 0,
            voting_deadline,
            state: DisputeState::Active,
        };
        let ghost old_d = self.disputes@;
        let rec = DisputeRecord { dispute, votes: Vec::new() };
        assert(rec@.votes =~= Seq::empty());
        self.disputes.push(rec);
        assert(disputes_view(self.disputes@) =~= disputes_view(old_d).push(rec@));
        let ghost old_v = self.matches@;
        self.matches[i].dispute_id = Some(dispute_id);
        proof {
            lemma_records_set(old_v, self.matches@, i as int);
        }
        self.publish(Event::DisputeCreated { dispute_id, match_id, disputer, evidence_hash: evidence_copy });
        Ok(dispute_id)
    }

    /// Whether `voter` already voted, given the votes cast.
    fn voted(votes: &Vec<(Address, bool)>, voter: Address) -> (r: bool)
        ensures
            r == has_voted(votes@, voter),
    {
        let mut i: usize = 0;
        while i < votes.len()
            invariant
                i <= votes.len(),
                forall|j: int| 0 <= j < i ==> votes@[j].0 != voter,
            decreases votes.len() - i,
        {
            if votes[i].0 == voter {
                assert(votes@[i as int].0 == voter);
                return true;
            }
            i = i + 1;
        }
        false
    }

    /// The checks that precede the balance query of [`Self::vote_on_dispute`];
    /// on success, the token whose balance of `voter` counts as the vote's weight.
    pub fn voting_token(&self, inv: &Invocation, dispute_id: u64, voter: Address) -> (r: Result<
        Address,
        Error,
    >)
        requires
            self.well_formed(),
        ensures
            match vote_precheck_error(self@, inv@, dispute_id, voter) {
                Some(e) => r == Err::<Address, Error>(e),
                None => r == Ok::<Address, Error>(
                    self@.matches[self@.disputes[dispute_id as int].dispute.match_id as int].m.token,
                ),
            },
    {
        if dispute_id >= self.disputes.len() as u64 {
            return Err(Error::DisputeNotFound);
        }
        let d = dispute_id as usize;
        if self.disputes[d].dispute.state != DisputeState::Active {
            return Err(Error::DisputeAlreadyResolved);
        }
        if inv.ledger >= self.disputes[d].dispute.voting_deadline {
            return Err(Error::VotingPeriodElapsed);
        }
        if Self::voted(&self.disputes[d].votes, voter) {
            return Err(Error::AlreadyVoted);
        }
        let mid = self.disputes[d].dispute.match_id;
        if mid >= self.matches.len() as u64 {
            return Err(Error::MatchNotFound);
        }
        Ok(self.matches[mid as usize].m.token)
    }

    /// Vote on an active dispute (`true` overturns the oracle result).
    /// `balance` is the voter's balance of the match token; only holders of
    /// a positive balance may vote, each once per dispute, and the balance
    /// is the vote's weight.
    pub fn vote_on_dispute(
        &mut self,
        inv: &Invocation,
        dispute_id: u64,
        voter: Address,
        vote: bool,
        balance: i128,
    ) -> (r: Result<(), Error>)
        requires
            old(self).well_formed(),
            admissible(old(self)@, inv@, Op::VoteOnDispute { dispute_id, voter, vote, balance }),
        ensures
            final(self).well_formed(),
            final(self)@ == step(old(self)@, inv@, Op::VoteOnDispute { dispute_id, voter, vote, balance }).state,
            emits(old(self).events@, final(self).events@, step(old(self)@, inv@, Op::VoteOnDispute { dispute_id, voter, vote, balance })),
            unit_result(r, step(old(self)@, inv@, Op::VoteOnDispute { dispute_id, voter, vote, balance })),
    {
        proof {
            law_step_keeps_invariant(self@, inv@, Op::VoteOnDispute { dispute_id, voter, vote, balance });
        }
        match self.voting_token(inv, dispute_id, voter) {
            Err(e) => return Err(e),
            Ok(_) => {},
        }
        assert(vote_precheck_error(self@, inv@, dispute_id, voter) is None);
        assert(dispute_id < self.disputes.len());
        if balance <= 0 {
            return Err(Error::NotStaker);
        }
        let d = dispute_id as usize;
        let ghost old_d = self.disputes@;
        let ghost s0 = self@;
        self.disputes[d].votes.push((voter, vote));
        if vote {
            self.disputes[d].dispute.yes_votes = add_votes(self.disputes[d].dispute.yes_votes, balance);
        } else {
            self.disputes[d].dispute.no_votes = add_votes(self.disputes[d].dispute.no_votes, balance);
        }
        proof {
            lemma_disputes_set(old_d, self.disputes@, d as int);
            assert(self.disputes@[d as int]@.votes =~= old_d[d as int]@.votes.push((voter, vote)));
            assert(self.disputes@[d as int]@.dispute =~= (if vote {
                DisputeView { yes_votes: saturating_add_i128(old_d[d as int]@.dispute.yes_votes, balance), ..old_d[d as int]@.dispute }
            } else {
                DisputeView { no_votes: saturating_add_i128(old_d[d as int]@.dispute.no_votes, balance), ..old_d[d as int]@.dispute }
            }));
            assert(old_d[d as int]@ == s0.disputes[d as int]);
            assert(self@.disputes =~= s0.disputes.update(d as int, self.disputes@[d as int]@));
            assert(self@ =~= step(s0, inv@, Op::VoteOnDispute { dispute_id, voter, vote, balance }).state);
        }
        self.publish(Event::Voted { dispute_id, voter, vote });
        Ok(())
    }

    /// Resolve a dispute once its voting period has elapsed: a majority to
    /// overturn refunds both players (a draw); otherwise the oracle's
    /// result stands and the winner takes the pot.
    pub fn resolve_dispute_by_vote(&mut self, inv: &Invocation, dispute_id: u64) -> (r: Result<
        Vec<Transfer>,
        Error,
    >)
        requires
            old(self).well_formed(),
        ensures
            final(self).well_formed(),
            final(self)@ == step(old(self)@, inv@, Op::ResolveDisputeByVote { dispute_id }).state,
            emits(old(self).events@, final(self).events@, step(old(self)@, inv@, Op::ResolveDisputeByVote { dispute_id })),
            transfer_result(r, step(old(self)@, inv@, Op::ResolveDisputeByVote { dispute_id })),
    {
        proof {
            law_step_keeps_invariant(self@, inv@, Op::ResolveDisputeByVote { dispute_id });
        }
        if dispute_id >= self.disputes.len() as u64 {
            return Err(Error::DisputeNotFound);
        }
        let d = dispute_id as usize;
        if self.disputes[d].dispute.state != DisputeState::Active {
            return Err(Error::DisputeAlreadyResolved);
        }
        if inv.ledger < self.disputes[d].dispute.voting_deadline {
            return Err(Error::VotingPeriodNotElapsed);
        }
        let mid = self.disputes[d].dispute.match_id;
        if mid >= self.matches.len() as u64 {
            return Err(Error::MatchNotFound);
        }
        let i = mid as usize;
        proof {
            assert(record_wf(self@.matches[i as int], i as int));
        }
        if self.matches[i].m.state != MatchState::PendingResult {
            return Err(Error::MatchNotInPendingResult);
        }
        let pending_winner = match self.matches[i].pending_winner {
            Some(w) => w,
            None => return Err(Error::PendingResultNotFound),
        };
        let overturned = self.disputes[d].dispute.yes_votes > self.disputes[d].dispute.no_votes;
        let winner = if overturned { Winner::Draw } else { pending_winner };
        let transfers = match execute_payout(&self.matches[i].m, winner, inv.contract) {
            Ok(t) => t,
            Err(e) => return Err(e),
        };
        let ghost s0 = self@;
        let snap = self.complete(i, inv, SnapshotReason::Finalized);
        let ghost old_d = self.disputes@;
        let state = if overturned {
            DisputeState::ResolvedOverturned
        } else {
            DisputeState::ResolvedUpheld
        };
        self.disputes[d].dispute.state = state;
        proof {
            lemma_disputes_set(old_d, self.disputes@, d as int);
        }
        self.publish(snap);
        self.publish(Event::DisputeResolved { dispute_id, match_id: mid, state, winner });
        Ok(transfers)
    }

    /// A dispute by id.
    pub fn get_dispute(&self, dispute_id: u64) -> (r: Result<Dispute, Error>)
        ensures
            match r {
                Ok(d) => dispute_id < self@.disputes.len() && d@ == self@.disputes[dispute_id as int].dispute,
                Err(e) => dispute_id >= self@.disputes.len() && e == Error::DisputeNotFound,
            },
    {
        if dispute_id >= self.disputes.len() as u64 {
            return Err(Error::DisputeNotFound);
        }
        Ok(self.disputes[dispute_id as usize].dispute.copy())
    }

    /// The id of the dispute raised against a match's result, if one exists.
    pub fn get_match_dispute_id(&self, match_id: u64) -> (r: Result<u64, Error>)
        ensures
            r == (if match_id < self@.matches.len() && self@.matches[match_id as int].dispute_id is Some {
                Ok::<u64, Error>(self@.matches[match_id as int].dispute_id->0)
            } else {
                Err(Error::DisputeNotFound)
            }),
    {
        if match_id >= self.matches.len() as u64 {
            return Err(Error::DisputeNotFound);
        }
        match self.matches[match_id as usize].dispute_id {
            Some(d) => Ok(d),
            None => Err(Error::DisputeNotFound),
        }
    }

    /// Read a match by id.
    pub fn get_match(&self, match_id: u64) -> (r: Result<Match, Error>)
        ensures
            match r {
                Ok(m) => match_id < self@.matches.len() && m@ == self@.matches[match_id as int].m,
                Err(e) => match_id >= self@.matches.len() && e == Error::MatchNotFound,
            },
    {
        if match_id >= self.matches.len() as u64 {
            return Err(Error::MatchNotFound);
        }
        Ok(self.matches[match_id as usize].m.copy())
    }

    /// Whether both players have deposited (historical deposit status; it
    /// stays true after payout).
    pub fn is_funded(&self, match_id: u64) -> (r: Result<bool, Error>)
        ensures
            r == (if match_id < self@.matches.len() {
                Ok::<bool, Error>(self@.matches[match_id as int].m.player1_deposited
                    && self@.matches[match_id as int].m.player2_deposited)
            } else {
                Err(Error::MatchNotFound)
            }),
    {
        if match_id >= self.matches.len() as u64 {
            return Err(Error::MatchNotFound);
        }
        let m = &self.matches[match_id as usize].m;
        Ok(m.player1_deposited && m.player2_deposited)
    }

    /// The number of players who have deposited for a match (0, 1 or 2).
    pub fn get_depositor_count(&self, match_id: u64) -> (r: Result<u32, Error>)
        ensures
            r == (if match_id < self@.matches.len() {
                Ok::<u32, Error>(depositors(self@.matches[match_id as int].m) as u32)
            } else {
                Err(Error::MatchNotFound)
            }),
    {
        if match_id >= self.matches.len() as u64 {
            return Err(Error::MatchNotFound);
        }
        Ok(depositor_count(&self.matches[match_id as usize].m) as u32)
    }

    /// The tokens held in escrow for a match (0, 1x or 2x the stake; 0 once
    /// the match is completed or cancelled).
    pub fn get_escrow_balance(&self, match_id: u64) -> (r: Result<i128, Error>)
        requires
            self.well_formed(),
        ensures
            r == (if match_id < self@.matches.len() {
                Ok::<i128, Error>(escrow_balance(self@.matches[match_id as int].m) as i128)
            } else {
                Err(Error::MatchNotFound)
            }),
    {
        if match_id >= self.matches.len() as u64 {
            return Err(Error::MatchNotFound);
        }
        let i = match_id as usize;
        proof {
            assert(record_wf(self@.matches[i as int], i as int));
        }
        Ok(escrow_balance_of(&self.matches[i].m))
    }

    /// Whether `caller` may read the snapshots of match `m`: `Ok(true)` for
    /// the admin (exact amounts), `Ok(false)` for its players (amounts
    /// redacted), `Err(Unauthorized)` otherwise.
    fn authorize_snapshot_query(&self, caller: Address, m: &Match) -> (r: Result<bool, Error>)
        ensures
            r == snapshot_access(self@, caller, m@),
    {
        match self.admin {
            None => Err(Error::Unauthorized),
            Some(admin) => {
                if caller == admin {
                    Ok(true)
                } else if caller == m.player1 || caller == m.player2 {
                    Ok(false)
                } else {
                    Err(Error::Unauthorized)
                }
            },
        }
    }

    /// The snapshot history of a match still held in its ring buffer,
    /// oldest first. The admin sees exact amounts; the match's players see
    /// them redacted to 0; anyone else is refused.
    pub fn get_balance_snapshots(&self, inv: &Invocation, caller: Address, match_id: u64) -> (r: Result<
        Vec<BalanceSnapshot>,
        Error,
    >)
        requires
            self.well_formed(),
            match_id < self@.matches.len() ==> signed(inv@, caller),
        ensures
            match r {
                Ok(v) => snapshots_result(self@, caller, match_id) == Ok::<Seq<SnapshotView>, Error>(
                    snapshot_list_view(v@),
                ),
                Err(e) => snapshots_result(self@, caller, match_id) == Err::<Seq<SnapshotView>, Error>(e),
            },
    {
        if match_id >= self.matches.len() as u64 {
            return Err(Error::MatchNotFound);
        }
        let i = match_id as usize;
        let rec = &self.matches[i];
        let full_access = match self.authorize_snapshot_query(caller, &rec.m) {
            Ok(f) => f,
            Err(e) => return Err(e),
        };
        proof {
            assert(record_wf(self@.matches[i as int], i as int));
        }
        let count = rec.snapshot_count;
        let available = if count < MAX_SNAPSHOTS_PER_MATCH { count } else { MAX_SNAPSHOTS_PER_MATCH };
        let start = count - available;
        let ghost rv = self@.matches[i as int];
        let ghost hist = snapshot_history(rv);
        let mut result: Vec<BalanceSnapshot> = Vec::new();
        let mut k: u32 = start;
        while k < count
            invariant
                start <= k <= count,
                count == rv.snapshot_count,
                start == count - min_int(count as int, MAX_SNAPSHOTS_PER_MATCH as int),
                rv == rec@,
                rec.snapshots.len() == min_int(count as int, MAX_SNAPSHOTS_PER_MATCH as int),
                hist == snapshot_history(rv),
                snapshot_list_view(result@) == (if full_access {
                    hist.take(k - start)
                } else {
                    redact_all(hist.take(k - start))
                }),
            decreases count - k,
        {
            let slot = k % MAX_SNAPSHOTS_PER_MATCH;
            assert((slot as int) < rec.snapshots.len());
            let snap = rec.snapshots[slot as usize].copy();
            let ghost j = k - start;
            let ghost before = result@;
            assert(snap@ == rv.snapshots[slot as int]);
            assert(hist[j] == rv.snapshots[(start + j) % (MAX_SNAPSHOTS_PER_MATCH as int)]);
            if full_access {
                result.push(snap);
            } else {
                result.push(redact_snapshot(snap));
            }
            k = k + 1;
            assert(hist.take(k - start) =~= hist.take(j).push(hist[j]));
            if full_access {
                assert(snapshot_list_view(result@) =~= snapshot_list_view(before).push(hist[j]));
                assert(snapshot_list_view(result@) =~= hist.take(k - start));
            } else {
                assert(snapshot_list_view(result@) =~= snapshot_list_view(before).push(redact(hist[j])));
                assert(redact_all(hist.take(k - start)) =~= redact_all(hist.take(j)).push(redact(hist[j])));
                assert(snapshot_list_view(result@) =~= redact_all(hist.take(k - start)));
            }
        }
        assert(hist.take(count - start) =~= hist);
        Ok(result)
    }

    /// The most recently recorded snapshot of a match, with the access rules
    /// of [`Self::get_balance_snapshots`].
    pub fn get_latest_snapshot(&self, inv: &Invocation, caller: Address, match_id: u64) -> (r: Result<
        BalanceSnapshot,
        Error,
    >)
        requires
            self.well_formed(),
            match_id < self@.matches.len() ==> signed(inv@, caller),
        ensures
            match r {
                Ok(v) => latest_snapshot_result(self@, caller, match_id) == Ok::<SnapshotView, Error>(v@),
                Err(e) => latest_snapshot_result(self@, caller, match_id) == Err::<SnapshotView, Error>(e),
            },
    {
        if match_id >= self.matches.len() as u64 {
            return Err(Error::MatchNotFound);
        }
        let i = match_id as usize;
        let rec = &self.matches[i];
        let full_access = match self.authorize_snapshot_query(caller, &rec.m) {
            Ok(f) => f,
            Err(e) => return Err(e),
        };
        proof {
            assert(record_wf(self@.matches[i as int], i as int));
        }
        let count = rec.snapshot_count;
        if count == 0 {
            return Err(Error::SnapshotNotFound);
        }
        let slot = (count - 1) % MAX_SNAPSHOTS_PER_MATCH;
        if (slot as usize) >= rec.snapshots.len() {
            return Err(Error::SnapshotNotFound);
        }
        let snap = rec.snapshots[slot as usize].copy();
        if full_access {
            Ok(snap)
        } else {
            Ok(redact_snapshot(snap))
        }
    }

    /// Matches with ids below the match count that are in state `st`, in id order.
    fn collect_matches_by_state(&self, st: MatchState) -> (r: Vec<Match>)
        requires
            self.well_formed(),
        ensures
            matches_view(r@) == listed_matches(self@, st),
    {
        let mut result: Vec<Match> = Vec::new();
        let count = self.match_count;
        let mut i: u64 = 0;
        while i < count
            invariant
                i <= count,
                count == self@.match_count,
                count <= self.matches.len(),
                matches_view(result@) == matches_in_state(self@.matches.take(i as int), st),
            decreases count - i,
        {
            let idx = i as usize;
            assert(self@.matches.take(i + 1).drop_last() =~= self@.matches.take(i as int));
            if self.matches[idx].m.state == st {
                result.push(self.matches[idx].m.copy());
                assert(matches_view(result@) =~= matches_in_state(self@.matches.take(i as int), st).push(
                    self@.matches[i as int].m,
                ));
            }
            i = i + 1;
        }
        result
    }

    /// All matches awaiting deposits.
    pub fn get_pending_matches(&self) -> (r: Result<Vec<Match>, Error>)
        requires
            self.well_formed(),
        ensures
            r matches Ok(v) && matches_view(v@) == listed_matches(self@, MatchState::Pending),
    {
        Ok(self.collect_matches_by_state(MatchState::Pending))
    }

    /// A page of pending matches, ordered by match id.
    pub fn get_pending_matches_paginated(&self, offset: u32, limit: u32) -> (r: Result<Vec<Match>, Error>)
        requires
            self.well_formed(),
        ensures
            r matches Ok(v) && matches_view(v@) == page(listed_matches(self@, MatchState::Pending), offset, limit),
    {
        let all = self.collect_matches_by_state(MatchState::Pending);
        Ok(page_matches(&all, offset, limit))
    }

    /// All matches that are active (fully funded).
    pub fn get_active_matches(&self) -> (r: Result<Vec<Match>, Error>)
        requires
            self.well_formed(),
        ensures
            r matches Ok(v) && matches_view(v@) == listed_matches(self@, MatchState::Active),
    {
        Ok(self.collect_matches_by_state(MatchState::Active))
    }

    /// All matches that are live, i.e. active.
    pub fn get_live_matches(&self) -> (r: Result<Vec<Match>, Error>)
        requires
            self.well_formed(),
        ensures
            r matches Ok(v) && matches_view(v@) == listed_matches(self@, MatchState::Active),
    {
        self.get_active_matches()
    }

    /// A page of active matches, ordered by match id.
    pub fn get_active_matches_paginated(&self, offset: u32, limit: u32) -> (r: Result<Vec<Match>, Error>)
        requires
            self.well_formed(),
        ensures
            r matches Ok(v) && matches_view(v@) == page(listed_matches(self@, MatchState::Active), offset, limit),
    {
        let all = self.collect_matches_by_state(MatchState::Active);
        Ok(page_matches(&all, offset, limit))
    }

    /// A page of live (active) matches, ordered by match id.
    pub fn get_live_matches_paginated(&self, offset: u32, limit: u32) -> (r: Result<Vec<Match>, Error>)
        requires
            self.well_formed(),
        ensures
            r matches Ok(v) && matches_view(v@) == page(listed_matches(self@, MatchState::Active), offset, limit),
    {
        self.get_active_matches_paginated(offset, limit)
    }

    /// Ids of all matches `player` plays in (past and present), in creation order.
    pub fn get_player_matches(&self, player: Address) -> (r: Result<Vec<u64>, Error>)
        requires
            self.well_formed(),
        ensures
            r matches Ok(v) && v@ == player_match_ids(self@.matches, player),
    {
        let mut result: Vec<u64> = Vec::new();
        let mut i: usize = 0;
        while i < self.matches.len()
            invariant
                i <= self.matches.len(),
                result@ == player_match_ids(self@.matches.take(i as int), player),
            decreases self.matches.len() - i,
        {
            assert(self@.matches.take(i + 1).drop_last() =~= self@.matches.take(i as int));
            let m = &self.matches[i].m;
            if m.player1 == player || m.player2 == player {
                result.push(m.id);
            }
            i = i + 1;
        }
        assert(self@.matches.take(i as int) =~= self@.matches);
        Ok(result)
    }

    /// A page of the ids of the matches `player` plays in.
    pub fn get_player_matches_paginated(&self, player: Address, offset: u32, limit: u32) -> (r: Result<
        Vec<u64>,
        Error,
    >)
        requires
            self.well_formed(),
        ensures
            r matches Ok(v) && v@ == page(player_match_ids(self@.matches, player), offset, limit),
    {
        let all = match self.get_player_matches(player) {
            Ok(v) => v,
            Err(e) => return Err(e),
        };
        Ok(page_ids(&all, offset, limit))
    }
}

} // verus!
