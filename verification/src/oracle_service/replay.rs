use vstd::prelude::*;

use super::dead_letter::{dead_view, has_dead, without_dead, DeadLetterEntry, DeadLetterStore, DeadLetterView};
use super::queue::{after_enqueue, entries_view, has_entry, PendingEntry, PendingEntryView, PendingQueue};

verus! {

/// What replaying one dead-letter record did.
#[derive(Debug, Clone, Copy, PartialEq, Eq, Structural)]
pub enum ReplayOutcome {
    /// No dead-letter record for the match.
    NotFound,
    /// The match was put back in the pending queue and its record removed.
    Requeued,
    /// The match is already in the pending queue; nothing changed.
    AlreadyQueued,
}

/// Queue and dead-letter store after replaying record `rec` at time `now`:
/// the match is enqueued with the record's game and platform, and when that
/// added an entry the match's records leave the store.
pub open spec fn replay_step(
    state: (Seq<PendingEntryView>, Seq<DeadLetterView>),
    rec: DeadLetterView,
    now: i64,
) -> (Seq<PendingEntryView>, Seq<DeadLetterView>) {
    let m = rec.entry.match_id;
    if has_entry(state.0, m) {
        state
    } else {
        (
            after_enqueue(state.0, m, rec.entry.game_id, rec.entry.platform, now),
            without_dead(state.1, m),
        )
    }
}

/// Queue and store after replaying the records `recs` in order.
pub open spec fn replay_fold(
    queue: Seq<PendingEntryView>,
    dead: Seq<DeadLetterView>,
    recs: Seq<DeadLetterView>,
    now: i64,
) -> (Seq<PendingEntryView>, Seq<DeadLetterView>)
    decreases recs.len(),
{
    if recs.len() == 0 {
        (queue, dead)
    } else {
        replay_step(replay_fold(queue, dead, recs.drop_last(), now), recs.last(), now)
    }
}

/// Whether `k` is the position of the first record for match `match_id`.
pub open spec fn is_first_dead(s: Seq<DeadLetterView>, match_id: u64, k: int) -> bool {
    &&& 0 <= k < s.len()
    &&& s[k].entry.match_id == match_id
    &&& forall|j: int| 0 <= j < k ==> s[j].entry.match_id != match_id
}

/// Index of the first record for match `match_id`.
pub open spec fn first_dead_index(s: Seq<DeadLetterView>, match_id: u64) -> int {
    choose|k: int| is_first_dead(s, match_id, k)
}

/// Put the dead-lettered match `match_id` back in the pending queue at time
/// `now` (the first record for it gives game and platform); on success its
/// records leave the store.
pub fn replay_match(
    queue: &mut Vec<PendingEntry>,
    dead: &mut Vec<DeadLetterEntry>,
    match_id: u64,
    now: i64,
) -> (r: ReplayOutcome)
    ensures
        !has_dead(dead_view(old(dead)@), match_id) ==> r == ReplayOutcome::NotFound
            && final(queue)@ == old(queue)@ && final(dead)@ == old(dead)@,
        has_dead(dead_view(old(dead)@), match_id) ==> {
            let k = first_dead_index(dead_view(old(dead)@), match_id);
            let rec = dead_view(old(dead)@)[k];
            &&& 0 <= k < old(dead)@.len()
            &&& r == (if has_entry(entries_view(old(queue)@), match_id) {
                ReplayOutcome::AlreadyQueued
            } else {
                ReplayOutcome::Requeued
            })
            &&& (entries_view(final(queue)@), dead_view(final(dead)@)) == replay_step(
                (entries_view(old(queue)@), dead_view(old(dead)@)),
                rec,
                now,
            )
        },
{
    match find_dead(dead, match_id) {
        None => ReplayOutcome::NotFound,
        Some(i) => {
            let ghost q0 = entries_view(queue@);
            let ghost d0 = dead_view(dead@);
            let ghost rec = d0[i as int];
            let game_id = dead[i].entry.game_id.clone();
            let platform = dead[i].entry.platform;
            assert(rec.entry.game_id == game_id@ && rec.entry.platform == platform);
            assert(has_dead(d0, match_id));
            let added = PendingQueue::enqueue(queue, match_id, game_id, platform, now);
            if added {
                DeadLetterStore::remove(dead, match_id);
                assert((entries_view(queue@), dead_view(dead@)) == replay_step((q0, d0), rec, now));
                ReplayOutcome::Requeued
            } else {
                assert((entries_view(queue@), dead_view(dead@)) == replay_step((q0, d0), rec, now));
                ReplayOutcome::AlreadyQueued
            }
        },
    }
}

/// Position of the first record for `match_id`, if any.
fn find_dead(dead: &Vec<DeadLetterEntry>, match_id: u64) -> (r: Option<usize>)
    ensures
        r is None <==> !has_dead(dead_view(dead@), match_id),
        r matches Some(i) ==> i == first_dead_index(dead_view(dead@), match_id) && i < dead.len()
            && dead@[i as int].entry.match_id == match_id,
{
    let mut i: usize = 0;
    while i < dead.len()
        invariant
            i <= dead.len(),
            forall|j: int| 0 <= j < i ==> dead@[j].entry.match_id != match_id,
        decreases dead.len() - i,
    {
        if dead[i].entry.match_id == match_id {
            let ghost dv = dead_view(dead@);
            let ghost k = i as int;
            assert(dv[k].entry.match_id == match_id);
            assert(has_dead(dv, match_id));
            assert(forall|j: int| 0 <= j < k ==> dv[j].entry.match_id != match_id);
            proof {
                assert(is_first_dead(dv, match_id, k));
                let k2 = first_dead_index(dv, match_id);
                if k2 < k {
                    assert(dv[k2].entry.match_id != match_id);
                }
                if k < k2 {
                    assert(dv[k].entry.match_id != match_id);
                }
            }
            return Some(i);
        }
        i = i + 1;
    }
    assert(!has_dead(dead_view(dead@), match_id));
    None
}

/// Replay every record of the store as it is on entry, in order, at time
/// `now`; returns, for each record, whether its match was put back in the
/// queue (otherwise it was already queued).
pub fn replay_all(queue: &mut Vec<PendingEntry>, dead: &mut Vec<DeadLetterEntry>, now: i64) -> (r: Vec<bool>)
    ensures
        r.len() == old(dead)@.len(),
        (entries_view(final(queue)@), dead_view(final(dead)@)) == replay_fold(
            entries_view(old(queue)@),
            dead_view(old(dead)@),
            dead_view(old(dead)@),
            now,
        ),
        forall|i: int|
            0 <= i < r.len() ==> #[trigger] r@[i] == !has_entry(
                replay_fold(
                    entries_view(old(queue)@),
                    dead_view(old(dead)@),
                    dead_view(old(dead)@).take(i),
                    now,
                ).0,
                dead_view(old(dead)@)[i].entry.match_id,
            ),
{
    let mut recs: Vec<DeadLetterEntry> = Vec::new();
    let mut c: usize = 0;
    while c < dead.len()
        invariant
            c <= dead.len(),
            dead_view(recs@) == dead_view(dead@).take(c as int),
        decreases dead.len() - c,
    {
        let ghost before = recs@;
        let x = dead[c].copy();
        recs.push(x);
        assert(dead_view(recs@) =~= dead_view(before).push(x@));
        assert(dead_view(dead@).take(c + 1) =~= dead_view(dead@).take(c as int).push(x@));
        c = c + 1;
    }
    assert(dead_view(dead@).take(c as int) =~= dead_view(dead@));
    let ghost q0 = entries_view(queue@);
    let ghost d0 = dead_view(dead@);
    let ghost rv = dead_view(recs@);
    let mut r: Vec<bool> = Vec::new();
    let mut i: usize = 0;
    while i < recs.len()
        invariant
            i <= recs.len(),
            rv == dead_view(recs@),
            rv == d0,
            r.len() == i,
            (entries_view(queue@), dead_view(dead@)) == replay_fold(q0, d0, rv.take(i as int), now),
            forall|j: int|
                0 <= j < i ==> #[trigger] r@[j] == !has_entry(
                    replay_fold(q0, d0, rv.take(j), now).0,
                    rv[j].entry.match_id,
                ),
        decreases recs.len() - i,
    {
        let ghost before = (entries_view(queue@), dead_view(dead@));
        assert(rv.take(i + 1).drop_last() =~= rv.take(i as int));
        assert(rv.take(i + 1).last() == rv[i as int]);
        let m = recs[i].entry.match_id;
        let game_id = recs[i].entry.game_id.clone();
        let platform = recs[i].entry.platform;
        let added = PendingQueue::enqueue(queue, m, game_id, platform, now);
        if added {
            DeadLetterStore::remove(dead, m);
        }
        assert((entries_view(queue@), dead_view(dead@)) == replay_step(before, rv[i as int], now));
        r.push(added);
        i = i + 1;
    }
    assert(rv.take(i as int) =~= rv);
    r
}

} // verus!
