use vstd::prelude::*;

use crate::escrow::types::Platform;
use super::dead_letter::{after_push, dead_record, has_dead, without_dead, DeadLetterView};
use super::replay::{first_dead_index, is_first_dead, replay_step};
use super::queue::{
    after_enqueue, after_failure, backoff_delay_secs, has_entry, new_entry, replaced_first, unique_matches,
    without_match, PendingEntryView, MAX_RETRY_DELAY_SECS,
};

verus! {

/// Enqueueing a match twice leaves the queue as enqueueing it once: the
/// second call finds the first call's entry.
pub proof fn law_enqueue_idempotent(
    s: Seq<PendingEntryView>,
    match_id: u64,
    game_id: Seq<char>,
    platform: Platform,
    now: i64,
    game_id2: Seq<char>,
    platform2: Platform,
    now2: i64,
)
    ensures
        after_enqueue(after_enqueue(s, match_id, game_id, platform, now), match_id, game_id2, platform2, now2)
            == after_enqueue(s, match_id, game_id, platform, now),
{
    let s1 = after_enqueue(s, match_id, game_id, platform, now);
    if !has_entry(s, match_id) {
        assert(s1[s.len() as int].match_id == match_id);
    }
    assert(has_entry(s1, match_id));
}

/// Enqueueing keeps at most one entry per match, and afterwards the match
/// is queued.
pub proof fn law_enqueue_keeps_matches_unique(
    s: Seq<PendingEntryView>,
    match_id: u64,
    game_id: Seq<char>,
    platform: Platform,
    now: i64,
)
    requires
        unique_matches(s),
    ensures
        unique_matches(after_enqueue(s, match_id, game_id, platform, now)),
        has_entry(after_enqueue(s, match_id, game_id, platform, now), match_id),
{
    let s1 = after_enqueue(s, match_id, game_id, platform, now);
    if !has_entry(s, match_id) {
        assert(s1[s.len() as int].match_id == match_id);
        assert forall|i: int, j: int|
            0 <= i < s1.len() && 0 <= j < s1.len() && i != j implies (#[trigger] s1[i]).match_id
            != (#[trigger] s1[j]).match_id by {
            if i < s.len() && j < s.len() {
                assert(s1[i] == s[i] && s1[j] == s[j]);
            } else if i < s.len() {
                assert(s1[i] == s[i]);
            } else if j < s.len() {
                assert(s1[j] == s[j]);
            }
        }
    }
}

/// An entry survives removal exactly when it is not for the removed match.
proof fn lemma_without_match_contents(s: Seq<PendingEntryView>, match_id: u64)
    ensures
        forall|x: PendingEntryView|
            #[trigger] without_match(s, match_id).contains(x) <==> (s.contains(x) && x.match_id
                != match_id),
        without_match(s, match_id).len() <= s.len(),
    decreases s.len(),
{
    if s.len() > 0 {
        let rest = without_match(s.drop_last(), match_id);
        lemma_without_match_contents(s.drop_last(), match_id);
        assert forall|x: PendingEntryView|
            #[trigger] without_match(s, match_id).contains(x) <==> (s.contains(x) && x.match_id
                != match_id) by {
            if s.contains(x) {
                let k = choose|k: int| 0 <= k < s.len() && s[k] == x;
                if k < s.len() - 1 {
                    assert(s.drop_last()[k] == x);
                }
            }
            if s.drop_last().contains(x) {
                let k = choose|k: int| 0 <= k < s.drop_last().len() && s.drop_last()[k] == x;
                assert(s[k] == x);
            }
            if s.last().match_id != match_id {
                assert(rest.push(s.last())[rest.len() as int] == s.last());
                if rest.push(s.last()).contains(x) {
                    let k = choose|k: int| 0 <= k < rest.len() + 1 && rest.push(s.last())[k] == x;
                    if k < rest.len() {
                        assert(rest[k] == x);
                    }
                }
                if rest.contains(x) {
                    let k = choose|k: int| 0 <= k < rest.len() && rest[k] == x;
                    assert(rest.push(s.last())[k] == x);
                }
            }
        }
    }
}

/// Removal keeps at most one entry per match.
proof fn lemma_without_match_unique(s: Seq<PendingEntryView>, match_id: u64)
    requires
        unique_matches(s),
    ensures
        unique_matches(without_match(s, match_id)),
    decreases s.len(),
{
    if s.len() > 0 {
        let d = s.drop_last();
        assert(unique_matches(d)) by {
            assert forall|i: int, j: int|
                0 <= i < d.len() && 0 <= j < d.len() && i != j implies (#[trigger] d[i]).match_id
                != (#[trigger] d[j]).match_id by {
                assert(d[i] == s[i] && d[j] == s[j]);
            }
        }
        lemma_without_match_unique(d, match_id);
        lemma_without_match_contents(d, match_id);
        let rest = without_match(d, match_id);
        if s.last().match_id != match_id {
            let r = rest.push(s.last());
            assert forall|i: int, j: int|
                0 <= i < r.len() && 0 <= j < r.len() && i != j implies (#[trigger] r[i]).match_id
                != (#[trigger] r[j]).match_id by {
                if i < rest.len() && j < rest.len() {
                    assert(r[i] == rest[i] && r[j] == rest[j]);
                } else if i < rest.len() {
                    assert(r[i] == rest[i]);
                    assert(rest.contains(rest[i]));
                    let k = choose|k: int| 0 <= k < d.len() && d[k] == rest[i];
                    assert(s[k] == d[k]);
                    assert(s[s.len() - 1] == s.last());
                } else if j < rest.len() {
                    assert(r[j] == rest[j]);
                    assert(rest.contains(rest[j]));
                    let k = choose|k: int| 0 <= k < d.len() && d[k] == rest[j];
                    assert(s[k] == d[k]);
                    assert(s[s.len() - 1] == s.last());
                }
            }
        }
    }
}

/// Removing a match leaves no entry for it, keeps every entry for the other
/// matches, and keeps at most one entry per match.
pub proof fn law_remove_clears_match(s: Seq<PendingEntryView>, match_id: u64)
    ensures
        !has_entry(without_match(s, match_id), match_id),
        forall|x: PendingEntryView|
            x.match_id != match_id ==> (#[trigger] without_match(s, match_id).contains(x)
                <==> s.contains(x)),
        unique_matches(s) ==> unique_matches(without_match(s, match_id)),
{
    lemma_without_match_contents(s, match_id);
    let r = without_match(s, match_id);
    if has_entry(r, match_id) {
        let i = choose|i: int| 0 <= i < r.len() && (#[trigger] r[i]).match_id == match_id;
        assert(r.contains(r[i]));
    }
    if unique_matches(s) {
        lemma_without_match_unique(s, match_id);
    }
}

/// Updating an entry keeps the queue's length and the set of queued matches,
/// and keeps at most one entry per match.
pub proof fn law_update_keeps_matches(s: Seq<PendingEntryView>, e: PendingEntryView, s2: Seq<PendingEntryView>)
    requires
        replaced_first(s, e, s2),
    ensures
        s2.len() == s.len(),
        forall|m: u64| #[trigger] has_entry(s2, m) == has_entry(s, m),
        unique_matches(s) ==> unique_matches(s2),
{
    let k = choose|k: int|
        0 <= k < s.len() && (#[trigger] s[k]).match_id == e.match_id && (forall|j: int|
            0 <= j < k ==> s[j].match_id != e.match_id) && s2 == s.update(k, e);
    assert forall|i: int| 0 <= i < s.len() implies (#[trigger] s2[i]).match_id == s[i].match_id by {
        if i == k {
            assert(s2[i] == e);
        }
    }
    assert forall|m: u64| #[trigger] has_entry(s2, m) == has_entry(s, m) by {
        if has_entry(s2, m) {
            let i = choose|i: int| 0 <= i < s2.len() && (#[trigger] s2[i]).match_id == m;
            assert(s[i].match_id == m);
        }
        if has_entry(s, m) {
            let i = choose|i: int| 0 <= i < s.len() && (#[trigger] s[i]).match_id == m;
            assert(s2[i].match_id == m);
        }
    }
}

/// Pushing a second record for a match leaves the dead-letter store as it
/// was after the first push: pushing is idempotent.
pub proof fn law_dead_letter_push_idempotent(
    s: Seq<DeadLetterView>,
    e: PendingEntryView,
    now: i64,
    e2: PendingEntryView,
    now2: i64,
)
    requires
        e2.match_id == e.match_id,
    ensures
        after_push(after_push(s, e, now), e2, now2) == after_push(s, e, now),
        has_dead(after_push(s, e, now), e.match_id),
{
    let s1 = after_push(s, e, now);
    if !has_dead(s, e.match_id) {
        assert(s1[s.len() as int] == dead_record(e, now));
    }
    assert(has_dead(s1, e.match_id));
}

/// A record survives removal exactly when it is not for the removed match.
pub proof fn law_dead_letter_remove_clears_match(s: Seq<DeadLetterView>, match_id: u64)
    ensures
        forall|x: DeadLetterView|
            #[trigger] without_dead(s, match_id).contains(x) <==> (s.contains(x) && x.entry.match_id
                != match_id),
        !has_dead(without_dead(s, match_id), match_id),
    decreases s.len(),
{
    if s.len() > 0 {
        let rest = without_dead(s.drop_last(), match_id);
        law_dead_letter_remove_clears_match(s.drop_last(), match_id);
        assert forall|x: DeadLetterView|
            #[trigger] without_dead(s, match_id).contains(x) <==> (s.contains(x)
                && x.entry.match_id != match_id) by {
            if s.contains(x) {
                let k = choose|k: int| 0 <= k < s.len() && s[k] == x;
                if k < s.len() - 1 {
                    assert(s.drop_last()[k] == x);
                }
            }
            if s.drop_last().contains(x) {
                let k = choose|k: int| 0 <= k < s.drop_last().len() && s.drop_last()[k] == x;
                assert(s[k] == x);
            }
            if s.last().entry.match_id != match_id {
                assert(rest.push(s.last())[rest.len() as int] == s.last());
                if rest.push(s.last()).contains(x) {
                    let k = choose|k: int| 0 <= k < rest.len() + 1 && rest.push(s.last())[k] == x;
                    if k < rest.len() {
                        assert(rest[k] == x);
                    }
                }
                if rest.contains(x) {
                    let k = choose|k: int| 0 <= k < rest.len() && rest[k] == x;
                    assert(rest.push(s.last())[k] == x);
                }
            }
        }
    }
    let r = without_dead(s, match_id);
    if has_dead(r, match_id) {
        let i = choose|i: int| 0 <= i < r.len() && (#[trigger] r[i]).entry.match_id == match_id;
        assert(r.contains(r[i]));
    }
}

/// A store holding a record for `match_id` has a first such record.
proof fn lemma_first_dead_exists(s: Seq<DeadLetterView>, match_id: u64)
    requires
        has_dead(s, match_id),
    ensures
        is_first_dead(s, match_id, first_dead_index(s, match_id)),
    decreases s.len(),
{
    let d = s.drop_last();
    if has_dead(d, match_id) {
        lemma_first_dead_exists(d, match_id);
        let k = first_dead_index(d, match_id);
        assert(is_first_dead(d, match_id, k));
        assert forall|j: int| 0 <= j < k implies s[j].entry.match_id != match_id by {
            assert(d[j] == s[j]);
        }
        assert(s[k] == d[k]);
        assert(is_first_dead(s, match_id, k));
    } else {
        let k = s.len() - 1;
        let i = choose|i: int| 0 <= i < s.len() && (#[trigger] s[i]).entry.match_id == match_id;
        if i < k {
            assert(d[i] == s[i]);
            assert(has_dead(d, match_id));
        }
        assert forall|j: int| 0 <= j < k implies s[j].entry.match_id != match_id by {
            assert(d[j] == s[j]);
            if s[j].entry.match_id == match_id {
                assert(has_dead(d, match_id));
            }
        }
        assert(is_first_dead(s, match_id, k));
    }
}

/// Replaying a match that was just dead-lettered and taken off the queue
/// undoes that: the match is back in the queue as a fresh entry (no
/// attempts yet) and has no record left in the dead-letter store.
pub proof fn law_replay_restores_dead_lettered_match(
    queue: Seq<PendingEntryView>,
    dead: Seq<DeadLetterView>,
    e: PendingEntryView,
    dead_lettered_at: i64,
    now: i64,
)
    ensures
        ({
            let q1 = without_match(queue, e.match_id);
            let d1 = after_push(dead, e, dead_lettered_at);
            let rec = d1[first_dead_index(d1, e.match_id)];
            let after = replay_step((q1, d1), rec, now);
            &&& has_entry(after.0, e.match_id)
            &&& after.0 == q1.push(new_entry(e.match_id, rec.entry.game_id, rec.entry.platform, now))
            &&& !has_dead(after.1, e.match_id)
        }),
{
    let m = e.match_id;
    let q1 = without_match(queue, m);
    let d1 = after_push(dead, e, dead_lettered_at);
    law_remove_clears_match(queue, m);
    law_dead_letter_push_idempotent(dead, e, dead_lettered_at, e, dead_lettered_at);
    lemma_first_dead_exists(d1, m);
    let rec = d1[first_dead_index(d1, m)];
    law_dead_letter_remove_clears_match(d1, m);
    let q2 = q1.push(new_entry(m, rec.entry.game_id, rec.entry.platform, now));
    assert(q2[q1.len() as int].match_id == m);
}

/// `e` after failed attempts with the messages `errors` at the times
/// `times`, in order.
pub open spec fn after_failures(
    e: PendingEntryView,
    errors: Seq<Seq<char>>,
    times: Seq<i64>,
    base_delay_secs: u64,
    max_retries: u32,
) -> PendingEntryView
    decreases errors.len(),
{
    if errors.len() == 0 {
        e
    } else {
        after_failure(
            after_failures(e, errors.drop_last(), times.drop_last(), base_delay_secs, max_retries),
            errors.last(),
            base_delay_secs,
            max_retries,
            times[errors.len() - 1],
        )
    }
}

/// Each failed attempt counts once: after `k` failures a fresh entry has
/// `k` attempts, so the poller retries it after failures `1 .. max_retries
/// - 1` and dead-letters it at failure `max_retries` (a failure exhausts the
/// entry exactly when its attempts reach `max_retries`).
pub proof fn law_dead_letter_after_max_retries(
    e: PendingEntryView,
    errors: Seq<Seq<char>>,
    times: Seq<i64>,
    base_delay_secs: u64,
    max_retries: u32,
)
    requires
        e.attempts == 0,
        times.len() == errors.len(),
        errors.len() < u32::MAX,
    ensures
        after_failures(e, errors, times, base_delay_secs, max_retries).attempts == errors.len(),
        forall|k: int|
            0 <= k < errors.len() ==> (#[trigger] after_failures(
                e,
                errors.take(k + 1),
                times.take(k + 1),
                base_delay_secs,
                max_retries,
            ).attempts >= max_retries <==> k + 1 >= max_retries),
    decreases errors.len(),
{
    if errors.len() > 0 {
        law_dead_letter_after_max_retries(e, errors.drop_last(), times.drop_last(), base_delay_secs, max_retries);
        assert forall|k: int| 0 <= k < errors.len() implies (#[trigger] after_failures(
            e,
            errors.take(k + 1),
            times.take(k + 1),
            base_delay_secs,
            max_retries,
        ).attempts >= max_retries <==> k + 1 >= max_retries) by {
            if k + 1 < errors.len() {
                assert(errors.drop_last().take(k + 1) =~= errors.take(k + 1));
                assert(times.drop_last().take(k + 1) =~= times.take(k + 1));
            } else {
                assert(errors.take(k + 1) =~= errors);
                assert(times.take(k + 1) =~= times);
            }
        }
    }
}

/// The retry delay after a failed attempt is never negative and never more
/// than one hour.
pub proof fn law_backoff_capped(attempts: u32, base_delay_secs: u64)
    requires
        attempts >= 1,
    ensures
        0 <= backoff_delay_secs(attempts, base_delay_secs) <= MAX_RETRY_DELAY_SECS,
{
    let exp = attempts - 1;
    if exp < 64 {
        vstd::arithmetic::power2::lemma_pow2_pos(exp as nat);
        vstd::arithmetic::mul::lemma_mul_nonnegative(
            base_delay_secs as int,
            vstd::arithmetic::power2::pow2(exp as nat) as int,
        );
    } else {
        vstd::arithmetic::mul::lemma_mul_nonnegative(base_delay_secs as int, u64::MAX as int);
    }
}

/// Each further failure waits at least as long as the one before.
pub proof fn law_backoff_nondecreasing(a1: u32, a2: u32, base_delay_secs: u64)
    requires
        1 <= a1 <= a2,
    ensures
        backoff_delay_secs(a1, base_delay_secs) <= backoff_delay_secs(a2, base_delay_secs),
{
    let e1 = (a1 - 1) as nat;
    let e2 = (a2 - 1) as nat;
    let m1: int = if e1 < 64 { vstd::arithmetic::power2::pow2(e1) as int } else { u64::MAX as int };
    let m2: int = if e2 < 64 { vstd::arithmetic::power2::pow2(e2) as int } else { u64::MAX as int };
    assert(m1 <= m2) by {
        if e2 < 64 {
            if e1 < e2 {
                vstd::arithmetic::power2::lemma_pow2_strictly_increases(e1, e2);
            }
        } else if e1 < 64 {
            vstd::arithmetic::power2::lemma2_to64_rest();
            if e1 < 63 {
                vstd::arithmetic::power2::lemma_pow2_strictly_increases(e1, 63);
            }
        }
    }
    assert(0 <= m1) by {
        if e1 < 64 {
            vstd::arithmetic::power2::lemma_pow2_pos(e1);
        }
    }
    vstd::arithmetic::mul::lemma_mul_inequality(m1, m2, base_delay_secs as int);
    vstd::arithmetic::mul::lemma_mul_is_commutative(m1, base_delay_secs as int);
    vstd::arithmetic::mul::lemma_mul_is_commutative(m2, base_delay_secs as int);
}

} // verus!
