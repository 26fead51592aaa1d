use vstd::prelude::*;

use crate::escrow::types::Platform;
use super::paths::{join_path, path_join};

verus! {

/// Longest retry delay, in seconds (one hour).
pub const MAX_RETRY_DELAY_SECS: u64 = 3600;

/// A single entry in the pending-verification queue. Times are
/// milliseconds since the Unix epoch.
#[derive(Debug)]
pub struct PendingEntry {
    /// On-chain match identifier.
    pub match_id: u64,
    /// Platform-specific game identifier.
    pub game_id: String,
    /// Which chess platform the game is on.
    pub platform: Platform,
    /// How many verification attempts have been made (0 = not yet tried).
    pub attempts: u32,
    /// Earliest time at which the next attempt is allowed.
    pub next_attempt_at: i64,
    /// When the entry was first added to the queue.
    pub enqueued_at: i64,
    /// Reason for the last failure.
    pub last_error: Option<String>,
}

/// Mathematical value of a [`PendingEntry`].
#[verifier::ext_equal]
pub struct PendingEntryView {
    pub match_id: u64,
    pub game_id: Seq<char>,
    pub platform: Platform,
    pub attempts: u32,
    pub next_attempt_at: i64,
    pub enqueued_at: i64,
    pub last_error: Option<Seq<char>>,
}

pub open spec fn opt_string_view(o: Option<String>) -> Option<Seq<char>> {
    match o {
        Some(s) => Some(s@),
        None => None,
    }
}

impl View for PendingEntry {
    type V = PendingEntryView;

    open spec fn view(&self) -> PendingEntryView {
        PendingEntryView {
            match_id: self.match_id,
            game_id: self.game_id@,
            platform: self.platform,
            attempts: self.attempts,
            next_attempt_at: self.next_attempt_at,
            enqueued_at: self.enqueued_at,
            last_error: opt_string_view(self.last_error),
        }
    }
}

pub open spec fn entries_view(v: Seq<PendingEntry>) -> Seq<PendingEntryView> {
    v.map_values(|e: PendingEntry| e@)
}

/// Retry delay in seconds after the `attempts`-th failure:
/// `base * 2^(attempts - 1)`, saturating, capped at one hour.
pub open spec fn backoff_delay_secs(attempts: u32, base_delay_secs: u64) -> int {
    let exp = attempts - 1;
    let multiplier: int = if exp < 64 { vstd::arithmetic::power2::pow2(exp as nat) as int } else { u64::MAX as int };
    let product: int = if base_delay_secs * multiplier > u64::MAX { u64::MAX as int } else { base_delay_secs * multiplier };
    if product > MAX_RETRY_DELAY_SECS { MAX_RETRY_DELAY_SECS as int } else { product }
}

pub open spec fn new_entry(match_id: u64, game_id: Seq<char>, platform: Platform, now: i64) -> PendingEntryView {
    PendingEntryView {
        match_id,
        game_id,
        platform,
        attempts: 0,
        next_attempt_at: now,
        enqueued_at: now,
        last_error: None,
    }
}

/// `e` after a failed attempt at time `now`.
pub open spec fn after_failure(
    e: PendingEntryView,
    error: Seq<char>,
    base_delay_secs: u64,
    max_retries: u32,
    now: i64,
) -> PendingEntryView {
    let attempts = (e.attempts + 1) as u32;
    if attempts >= max_retries {
        PendingEntryView { attempts, last_error: Some(error), ..e }
    } else {
        PendingEntryView {
            attempts,
            last_error: Some(error),
            next_attempt_at: (now + backoff_delay_secs(attempts, base_delay_secs) * 1000) as i64,
            ..e
        }
    }
}

/// `a * b`, saturating at `u64::MAX`.
fn saturating_mul_u64(a: u64, b: u64) -> (r: u64)
    ensures
        r == (if a * b > u64::MAX { u64::MAX as int } else { a * b }),
{
    match a.checked_mul(b) {
        Some(p) => p,
        None => u64::MAX,
    }
}

/// `2^exp`, or `u64::MAX` when `exp` is 64 or more.
fn shift_multiplier(exp: u32) -> (r: u64)
    ensures
        r == (if exp < 64 { vstd::arithmetic::power2::pow2(exp as nat) as int } else { u64::MAX as int }),
{
    if exp < 64 {
        proof {
            vstd::bits::lemma_u64_pow2_no_overflow(exp as nat);
            vstd::bits::lemma_u64_shl_is_mul(1u64, exp as u64);
        }
        1u64 << (exp as u64)
    } else {
        u64::MAX
    }
}

impl PendingEntry {
    /// A new entry, eligible for its first attempt at once.
    pub fn new(match_id: u64, game_id: String, platform: Platform, now: i64) -> (e: PendingEntry)
        ensures
            e@ == new_entry(match_id, game_id@, platform, now),
    {
        PendingEntry {
            match_id,
            game_id,
            platform,
            attempts: 0,
            next_attempt_at: now,
            enqueued_at: now,
            last_error: None,
        }
    }

    /// A copy of this entry.
    pub fn copy(&self) -> (r: PendingEntry)
        ensures
            r@ == self@,
    {
        PendingEntry {
            match_id: self.match_id,
            game_id: self.game_id.clone(),
            platform: self.platform,
            attempts: self.attempts,
            next_attempt_at: self.next_attempt_at,
            enqueued_at: self.enqueued_at,
            last_error: match &self.last_error {
                Some(s) => Some(s.clone()),
                None => None,
            },
        }
    }

    /// Record a failed attempt at time `now` and advance the retry schedule.
    /// Returns `true` when the entry has exhausted its retries and belongs
    /// in the dead-letter store.
    pub fn record_failure(&mut self, error: String, base_delay_secs: u64, max_retries: u32, now: i64) -> (exhausted: bool)
        requires
            old(self).attempts < u32::MAX,
            now <= i64::MAX - MAX_RETRY_DELAY_SECS * 1000,
        ensures
            final(self)@ == after_failure(old(self)@, error@, base_delay_secs, max_retries, now),
            exhausted == (old(self).attempts + 1 >= max_retries),
    {
        self.attempts = self.attempts + 1;
        self.last_error = Some(error);
        if self.attempts >= max_retries {
            return true;
        }
        let exp = self.attempts - 1;
        let multiplier = shift_multiplier(exp);
        let product = saturating_mul_u64(base_delay_secs, multiplier);
        let delay_secs = if product < MAX_RETRY_DELAY_SECS { product } else { MAX_RETRY_DELAY_SECS };
        self.next_attempt_at = now + (delay_secs as i64) * 1000;
        false
    }

    /// Whether the entry is eligible for a new attempt at time `now`.
    pub fn is_due(&self, now: i64) -> (r: bool)
        ensures
            r == (now >= self.next_attempt_at),
    {
        now >= self.next_attempt_at
    }
}

/// Whether some entry is for match `match_id`.
pub open spec fn has_entry(s: Seq<PendingEntryView>, match_id: u64) -> bool {
    exists|i: int| 0 <= i < s.len() && (#[trigger] s[i]).match_id == match_id
}

/// No two entries are for the same match.
pub open spec fn unique_matches(s: Seq<PendingEntryView>) -> bool {
    forall|i: int, j: int|
        0 <= i < s.len() && 0 <= j < s.len() && i != j ==> (#[trigger] s[i]).match_id != (#[trigger] s[j]).match_id
}

/// The entries that are not for match `match_id`, in order.
pub open spec fn without_match(s: Seq<PendingEntryView>, match_id: u64) -> Seq<PendingEntryView>
    decreases s.len(),
{
    if s.len() == 0 {
        s
    } else {
        let rest = without_match(s.drop_last(), match_id);
        if s.last().match_id == match_id {
            rest
        } else {
            rest.push(s.last())
        }
    }
}

/// The entries due at time `now`, in order.
pub open spec fn due(s: Seq<PendingEntryView>, now: i64) -> Seq<PendingEntryView>
    decreases s.len(),
{
    if s.len() == 0 {
        s
    } else {
        let rest = due(s.drop_last(), now);
        if now >= s.last().next_attempt_at {
            rest.push(s.last())
        } else {
            rest
        }
    }
}

/// `s2` is `s` with its first entry for `e`'s match replaced by `e`.
pub open spec fn replaced_first(s: Seq<PendingEntryView>, e: PendingEntryView, s2: Seq<PendingEntryView>) -> bool {
    exists|k: int|
        0 <= k < s.len() && (#[trigger] s[k]).match_id == e.match_id && (forall|j: int|
            0 <= j < k ==> s[j].match_id != e.match_id) && s2 == s.update(k, e)
}

/// `s` after enqueueing match `match_id` at time `now`: unchanged when an
/// entry for the match is queued, otherwise with a new entry at the end.
pub open spec fn after_enqueue(s: Seq<PendingEntryView>, match_id: u64, game_id: Seq<char>, platform: Platform, now: i64) -> Seq<PendingEntryView> {
    if has_entry(s, match_id) {
        s
    } else {
        s.push(new_entry(match_id, game_id, platform, now))
    }
}

/// The durable pending-verification queue: a file `pending.json` in the
/// queue directory, holding the entries in order.
pub struct PendingQueue {
    pub file_path: String,
}

impl PendingQueue {
    /// The queue kept in directory `dir`.
    pub fn new(dir: &str) -> (q: PendingQueue)
        ensures
            q.file_path@ == path_join(dir@, "pending.json"@),
    {
        PendingQueue { file_path: join_path(dir, "pending.json") }
    }

    /// Add an entry for `match_id` unless one is queued; returns whether it
    /// was added.
    pub fn enqueue(
        entries: &mut Vec<PendingEntry>,
        match_id: u64,
        game_id: String,
        platform: Platform,
        now: i64,
    ) -> (added: bool)
        ensures
            added == !has_entry(entries_view(old(entries)@), match_id),
            entries_view(final(entries)@) == after_enqueue(entries_view(old(entries)@), match_id, game_id@, platform, now),
    {
        let mut i: usize = 0;
        while i < entries.len()
            invariant
                i <= entries.len(),
                forall|j: int| 0 <= j < i ==> entries@[j].match_id != match_id,
            decreases entries.len() - i,
        {
            if entries[i].match_id == match_id {
                assert(entries_view(entries@)[i as int].match_id == match_id);
                return false;
            }
            i = i + 1;
        }
        assert(!has_entry(entries_view(entries@), match_id));
        let ghost before = entries@;
        let e = PendingEntry::new(match_id, game_id, platform, now);
        entries.push(e);
        assert(entries_view(entries@) =~= entries_view(before).push(e@));
        true
    }

    /// The entries due for an attempt at time `now`, in queue order.
    pub fn due_entries(entries: &Vec<PendingEntry>, now: i64) -> (r: Vec<PendingEntry>)
        ensures
            entries_view(r@) == due(entries_view(entries@), now),
    {
        let mut r: Vec<PendingEntry> = Vec::new();
        let mut i: usize = 0;
        while i < entries.len()
            invariant
                i <= entries.len(),
                entries_view(r@) == due(entries_view(entries@).take(i as int), now),
            decreases entries.len() - i,
        {
            assert(entries_view(entries@).take(i + 1).drop_last() =~= entries_view(entries@).take(i as int));
            if entries[i].is_due(now) {
                let ghost before = r@;
                let c = entries[i].copy();
                r.push(c);
                assert(entries_view(r@) =~= entries_view(before).push(c@));
            }
            i = i + 1;
        }
        assert(entries_view(entries@).take(i as int) =~= entries_view(entries@));
        r
    }

    /// Replace the first entry for `updated`'s match with `updated`; returns
    /// whether one was found (otherwise nothing changes).
    pub fn update_entry(entries: &mut Vec<PendingEntry>, updated: PendingEntry) -> (found: bool)
        ensures
            found == has_entry(entries_view(old(entries)@), updated.match_id),
            found ==> replaced_first(entries_view(old(entries)@), updated@, entries_view(final(entries)@)),
            !found ==> entries_view(final(entries)@) == entries_view(old(entries)@),
    {
        let mut i: usize = 0;
        while i < entries.len()
            invariant
                i <= entries.len(),
                entries@ == old(entries)@,
                forall|j: int| 0 <= j < i ==> entries@[j].match_id != updated.match_id,
            decreases entries.len() - i,
        {
            if entries[i].match_id == updated.match_id {
                let ghost before = entries@;
                let ghost k = i as int;
                assert(entries_view(before)[k].match_id == updated.match_id);
                assert(has_entry(entries_view(before), updated.match_id));
                let ghost uv = updated@;
                entries.set(i, updated);
                assert(entries_view(entries@) =~= entries_view(before).update(k, uv));
                assert(forall|j: int| 0 <= j < k ==> entries_view(before)[j].match_id != uv.match_id);
                assert(replaced_first(entries_view(before), uv, entries_view(entries@)));
                return true;
            }
            i = i + 1;
        }
        assert(!has_entry(entries_view(entries@), updated.match_id));
        false
    }

    /// Remove every entry for `match_id`, keeping the others in order.
    pub fn remove(entries: &mut Vec<PendingEntry>, match_id: u64)
        ensures
            entries_view(final(entries)@) == without_match(entries_view(old(entries)@), match_id),
    {
        let mut kept: Vec<PendingEntry> = Vec::new();
        let ghost orig = entries_view(entries@);
        let mut i: usize = 0;
        while i < entries.len()
            invariant
                i <= entries.len(),
                orig == entries_view(entries@),
                entries_view(kept@) == without_match(orig.take(i as int), match_id),
            decreases entries.len() - i,
        {
            assert(orig.take(i + 1).drop_last() =~= orig.take(i as int));
            if entries[i].match_id != match_id {
                let ghost before = kept@;
                let c = entries[i].copy();
                kept.push(c);
                assert(entries_view(kept@) =~= entries_view(before).push(c@));
            }
            i = i + 1;
        }
        assert(orig.take(i as int) =~= orig);
        *entries = kept;
    }
}

} // verus!
