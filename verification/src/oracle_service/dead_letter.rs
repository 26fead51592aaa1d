use vstd::prelude::*;

use super::paths::{join_path, path_join};
use super::queue::{PendingEntry, PendingEntryView};

verus! {

/// A record in the dead-letter store. Times are milliseconds since the
/// Unix epoch.
#[derive(Debug)]
pub struct DeadLetterEntry {
    /// The pending entry that exhausted its retries.
    pub entry: PendingEntry,
    /// When the entry was moved to the dead-letter store.
    pub dead_lettered_at: i64,
    /// Total number of attempts made before giving up.
    pub total_attempts: u32,
}

/// Mathematical value of a [`DeadLetterEntry`].
#[verifier::ext_equal]
pub struct DeadLetterView {
    pub entry: PendingEntryView,
    pub dead_lettered_at: i64,
    pub total_attempts: u32,
}

impl View for DeadLetterEntry {
    type V = DeadLetterView;

    open spec fn view(&self) -> DeadLetterView {
        DeadLetterView {
            entry: self.entry@,
            dead_lettered_at: self.dead_lettered_at,
            total_attempts: self.total_attempts,
        }
    }
}

pub open spec fn dead_view(v: Seq<DeadLetterEntry>) -> Seq<DeadLetterView> {
    v.map_values(|e: DeadLetterEntry| e@)
}

/// Whether some dead-letter record is for match `match_id`.
pub open spec fn has_dead(s: Seq<DeadLetterView>, match_id: u64) -> bool {
    exists|i: int| 0 <= i < s.len() && (#[trigger] s[i]).entry.match_id == match_id
}

/// The records that are not for match `match_id`, in order.
pub open spec fn without_dead(s: Seq<DeadLetterView>, match_id: u64) -> Seq<DeadLetterView>
    decreases s.len(),
{
    if s.len() == 0 {
        s
    } else {
        let rest = without_dead(s.drop_last(), match_id);
        if s.last().entry.match_id == match_id {
            rest
        } else {
            rest.push(s.last())
        }
    }
}

/// The dead-letter record made of `e` at time `now`.
pub open spec fn dead_record(e: PendingEntryView, now: i64) -> DeadLetterView {
    DeadLetterView { entry: e, dead_lettered_at: now, total_attempts: e.attempts }
}

/// `s` after pushing `e` at time `now`: unchanged when a record for its
/// match is there, otherwise with a new record at the end.
pub open spec fn after_push(s: Seq<DeadLetterView>, e: PendingEntryView, now: i64) -> Seq<DeadLetterView> {
    if has_dead(s, e.match_id) {
        s
    } else {
        s.push(dead_record(e, now))
    }
}

impl DeadLetterEntry {
    /// A copy of this record.
    pub fn copy(&self) -> (r: DeadLetterEntry)
        ensures
            r@ == self@,
    {
        DeadLetterEntry {
            entry: self.entry.copy(),
            dead_lettered_at: self.dead_lettered_at,
            total_attempts: self.total_attempts,
        }
    }
}

/// The dead-letter store: a file `dead_letter.json` in the queue directory.
pub struct DeadLetterStore {
    pub file_path: String,
}

impl DeadLetterStore {
    /// The store kept in directory `dir`.
    pub fn new(dir: &str) -> (s: DeadLetterStore)
        ensures
            s.file_path@ == path_join(dir@, "dead_letter.json"@),
    {
        DeadLetterStore { file_path: join_path(dir, "dead_letter.json") }
    }

    /// Move an exhausted entry into the store at time `now`, unless a record
    /// for its match is already there (pushing is idempotent); returns
    /// whether it was added.
    pub fn push(records: &mut Vec<DeadLetterEntry>, entry: PendingEntry, now: i64) -> (added: bool)
        ensures
            added == !has_dead(dead_view(old(records)@), entry.match_id),
            dead_view(final(records)@) == after_push(dead_view(old(records)@), entry@, now),
    {
        let mut i: usize = 0;
        while i < records.len()
            invariant
                i <= records.len(),
                records@ == old(records)@,
                forall|j: int| 0 <= j < i ==> records@[j].entry.match_id != entry.match_id,
            decreases records.len() - i,
        {
            if records[i].entry.match_id == entry.match_id {
                assert(dead_view(records@)[i as int].entry.match_id == entry.match_id);
                return false;
            }
            i = i + 1;
        }
        assert(!has_dead(dead_view(records@), entry.match_id));
        let total_attempts = entry.attempts;
        let dl = DeadLetterEntry { entry, dead_lettered_at: now, total_attempts };
        let ghost before = records@;
        records.push(dl);
        assert(dead_view(records@) =~= dead_view(before).push(dl@));
        true
    }

    /// Remove every record for `match_id` (after a successful replay),
    /// keeping the others in order.
    pub fn remove(records: &mut Vec<DeadLetterEntry>, match_id: u64)
        ensures
            dead_view(final(records)@) == without_dead(dead_view(old(records)@), match_id),
    {
        let mut kept: Vec<DeadLetterEntry> = Vec::new();
        let ghost orig = dead_view(records@);
        let mut i: usize = 0;
        while i < records.len()
            invariant
                i <= records.len(),
                orig == dead_view(records@),
                dead_view(kept@) == without_dead(orig.take(i as int), match_id),
            decreases records.len() - i,
        {
            assert(orig.take(i + 1).drop_last() =~= orig.take(i as int));
            if records[i].entry.match_id != match_id {
                let ghost before = kept@;
                let c = records[i].copy();
                kept.push(c);
                assert(dead_view(kept@) =~= dead_view(before).push(c@));
            }
            i = i + 1;
        }
        assert(orig.take(i as int) =~= orig);
        *records = kept;
    }
}

} // verus!
