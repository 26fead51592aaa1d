use checkmate_escrow::escrow::types::Platform;
use checkmate_escrow::oracle_service::dead_letter::{DeadLetterEntry, DeadLetterStore};
use checkmate_escrow::oracle_service::queue::{PendingEntry, PendingQueue};
use checkmate_escrow::oracle_service::replay::{replay_all, replay_match, ReplayOutcome};

const NOW: i64 = 1_700_000_000_000;

fn make_entry(match_id: u64) -> PendingEntry {
    let mut e = PendingEntry::new(match_id, "abcd1234".into(), Platform::Lichess, NOW);
    e.attempts = 5;
    e.last_error = Some("test error".into());
    e
}

#[test]
fn queue_and_store_paths() {
    let q = PendingQueue::new("/tmp/oracle-queue");
    assert_eq!(q.file_path, "/tmp/oracle-queue/pending.json");
    let s = DeadLetterStore::new("./oracle-queue/");
    assert_eq!(s.file_path, "./oracle-queue/dead_letter.json");
    assert_eq!(PendingQueue::new("").file_path, "pending.json");
}

#[test]
fn enqueue_and_load() {
    let mut entries: Vec<PendingEntry> = Vec::new();
    let added = PendingQueue::enqueue(&mut entries, 1, "abcd1234".into(), Platform::Lichess, NOW);
    assert!(added);
    assert_eq!(entries.len(), 1);
    assert_eq!(entries[0].match_id, 1);
    assert_eq!(entries[0].game_id, "abcd1234");
    assert_eq!(entries[0].attempts, 0);
    assert_eq!(entries[0].next_attempt_at, NOW);
    assert_eq!(entries[0].enqueued_at, NOW);
    assert_eq!(entries[0].last_error, None);
}

#[test]
fn dedup_enqueue() {
    let mut entries: Vec<PendingEntry> = Vec::new();
    PendingQueue::enqueue(&mut entries, 1, "abcd1234".into(), Platform::Lichess, NOW);
    let added = PendingQueue::enqueue(&mut entries, 1, "abcd1234".into(), Platform::Lichess, NOW + 5);
    assert!(!added, "should not add duplicate");
    assert_eq!(entries.len(), 1);
    assert_eq!(entries[0].enqueued_at, NOW);
}

#[test]
fn record_failure_advances_retry() {
    let mut entry = PendingEntry::new(1, "abcd1234".into(), Platform::Lichess, NOW);
    let exhausted = entry.record_failure("transient".into(), 10, 5, NOW);
    assert!(!exhausted);
    assert_eq!(entry.attempts, 1);
    assert!(entry.next_attempt_at > NOW);
    assert_eq!(entry.next_attempt_at, NOW + 10_000);
    assert_eq!(entry.last_error.as_deref(), Some("transient"));
}

#[test]
fn record_failure_exhausted() {
    let mut entry = PendingEntry::new(1, "abcd1234".into(), Platform::Lichess, NOW);
    entry.attempts = 4;
    let exhausted = entry.record_failure("final error".into(), 10, 5, NOW);
    assert!(exhausted, "should be exhausted at max_retries=5");
    assert_eq!(entry.attempts, 5);
    assert_eq!(entry.next_attempt_at, NOW);
}

#[test]
fn retry_schedule_doubles_from_base() {
    let mut entry = PendingEntry::new(1, "g".into(), Platform::Lichess, NOW);
    let mut delays = Vec::new();
    for _ in 0..5 {
        entry.record_failure("x".into(), 10, 100, NOW);
        delays.push((entry.next_attempt_at - NOW) / 1000);
    }
    assert_eq!(delays, vec![10, 20, 40, 80, 160]);
}

#[test]
fn retry_delay_capped_at_one_hour() {
    let mut entry = PendingEntry::new(1, "g".into(), Platform::Lichess, NOW);
    entry.attempts = 200;
    entry.record_failure("x".into(), 10, 1000, NOW);
    assert_eq!(entry.next_attempt_at, NOW + 3_600_000);
    let mut big = PendingEntry::new(2, "g".into(), Platform::Lichess, NOW);
    big.record_failure("x".into(), u64::MAX, 1000, NOW);
    assert_eq!(big.next_attempt_at, NOW + 3_600_000);
}

#[test]
fn due_entries_follow_schedule() {
    let mut entries: Vec<PendingEntry> = Vec::new();
    PendingQueue::enqueue(&mut entries, 1, "a".into(), Platform::Lichess, NOW);
    PendingQueue::enqueue(&mut entries, 2, "b".into(), Platform::ChessDotCom, NOW);
    let mut second = entries[1].copy();
    second.record_failure("later".into(), 10, 5, NOW);
    assert!(PendingQueue::update_entry(&mut entries, second));
    let due: Vec<u64> = PendingQueue::due_entries(&entries, NOW).iter().map(|e| e.match_id).collect();
    assert_eq!(due, vec![1]);
    let later: Vec<u64> =
        PendingQueue::due_entries(&entries, NOW + 10_000).iter().map(|e| e.match_id).collect();
    assert_eq!(later, vec![1, 2]);
    assert!(entries[0].is_due(NOW));
    assert!(!entries[1].is_due(NOW + 9_999));
}

#[test]
fn update_missing_entry_changes_nothing() {
    let mut entries: Vec<PendingEntry> = Vec::new();
    PendingQueue::enqueue(&mut entries, 1, "a".into(), Platform::Lichess, NOW);
    assert!(!PendingQueue::update_entry(&mut entries, make_entry(9)));
    assert_eq!(entries.len(), 1);
    assert_eq!(entries[0].attempts, 0);
}

#[test]
fn queue_remove_entry() {
    let mut entries: Vec<PendingEntry> = Vec::new();
    PendingQueue::enqueue(&mut entries, 1, "abcd1234".into(), Platform::Lichess, NOW);
    PendingQueue::enqueue(&mut entries, 2, "efgh5678".into(), Platform::ChessDotCom, NOW);
    PendingQueue::remove(&mut entries, 1);
    assert_eq!(entries.len(), 1);
    assert_eq!(entries[0].match_id, 2);
}

#[test]
fn push_and_load() {
    let mut records: Vec<DeadLetterEntry> = Vec::new();
    assert!(DeadLetterStore::push(&mut records, make_entry(1), NOW));
    assert_eq!(records.len(), 1);
    assert_eq!(records[0].entry.match_id, 1);
    assert_eq!(records[0].total_attempts, 5);
    assert_eq!(records[0].dead_lettered_at, NOW);
}

#[test]
fn push_is_idempotent() {
    let mut records: Vec<DeadLetterEntry> = Vec::new();
    DeadLetterStore::push(&mut records, make_entry(1), NOW);
    assert!(!DeadLetterStore::push(&mut records, make_entry(1), NOW + 1));
    assert_eq!(records.len(), 1);
    assert_eq!(records[0].dead_lettered_at, NOW);
}

#[test]
fn dead_letter_remove_entry() {
    let mut records: Vec<DeadLetterEntry> = Vec::new();
    DeadLetterStore::push(&mut records, make_entry(1), NOW);
    DeadLetterStore::push(&mut records, make_entry(2), NOW);
    DeadLetterStore::remove(&mut records, 1);
    assert_eq!(records.len(), 1);
    assert_eq!(records[0].entry.match_id, 2);
}

#[test]
fn replay_requeues_and_clears_record() {
    let mut queue: Vec<PendingEntry> = Vec::new();
    let mut dead: Vec<DeadLetterEntry> = Vec::new();
    DeadLetterStore::push(&mut dead, make_entry(42), NOW);
    assert_eq!(replay_match(&mut queue, &mut dead, 7, NOW), ReplayOutcome::NotFound);
    assert_eq!(replay_match(&mut queue, &mut dead, 42, NOW + 1), ReplayOutcome::Requeued);
    assert!(dead.is_empty());
    assert_eq!(queue.len(), 1);
    assert_eq!(queue[0].match_id, 42);
    assert_eq!(queue[0].attempts, 0);
    assert_eq!(queue[0].enqueued_at, NOW + 1);
    assert_eq!(queue[0].last_error, None);
}

#[test]
fn replay_keeps_record_when_already_queued() {
    let mut queue: Vec<PendingEntry> = Vec::new();
    let mut dead: Vec<DeadLetterEntry> = Vec::new();
    PendingQueue::enqueue(&mut queue, 42, "other".into(), Platform::ChessDotCom, NOW);
    DeadLetterStore::push(&mut dead, make_entry(42), NOW);
    assert_eq!(replay_match(&mut queue, &mut dead, 42, NOW), ReplayOutcome::AlreadyQueued);
    assert_eq!(dead.len(), 1);
    assert_eq!(queue.len(), 1);
    assert_eq!(queue[0].game_id, "other");
}

#[test]
fn replay_all_reports_each_record() {
    let mut queue: Vec<PendingEntry> = Vec::new();
    let mut dead: Vec<DeadLetterEntry> = Vec::new();
    PendingQueue::enqueue(&mut queue, 2, "q".into(), Platform::Lichess, NOW);
    for id in [1, 2, 3] {
        DeadLetterStore::push(&mut dead, make_entry(id), NOW);
    }
    let added = replay_all(&mut queue, &mut dead, NOW);
    assert_eq!(added, vec![true, false, true]);
    let ids: Vec<u64> = queue.iter().map(|e| e.match_id).collect();
    assert_eq!(ids, vec![2, 1, 3]);
    assert_eq!(dead.len(), 1);
    assert_eq!(dead[0].entry.match_id, 2);
}
