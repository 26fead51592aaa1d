use vstd::prelude::*;

use crate::escrow::types::Winner;
use super::errors::{
    chess_com_message, lichess_message, service_message, ChessComError, LichessError,
    OracleServiceError,
};
use super::queue::{after_failure, PendingEntry, PendingEntryView, MAX_RETRY_DELAY_SECS};

verus! {

/// How a failed result fetch is treated.
#[derive(Debug)]
pub enum FetchError {
    /// Invalid id or deleted game: do not retry.
    Permanent(String),
    /// Network trouble, game not finished yet, rate limits: retry.
    Transient(String),
}

pub open spec fn lichess_is_permanent(e: LichessError) -> bool {
    e is InvalidGameId || e is GameNotFound
}

pub open spec fn chess_com_is_permanent(e: ChessComError) -> bool {
    e is InvalidGameId || e is GameNotFound
}

/// Classify a Lichess client error: an invalid id or a missing game is
/// permanent, anything else transient; the message is the error's.
pub fn classify_lichess_error(e: LichessError) -> (r: FetchError)
    ensures
        match r {
            FetchError::Permanent(m) => lichess_is_permanent(e) && m@ == lichess_message(e),
            FetchError::Transient(m) => !lichess_is_permanent(e) && m@ == lichess_message(e),
        },
        (r is Permanent) <==> (e is InvalidGameId || e is GameNotFound),
{
    let m = e.message();
    match e {
        LichessError::InvalidGameId => FetchError::Permanent(m),
        LichessError::GameNotFound => FetchError::Permanent(m),
        LichessError::GameNotFinished => FetchError::Transient(m),
        LichessError::Http(_) | LichessError::Timeout | LichessError::HttpStatus { .. }
        | LichessError::InvalidResponse => FetchError::Transient(m),
    }
}

/// Classify a Chess.com client error: an invalid id or a missing game is
/// permanent, anything else transient; the message is the error's.
pub fn classify_chess_com_error(e: ChessComError) -> (r: FetchError)
    ensures
        match r {
            FetchError::Permanent(m) => chess_com_is_permanent(e) && m@ == chess_com_message(e),
            FetchError::Transient(m) => !chess_com_is_permanent(e) && m@ == chess_com_message(e),
        },
        (r is Permanent) <==> (e is InvalidGameId || e is GameNotFound),
{
    let m = e.message();
    match e {
        ChessComError::InvalidGameId => FetchError::Permanent(m),
        ChessComError::GameNotFound => FetchError::Permanent(m),
        ChessComError::GameNotFinished => FetchError::Transient(m),
        ChessComError::Http(_) | ChessComError::Timeout | ChessComError::HttpStatus { .. }
        | ChessComError::InvalidResponse => FetchError::Transient(m),
    }
}

/// Only an invalid game id or a missing game is a permanent fetch error:
/// a game that is not finished yet, like a network failure, a timeout, a
/// bad status or an unreadable reply, is transient and is retried.
pub proof fn law_only_bad_games_are_permanent(c: ChessComError, l: LichessError)
    ensures
        chess_com_is_permanent(c) <==> (c is InvalidGameId || c is GameNotFound),
        lichess_is_permanent(l) <==> (l is InvalidGameId || l is GameNotFound),
        !chess_com_is_permanent(ChessComError::GameNotFinished),
        !lichess_is_permanent(LichessError::GameNotFinished),
{
}

/// What the poller does next with a queue entry.
#[derive(Debug)]
pub enum PollAction {
    /// Submit `winner` on chain for the entry's match.
    Submit { entry: PendingEntry, winner: Winner },
    /// The result is on chain: remove the match from the queue.
    Complete { match_id: u64 },
    /// Store the updated entry in the queue; it is retried when due.
    Retry(PendingEntry),
    /// Move the entry to the dead-letter store and remove it from the queue.
    DeadLetter(PendingEntry),
}

/// The retry policy of the verification pipeline.
pub struct Poller {
    pub max_retries: u32,
    pub retry_base_delay_secs: u64,
}

/// `e` marked as failed for good with `reason`.
pub open spec fn permanently_failed(e: PendingEntryView, reason: Seq<char>, max_retries: u32) -> PendingEntryView {
    PendingEntryView { last_error: Some(reason), attempts: max_retries, ..e }
}

pub open spec fn retry_outcome(p: Poller, e: PendingEntryView, reason: Seq<char>, now: i64, r: PollAction) -> bool {
    let e2 = after_failure(e, reason, p.retry_base_delay_secs, p.max_retries, now);
    match r {
        PollAction::Retry(x) => e.attempts + 1 < p.max_retries && x@ == e2,
        PollAction::DeadLetter(x) => e.attempts + 1 >= p.max_retries && x@ == e2,
        _ => false,
    }
}

impl Poller {
    /// After a transient failure: record it; dead-letter the entry once its
    /// retries are exhausted, otherwise schedule the next attempt.
    pub fn handle_transient(&self, entry: PendingEntry, reason: String, now: i64) -> (r: PollAction)
        requires
            entry.attempts < u32::MAX,
            now <= i64::MAX - MAX_RETRY_DELAY_SECS * 1000,
        ensures
            retry_outcome(*self, entry@, reason@, now, r),
    {
        let mut entry = entry;
        let exhausted = entry.record_failure(reason, self.retry_base_delay_secs, self.max_retries, now);
        if exhausted {
            PollAction::DeadLetter(entry)
        } else {
            PollAction::Retry(entry)
        }
    }

    /// Decide on an entry once its result was fetched: submit a winner; on a
    /// permanent error dead-letter the entry at once (its attempts set to
    /// the maximum); on a transient error retry.
    pub fn process_entry(&self, entry: PendingEntry, fetched: Result<Winner, FetchError>, now: i64) -> (r: PollAction)
        requires
            fetched matches Err(FetchError::Transient(_)) ==> entry.attempts < u32::MAX && now
                <= i64::MAX - MAX_RETRY_DELAY_SECS * 1000,
        ensures
            match fetched {
                Ok(w) => r matches PollAction::Submit { entry: x, winner } && winner == w && x@ == entry@,
                Err(FetchError::Permanent(reason)) => r matches PollAction::DeadLetter(x) && x@
                    == permanently_failed(entry@, reason@, self.max_retries),
                Err(FetchError::Transient(reason)) => retry_outcome(*self, entry@, reason@, now, r),
            },
    {
        match fetched {
            Ok(winner) => PollAction::Submit { entry, winner },
            Err(FetchError::Permanent(reason)) => {
                let mut entry = entry;
                entry.last_error = Some(reason);
                entry.attempts = self.max_retries;
                PollAction::DeadLetter(entry)
            },
            Err(FetchError::Transient(reason)) => self.handle_transient(entry, reason, now),
        }
    }

    /// Decide on an entry once its result was submitted: done on success;
    /// a failed submission counts as a transient failure.
    pub fn submit_and_complete(
        &self,
        entry: PendingEntry,
        submitted: Result<String, OracleServiceError>,
        now: i64,
    ) -> (r: PollAction)
        requires
            submitted is Err ==> entry.attempts < u32::MAX && now <= i64::MAX - MAX_RETRY_DELAY_SECS
                * 1000,
        ensures
            match submitted {
                Ok(_) => r == PollAction::Complete { match_id: entry.match_id },
                Err(e) => retry_outcome(*self, entry@, service_message(e), now, r),
            },
    {
        match submitted {
            Ok(_) => PollAction::Complete { match_id: entry.match_id },
            Err(e) => {
                let reason = e.message();
                self.handle_transient(entry, reason, now)
            },
        }
    }
}

} // verus!
