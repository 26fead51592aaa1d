use vstd::prelude::*;

use super::model::{
    min_int, record_wf, snapshot_history, snapshot_of, snapshots_result, with_snapshot, wf,
};
use super::state::{EscrowState, InvocationView, RecordView, MAX_SNAPSHOTS_PER_MATCH};
use super::types::Address;
use super::types::SnapshotReason;

verus! {

/// Recording a snapshot appends it to the history that the ring buffer
/// holds, dropping the oldest entry once eight are held: the buffer always
/// holds the latest `min(count, 8)` snapshots, oldest first.
pub proof fn law_snapshot_ring(r: RecordView, reason: SnapshotReason, inv: InvocationView)
    requires
        r.snapshots.len() == min_int(r.snapshot_count as int, MAX_SNAPSHOTS_PER_MATCH as int),
        r.snapshot_count < u32::MAX,
    ensures
        ({
            let h = snapshot_history(r);
            let h2 = snapshot_history(with_snapshot(r, reason, inv));
            let snap = snapshot_of(r.m, r.snapshot_count, reason, inv);
            h2 == (if h.len() == MAX_SNAPSHOTS_PER_MATCH as int {
                h.drop_first()
            } else {
                h
            }).push(snap)
        }),
{
    let c = r.snapshot_count as int;
    let h = snapshot_history(r);
    let r2 = with_snapshot(r, reason, inv);
    let h2 = snapshot_history(r2);
    let snap = snapshot_of(r.m, r.snapshot_count, reason, inv);
    let expected = (if h.len() == 8 { h.drop_first() } else { h }).push(snap);
    if c < 8 {
        assert(c % 8 == c);
        assert forall|j: int| 0 <= j < h2.len() implies h2[j] == expected[j] by {
            assert(j % 8 == j);
        }
    } else {
        assert forall|j: int| 0 <= j < h2.len() implies h2[j] == expected[j] by {
            let k = (c - 7 + j) % 8;
            if j < 7 {
                assert(k != c % 8);
                assert(h[j + 1] == r.snapshots[(c - 8 + (j + 1)) % 8]);
            } else {
                assert(k == c % 8);
            }
        }
    }
    assert(h2 =~= expected);
}

/// The newest snapshot sits in slot `(count - 1) % 8`: what
/// `get_latest_snapshot` reads is the last entry of the held history.
pub proof fn law_latest_is_newest(r: RecordView)
    requires
        r.snapshots.len() == min_int(r.snapshot_count as int, MAX_SNAPSHOTS_PER_MATCH as int),
        r.snapshot_count > 0,
    ensures
        snapshot_history(r).len() > 0,
        r.snapshots[(r.snapshot_count - 1) % (MAX_SNAPSHOTS_PER_MATCH as int)] == snapshot_history(
            r,
        ).last(),
{
}

/// The snapshot history a caller may read is the newest `min(c, 8)` of
/// the `c` snapshots ever recorded for the match, oldest first: entry `k`
/// has index `c - min(c, 8) + k` (before the count saturates at
/// `u32::MAX`).
pub proof fn law_history_is_newest_snapshots(s: EscrowState, caller: Address, match_id: u64)
    requires
        wf(s),
        match_id < s.matches.len(),
        s.matches[match_id as int].snapshot_count < u32::MAX,
    ensures
        snapshots_result(s, caller, match_id) matches Ok(v) ==> {
            let c = s.matches[match_id as int].snapshot_count as int;
            &&& v.len() == min_int(c, MAX_SNAPSHOTS_PER_MATCH as int)
            &&& forall|k: int| 0 <= k < v.len() ==> (#[trigger] v[k]).index == c - v.len() + k
        },
{
    let r = s.matches[match_id as int];
    assert(record_wf(r, match_id as int));
    let h = snapshot_history(r);
    let c = r.snapshot_count as int;
    assert forall|k: int| 0 <= k < h.len() implies (#[trigger] h[k]).index == c - h.len() + k by {
        assert(h[k] == r.snapshots[(c - h.len() + k) % 8]);
    }
}

} // verus!
