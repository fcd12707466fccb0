//! The request-facing snapshot manager: captures checkpoints of host state
//! and plans best-effort rollbacks.
//!
//! The storage truncation primitive and the queries against the chain head
//! are host collaborators that may block or fail, so a revert runs as a
//! two-step protocol under one exclusive critical section held by the
//! caller: [`SnapshotManager::plan_revert`] decides, from the registry and
//! the current height, whether to answer "unknown id", to abort on a
//! corrupted height, or to truncate; the caller performs the truncation and
//! hands its outcome to [`SnapshotManager::finish_revert`], which wraps any
//! failure and otherwise purges the superseded checkpoints.

use vstd::prelude::*;
use crate::store::CheckpointStore;

verus! {

/// The host state a checkpoint captures, read at snapshot time and handed
/// in as plain values: the persisted chain height, the simulated-clock
/// offset if the host supports one, any overrides queued for the next
/// block, and the monotonic instant of the capture.
#[derive(Clone, Copy, Debug)]
pub struct HostState {
    /// Current persisted block height.
    pub block_height: u64,
    /// Simulated-clock offset in seconds, when the host supports time travel.
    pub simulated_time_offset: Option<i64>,
    /// Base fee queued to override the next block's, if any.
    pub pending_base_fee_override: Option<u128>,
    /// Timestamp queued to override the next block's, if any.
    pub pending_timestamp_override: Option<u64>,
    /// Monotonic timestamp of the capture.
    pub capture_instant: u64,
}

/// A recorded capture of chain state sufficient to restore it later.
#[derive(Clone, Copy, Debug)]
pub struct Snapshot {
    /// Identifier under which the checkpoint is registered; identifiers
    /// strictly increase from 1 and are never reused, even after removal.
    pub id: u64,
    /// Persisted block height at capture time.
    pub recorded_block_height: u64,
    /// Simulated-clock offset at capture time, when supported.
    pub simulated_time_offset: Option<i64>,
    /// Pending next-block base fee override at capture time, if any.
    pub pending_base_fee_override: Option<u128>,
    /// Pending next-block timestamp override at capture time, if any.
    pub pending_timestamp_override: Option<u64>,
    /// Monotonic timestamp of the capture.
    pub capture_instant: u64,
}

/// The checkpoint recorded for host state `host` under identifier `id`.
pub open spec fn snapshot_of(id: u64, host: HostState) -> Snapshot {
    Snapshot {
        id,
        recorded_block_height: host.block_height,
        simulated_time_offset: host.simulated_time_offset,
        pending_base_fee_override: host.pending_base_fee_override,
        pending_timestamp_override: host.pending_timestamp_override,
        capture_instant: host.capture_instant,
    }
}

/// The error code a failed storage truncation is wrapped with.
pub const BACKEND_REVERT_ERROR_CODE: i64 = -32000;

/// A failure of a revert. An unknown id is not an error (see
/// [`RevertPlan::UnknownId`]); these two are.
#[derive(Clone, Debug, PartialEq, Eq)]
pub enum SnapshotError {
    /// The chain head is below the recorded height of the checkpoint being
    /// restored. Heights cannot decrease since capture, so the bookkeeping
    /// is provably corrupted and the operation aborts instead of touching
    /// storage.
    InvariantViolation { recorded_block_height: u64, current_height: u64 },
    /// The storage truncation failed; the cause is carried, never
    /// swallowed, under the domain error code.
    HostFailure { code: i64, message: String },
}

/// The call the storage layer is asked to perform: drop this many blocks
/// from the head and finalize the result.
#[derive(Clone, Copy, Debug, PartialEq, Eq, Structural)]
pub struct TruncateRequest {
    /// How many blocks to drop: chain head minus recorded height.
    pub blocks: u64,
    /// Whether the restored head is marked irreversible.
    pub finalize: bool,
}

/// The recorded host settings to reapply once truncation has succeeded.
#[derive(Clone, Copy, Debug, PartialEq, Eq)]
pub struct RestoreAction {
    pub simulated_time_offset: Option<i64>,
    pub pending_base_fee_override: Option<u128>,
    pub pending_timestamp_override: Option<u64>,
}

/// What a revert request amounts to.
#[derive(Clone, Debug, PartialEq, Eq)]
pub enum RevertPlan {
    /// The id was never issued or its checkpoint is gone: the caller
    /// answers `false`. A normal outcome, not an error; retrying is
    /// pointless.
    UnknownId,
    /// The checkpoint exists and the height delta is sound: truncate as
    /// requested, then reapply the recorded settings and answer `true`.
    Truncate { request: TruncateRequest, restore: RestoreAction },
}

/// The in-memory registry of checkpoints together with the logic that
/// captures and restores them. One instance serves one environment;
/// callers that share an instance serialize `snapshot` and the revert
/// protocol under one exclusive section each, which `&mut` enforces.
pub struct SnapshotManager {
    /// The checkpoint registry and id allocator.
    pub store: CheckpointStore,
}

impl SnapshotManager {
    /// Well-formedness of the whole manager: that of its registry.
    pub open spec fn wf(self) -> bool {
        self.store.wf()
    }

    /// What `plan_revert` decides, as a function of the registry, the
    /// requested id and the current persisted height.
    pub open spec fn spec_plan_revert(self, id: u64, current_height: u64) -> Result<
        RevertPlan,
        SnapshotError,
    > {
        if !self.store@.dom().contains(id) {
            Ok(RevertPlan::UnknownId)
        } else {
            let snap = self.store@[id];
            if current_height < snap.recorded_block_height {
                Err(
                    SnapshotError::InvariantViolation {
                        recorded_block_height: snap.recorded_block_height,
                        current_height,
                    },
                )
            } else {
                Ok(
                    RevertPlan::Truncate {
                        request: TruncateRequest {
                            blocks: (current_height - snap.recorded_block_height) as u64,
                            finalize: true,
                        },
                        restore: RestoreAction {
                            simulated_time_offset: snap.simulated_time_offset,
                            pending_base_fee_override: snap.pending_base_fee_override,
                            pending_timestamp_override: snap.pending_timestamp_override,
                        },
                    },
                )
            }
        }
    }

    /// A fresh manager: empty registry, first id 1.
    pub fn new() -> (m: SnapshotManager)
        ensures
            m.wf(),
            m.store.next_id == 1,
            m.store@ == Map::<u64, Snapshot>::empty(),
    {
        SnapshotManager { store: CheckpointStore::new() }
    }

    /// Captures the host state handed in as one checkpoint: allocates the
    /// next id and registers the record under it in a single exclusive
    /// step, so no observer can see the id allocated without its record.
    /// Returns the id. Has no failure path.
    pub fn snapshot(&mut self, host: HostState) -> (id: u64)
        requires
            old(self).wf(),
            old(self).store.next_id < u64::MAX,
        ensures
            final(self).wf(),
            id == old(self).store.next_id,
            final(self).store.next_id == old(self).store.next_id + 1,
            final(self).store@ == old(self).store@.insert(id, snapshot_of(id, host)),
            final(self).store@.dom().contains(id),
    {
        let id: u64 = self.store.allocate_id();
        self.store.put(
            Snapshot {
                id,
                recorded_block_height: host.block_height,
                simulated_time_offset: host.simulated_time_offset,
                pending_base_fee_override: host.pending_base_fee_override,
                pending_timestamp_override: host.pending_timestamp_override,
                capture_instant: host.capture_instant,
            },
        );
        id
    }

    /// Decides what the requested revert amounts to, without touching
    /// anything: `UnknownId` when no checkpoint carries `id`, an
    /// `InvariantViolation` when the chain head fell below the recorded
    /// height, and otherwise the truncation request (head minus recorded
    /// height, finalizing) with the settings to restore.
    pub fn plan_revert(&self, id: u64, current_height: u64) -> (r: Result<
        RevertPlan,
        SnapshotError,
    >)
        requires
            self.wf(),
        ensures
            r == self.spec_plan_revert(id, current_height),
    {
        match self.store.get(id) {
            None => Ok(RevertPlan::UnknownId),
            Some(snap) => {
                if current_height < snap.recorded_block_height {
                    Err(
                        SnapshotError::InvariantViolation {
                            recorded_block_height: snap.recorded_block_height,
                            current_height,
                        },
                    )
                } else {
                    Ok(
                        RevertPlan::Truncate {
                            request: TruncateRequest {
                                blocks: current_height - snap.recorded_block_height,
                                finalize: true,
                            },
                            restore: RestoreAction {
                                simulated_time_offset: snap.simulated_time_offset,
                                pending_base_fee_override: snap.pending_base_fee_override,
                                pending_timestamp_override: snap.pending_timestamp_override,
                            },
                        },
                    )
                }
            },
        }
    }

    /// Settles a revert after the storage layer ran the truncation. A
    /// failure is wrapped with the domain error code and propagated, with
    /// the registry untouched. On success every checkpoint with id at or
    /// above the reverted one is purged: those reference heights beyond
    /// the restored head and are unreachable now; their ids are never
    /// reused.
    pub fn finish_revert(&mut self, id: u64, truncation: Result<(), String>) -> (r: Result<
        (),
        SnapshotError,
    >)
        requires
            old(self).wf(),
        ensures
            final(self).wf(),
            final(self).store.next_id == old(self).store.next_id,
            truncation is Ok ==> r == Ok::<(), SnapshotError>(()) && final(self).store@ == old(
                self,
            ).store@.restrict(Set::new(|k: u64| k < id)),
            truncation matches Err(message) ==> r == Err::<(), SnapshotError>(
                SnapshotError::HostFailure { code: BACKEND_REVERT_ERROR_CODE, message },
            ) && final(self).store@ == old(self).store@,
    {
        match truncation {
            Ok(()) => {
                self.store.purge_from(id);
                Ok(())
            },
            Err(message) => Err(
                SnapshotError::HostFailure { code: BACKEND_REVERT_ERROR_CODE, message },
            ),
        }
    }
}

/// What one `snapshot` call does to the identifier allocator, as a
/// relation between the state before, the state after, and the id
/// returned; this is exactly what `snapshot` ensures about ids.
pub open spec fn snapshot_step(pre: SnapshotManager, post: SnapshotManager, id: u64) -> bool {
    &&& id == pre.store.next_id
    &&& post.store.next_id == pre.store.next_id + 1
}

/// After `k` snapshots from a fresh manager the allocator stands at
/// `1 + k`.
proof fn lemma_next_id_after(states: Seq<SnapshotManager>, ids: Seq<u64>, k: int)
    requires
        states.len() == ids.len() + 1,
        states[0].store.next_id == 1,
        forall|j: int| 0 <= j < ids.len() ==> #[trigger] snapshot_step(states[j], states[j + 1], ids[j]),
        0 <= k < states.len(),
    ensures
        states[k].store.next_id == 1 + k,
    decreases k,
{
    if k > 0 {
        lemma_next_id_after(states, ids, k - 1);
        assert(snapshot_step(states[k - 1], states[(k - 1) + 1], ids[k - 1]));
        assert(states[(k - 1) + 1] == states[k]);
    }
}

/// The ids returned by any run of `snapshot` calls on a fresh manager are
/// exactly 1, 2, ..., N in order: strictly increasing, with no duplicates
/// and no gaps. Callers that share one manager serialize their calls, so
/// this covers N concurrent snapshot requests as well.
pub proof fn lemma_snapshot_ids_exactly_one_to_n(states: Seq<SnapshotManager>, ids: Seq<u64>)
    requires
        states.len() == ids.len() + 1,
        states[0].store.next_id == 1,
        forall|j: int| 0 <= j < ids.len() ==> #[trigger] snapshot_step(states[j], states[j + 1], ids[j]),
    ensures
        forall|j: int| 0 <= j < ids.len() ==> ids[j] == j + 1,
{
    assert forall|j: int| 0 <= j < ids.len() implies ids[j] == j + 1 by {
        lemma_next_id_after(states, ids, j);
        assert(snapshot_step(states[j], states[j + 1], ids[j]));
        assert(ids[j] == states[j].store.next_id);
    }
}

/// An id that was never issued — zero, or at or above the allocator —
/// is absent from the registry, so a revert planned for it answers
/// `UnknownId` (surfaced as `false` by the caller) and raises no error.
pub proof fn lemma_unissued_id_reverts_false(m: SnapshotManager, id: u64, current_height: u64)
    requires
        m.wf(),
        id == 0 || id >= m.store.next_id,
    ensures
        !m.store@.dom().contains(id),
        m.spec_plan_revert(id, current_height) == Ok::<RevertPlan, SnapshotError>(
            RevertPlan::UnknownId,
        ),
{
    m.store.lemma_view_entry(id);
    assert(!m.store.contains_id(id)) by {
        if m.store.contains_id(id) {
            let i = m.store.index_of(id);
            assert(m.store.entries@[i].id == id);
        }
    }
}

/// Reverting to a checkpoint taken at height `h` after `produced` more
/// blocks were persisted asks the storage layer to drop exactly
/// `produced` blocks, which restores the head to `h`. With
/// `produced == 0` the revert is an idempotent no-op truncation of zero
/// blocks.
pub proof fn lemma_revert_restores_height(m: SnapshotManager, id: u64, produced: u64)
    requires
        m.wf(),
        m.store@.dom().contains(id),
        m.store@[id].recorded_block_height + produced <= u64::MAX,
    ensures
        ({
            let h = m.store@[id].recorded_block_height;
            let current = (h + produced) as u64;
            &&& m.spec_plan_revert(id, current) matches Ok(p)
            &&& p matches RevertPlan::Truncate { request, restore } ==> request.blocks == produced
                && request.finalize && current - request.blocks == h
            &&& (p is Truncate)
        }),
{
}

/// A chain head below the recorded height of an existing checkpoint —
/// a negative height delta — is answered with an `InvariantViolation`
/// error, never with a plain `false`.
pub proof fn lemma_negative_delta_is_invariant_violation(
    m: SnapshotManager,
    id: u64,
    current_height: u64,
)
    requires
        m.wf(),
        m.store@.dom().contains(id),
        current_height < m.store@[id].recorded_block_height,
    ensures
        m.spec_plan_revert(id, current_height) == Err::<RevertPlan, SnapshotError>(
            SnapshotError::InvariantViolation {
                recorded_block_height: m.store@[id].recorded_block_height,
                current_height,
            },
        ),
{
}

} // verus!
