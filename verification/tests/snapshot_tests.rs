use revive_snapshot::snapshot::{
    HostState, RevertPlan, SnapshotError, SnapshotManager, BACKEND_REVERT_ERROR_CODE,
};
use revive_snapshot::store::CheckpointStore;
use revive_snapshot::snapshot::Snapshot;

fn host_at(height: u64) -> HostState {
    HostState {
        block_height: height,
        simulated_time_offset: None,
        pending_base_fee_override: None,
        pending_timestamp_override: None,
        capture_instant: 0,
    }
}

#[test]
fn snapshot_ids_are_consecutive_from_one() {
    let mut m = SnapshotManager::new();
    let mut ids: Vec<u64> = Vec::new();
    for k in 0..5u64 {
        ids.push(m.snapshot(host_at(100 + k)));
    }
    assert_eq!(ids, vec![1, 2, 3, 4, 5]);
}

#[test]
fn revert_unknown_id_returns_false() {
    let m = SnapshotManager::new();
    let r = m.plan_revert(42, 10);
    assert!(matches!(r, Ok(RevertPlan::UnknownId)));
}

#[test]
fn revert_unknown_id_after_issues_returns_false() {
    let mut m = SnapshotManager::new();
    let id = m.snapshot(host_at(3));
    assert_eq!(id, 1);
    assert!(matches!(m.plan_revert(0, 3), Ok(RevertPlan::UnknownId)));
    assert!(matches!(m.plan_revert(2, 3), Ok(RevertPlan::UnknownId)));
}

#[test]
fn revert_with_no_new_blocks_is_noop_truncation() {
    let mut m = SnapshotManager::new();
    let id = m.snapshot(host_at(7));
    match m.plan_revert(id, 7) {
        Ok(RevertPlan::Truncate { request, .. }) => {
            assert_eq!(request.blocks, 0);
            assert!(request.finalize);
            // Restored height: head minus the truncated blocks.
            assert_eq!(7 - request.blocks, 7);
        }
        other => panic!("expected a truncation plan, got {:?}", other),
    }
    assert!(matches!(m.finish_revert(id, Ok(())), Ok(())));
}

#[test]
fn revert_after_blocks_truncates_the_delta() {
    let mut m = SnapshotManager::new();
    let id = m.snapshot(host_at(5));
    // Three more blocks are persisted before the revert.
    let current = 8;
    match m.plan_revert(id, current) {
        Ok(RevertPlan::Truncate { request, .. }) => {
            assert_eq!(request.blocks, 3);
            assert!(request.finalize);
            assert_eq!(current - request.blocks, 5);
        }
        other => panic!("expected a truncation plan, got {:?}", other),
    }
}

#[test]
fn negative_delta_is_an_invariant_violation() {
    let mut m = SnapshotManager::new();
    let id = m.snapshot(host_at(10));
    let r = m.plan_revert(id, 9);
    assert_eq!(
        r,
        Err(SnapshotError::InvariantViolation {
            recorded_block_height: 10,
            current_height: 9,
        })
    );
}

#[test]
fn truncation_failure_is_wrapped_and_registry_untouched() {
    let mut m = SnapshotManager::new();
    let id = m.snapshot(host_at(4));
    let r = m.finish_revert(id, Err(String::from("backend offline")));
    assert_eq!(
        r,
        Err(SnapshotError::HostFailure {
            code: BACKEND_REVERT_ERROR_CODE,
            message: String::from("backend offline"),
        })
    );
    assert_eq!(BACKEND_REVERT_ERROR_CODE, -32000);
    // The checkpoint is still there: a later revert can still be planned.
    assert!(matches!(
        m.plan_revert(id, 4),
        Ok(RevertPlan::Truncate { .. })
    ));
}

#[test]
fn successful_revert_purges_reverted_and_later_ids() {
    let mut m = SnapshotManager::new();
    let id1 = m.snapshot(host_at(10));
    let id2 = m.snapshot(host_at(11));
    let id3 = m.snapshot(host_at(12));
    assert_eq!((id1, id2, id3), (1, 2, 3));
    assert!(matches!(
        m.plan_revert(id2, 12),
        Ok(RevertPlan::Truncate { .. })
    ));
    assert!(matches!(m.finish_revert(id2, Ok(())), Ok(())));
    assert!(m.store.get(id1).is_some());
    assert!(m.store.get(id2).is_none());
    assert!(m.store.get(id3).is_none());
    assert!(matches!(m.plan_revert(id2, 11), Ok(RevertPlan::UnknownId)));
    // Purged ids are never handed out again.
    assert_eq!(m.snapshot(host_at(11)), 4);
}

#[test]
fn snapshot_captures_the_whole_host_state() {
    let mut m = SnapshotManager::new();
    let host = HostState {
        block_height: 99,
        simulated_time_offset: Some(-3600),
        pending_base_fee_override: Some(7_000_000_000),
        pending_timestamp_override: Some(1_725_029_869),
        capture_instant: 123_456,
    };
    let id = m.snapshot(host);
    let snap = m.store.get(id).expect("the freshly allocated id must be registered");
    assert_eq!(snap.id, id);
    assert_eq!(snap.recorded_block_height, 99);
    assert_eq!(snap.simulated_time_offset, Some(-3600));
    assert_eq!(snap.pending_base_fee_override, Some(7_000_000_000));
    assert_eq!(snap.pending_timestamp_override, Some(1_725_029_869));
    assert_eq!(snap.capture_instant, 123_456);
}

#[test]
fn revert_plan_carries_the_recorded_settings_to_restore() {
    let mut m = SnapshotManager::new();
    let host = HostState {
        block_height: 50,
        simulated_time_offset: Some(86_400),
        pending_base_fee_override: Some(1_000),
        pending_timestamp_override: None,
        capture_instant: 5,
    };
    let id = m.snapshot(host);
    match m.plan_revert(id, 55) {
        Ok(RevertPlan::Truncate { request, restore }) => {
            assert_eq!(request.blocks, 5);
            assert_eq!(restore.simulated_time_offset, Some(86_400));
            assert_eq!(restore.pending_base_fee_override, Some(1_000));
            assert_eq!(restore.pending_timestamp_override, None);
        }
        other => panic!("expected a truncation plan, got {:?}", other),
    }
}

#[test]
fn store_allocates_consecutively_and_overwrites_by_id() {
    let mut s = CheckpointStore::new();
    let a = s.allocate_id();
    let b = s.allocate_id();
    assert_eq!((a, b), (1, 2));
    let first = Snapshot {
        id: a,
        recorded_block_height: 10,
        simulated_time_offset: None,
        pending_base_fee_override: None,
        pending_timestamp_override: None,
        capture_instant: 0,
    };
    s.put(first);
    let replacement = Snapshot {
        recorded_block_height: 20,
        ..first
    };
    s.put(replacement);
    let read = s.get(a).expect("id 1 was registered");
    assert_eq!(read.recorded_block_height, 20);
    assert!(s.get(b).is_none());
    assert!(s.get(3).is_none());
}
