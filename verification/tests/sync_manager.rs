use lighthouse::sync::{
    add_peer_action, backfill_needs_state_update, on_data_columns_by_root_response, on_sampling_result, force_range_sync_remote, handle_message,
    handle_new_execution_engine_state, on_range_components_response, plan_sync_state,
    should_search_for_block, state_after_backfill_start, update_peer_sync_state, AddPeerAction,
    BackfillOutcome, BackfillStart, BatchProcessResult, BlockProcessType, ChainSegmentKind,
    EngineState, EngineStateAction, PeerAction, PeerSyncType, RangeComponentsAction, RangeRequester,
    RangeSyncStatus, RangeSyncType, SearchContext, SearchRefusal, SyncAction, SyncEvent, SyncInfo,
    SyncRequestKind, SyncState, SyncStatePlan, SyncStatus, ColumnsByRootRequester, ColumnsByRootRoute,
    SamplingOutcome,
};

#[test]
fn block_process_type_ids() {
    assert_eq!(BlockProcessType::SingleBlock { id: 4 }.id(), 4);
    assert_eq!(BlockProcessType::SingleBlob { id: 5 }.id(), 5);
    assert_eq!(BlockProcessType::SingleCustodyColumn(6).id(), 6);
}

#[test]
fn sync_state_plans() {
    assert_eq!(plan_sync_state(Err(()), 10, Some(20), true, true), SyncStatePlan::KeepCurrent);
    let finalized = RangeSyncStatus { sync_type: RangeSyncType::Finalized, start_slot: 1, target_slot: 9 };
    assert_eq!(
        plan_sync_state(Ok(Some(finalized)), 10, Some(20), false, false),
        SyncStatePlan::PauseBackfill(SyncState::SyncingFinalized { start_slot: 1, target_slot: 9 })
    );
    let head = RangeSyncStatus { sync_type: RangeSyncType::Head, start_slot: 3, target_slot: 4 };
    assert_eq!(
        plan_sync_state(Ok(Some(head)), 10, Some(20), false, false),
        SyncStatePlan::PauseBackfill(SyncState::SyncingHead { start_slot: 3, target_slot: 4 })
    );
    // head within tolerance of the current slot
    assert_eq!(plan_sync_state(Ok(None), 100, Some(132), false, false), SyncStatePlan::StartBackfill);
    // far behind, with an advanced peer
    assert_eq!(plan_sync_state(Ok(None), 100, Some(133), true, false), SyncStatePlan::Adopt(SyncState::SyncTransition));
    // no useful peer
    assert_eq!(plan_sync_state(Ok(None), 100, Some(133), false, false), SyncStatePlan::Adopt(SyncState::Stalled));
    // a synced peer
    assert_eq!(plan_sync_state(Ok(None), 100, Some(133), false, true), SyncStatePlan::StartBackfill);
    // the genesis head never counts as close
    assert_eq!(plan_sync_state(Ok(None), 0, None, false, false), SyncStatePlan::Adopt(SyncState::Stalled));
}

#[test]
fn backfill_start_outcomes() {
    assert_eq!(
        state_after_backfill_start(BackfillStart::Syncing { completed: 3, remaining: 7 }),
        SyncState::BackFillSyncing { completed: 3, remaining: 7 }
    );
    assert_eq!(state_after_backfill_start(BackfillStart::NotSyncing), SyncState::Synced);
    assert_eq!(state_after_backfill_start(BackfillStart::Failed), SyncState::Synced);
}

#[test]
fn core_topics_subscribed_once() {
    let mut status = SyncStatus { state: SyncState::Stalled };
    assert!(status.set_sync_state(SyncState::Synced));
    assert_eq!(status.state, SyncState::Synced);
    assert!(!status.set_sync_state(SyncState::BackFillSyncing { completed: 1, remaining: 2 }));
    assert!(!status.set_sync_state(SyncState::SyncTransition));
    assert!(!status.set_sync_state(SyncState::SyncTransition));
}

#[test]
fn block_search_decisions() {
    assert_eq!(should_search_for_block(false, None, 100, true, true), Err(SearchRefusal::NotSynced));
    assert_eq!(should_search_for_block(false, Some(133), 100, true, true), Err(SearchRefusal::NotSynced));
    assert_eq!(should_search_for_block(false, Some(67), 100, true, true), Err(SearchRefusal::NotSynced));
    assert_eq!(should_search_for_block(false, Some(132), 100, true, true), Ok(()));
    assert_eq!(should_search_for_block(true, None, 100, false, true), Err(SearchRefusal::PeerNotConnected));
    assert_eq!(should_search_for_block(true, None, 100, true, false), Err(SearchRefusal::ExecutionEngineOffline));
    assert_eq!(SearchRefusal::NotSynced.reason(), "not synced");
    assert_eq!(SearchRefusal::PeerNotConnected.reason(), "peer not connected");
    assert_eq!(SearchRefusal::ExecutionEngineOffline.reason(), "execution engine offline");
}

#[test]
fn message_routing() {
    let ctx = SearchContext { synced: true, head_slot: 10, peer_connected: true, execution_engine_online: true };
    assert_eq!(
        handle_message(SyncEvent::RpcBlock { request: SyncRequestKind::BlocksByRange }, ctx),
        vec![SyncAction::BlocksByRangeResponse]
    );
    assert_eq!(handle_message(SyncEvent::RpcBlock { request: SyncRequestKind::SingleBlob }, ctx), vec![SyncAction::BadRequestId]);
    assert_eq!(
        handle_message(SyncEvent::RpcDataColumn { request: SyncRequestKind::DataColumnsByRoot }, ctx),
        vec![SyncAction::DataColumnsByRootResponse]
    );
    assert_eq!(handle_message(SyncEvent::UnknownBlockHashFromAttestation { already_notified: true }, ctx), vec![]);
    assert_eq!(
        handle_message(SyncEvent::UnknownBlockHashFromAttestation { already_notified: false }, ctx),
        vec![SyncAction::RememberUnknownRoot, SyncAction::SearchUnknownBlock]
    );
    assert_eq!(handle_message(SyncEvent::UnknownParentBlob { slot: 12 }, ctx), vec![SyncAction::SearchChildAndParent]);
    let offline = SearchContext { execution_engine_online: false, ..ctx };
    assert_eq!(
        handle_message(SyncEvent::UnknownParentBlock { slot: 12 }, offline),
        vec![SyncAction::IgnoreBlock(SearchRefusal::ExecutionEngineOffline)]
    );
    assert_eq!(
        handle_message(SyncEvent::BatchProcessed { sync_type: ChainSegmentKind::RangeBatch }, ctx),
        vec![SyncAction::RangeBatchProcessed, SyncAction::UpdateSyncState]
    );
    assert_eq!(
        handle_message(SyncEvent::RpcError { request: SyncRequestKind::SingleBlock }, ctx),
        vec![SyncAction::SingleBlockResponse]
    );
    assert_eq!(handle_message(SyncEvent::Disconnect, ctx), vec![SyncAction::PeerDisconnected]);
    assert_eq!(
        handle_message(SyncEvent::BatchProcessed { sync_type: ChainSegmentKind::BackSyncBatch }, ctx),
        vec![SyncAction::BackfillBatchProcessed]
    );
    assert_eq!(handle_message(SyncEvent::BackfillBatchResult { outcome: BackfillOutcome::Successful }, ctx), vec![]);
    assert_eq!(
        handle_message(SyncEvent::BackfillBatchResult { outcome: BackfillOutcome::SyncCompleted }, ctx),
        vec![SyncAction::UpdateSyncState]
    );
    assert_eq!(
        handle_message(SyncEvent::BackfillBatchResult { outcome: BackfillOutcome::Failed }, ctx),
        vec![SyncAction::UpdateSyncState]
    );
}

#[test]
fn range_component_routes() {
    assert_eq!(on_range_components_response(true, RangeRequester::RangeSync), RangeComponentsAction::RangeBlocks);
    assert_eq!(on_range_components_response(false, RangeRequester::RangeSync), RangeComponentsAction::RangeError);
    assert_eq!(on_range_components_response(true, RangeRequester::BackfillSync), RangeComponentsAction::BackfillBlocks);
    assert_eq!(on_range_components_response(false, RangeRequester::BackfillSync), RangeComponentsAction::BackfillError);
    assert!(!backfill_needs_state_update(BackfillOutcome::Successful));
    assert!(backfill_needs_state_update(BackfillOutcome::SyncCompleted));
    assert!(backfill_needs_state_update(BackfillOutcome::Failed));
}

#[test]
fn peer_decisions() {
    assert_eq!(add_peer_action(true, PeerSyncType::Advanced, true), AddPeerAction::RangeSync);
    assert_eq!(add_peer_action(true, PeerSyncType::FullySynced, false), AddPeerAction::LookUpHead);
    assert_eq!(add_peer_action(true, PeerSyncType::FullySynced, true), AddPeerAction::Nothing);
    assert_eq!(add_peer_action(false, PeerSyncType::Advanced, false), AddPeerAction::Nothing);
    assert_eq!(add_peer_action(true, PeerSyncType::Behind, false), AddPeerAction::Nothing);
    let u = update_peer_sync_state(Some(true), true, true);
    assert!(u.connected && u.synced_peer_joined);
    let u = update_peer_sync_state(None, true, true);
    assert!(!u.connected && !u.synced_peer_joined);
    assert_eq!(handle_new_execution_engine_state(EngineState::Online), EngineStateAction::ResumeRangeSync);
    assert_eq!(handle_new_execution_engine_state(EngineState::Offline), EngineStateAction::DropSingleBlockRequests);
}

#[test]
fn forced_range_sync_status() {
    let local = SyncInfo { head_slot: 50, head_root: vec![1; 32], finalized_epoch: 3, finalized_root: vec![2; 32] };
    let remote = force_range_sync_remote(&local, &vec![9; 32], None);
    assert_eq!(remote.head_slot, 50);
    assert_eq!(remote.head_root, vec![9; 32]);
    assert_eq!(remote.finalized_epoch, 3);
    assert_eq!(remote.finalized_root, vec![2; 32]);
    assert_eq!(force_range_sync_remote(&local, &vec![9; 32], Some(70)).head_slot, 70);
    let _ = BatchProcessResult::FaultyFailure { imported_blocks: 1, penalty: PeerAction::LowToleranceError };
}

#[test]
fn column_routes_and_sampling() {
    assert_eq!(on_data_columns_by_root_response(ColumnsByRootRequester::Sampling), ColumnsByRootRoute::Sampling);
    assert_eq!(on_data_columns_by_root_response(ColumnsByRootRequester::Custody), ColumnsByRootRoute::Custody);
    assert_eq!(on_sampling_result(true), SamplingOutcome::NotifyCompleted);
    assert_eq!(on_sampling_result(false), SamplingOutcome::ReportFailure);
}
