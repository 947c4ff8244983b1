//! The decisions of the sync manager: which component handles a message, when
//! the node counts as synced, and when a block is worth searching for. The
//! manager's loop performs the actions and reports back what they returned.
use vstd::prelude::*;
use crate::beacon_state::copy_bytes;

verus! {

/// How far (in slots) a peer's head may be from ours, either way, for the peer
/// to count as synced with us.
pub const SLOT_IMPORT_TOLERANCE: usize = 32;

/// A request id of the sync manager.
pub type Id = u32;

/// The type of processing specified for a received block.
#[derive(Clone, Copy, Debug, PartialEq, Eq, Structural)]
pub enum BlockProcessType {
    SingleBlock { id: Id },
    SingleBlob { id: Id },
    SingleCustodyColumn(Id),
}

impl BlockProcessType {
    pub open spec fn spec_id(self) -> Id {
        match self {
            BlockProcessType::SingleBlock { id } => id,
            BlockProcessType::SingleBlob { id } => id,
            BlockProcessType::SingleCustodyColumn(id) => id,
        }
    }

    /// The id of the lookup that the block belongs to.
    pub fn id(&self) -> (r: Id)
        ensures
            r == self.spec_id(),
    {
        match self {
            BlockProcessType::SingleBlock { id } => *id,
            BlockProcessType::SingleBlob { id } => *id,
            BlockProcessType::SingleCustodyColumn(id) => *id,
        }
    }
}

/// How a peer is penalised.
#[derive(Clone, Copy, Debug, PartialEq, Eq, Structural)]
pub enum PeerAction {
    Fatal,
    LowToleranceError,
    MidToleranceError,
    HighToleranceError,
}

/// The result of processing multiple blocks (a chain segment).
#[derive(Clone, Copy, Debug, PartialEq, Eq, Structural)]
pub enum BatchProcessResult {
    /// The batch was completed successfully. It carries whether the sent batch contained blocks.
    Success { sent_blocks: usize, imported_blocks: usize },
    /// The batch processing failed. It carries whether the processing imported any block.
    FaultyFailure { imported_blocks: usize, penalty: PeerAction },
    NonFaultyFailure,
}

/// The sync state of the node.
#[derive(Clone, Copy, Debug, PartialEq, Eq, Structural)]
pub enum SyncState {
    /// Syncing to a finalized chain.
    SyncingFinalized { start_slot: u64, target_slot: u64 },
    /// Syncing to a head chain.
    SyncingHead { start_slot: u64, target_slot: u64 },
    /// Synced, and filling in history backwards.
    BackFillSyncing { completed: usize, remaining: usize },
    /// No range sync runs but an advanced peer may start one soon.
    SyncTransition,
    /// Synced with every known peer.
    Synced,
    /// No useful peers.
    Stalled,
}

impl SyncState {
    pub open spec fn spec_is_synced(self) -> bool {
        self is Synced || self is BackFillSyncing
    }

    /// Whether the node counts as synced (a running backfill does not matter).
    pub fn is_synced(&self) -> (r: bool)
        ensures
            r == self.spec_is_synced(),
    {
        match self {
            SyncState::Synced => true,
            SyncState::BackFillSyncing { .. } => true,
            _ => false,
        }
    }
}

/// The kind of chain that range sync follows.
#[derive(Clone, Copy, Debug, PartialEq, Eq, Structural)]
pub enum RangeSyncType {
    Finalized,
    Head,
}

/// The chain that range sync is working on.
#[derive(Clone, Copy, Debug, PartialEq, Eq, Structural)]
pub struct RangeSyncStatus {
    pub sync_type: RangeSyncType,
    pub start_slot: u64,
    pub target_slot: u64,
}

/// What the manager does when it updates its sync state.
#[derive(Clone, Copy, Debug, PartialEq, Eq, Structural)]
pub enum SyncStatePlan {
    /// The range sync state could not be read: the state stays as it is.
    KeepCurrent,
    /// Range sync runs: pause any backfill and take this state.
    PauseBackfill(SyncState),
    /// The node would be synced: try to start a backfill first.
    StartBackfill,
    /// Take this state.
    Adopt(SyncState),
}

/// What starting a backfill gave.
#[derive(Clone, Copy, Debug, PartialEq, Eq, Structural)]
pub enum BackfillStart {
    Syncing { completed: usize, remaining: usize },
    NotSyncing,
    Failed,
}

/// The state that the node takes when no range sync runs: synced when the
/// head is close to the current slot, else by what the peers know.
pub open spec fn idle_sync_state(
    head_slot: u64,
    current_slot: Option<u64>,
    has_advanced_peer: bool,
    has_synced_peer: bool,
) -> SyncState {
    let current = match current_slot {
        Some(s) => s,
        None => 0,
    };
    if current >= head_slot && current - head_slot <= SLOT_IMPORT_TOLERANCE && head_slot > 0 {
        SyncState::Synced
    } else if has_advanced_peer {
        SyncState::SyncTransition
    } else if !has_synced_peer {
        SyncState::Stalled
    } else {
        SyncState::Synced
    }
}

pub open spec fn sync_state_plan(
    range: Result<Option<RangeSyncStatus>, ()>,
    head_slot: u64,
    current_slot: Option<u64>,
    has_advanced_peer: bool,
    has_synced_peer: bool,
) -> SyncStatePlan {
    match range {
        Err(_) => SyncStatePlan::KeepCurrent,
        Ok(None) => {
            let s = idle_sync_state(head_slot, current_slot, has_advanced_peer, has_synced_peer);
            if s is Synced {
                SyncStatePlan::StartBackfill
            } else {
                SyncStatePlan::Adopt(s)
            }
        },
        Ok(Some(r)) => match r.sync_type {
            RangeSyncType::Finalized => SyncStatePlan::PauseBackfill(
                SyncState::SyncingFinalized { start_slot: r.start_slot, target_slot: r.target_slot },
            ),
            RangeSyncType::Head => SyncStatePlan::PauseBackfill(
                SyncState::SyncingHead { start_slot: r.start_slot, target_slot: r.target_slot },
            ),
        },
    }
}

/// Decides the next sync state from the range sync's state, our head and
/// current slot, and whether some peer is ahead of us or synced with us.
pub fn plan_sync_state(
    range: Result<Option<RangeSyncStatus>, ()>,
    head_slot: u64,
    current_slot: Option<u64>,
    has_advanced_peer: bool,
    has_synced_peer: bool,
) -> (r: SyncStatePlan)
    ensures
        r == sync_state_plan(range, head_slot, current_slot, has_advanced_peer, has_synced_peer),
{
    match range {
        Err(_) => SyncStatePlan::KeepCurrent,
        Ok(None) => {
            let current = match current_slot {
                Some(s) => s,
                None => 0,
            };
            let s = if current >= head_slot && current - head_slot <= SLOT_IMPORT_TOLERANCE as u64
                && head_slot > 0 {
                SyncState::Synced
            } else if has_advanced_peer {
                SyncState::SyncTransition
            } else if !has_synced_peer {
                SyncState::Stalled
            } else {
                SyncState::Synced
            };
            match s {
                SyncState::Synced => SyncStatePlan::StartBackfill,
                _ => SyncStatePlan::Adopt(s),
            }
        },
        Ok(Some(r)) => match r.sync_type {
            RangeSyncType::Finalized => SyncStatePlan::PauseBackfill(
                SyncState::SyncingFinalized { start_slot: r.start_slot, target_slot: r.target_slot },
            ),
            RangeSyncType::Head => SyncStatePlan::PauseBackfill(
                SyncState::SyncingHead { start_slot: r.start_slot, target_slot: r.target_slot },
            ),
        },
    }
}

pub open spec fn spec_state_after_backfill_start(start: BackfillStart) -> SyncState {
    match start {
        BackfillStart::Syncing { completed, remaining } => SyncState::BackFillSyncing { completed, remaining },
        _ => SyncState::Synced,
    }
}

/// The state of a node that would be synced, once it tried to start a
/// backfill.
pub fn state_after_backfill_start(start: BackfillStart) -> (r: SyncState)
    ensures
        r == spec_state_after_backfill_start(start),
{
    match start {
        BackfillStart::Syncing { completed, remaining } => SyncState::BackFillSyncing { completed, remaining },
        _ => SyncState::Synced,
    }
}

/// The core topics are subscribed when the node becomes synced from a state
/// that had not subscribed them.
pub open spec fn spec_subscribes_core_topics(old_state: SyncState, new_state: SyncState) -> bool {
    new_state != old_state && new_state.spec_is_synced() && !(old_state is Synced
        || old_state is BackFillSyncing)
}

/// The sync state as the network sees it.
pub struct SyncStatus {
    pub state: SyncState,
}

impl SyncStatus {
    /// Takes the new state; says whether the core topics must now be
    /// subscribed.
    pub fn set_sync_state(&mut self, new_state: SyncState) -> (subscribe: bool)
        ensures
            final(self).state == new_state,
            subscribe == spec_subscribes_core_topics(old(self).state, new_state),
    {
        let old_state = self.state;
        self.state = new_state;
        new_state != old_state && new_state.is_synced() && !old_state.is_synced()
    }
}

/// Why a block is not searched for.
#[derive(Clone, Copy, Debug, PartialEq, Eq, Structural)]
pub enum SearchRefusal {
    NotSynced,
    PeerNotConnected,
    ExecutionEngineOffline,
}

impl SearchRefusal {
    /// The reason as the logs give it.
    pub fn reason(&self) -> (r: &'static str)
        ensures
            r@ == match *self {
                SearchRefusal::NotSynced => "not synced"@,
                SearchRefusal::PeerNotConnected => "peer not connected"@,
                SearchRefusal::ExecutionEngineOffline => "execution engine offline"@,
            },
    {
        match self {
            SearchRefusal::NotSynced => "not synced",
            SearchRefusal::PeerNotConnected => "peer not connected",
            SearchRefusal::ExecutionEngineOffline => "execution engine offline",
        }
    }
}

/// The distance between two slots.
pub open spec fn slot_distance(a: u64, b: u64) -> int {
    if a >= b {
        a - b
    } else {
        b - a
    }
}

/// A block is searched for when the node is synced, or when its slot (known)
/// is within the tolerance of our head; and only from a connected peer while
/// the execution engine is online.
pub open spec fn spec_should_search_for_block(
    synced: bool,
    block_slot: Option<u64>,
    head_slot: u64,
    peer_connected: bool,
    execution_engine_online: bool,
) -> Result<(), SearchRefusal> {
    if !synced && (block_slot is None || slot_distance(head_slot, block_slot->0) > SLOT_IMPORT_TOLERANCE) {
        Err(SearchRefusal::NotSynced)
    } else if !peer_connected {
        Err(SearchRefusal::PeerNotConnected)
    } else if !execution_engine_online {
        Err(SearchRefusal::ExecutionEngineOffline)
    } else {
        Ok(())
    }
}

pub fn should_search_for_block(
    synced: bool,
    block_slot: Option<u64>,
    head_slot: u64,
    peer_connected: bool,
    execution_engine_online: bool,
) -> (r: Result<(), SearchRefusal>)
    ensures
        r == spec_should_search_for_block(synced, block_slot, head_slot, peer_connected, execution_engine_online),
{
    if !synced {
        match block_slot {
            None => {
                return Err(SearchRefusal::NotSynced);
            },
            Some(block_slot) => {
                if (head_slot >= block_slot && head_slot - block_slot > SLOT_IMPORT_TOLERANCE as u64) || (
                head_slot < block_slot && block_slot - head_slot > SLOT_IMPORT_TOLERANCE as u64) {
                    return Err(SearchRefusal::NotSynced);
                }
            },
        }
    }
    if !peer_connected {
        return Err(SearchRefusal::PeerNotConnected);
    }
    if !execution_engine_online {
        return Err(SearchRefusal::ExecutionEngineOffline);
    }
    Ok(())
}

/// The kind of a request that the sync manager sent.
#[derive(Clone, Copy, Debug, PartialEq, Eq, Structural)]
pub enum SyncRequestKind {
    SingleBlock,
    SingleBlob,
    DataColumnsByRoot,
    BlocksByRange,
    BlobsByRange,
    DataColumnsByRange,
}

/// Which sync a processed chain segment belongs to.
#[derive(Clone, Copy, Debug, PartialEq, Eq, Structural)]
pub enum ChainSegmentKind {
    RangeBatch,
    BackSyncBatch,
}

/// A message to the sync manager, with what its decisions read of it.
#[derive(Clone, Copy, Debug, PartialEq, Eq, Structural)]
pub enum SyncEvent {
    AddPeer,
    AddPeersForceRangeSync,
    RpcBlock { request: SyncRequestKind },
    RpcBlob { request: SyncRequestKind },
    RpcDataColumn { request: SyncRequestKind },
    UnknownParentBlock { slot: u64 },
    UnknownParentBlob { slot: u64 },
    UnknownParentDataColumn { slot: u64 },
    /// `already_notified`: the (peer, root) pair was seen recently.
    UnknownBlockHashFromAttestation { already_notified: bool },
    SampleBlock,
    Disconnect,
    RpcError { request: SyncRequestKind },
    BatchProcessed { sync_type: ChainSegmentKind },
    /// What backfill reported of a batch handed to it: the manager performs
    /// `BackfillBatchProcessed` and hands back backfill's report here.
    BackfillBatchResult { outcome: BackfillOutcome },
    BlockComponentProcessed,
    SampleVerified,
    GossipBlockProcessResult,
}

/// Something the sync manager does.
#[derive(Clone, Copy, Debug, PartialEq, Eq, Structural)]
pub enum SyncAction {
    AddPeer,
    ForceRangeSync,
    SingleBlockResponse,
    SingleBlobResponse,
    DataColumnsByRootResponse,
    BlocksByRangeResponse,
    BlobsByRangeResponse,
    DataColumnsByRangeResponse,
    /// A response came for a request of the wrong kind.
    BadRequestId,
    SearchChildAndParent,
    SearchUnknownBlock,
    IgnoreBlock(SearchRefusal),
    RememberUnknownRoot,
    StartSampling,
    PeerDisconnected,
    LookupProcessingResult,
    ExternalProcessingResult,
    RangeBatchProcessed,
    BackfillBatchProcessed,
    SampleVerified,
    UpdateSyncState,
}

/// What the node knows when it decides on a block search.
#[derive(Clone, Copy, Debug, PartialEq, Eq, Structural)]
pub struct SearchContext {
    pub synced: bool,
    pub head_slot: u64,
    pub peer_connected: bool,
    pub execution_engine_online: bool,
}

/// The handler of a response (or an error) for a request.
pub open spec fn response_action(request: SyncRequestKind) -> SyncAction {
    match request {
        SyncRequestKind::SingleBlock => SyncAction::SingleBlockResponse,
        SyncRequestKind::SingleBlob => SyncAction::SingleBlobResponse,
        SyncRequestKind::DataColumnsByRoot => SyncAction::DataColumnsByRootResponse,
        SyncRequestKind::BlocksByRange => SyncAction::BlocksByRangeResponse,
        SyncRequestKind::BlobsByRange => SyncAction::BlobsByRangeResponse,
        SyncRequestKind::DataColumnsByRange => SyncAction::DataColumnsByRangeResponse,
    }
}

/// The search for a block, or why not.
pub open spec fn search_action(block_slot: Option<u64>, ctx: SearchContext, child: bool) -> SyncAction {
    match spec_should_search_for_block(
        ctx.synced,
        block_slot,
        ctx.head_slot,
        ctx.peer_connected,
        ctx.execution_engine_online,
    ) {
        Ok(()) => if child {
            SyncAction::SearchChildAndParent
        } else {
            SyncAction::SearchUnknownBlock
        },
        Err(reason) => SyncAction::IgnoreBlock(reason),
    }
}

/// What the manager does with a message: a block response goes to the
/// handler of its request kind (only single-block and by-range requests carry
/// blocks, and so for blobs and columns), an unknown parent is searched for
/// if the block is close enough, an unknown root from an attestation only the
/// first time it is seen, and a processed range batch updates the sync state,
/// as does a backfill batch once backfill reports it completed or failed.
pub open spec fn message_actions(event: SyncEvent, ctx: SearchContext) -> Seq<SyncAction> {
    match event {
        SyncEvent::AddPeer => seq![SyncAction::AddPeer],
        SyncEvent::AddPeersForceRangeSync => seq![SyncAction::ForceRangeSync],
        SyncEvent::RpcBlock { request } => if request is SingleBlock || request is BlocksByRange {
            seq![response_action(request)]
        } else {
            seq![SyncAction::BadRequestId]
        },
        SyncEvent::RpcBlob { request } => if request is SingleBlob || request is BlobsByRange {
            seq![response_action(request)]
        } else {
            seq![SyncAction::BadRequestId]
        },
        SyncEvent::RpcDataColumn { request } => if request is DataColumnsByRoot || request is DataColumnsByRange {
            seq![response_action(request)]
        } else {
            seq![SyncAction::BadRequestId]
        },
        SyncEvent::UnknownParentBlock { slot } => seq![search_action(Some(slot), ctx, true)],
        SyncEvent::UnknownParentBlob { slot } => seq![search_action(Some(slot), ctx, true)],
        SyncEvent::UnknownParentDataColumn { slot } => seq![search_action(Some(slot), ctx, true)],
        SyncEvent::UnknownBlockHashFromAttestation { already_notified } => if already_notified {
            seq![]
        } else {
            seq![SyncAction::RememberUnknownRoot, search_action(None, ctx, false)]
        },
        SyncEvent::SampleBlock => seq![SyncAction::StartSampling],
        SyncEvent::Disconnect => seq![SyncAction::PeerDisconnected],
        SyncEvent::RpcError { request } => seq![response_action(request)],
        SyncEvent::BatchProcessed { sync_type } => match sync_type {
            ChainSegmentKind::RangeBatch => seq![SyncAction::RangeBatchProcessed, SyncAction::UpdateSyncState],
            ChainSegmentKind::BackSyncBatch => seq![SyncAction::BackfillBatchProcessed],
        },
        SyncEvent::BackfillBatchResult { outcome } => if outcome is Successful {
            seq![]
        } else {
            seq![SyncAction::UpdateSyncState]
        },
        SyncEvent::BlockComponentProcessed => seq![SyncAction::LookupProcessingResult],
        SyncEvent::GossipBlockProcessResult => seq![SyncAction::ExternalProcessingResult],
        SyncEvent::SampleVerified => seq![SyncAction::SampleVerified],
    }
}

fn response_action_exec(request: SyncRequestKind) -> (r: SyncAction)
    ensures
        r == response_action(request),
{
    match request {
        SyncRequestKind::SingleBlock => SyncAction::SingleBlockResponse,
        SyncRequestKind::SingleBlob => SyncAction::SingleBlobResponse,
        SyncRequestKind::DataColumnsByRoot => SyncAction::DataColumnsByRootResponse,
        SyncRequestKind::BlocksByRange => SyncAction::BlocksByRangeResponse,
        SyncRequestKind::BlobsByRange => SyncAction::BlobsByRangeResponse,
        SyncRequestKind::DataColumnsByRange => SyncAction::DataColumnsByRangeResponse,
    }
}

fn search_action_exec(block_slot: Option<u64>, ctx: SearchContext, child: bool) -> (r: SyncAction)
    ensures
        r == search_action(block_slot, ctx, child),
{
    match should_search_for_block(
        ctx.synced,
        block_slot,
        ctx.head_slot,
        ctx.peer_connected,
        ctx.execution_engine_online,
    ) {
        Ok(()) => if child {
            SyncAction::SearchChildAndParent
        } else {
            SyncAction::SearchUnknownBlock
        },
        Err(reason) => SyncAction::IgnoreBlock(reason),
    }
}

/// The actions that the manager takes for a message, in order.
pub fn handle_message(event: SyncEvent, ctx: SearchContext) -> (r: Vec<SyncAction>)
    ensures
        r@ == message_actions(event, ctx),
{
    let mut r: Vec<SyncAction> = Vec::new();
    match event {
        SyncEvent::AddPeer => r.push(SyncAction::AddPeer),
        SyncEvent::AddPeersForceRangeSync => r.push(SyncAction::ForceRangeSync),
        SyncEvent::RpcBlock { request } => match request {
            SyncRequestKind::SingleBlock | SyncRequestKind::BlocksByRange => r.push(response_action_exec(request)),
            _ => r.push(SyncAction::BadRequestId),
        },
        SyncEvent::RpcBlob { request } => match request {
            SyncRequestKind::SingleBlob | SyncRequestKind::BlobsByRange => r.push(response_action_exec(request)),
            _ => r.push(SyncAction::BadRequestId),
        },
        SyncEvent::RpcDataColumn { request } => match request {
            SyncRequestKind::DataColumnsByRoot | SyncRequestKind::DataColumnsByRange => r.push(
                response_action_exec(request),
            ),
            _ => r.push(SyncAction::BadRequestId),
        },
        SyncEvent::UnknownParentBlock { slot } => r.push(search_action_exec(Some(slot), ctx, true)),
        SyncEvent::UnknownParentBlob { slot } => r.push(search_action_exec(Some(slot), ctx, true)),
        SyncEvent::UnknownParentDataColumn { slot } => r.push(search_action_exec(Some(slot), ctx, true)),
        SyncEvent::UnknownBlockHashFromAttestation { already_notified } => {
            if !already_notified {
                r.push(SyncAction::RememberUnknownRoot);
                r.push(search_action_exec(None, ctx, false));
            }
        },
        SyncEvent::SampleBlock => r.push(SyncAction::StartSampling),
        SyncEvent::Disconnect => r.push(SyncAction::PeerDisconnected),
        SyncEvent::RpcError { request } => r.push(response_action_exec(request)),
        SyncEvent::BatchProcessed { sync_type } => match sync_type {
            ChainSegmentKind::RangeBatch => {
                r.push(SyncAction::RangeBatchProcessed);
                r.push(SyncAction::UpdateSyncState);
            },
            ChainSegmentKind::BackSyncBatch => r.push(SyncAction::BackfillBatchProcessed),
        },
        SyncEvent::BackfillBatchResult { outcome } => {
            if backfill_needs_state_update(outcome) {
                r.push(SyncAction::UpdateSyncState);
            }
        },
        SyncEvent::BlockComponentProcessed => r.push(SyncAction::LookupProcessingResult),
        SyncEvent::GossipBlockProcessResult => r.push(SyncAction::ExternalProcessingResult),
        SyncEvent::SampleVerified => r.push(SyncAction::SampleVerified),
    }
    assert(r@ =~= message_actions(event, ctx));
    r
}

/// What a backfill step reported.
#[derive(Clone, Copy, Debug, PartialEq, Eq, Structural)]
pub enum BackfillOutcome {
    Successful,
    SyncCompleted,
    Failed,
}

/// After a backfill step, the sync state is updated when the backfill
/// completed or failed.
pub fn backfill_needs_state_update(outcome: BackfillOutcome) -> (r: bool)
    ensures
        r == !(outcome is Successful),
{
    match outcome {
        BackfillOutcome::Successful => false,
        _ => true,
    }
}

/// Who asked for a range of block components.
#[derive(Clone, Copy, Debug, PartialEq, Eq, Structural)]
pub enum RangeRequester {
    RangeSync,
    BackfillSync,
}

/// What the manager does with a complete (or failed) set of range
/// components.
#[derive(Clone, Copy, Debug, PartialEq, Eq, Structural)]
pub enum RangeComponentsAction {
    /// Hand the blocks to range sync, then update the sync state.
    RangeBlocks,
    /// Hand the blocks to backfill; update the sync state by what it reports.
    BackfillBlocks,
    /// Report the failure to range sync, then update the sync state.
    RangeError,
    /// Report the failure to backfill; update the sync state if that fails.
    BackfillError,
}

pub open spec fn spec_range_components_action(ok: bool, requester: RangeRequester) -> RangeComponentsAction {
    match requester {
        RangeRequester::RangeSync => if ok {
            RangeComponentsAction::RangeBlocks
        } else {
            RangeComponentsAction::RangeError
        },
        RangeRequester::BackfillSync => if ok {
            RangeComponentsAction::BackfillBlocks
        } else {
            RangeComponentsAction::BackfillError
        },
    }
}

/// Routes the components of a range request by who asked and whether they
/// came.
pub fn on_range_components_response(ok: bool, requester: RangeRequester) -> (r: RangeComponentsAction)
    ensures
        r == spec_range_components_action(ok, requester),
{
    match requester {
        RangeRequester::RangeSync => if ok {
            RangeComponentsAction::RangeBlocks
        } else {
            RangeComponentsAction::RangeError
        },
        RangeRequester::BackfillSync => if ok {
            RangeComponentsAction::BackfillBlocks
        } else {
            RangeComponentsAction::BackfillError
        },
    }
}

/// How a peer's chain compares to ours.
#[derive(Clone, Copy, Debug, PartialEq, Eq, Structural)]
pub enum PeerSyncType {
    FullySynced,
    Advanced,
    Behind,
}

/// What the manager does for a peer that has just told its status.
#[derive(Clone, Copy, Debug, PartialEq, Eq, Structural)]
pub enum AddPeerAction {
    Nothing,
    RangeSync,
    LookUpHead,
}

pub open spec fn spec_add_peer_action(connected: bool, sync_type: PeerSyncType, head_known: bool) -> AddPeerAction {
    if !connected {
        AddPeerAction::Nothing
    } else {
        match sync_type {
            PeerSyncType::Behind => AddPeerAction::Nothing,
            PeerSyncType::Advanced => AddPeerAction::RangeSync,
            PeerSyncType::FullySynced => if head_known {
                AddPeerAction::Nothing
            } else {
                AddPeerAction::LookUpHead
            },
        }
    }
}

/// A connected peer ahead of us starts range sync; a synced one whose head
/// fork choice does not know makes us look that head up.
pub fn add_peer_action(connected: bool, sync_type: PeerSyncType, head_known: bool) -> (r: AddPeerAction)
    ensures
        r == spec_add_peer_action(connected, sync_type, head_known),
{
    if !connected {
        return AddPeerAction::Nothing;
    }
    match sync_type {
        PeerSyncType::Behind => AddPeerAction::Nothing,
        PeerSyncType::Advanced => AddPeerAction::RangeSync,
        PeerSyncType::FullySynced => if head_known {
            AddPeerAction::Nothing
        } else {
            AddPeerAction::LookUpHead
        },
    }
}

/// What a node knows of a chain.
pub struct SyncInfo {
    pub head_slot: u64,
    pub head_root: Vec<u8>,
    pub finalized_epoch: u64,
    pub finalized_root: Vec<u8>,
}

/// The status that peers are assumed to have when range sync is forced
/// towards `head_root`: our finalized checkpoint (so that a head chain
/// syncs) and the given head slot, or ours where it is not known.
pub fn force_range_sync_remote(local: &SyncInfo, head_root: &Vec<u8>, head_slot: Option<u64>) -> (r: SyncInfo)
    ensures
        r.head_slot == match head_slot {
            Some(s) => s,
            None => local.head_slot,
        },
        r.head_root@ == head_root@,
        r.finalized_epoch == local.finalized_epoch,
        r.finalized_root@ == local.finalized_root@,
{
    SyncInfo {
        head_slot: match head_slot {
            Some(s) => s,
            None => local.head_slot,
        },
        head_root: copy_bytes(head_root),
        finalized_epoch: local.finalized_epoch,
        finalized_root: copy_bytes(&local.finalized_root),
    }
}

/// What the manager learns when it records a peer's new sync status.
#[derive(Clone, Copy, Debug, PartialEq, Eq, Structural)]
pub struct PeerStatusUpdate {
    /// The peer is still connected.
    pub connected: bool,
    /// The backfill must learn that a synced peer joined.
    pub synced_peer_joined: bool,
}

/// An update of a peer that the peer database does not know leaves it
/// disconnected; one that changed the peer's state to synced tells backfill.
pub fn update_peer_sync_state(was_updated: Option<bool>, is_connected: bool, new_state_synced: bool) -> (r: PeerStatusUpdate)
    ensures
        r.connected == (was_updated is Some && is_connected),
        r.synced_peer_joined == (was_updated == Some(true) && new_state_synced),
{
    match was_updated {
        Some(updated) => PeerStatusUpdate { connected: is_connected, synced_peer_joined: updated && new_state_synced },
        None => PeerStatusUpdate { connected: false, synced_peer_joined: false },
    }
}

/// The state of the execution engine.
#[derive(Clone, Copy, Debug, PartialEq, Eq, Structural)]
pub enum EngineState {
    Online,
    Offline,
}

/// What a change of the execution engine's state asks of the manager.
#[derive(Clone, Copy, Debug, PartialEq, Eq, Structural)]
pub enum EngineStateAction {
    /// Resume range sync.
    ResumeRangeSync,
    /// Drop the single block requests.
    DropSingleBlockRequests,
}

/// Online resumes range sync; offline drops the single block lookups.
pub fn handle_new_execution_engine_state(state: EngineState) -> (r: EngineStateAction)
    ensures
        r == (match state {
            EngineState::Online => EngineStateAction::ResumeRangeSync,
            EngineState::Offline => EngineStateAction::DropSingleBlockRequests,
        }),
{
    match state {
        EngineState::Online => EngineStateAction::ResumeRangeSync,
        EngineState::Offline => EngineStateAction::DropSingleBlockRequests,
    }
}

/// Who asked for columns by root.
#[derive(Clone, Copy, Debug, PartialEq, Eq, Structural)]
pub enum ColumnsByRootRequester {
    Sampling,
    Custody,
}

/// Where a response of columns by root goes.
#[derive(Clone, Copy, Debug, PartialEq, Eq, Structural)]
pub enum ColumnsByRootRoute {
    /// To sampling, whose result (if any) is then handled.
    Sampling,
    /// To the custody request, whose result (if any) goes to the lookups.
    Custody,
}

/// Columns asked for by sampling go to sampling, the others to custody.
pub fn on_data_columns_by_root_response(requester: ColumnsByRootRequester) -> (r: ColumnsByRootRoute)
    ensures
        r == (match requester {
            ColumnsByRootRequester::Sampling => ColumnsByRootRoute::Sampling,
            ColumnsByRootRequester::Custody => ColumnsByRootRoute::Custody,
        }),
{
    match requester {
        ColumnsByRootRequester::Sampling => ColumnsByRootRoute::Sampling,
        ColumnsByRootRequester::Custody => ColumnsByRootRoute::Custody,
    }
}

/// What follows the sampling of an imported block.
#[derive(Clone, Copy, Debug, PartialEq, Eq, Structural)]
pub enum SamplingOutcome {
    /// Tell fork choice that the block's branch is safe.
    NotifyCompleted,
    /// Only report the failure.
    ReportFailure,
}

/// A successful sampling marks the block safe; a failed one is reported.
pub fn on_sampling_result(ok: bool) -> (r: SamplingOutcome)
    ensures
        r == (if ok {
            SamplingOutcome::NotifyCompleted
        } else {
            SamplingOutcome::ReportFailure
        }),
{
    if ok {
        SamplingOutcome::NotifyCompleted
    } else {
        SamplingOutcome::ReportFailure
    }
}

} // verus!
