//! Records that the Lighthouse-specific HTTP endpoints return, and the eth1
//! block conversions they rest on.
use vstd::prelude::*;
use crate::beacon_state::{Eth1Data, copy_bytes};
use crate::operations::DepositData;
use crate::signing::{concat, hash, le_bytes, sha256, zero_bytes};

verus! {

/// Information returned by `peers` and `connected_peers`.
pub struct Peer<P> {
    /// The Peer's ID
    pub peer_id: String,
    /// What the network layer knows of the peer.
    pub peer_info: P,
}

/// The results of validators voting during an epoch.
///
/// Provides information about the current and previous epochs.
#[derive(Clone, Copy, Debug, PartialEq, Eq, Structural)]
pub struct GlobalValidatorInclusionData {
    /// The total effective balance of all active validators during the _current_ epoch.
    pub current_epoch_active_gwei: u64,
    /// The total effective balance of all validators who attested during the _current_ epoch and
    /// agreed with the state about the beacon block at the first slot of the _current_ epoch.
    pub current_epoch_target_attesting_gwei: u64,
    /// The total effective balance of all validators who attested during the _previous_ epoch and
    /// agreed with the state about the beacon block at the first slot of the _previous_ epoch.
    pub previous_epoch_target_attesting_gwei: u64,
    /// The total effective balance of all validators who attested during the _previous_ epoch and
    /// agreed with the state about the beacon block at the time of attestation.
    pub previous_epoch_head_attesting_gwei: u64,
}

/// How one validator did in an epoch.
#[derive(Clone, Copy, Debug, PartialEq, Eq, Structural)]
pub struct ValidatorInclusionData {
    /// True if the validator has been slashed, ever.
    pub is_slashed: bool,
    /// True if the validator can withdraw in the current epoch.
    pub is_withdrawable_in_current_epoch: bool,
    /// True if the validator was active and not slashed in the state's _current_ epoch.
    pub is_active_unslashed_in_current_epoch: bool,
    /// True if the validator was active and not slashed in the state's _previous_ epoch.
    pub is_active_unslashed_in_previous_epoch: bool,
    /// The validator's effective balance in the _current_ epoch.
    pub current_epoch_effective_balance_gwei: u64,
    /// True if the validator's beacon block root attestation for the first slot of the _current_
    /// epoch matches the block root known to the state.
    pub is_current_epoch_target_attester: bool,
    /// True if the validator's beacon block root attestation for the first slot of the _previous_
    /// epoch matches the block root known to the state.
    pub is_previous_epoch_target_attester: bool,
    /// True if the validator's beacon block root attestation in the _previous_ epoch at the
    /// attestation's slot (`attestation_data.slot`) matches the block root known to the state.
    pub is_previous_epoch_head_attester: bool,
}

/// Process specific health
#[derive(Clone, Copy, Debug, PartialEq, Eq, Structural)]
pub struct ProcessHealth {
    /// The pid of this process.
    pub pid: u32,
    /// The number of threads used by this pid.
    pub pid_num_threads: i64,
    /// The total resident memory used by this pid.
    pub pid_mem_resident_set_size: u64,
    /// The total virtual memory used by this pid.
    pub pid_mem_virtual_memory_size: u64,
    /// The total shared memory used by this pid.
    pub pid_mem_shared_memory_size: u64,
    /// Number of cpu seconds consumed by this pid.
    pub pid_process_seconds_total: u64,
}

/// A fully parsed eth1 deposit contract log.
pub struct DepositLog {
    pub deposit_data: DepositData,
    /// The block number of the log that included this `DepositData`.
    pub block_number: u64,
    /// The index included with the deposit log.
    pub index: u64,
    /// True if the signature is valid.
    pub signature_is_valid: bool,
}

/// The state of the database, with the store's own records.
pub struct DatabaseInfo<Config, Split, Anchor, Blobs> {
    pub schema_version: u64,
    pub config: Config,
    pub split: Split,
    pub anchor: Anchor,
    pub blob_info: Blobs,
}

/// A block of the eth1 chain.
pub struct Eth1Block {
    pub hash: Vec<u8>,
    pub timestamp: u64,
    pub number: u64,
    pub deposit_root: Option<Vec<u8>>,
    pub deposit_count: Option<u64>,
}

/// The eth1 data that a block gives, when it knows its deposit root and
/// count.
pub open spec fn eth1_block_data(b: Eth1Block) -> Option<(Seq<u8>, u64, Seq<u8>)> {
    match (b.deposit_root, b.deposit_count) {
        (Some(root), Some(count)) => Some((root@, count, b.hash@)),
        _ => None,
    }
}

impl Eth1Block {
    /// The eth1 data of the block: its deposit root and count, and its hash.
    pub fn eth1_data(self) -> (r: Option<Eth1Data>)
        ensures
            match eth1_block_data(self) {
                Some((root, count, block_hash)) => r matches Some(d) && d.deposit_root@ == root
                    && d.deposit_count == count && d.block_hash@ == block_hash,
                None => r is None,
            },
    {
        match (self.deposit_root, self.deposit_count) {
            (Some(deposit_root), Some(deposit_count)) => Some(
                Eth1Data { deposit_root, deposit_count, block_hash: self.hash },
            ),
            _ => None,
        }
    }
}

/// The root of a merkle tree of `height` levels of zero leaves.
pub open spec fn zero_hash(height: nat) -> Seq<u8>
    decreases height,
{
    if height == 0 {
        Seq::new(32, |i: int| 0u8)
    } else {
        sha256(zero_hash((height - 1) as nat) + zero_hash((height - 1) as nat))
    }
}

/// The depth of the deposit contract's tree.
pub const DEPOSIT_TREE_DEPTH: usize = 32;

/// The root of the empty deposit tree, its length (zero) mixed in.
pub open spec fn empty_deposit_root() -> Seq<u8> {
    sha256(zero_hash(DEPOSIT_TREE_DEPTH as nat) + le_bytes(0, 32))
}

/// The deposit root of an empty deposit tree.
pub fn compute_empty_deposit_root() -> (r: Vec<u8>)
    ensures
        r@ == empty_deposit_root(),
{
    let mut node = zero_bytes(32);
    assert(node@ =~= zero_hash(0));
    let mut height: usize = 0;
    while height < DEPOSIT_TREE_DEPTH
        invariant
            height <= DEPOSIT_TREE_DEPTH,
            node@ == zero_hash(height as nat),
        decreases DEPOSIT_TREE_DEPTH - height,
    {
        node = hash(&concat(&node, &node));
        height = height + 1;
    }
    let length = zero_bytes(32);
    assert(length@ =~= le_bytes(0, 32)) by {
        lemma_le_bytes_zero(32);
    }
    hash(&concat(&node, &length))
}

proof fn lemma_le_bytes_zero(n: nat)
    ensures
        le_bytes(0, n) =~= Seq::new(n, |i: int| 0u8),
    decreases n,
{
    if n > 0 {
        lemma_le_bytes_zero((n - 1) as nat);
    }
}

/// A finalized block of the execution chain, as the deposit tree records it.
pub struct FinalizedExecutionBlock {
    pub deposit_root: Vec<u8>,
    pub deposit_count: u64,
    pub block_hash: Vec<u8>,
    pub block_height: u64,
}

impl FinalizedExecutionBlock {
    /// The finalized block of an eth1 block: no deposits and the empty
    /// deposit root where the block does not know them.
    pub fn from_eth1_block(eth1_block: Eth1Block) -> (r: FinalizedExecutionBlock)
        ensures
            r.deposit_count == match eth1_block.deposit_count {
                Some(c) => c,
                None => 0,
            },
            r.deposit_root@ == match eth1_block.deposit_root {
                Some(root) => root@,
                None => empty_deposit_root(),
            },
            r.block_hash@ == eth1_block.hash@,
            r.block_height == eth1_block.number,
    {
        FinalizedExecutionBlock {
            deposit_count: match eth1_block.deposit_count {
                Some(c) => c,
                None => 0,
            },
            deposit_root: match eth1_block.deposit_root {
                Some(root) => root,
                None => compute_empty_deposit_root(),
            },
            block_hash: eth1_block.hash,
            block_height: eth1_block.number,
        }
    }
}

} // verus!
