//! The operations that a block carries.
use vstd::prelude::*;

verus! {

/// A request from the execution layer to withdraw from, or exit, a validator.
pub struct WithdrawalRequest {
    pub source_address: Vec<u8>,
    pub validator_pubkey: Vec<u8>,
    pub amount: u64,
}

pub struct WithdrawalRequestView {
    pub source_address: Seq<u8>,
    pub validator_pubkey: Seq<u8>,
    pub amount: u64,
}

impl View for WithdrawalRequest {
    type V = WithdrawalRequestView;

    open spec fn view(&self) -> WithdrawalRequestView {
        WithdrawalRequestView {
            source_address: self.source_address@,
            validator_pubkey: self.validator_pubkey@,
            amount: self.amount,
        }
    }
}

/// A request from the execution layer to deposit to a validator.
pub struct DepositRequest {
    pub pubkey: Vec<u8>,
    pub withdrawal_credentials: Vec<u8>,
    pub amount: u64,
    pub signature: Vec<u8>,
    pub index: u64,
}

pub struct DepositRequestView {
    pub pubkey: Seq<u8>,
    pub withdrawal_credentials: Seq<u8>,
    pub amount: u64,
    pub signature: Seq<u8>,
    pub index: u64,
}

impl View for DepositRequest {
    type V = DepositRequestView;

    open spec fn view(&self) -> DepositRequestView {
        DepositRequestView {
            pubkey: self.pubkey@,
            withdrawal_credentials: self.withdrawal_credentials@,
            amount: self.amount,
            signature: self.signature@,
            index: self.index,
        }
    }
}

/// A request from the execution layer to consolidate one validator into
/// another, or to switch a validator to compounding credentials.
pub struct ConsolidationRequest {
    pub source_address: Vec<u8>,
    pub source_pubkey: Vec<u8>,
    pub target_pubkey: Vec<u8>,
}

pub struct ConsolidationRequestView {
    pub source_address: Seq<u8>,
    pub source_pubkey: Seq<u8>,
    pub target_pubkey: Seq<u8>,
}

impl View for ConsolidationRequest {
    type V = ConsolidationRequestView;

    open spec fn view(&self) -> ConsolidationRequestView {
        ConsolidationRequestView {
            source_address: self.source_address@,
            source_pubkey: self.source_pubkey@,
            target_pubkey: self.target_pubkey@,
        }
    }
}

} // verus!

verus! {

/// Whether block processing checks signatures.
#[derive(Clone, Copy, Debug, PartialEq, Eq, Structural)]
pub enum VerifySignatures {
    True,
    False,
}

impl VerifySignatures {
    pub fn is_true(&self) -> (r: bool)
        ensures
            r == (*self == VerifySignatures::True),
    {
        match self {
            VerifySignatures::True => true,
            VerifySignatures::False => false,
        }
    }
}

/// A validator's message that it wants to exit.
#[derive(Clone, Copy, Debug, PartialEq, Eq, Structural)]
pub struct VoluntaryExit {
    pub epoch: u64,
    pub validator_index: u64,
}

pub struct SignedVoluntaryExit {
    pub message: VoluntaryExit,
    pub signature: Vec<u8>,
}

pub struct SignedVoluntaryExitView {
    pub message: VoluntaryExit,
    pub signature: Seq<u8>,
}

impl View for SignedVoluntaryExit {
    type V = SignedVoluntaryExitView;

    open spec fn view(&self) -> SignedVoluntaryExitView {
        SignedVoluntaryExitView { message: self.message, signature: self.signature@ }
    }
}

/// A message to replace BLS withdrawal credentials by an execution address.
pub struct BlsToExecutionChange {
    pub validator_index: u64,
    pub from_bls_pubkey: Vec<u8>,
    pub to_execution_address: Vec<u8>,
}

pub struct BlsToExecutionChangeView {
    pub validator_index: u64,
    pub from_bls_pubkey: Seq<u8>,
    pub to_execution_address: Seq<u8>,
}

impl View for BlsToExecutionChange {
    type V = BlsToExecutionChangeView;

    open spec fn view(&self) -> BlsToExecutionChangeView {
        BlsToExecutionChangeView {
            validator_index: self.validator_index,
            from_bls_pubkey: self.from_bls_pubkey@,
            to_execution_address: self.to_execution_address@,
        }
    }
}

pub struct SignedBlsToExecutionChange {
    pub message: BlsToExecutionChange,
    pub signature: Vec<u8>,
}

pub struct SignedBlsToExecutionChangeView {
    pub message: BlsToExecutionChangeView,
    pub signature: Seq<u8>,
}

impl View for SignedBlsToExecutionChange {
    type V = SignedBlsToExecutionChangeView;

    open spec fn view(&self) -> SignedBlsToExecutionChangeView {
        SignedBlsToExecutionChangeView { message: self.message@, signature: self.signature@ }
    }
}

/// The data of a deposit to the deposit contract.
pub struct DepositData {
    pub pubkey: Vec<u8>,
    pub withdrawal_credentials: Vec<u8>,
    pub amount: u64,
    pub signature: Vec<u8>,
}

pub struct DepositDataView {
    pub pubkey: Seq<u8>,
    pub withdrawal_credentials: Seq<u8>,
    pub amount: u64,
    pub signature: Seq<u8>,
}

impl View for DepositData {
    type V = DepositDataView;

    open spec fn view(&self) -> DepositDataView {
        DepositDataView {
            pubkey: self.pubkey@,
            withdrawal_credentials: self.withdrawal_credentials@,
            amount: self.amount,
            signature: self.signature@,
        }
    }
}

/// A deposit with the merkle branch that proves it against the deposit root.
pub struct Deposit {
    pub proof: Vec<Vec<u8>>,
    pub data: DepositData,
}

pub struct DepositView {
    pub proof: Seq<Seq<u8>>,
    pub data: DepositDataView,
}

impl View for Deposit {
    type V = DepositView;

    open spec fn view(&self) -> DepositView {
        DepositView { proof: self.proof@.map_values(|b: Vec<u8>| b@), data: self.data@ }
    }
}

/// A block header.
pub struct BeaconBlockHeader {
    pub slot: u64,
    pub proposer_index: u64,
    pub parent_root: Vec<u8>,
    pub state_root: Vec<u8>,
    pub body_root: Vec<u8>,
}

pub struct BeaconBlockHeaderView {
    pub slot: u64,
    pub proposer_index: u64,
    pub parent_root: Seq<u8>,
    pub state_root: Seq<u8>,
    pub body_root: Seq<u8>,
}

impl View for BeaconBlockHeader {
    type V = BeaconBlockHeaderView;

    open spec fn view(&self) -> BeaconBlockHeaderView {
        BeaconBlockHeaderView {
            slot: self.slot,
            proposer_index: self.proposer_index,
            parent_root: self.parent_root@,
            state_root: self.state_root@,
            body_root: self.body_root@,
        }
    }
}

pub struct SignedBeaconBlockHeader {
    pub message: BeaconBlockHeader,
    pub signature: Vec<u8>,
}

pub struct SignedBeaconBlockHeaderView {
    pub message: BeaconBlockHeaderView,
    pub signature: Seq<u8>,
}

impl View for SignedBeaconBlockHeader {
    type V = SignedBeaconBlockHeaderView;

    open spec fn view(&self) -> SignedBeaconBlockHeaderView {
        SignedBeaconBlockHeaderView { message: self.message@, signature: self.signature@ }
    }
}

/// Two signed headers by one proposer for one slot.
pub struct ProposerSlashing {
    pub signed_header_1: SignedBeaconBlockHeader,
    pub signed_header_2: SignedBeaconBlockHeader,
}

pub struct ProposerSlashingView {
    pub signed_header_1: SignedBeaconBlockHeaderView,
    pub signed_header_2: SignedBeaconBlockHeaderView,
}

impl View for ProposerSlashing {
    type V = ProposerSlashingView;

    open spec fn view(&self) -> ProposerSlashingView {
        ProposerSlashingView {
            signed_header_1: self.signed_header_1@,
            signed_header_2: self.signed_header_2@,
        }
    }
}

/// What block processing knows of the block beyond its operations.
#[derive(Clone, Copy, Debug, PartialEq, Eq, Structural)]
pub struct ConsensusContext {
    /// The index of the validator that proposed the block.
    pub proposer_index: u64,
}

/// An epoch and the root of the block that starts it.
pub struct Checkpoint {
    pub epoch: u64,
    pub root: Vec<u8>,
}

pub struct CheckpointView {
    pub epoch: u64,
    pub root: Seq<u8>,
}

impl View for Checkpoint {
    type V = CheckpointView;

    open spec fn view(&self) -> CheckpointView {
        CheckpointView { epoch: self.epoch, root: self.root@ }
    }
}

/// What an attestation votes for.
pub struct AttestationData {
    pub slot: u64,
    pub index: u64,
    pub beacon_block_root: Vec<u8>,
    pub source: Checkpoint,
    pub target: Checkpoint,
}

pub struct AttestationDataView {
    pub slot: u64,
    pub index: u64,
    pub beacon_block_root: Seq<u8>,
    pub source: CheckpointView,
    pub target: CheckpointView,
}

impl View for AttestationData {
    type V = AttestationDataView;

    open spec fn view(&self) -> AttestationDataView {
        AttestationDataView {
            slot: self.slot,
            index: self.index,
            beacon_block_root: self.beacon_block_root@,
            source: self.source@,
            target: self.target@,
        }
    }
}

} // verus!
