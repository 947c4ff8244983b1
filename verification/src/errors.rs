//! Errors of the block-processing state transition.
use vstd::prelude::*;

verus! {

/// Failure of a checked arithmetic operation.
/// Why an operation on the beacon state failed.
#[derive(Clone, Copy, Debug, PartialEq, Eq, Structural)]
pub enum BeaconStateError {
    /// The state is not of the fork that the operation needs.
    IncorrectStateVariant,
}

#[derive(Clone, Copy, Debug, PartialEq, Eq, Structural)]
pub enum ArithError {
    Overflow,
    DivisionByZero,
}

/// Why processing a block's operations failed.
#[derive(Clone, Copy, Debug, PartialEq, Eq, Structural)]
pub enum BlockProcessingError {
    /// A checked arithmetic operation failed.
    ArithError(ArithError),
    /// The state does not have the field for its fork.
    IncorrectStateVariant,
    /// A validator index does not name a validator.
    UnknownValidator(u64),
    /// A balance index does not name a balance.
    BalancesOutOfBounds(u64),
    /// A bounded list in the state is full.
    ListFull,
    /// The block holds the wrong number of deposits.
    DepositCountInvalid { expected: u64, found: u64 },
    /// The voluntary exit at `index` is invalid.
    ExitInvalid { index: u64, reason: ExitInvalid },
    /// The credential change at `index` is invalid.
    BlsExecutionChangeInvalid { index: u64, reason: BlsExecutionChangeInvalid },
    /// The deposit at `index` is invalid.
    DepositInvalid { index: u64, reason: DepositInvalid },
    /// The proposer slashing at `index` is invalid.
    ProposerSlashingInvalid { index: u64, reason: ProposerSlashingInvalid },
    AttesterSlashingInvalid { index: u64, reason: AttesterSlashingInvalid },
    AttestationInvalid { index: u64, reason: AttestationInvalid },
    /// The committees of an attestation could not be had.
    CommitteeError(CommitteeError),
    /// A base-format attestation step met an Electra attestation.
    PendingAttestationInElectra,
    /// An attestation's source is not the justified checkpoint.
    IncorrectAttestationSource,
    /// A validator has no participation record.
    ParticipationOutOfBounds(u64),
    /// A block root was asked for a slot the state does not remember.
    SlotOutOfBounds,
    /// A key of the sync committee belongs to no validator.
    PubkeyCacheInconsistent,
    /// The sync committee's aggregate signature does not verify.
    SyncAggregateSignatureInvalid,
}

/// Why a voluntary exit is invalid.
#[derive(Clone, Copy, Debug, PartialEq, Eq, Structural)]
pub enum ExitInvalid {
    ValidatorUnknown(u64),
    NotActive(u64),
    AlreadyExited(u64),
    FutureEpoch { state: u64, exit: u64 },
    TooYoungToExit { current_epoch: u64, earliest_exit_epoch: u64 },
    BadSignature,
    PendingWithdrawalInQueue(u64),
}

/// Why a change of BLS withdrawal credentials to an execution address is
/// invalid.
#[derive(Clone, Copy, Debug, PartialEq, Eq, Structural)]
pub enum BlsExecutionChangeInvalid {
    ValidatorUnknown(u64),
    NonBlsWithdrawalCredentials,
    WithdrawalCredentialsMismatch,
    BadSignature,
}

/// Why a deposit is invalid.
#[derive(Clone, Copy, Debug, PartialEq, Eq, Structural)]
pub enum DepositInvalid {
    BadMerkleProof,
}

/// Why a proposer slashing is invalid.
#[derive(Clone, Copy, Debug, PartialEq, Eq, Structural)]
pub enum ProposerSlashingInvalid {
    ProposalSlotMismatch(u64, u64),
    ProposerIndexMismatch(u64, u64),
    ProposalsIdentical,
    ProposerUnknown(u64),
    ProposerNotSlashable(u64),
    BadProposal1Signature,
    BadProposal2Signature,
}

/// Why an indexed attestation is invalid.
#[derive(Clone, Copy, Debug, PartialEq, Eq, Structural)]
pub enum IndexedAttestationInvalid {
    /// No validator attests.
    IndicesEmpty,
    /// The indices are not strictly increasing at this position.
    BadValidatorIndicesOrdering(u64),
    /// An attesting index is not a validator.
    UnknownValidator(u64),
    /// The aggregate signature does not verify.
    BadSignature,
}

/// Why an attester slashing is invalid.
#[derive(Clone, Copy, Debug, PartialEq, Eq, Structural)]
pub enum AttesterSlashingInvalid {
    /// The two attestations are neither a double vote nor a surround vote.
    NotSlashable,
    IndexedAttestation1Invalid(IndexedAttestationInvalid),
    IndexedAttestation2Invalid(IndexedAttestationInvalid),
    /// A validator in both attestations does not exist.
    UnknownValidator(u64),
    /// No validator in both attestations can be slashed.
    NoSlashableIndices,
}

/// Why the committees asked for cannot be had.
#[derive(Clone, Copy, Debug, PartialEq, Eq, Structural)]
pub enum CommitteeError {
    /// The epoch is neither the previous, the current nor the next one.
    EpochOutOfBounds,
    /// The committees of the epoch have not been computed.
    CommitteeCacheUninitialized,
    /// The slot has no committee of that index.
    NoCommittee { slot: u64, index: u64 },
    /// The aggregation bits do not match the committees.
    InvalidBitfield,
    /// A committee named by an Electra attestation has no attester.
    EmptyCommittee,
    /// An Electra attestation names a committee that the slot does not have.
    NoCommitteeFound(u64),
}

/// Why an attestation cannot be included in a block.
#[derive(Clone, Copy, Debug, PartialEq, Eq, Structural)]
pub enum AttestationInvalid {
    /// Included before the minimum inclusion delay passed.
    IncludedTooEarly { state: u64, delay: u64, attestation: u64 },
    /// Included more than an epoch after its slot (before Deneb).
    IncludedTooLate { state: u64, attestation: u64 },
    /// The committee index is not one of the slot's.
    BadCommitteeIndex,
    /// The target epoch is not the epoch of the slot.
    TargetEpochSlotMismatch { target_epoch: u64, slot_epoch: u64 },
    /// The source is not the justified checkpoint of the target's epoch.
    WrongJustifiedCheckpoint { is_current: bool },
    /// The target is neither the current nor the previous epoch.
    BadTargetEpoch,
    /// The attestation by index is invalid.
    BadIndexedAttestation(IndexedAttestationInvalid),
}

} // verus!
