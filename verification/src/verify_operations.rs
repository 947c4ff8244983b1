//! Validity of the signed operations of a block.
use vstd::prelude::*;
use crate::spec::ChainSpec;
use crate::errors::{
    ArithError, BlockProcessingError, BlsExecutionChangeInvalid, ExitInvalid,
    ProposerSlashingInvalid,
};
use crate::beacon_state::{
    BeaconState, Fork, StateView, ValidatorView, bytes_eq, current_epoch, is_active_at,
    BLS_WITHDRAWAL_PREFIX,
};
use crate::churn::overflow;
use crate::common::pending_balance_to_withdraw;
use crate::operations::{
    BeaconBlockHeader, BeaconBlockHeaderView, BlsToExecutionChange, BlsToExecutionChangeView,
    DepositData, DepositDataView, ProposerSlashing, ProposerSlashingView,
    SignedBlsToExecutionChange, SignedBlsToExecutionChangeView, SignedVoluntaryExit,
    SignedVoluntaryExitView, VerifySignatures, VoluntaryExit,
};
use crate::signing::{
    bls_signature_valid, bls_verify, compute_domain, compute_domain_bytes, compute_signing_root,
    concat, hash, merkle_root, sha256, signing_root, tree_hash_merkle_root, u64_root,
    u64_root_bytes, zero_bytes, DOMAIN_BEACON_PROPOSER, DOMAIN_BLS_TO_EXECUTION_CHANGE,
    DOMAIN_DEPOSIT, DOMAIN_VOLUNTARY_EXIT,
};

verus! {

/// The fork version in force at `epoch`.
pub open spec fn fork_version_at(f: Fork, epoch: u64) -> Seq<u8> {
    if epoch < f.epoch {
        f.previous_version@
    } else {
        f.current_version@
    }
}

pub open spec fn voluntary_exit_root(e: VoluntaryExit) -> Seq<u8> {
    merkle_root(u64_root(e.epoch) + u64_root(e.validator_index), 0)
}

/// The domain of exit signatures: from Deneb on, always that of Capella.
pub open spec fn exit_domain(s: StateView, e: VoluntaryExit, c: ChainSpec) -> Seq<u8> {
    if s.fork_name.index() >= 4 {
        compute_domain(DOMAIN_VOLUNTARY_EXIT, c.capella_fork_version@, s.genesis_validators_root)
    } else {
        compute_domain(DOMAIN_VOLUNTARY_EXIT, fork_version_at(s.fork, e.epoch), s.genesis_validators_root)
    }
}

/// Why a voluntary exit is invalid in `s`, if it is; `Err` where its epoch
/// arithmetic overflows.
pub open spec fn exit_validity(
    s: StateView,
    se: SignedVoluntaryExitView,
    verify: bool,
    c: ChainSpec,
) -> Result<Option<ExitInvalid>, BlockProcessingError> {
    let e = se.message;
    let i = e.validator_index;
    let epoch = current_epoch(s, c);
    if i >= s.validators.len() {
        Ok(Some(ExitInvalid::ValidatorUnknown(i)))
    } else {
        let v = s.validators[i as int];
        if !is_active_at(v, epoch) {
            Ok(Some(ExitInvalid::NotActive(i)))
        } else if v.exit_epoch != c.far_future_epoch {
            Ok(Some(ExitInvalid::AlreadyExited(i)))
        } else if epoch < e.epoch {
            Ok(Some(ExitInvalid::FutureEpoch { state: epoch, exit: e.epoch }))
        } else if v.activation_epoch + c.shard_committee_period > u64::MAX {
            overflow()
        } else if epoch < v.activation_epoch + c.shard_committee_period {
            Ok(
                Some(
                    ExitInvalid::TooYoungToExit {
                        current_epoch: epoch,
                        earliest_exit_epoch: (v.activation_epoch + c.shard_committee_period) as u64,
                    },
                ),
            )
        } else if verify && !bls_signature_valid(
            v.pubkey,
            signing_root(voluntary_exit_root(e), exit_domain(s, e, c)),
            se.signature,
        ) {
            Ok(Some(ExitInvalid::BadSignature))
        } else {
            match pending_balance_to_withdraw(s, i as nat) {
                Ok(p) => if p != 0 {
                    Ok(Some(ExitInvalid::PendingWithdrawalInQueue(i)))
                } else {
                    Ok(None)
                },
                Err(_) => Ok(None),
            }
        }
    }
}

pub fn voluntary_exit_root_bytes(e: &VoluntaryExit) -> (r: Vec<u8>)
    ensures
        r@ == voluntary_exit_root(*e),
{
    let a = u64_root_bytes(e.epoch);
    let b = u64_root_bytes(e.validator_index);
    tree_hash_merkle_root(&concat(&a, &b), 0)
}

/// Checks a voluntary exit against the state.
pub fn verify_exit(
    state: &BeaconState,
    signed_exit: &SignedVoluntaryExit,
    verify_signatures: VerifySignatures,
    c: &ChainSpec,
) -> (r: Result<Option<ExitInvalid>, BlockProcessingError>)
    requires
        c.valid(),
    ensures
        r == exit_validity(state@, signed_exit@, verify_signatures == VerifySignatures::True, *c),
{
    let e = &signed_exit.message;
    let epoch = state.current_epoch(c);
    if e.validator_index >= state.validators.len() as u64 {
        return Ok(Some(ExitInvalid::ValidatorUnknown(e.validator_index)));
    }
    let i = e.validator_index as usize;
    let v = &state.validators[i];
    if !v.is_active_at(epoch) {
        return Ok(Some(ExitInvalid::NotActive(e.validator_index)));
    }
    if v.exit_epoch != c.far_future_epoch {
        return Ok(Some(ExitInvalid::AlreadyExited(e.validator_index)));
    }
    if epoch < e.epoch {
        return Ok(Some(ExitInvalid::FutureEpoch { state: epoch, exit: e.epoch }));
    }
    if v.activation_epoch > u64::MAX - c.shard_committee_period {
        return Err(BlockProcessingError::ArithError(ArithError::Overflow));
    }
    let earliest = v.activation_epoch + c.shard_committee_period;
    if epoch < earliest {
        return Ok(
            Some(ExitInvalid::TooYoungToExit { current_epoch: epoch, earliest_exit_epoch: earliest }),
        );
    }
    if verify_signatures.is_true() {
        let domain = if state.fork_name.deneb_enabled() {
            compute_domain_bytes(DOMAIN_VOLUNTARY_EXIT, &c.capella_fork_version, &state.genesis_validators_root)
        } else if e.epoch < state.fork.epoch {
            compute_domain_bytes(DOMAIN_VOLUNTARY_EXIT, &state.fork.previous_version, &state.genesis_validators_root)
        } else {
            compute_domain_bytes(DOMAIN_VOLUNTARY_EXIT, &state.fork.current_version, &state.genesis_validators_root)
        };
        let message = compute_signing_root(&voluntary_exit_root_bytes(e), &domain);
        if !bls_verify(&v.pubkey, &message, &signed_exit.signature) {
            return Ok(Some(ExitInvalid::BadSignature));
        }
    }
    match state.get_pending_balance_to_withdraw(i) {
        Ok(p) => if p != 0 {
            Ok(Some(ExitInvalid::PendingWithdrawalInQueue(e.validator_index)))
        } else {
            Ok(None)
        },
        Err(_) => Ok(None),
    }
}

pub open spec fn bls_to_execution_change_root(m: BlsToExecutionChangeView) -> Seq<u8> {
    merkle_root(
        u64_root(m.validator_index) + merkle_root(m.from_bls_pubkey, 0) + merkle_root(
            m.to_execution_address,
            0,
        ),
        0,
    )
}

/// Why a change of withdrawal credentials is invalid in `s`, if it is.
pub open spec fn bls_to_execution_change_validity(
    s: StateView,
    sc: SignedBlsToExecutionChangeView,
    verify: bool,
    c: ChainSpec,
) -> Option<BlsExecutionChangeInvalid> {
    let m = sc.message;
    let i = m.validator_index;
    if i >= s.validators.len() {
        Some(BlsExecutionChangeInvalid::ValidatorUnknown(i))
    } else {
        let v = s.validators[i as int];
        if v.withdrawal_credentials.len() == 0 || v.withdrawal_credentials[0] != BLS_WITHDRAWAL_PREFIX {
            Some(BlsExecutionChangeInvalid::NonBlsWithdrawalCredentials)
        } else if v.withdrawal_credentials.subrange(1, v.withdrawal_credentials.len() as int)
            != sha256(m.from_bls_pubkey).subrange(1, 32) {
            Some(BlsExecutionChangeInvalid::WithdrawalCredentialsMismatch)
        } else if verify && !bls_signature_valid(
            m.from_bls_pubkey,
            signing_root(
                bls_to_execution_change_root(m),
                compute_domain(
                    DOMAIN_BLS_TO_EXECUTION_CHANGE,
                    c.genesis_fork_version@,
                    s.genesis_validators_root,
                ),
            ),
            sc.signature,
        ) {
            Some(BlsExecutionChangeInvalid::BadSignature)
        } else {
            None
        }
    }
}

pub fn bls_to_execution_change_root_bytes(m: &BlsToExecutionChange) -> (r: Vec<u8>)
    ensures
        r@ == bls_to_execution_change_root(m@),
{
    let a = u64_root_bytes(m.validator_index);
    let b = tree_hash_merkle_root(&m.from_bls_pubkey, 0);
    let d = tree_hash_merkle_root(&m.to_execution_address, 0);
    let ab = concat(&a, &b);
    tree_hash_merkle_root(&concat(&ab, &d), 0)
}

/// Checks a change of withdrawal credentials against the state.
pub fn verify_bls_to_execution_change(
    state: &BeaconState,
    signed_change: &SignedBlsToExecutionChange,
    verify_signatures: VerifySignatures,
    c: &ChainSpec,
) -> (r: Option<BlsExecutionChangeInvalid>)
    ensures
        r == bls_to_execution_change_validity(
            state@,
            signed_change@,
            verify_signatures == VerifySignatures::True,
            *c,
        ),
{
    let m = &signed_change.message;
    if m.validator_index >= state.validators.len() as u64 {
        return Some(BlsExecutionChangeInvalid::ValidatorUnknown(m.validator_index));
    }
    let v = &state.validators[m.validator_index as usize];
    let creds = &v.withdrawal_credentials;
    if creds.len() == 0 || creds[0] != BLS_WITHDRAWAL_PREFIX {
        return Some(BlsExecutionChangeInvalid::NonBlsWithdrawalCredentials);
    }
    let pubkey_hash = hash(&m.from_bls_pubkey);
    if creds.len() != 32 {
        assert(creds@.subrange(1, creds@.len() as int).len() != pubkey_hash@.subrange(1, 32).len());
        return Some(BlsExecutionChangeInvalid::WithdrawalCredentialsMismatch);
    }
    let mut k: usize = 1;
    while k < 32
        invariant
            m.validator_index < state@.validators.len(),
            m@ == signed_change@.message,
            creds@ == state@.validators[m.validator_index as int].withdrawal_credentials,
            creds@[0] == BLS_WITHDRAWAL_PREFIX,
            pubkey_hash@ == sha256(m.from_bls_pubkey@),
            creds@.len() == 32,
            pubkey_hash@.len() == 32,
            1 <= k <= 32,
            forall|j: int| 1 <= j < k ==> creds@[j] == pubkey_hash@[j],
        decreases 32 - k,
    {
        if creds[k] != pubkey_hash[k] {
            assert(creds@.subrange(1, 32)[k - 1] != pubkey_hash@.subrange(1, 32)[k - 1]);
            assert(creds@.subrange(1, creds@.len() as int) != pubkey_hash@.subrange(1, 32));
            return Some(BlsExecutionChangeInvalid::WithdrawalCredentialsMismatch);
        }
        k = k + 1;
    }
    assert(creds@.subrange(1, 32) =~= pubkey_hash@.subrange(1, 32));
    if verify_signatures.is_true() {
        let domain = compute_domain_bytes(
            DOMAIN_BLS_TO_EXECUTION_CHANGE,
            &c.genesis_fork_version,
            &state.genesis_validators_root,
        );
        let message = compute_signing_root(&bls_to_execution_change_root_bytes(m), &domain);
        if !bls_verify(&m.from_bls_pubkey, &message, &signed_change.signature) {
            return Some(BlsExecutionChangeInvalid::BadSignature);
        }
    }
    None
}

} // verus!

verus! {

pub open spec fn deposit_message_root(d: DepositDataView) -> Seq<u8> {
    merkle_root(merkle_root(d.pubkey, 0) + d.withdrawal_credentials + u64_root(d.amount), 0)
}

pub open spec fn deposit_data_root(d: DepositDataView) -> Seq<u8> {
    merkle_root(
        merkle_root(d.pubkey, 0) + d.withdrawal_credentials + u64_root(d.amount) + merkle_root(
            d.signature,
            0,
        ),
        0,
    )
}

/// The root reached from `leaf` up the branch, with `index` choosing at each
/// level whether the node is a left or a right child.
pub open spec fn root_from_branch(leaf: Seq<u8>, branch: Seq<Seq<u8>>, index: nat) -> Seq<u8>
    decreases branch.len(),
{
    if branch.len() == 0 {
        leaf
    } else {
        let node = if index % 2 == 1 {
            sha256(branch[0] + leaf)
        } else {
            sha256(leaf + branch[0])
        };
        root_from_branch(node, branch.drop_first(), index / 2)
    }
}

/// The branch has `depth` nodes and leads from `leaf` at `index` to `root`.
pub open spec fn is_valid_merkle_branch(
    leaf: Seq<u8>,
    branch: Seq<Seq<u8>>,
    depth: nat,
    index: nat,
    root: Seq<u8>,
) -> bool {
    branch.len() == depth && root_from_branch(leaf, branch, index) == root
}

/// The signature of a deposit is valid: it signs the deposit message in the
/// deposit domain of the genesis fork.
pub open spec fn deposit_signature_valid(d: DepositDataView, c: ChainSpec) -> bool {
    bls_signature_valid(
        d.pubkey,
        signing_root(
            deposit_message_root(d),
            compute_domain(DOMAIN_DEPOSIT, c.genesis_fork_version@, Seq::new(32, |k: int| 0u8)),
        ),
        d.signature,
    )
}

pub fn deposit_message_root_bytes(d: &DepositData) -> (r: Vec<u8>)
    ensures
        r@ == deposit_message_root(d@),
{
    let a = tree_hash_merkle_root(&d.pubkey, 0);
    let ab = concat(&a, &d.withdrawal_credentials);
    let abc = concat(&ab, &u64_root_bytes(d.amount));
    tree_hash_merkle_root(&abc, 0)
}

pub fn deposit_data_root_bytes(d: &DepositData) -> (r: Vec<u8>)
    ensures
        r@ == deposit_data_root(d@),
{
    let a = tree_hash_merkle_root(&d.pubkey, 0);
    let ab = concat(&a, &d.withdrawal_credentials);
    let abc = concat(&ab, &u64_root_bytes(d.amount));
    let abcd = concat(&abc, &tree_hash_merkle_root(&d.signature, 0));
    tree_hash_merkle_root(&abcd, 0)
}

/// Checks a merkle branch.
pub fn verify_merkle_proof(
    leaf: &Vec<u8>,
    branch: &Vec<Vec<u8>>,
    depth: u64,
    index: u64,
    root: &Vec<u8>,
) -> (r: bool)
    ensures
        r == is_valid_merkle_branch(
            leaf@,
            branch@.map_values(|b: Vec<u8>| b@),
            depth as nat,
            index as nat,
            root@,
        ),
{
    let ghost bs = branch@.map_values(|b: Vec<u8>| b@);
    if branch.len() as u64 != depth {
        return false;
    }
    let mut node = crate::beacon_state::copy_bytes(leaf);
    let mut idx: u64 = index;
    let mut k: usize = 0;
    assert(bs.subrange(0, bs.len() as int) =~= bs);
    while k < branch.len()
        invariant
            bs == branch@.map_values(|b: Vec<u8>| b@),
            k <= branch.len(),
            root_from_branch(leaf@, bs, index as nat) == root_from_branch(
                node@,
                bs.subrange(k as int, bs.len() as int),
                idx as nat,
            ),
        decreases branch.len() - k,
    {
        let ghost rest = bs.subrange(k as int, bs.len() as int);
        assert(rest[0] == branch@[k as int]@);
        assert(rest.drop_first() =~= bs.subrange(k + 1, bs.len() as int));
        node = if idx % 2 == 1 {
            hash(&concat(&branch[k], &node))
        } else {
            hash(&concat(&node, &branch[k]))
        };
        idx = idx / 2;
        k = k + 1;
    }
    assert(bs.subrange(k as int, bs.len() as int) =~= Seq::<Seq<u8>>::empty());
    bytes_eq(&node, root)
}

/// Checks the signature of a deposit.
pub fn is_valid_deposit_signature(d: &DepositData, c: &ChainSpec) -> (r: bool)
    ensures
        r == deposit_signature_valid(d@, *c),
{
    let domain = compute_domain_bytes(DOMAIN_DEPOSIT, &c.genesis_fork_version, &zero_bytes(32));
    let message = compute_signing_root(&deposit_message_root_bytes(d), &domain);
    bls_verify(&d.pubkey, &message, &d.signature)
}

pub open spec fn beacon_block_header_root(h: BeaconBlockHeaderView) -> Seq<u8> {
    merkle_root(
        u64_root(h.slot) + u64_root(h.proposer_index) + h.parent_root + h.state_root + h.body_root,
        0,
    )
}

pub open spec fn is_slashable_at(v: ValidatorView, epoch: u64) -> bool {
    !v.slashed && v.activation_epoch <= epoch && epoch < v.withdrawable_epoch
}

/// The signature over a header is valid under the proposer domain of the
/// header's epoch.
pub open spec fn header_signature_valid(
    s: StateView,
    pubkey: Seq<u8>,
    h: BeaconBlockHeaderView,
    signature: Seq<u8>,
    c: ChainSpec,
) -> bool {
    bls_signature_valid(
        pubkey,
        signing_root(
            beacon_block_header_root(h),
            compute_domain(
                DOMAIN_BEACON_PROPOSER,
                fork_version_at(s.fork, (h.slot / c.slots_per_epoch) as u64),
                s.genesis_validators_root,
            ),
        ),
        signature,
    )
}

/// Why a proposer slashing is invalid in `s`, if it is.
pub open spec fn proposer_slashing_validity(
    s: StateView,
    ps: ProposerSlashingView,
    verify: bool,
    c: ChainSpec,
) -> Option<ProposerSlashingInvalid> {
    let h1 = ps.signed_header_1.message;
    let h2 = ps.signed_header_2.message;
    if h1.slot != h2.slot {
        Some(ProposerSlashingInvalid::ProposalSlotMismatch(h1.slot, h2.slot))
    } else if h1.proposer_index != h2.proposer_index {
        Some(ProposerSlashingInvalid::ProposerIndexMismatch(h1.proposer_index, h2.proposer_index))
    } else if h1 == h2 {
        Some(ProposerSlashingInvalid::ProposalsIdentical)
    } else if h1.proposer_index >= s.validators.len() {
        Some(ProposerSlashingInvalid::ProposerUnknown(h1.proposer_index))
    } else {
        let v = s.validators[h1.proposer_index as int];
        if !is_slashable_at(v, current_epoch(s, c)) {
            Some(ProposerSlashingInvalid::ProposerNotSlashable(h1.proposer_index))
        } else if verify && !header_signature_valid(s, v.pubkey, h1, ps.signed_header_1.signature, c) {
            Some(ProposerSlashingInvalid::BadProposal1Signature)
        } else if verify && !header_signature_valid(s, v.pubkey, h2, ps.signed_header_2.signature, c) {
            Some(ProposerSlashingInvalid::BadProposal2Signature)
        } else {
            None
        }
    }
}

pub fn beacon_block_header_root_bytes(h: &BeaconBlockHeader) -> (r: Vec<u8>)
    ensures
        r@ == beacon_block_header_root(h@),
{
    let a = concat(&u64_root_bytes(h.slot), &u64_root_bytes(h.proposer_index));
    let b = concat(&a, &h.parent_root);
    let d = concat(&b, &h.state_root);
    let e = concat(&d, &h.body_root);
    tree_hash_merkle_root(&e, 0)
}

fn verify_header_signature(
    state: &BeaconState,
    pubkey: &Vec<u8>,
    h: &BeaconBlockHeader,
    signature: &Vec<u8>,
    c: &ChainSpec,
) -> (r: bool)
    requires
        c.valid(),
    ensures
        r == header_signature_valid(state@, pubkey@, h@, signature@, *c),
{
    let epoch = h.slot / c.slots_per_epoch;
    let domain = if epoch < state.fork.epoch {
        compute_domain_bytes(DOMAIN_BEACON_PROPOSER, &state.fork.previous_version, &state.genesis_validators_root)
    } else {
        compute_domain_bytes(DOMAIN_BEACON_PROPOSER, &state.fork.current_version, &state.genesis_validators_root)
    };
    let message = compute_signing_root(&beacon_block_header_root_bytes(h), &domain);
    bls_verify(pubkey, &message, signature)
}

fn headers_equal(a: &BeaconBlockHeader, b: &BeaconBlockHeader) -> (r: bool)
    ensures
        r == (a@ == b@),
{
    a.slot == b.slot && a.proposer_index == b.proposer_index && bytes_eq(&a.parent_root, &b.parent_root)
        && bytes_eq(&a.state_root, &b.state_root) && bytes_eq(&a.body_root, &b.body_root)
}

/// Checks a proposer slashing against the state.
pub fn verify_proposer_slashing(
    proposer_slashing: &ProposerSlashing,
    state: &BeaconState,
    verify_signatures: VerifySignatures,
    c: &ChainSpec,
) -> (r: Option<ProposerSlashingInvalid>)
    requires
        c.valid(),
    ensures
        r == proposer_slashing_validity(
            state@,
            proposer_slashing@,
            verify_signatures == VerifySignatures::True,
            *c,
        ),
{
    let h1 = &proposer_slashing.signed_header_1.message;
    let h2 = &proposer_slashing.signed_header_2.message;
    if h1.slot != h2.slot {
        return Some(ProposerSlashingInvalid::ProposalSlotMismatch(h1.slot, h2.slot));
    }
    if h1.proposer_index != h2.proposer_index {
        return Some(ProposerSlashingInvalid::ProposerIndexMismatch(h1.proposer_index, h2.proposer_index));
    }
    if headers_equal(h1, h2) {
        return Some(ProposerSlashingInvalid::ProposalsIdentical);
    }
    if h1.proposer_index >= state.validators.len() as u64 {
        return Some(ProposerSlashingInvalid::ProposerUnknown(h1.proposer_index));
    }
    let v = &state.validators[h1.proposer_index as usize];
    let epoch = state.current_epoch(c);
    if !(!v.slashed && v.activation_epoch <= epoch && epoch < v.withdrawable_epoch) {
        return Some(ProposerSlashingInvalid::ProposerNotSlashable(h1.proposer_index));
    }
    if verify_signatures.is_true() {
        if !verify_header_signature(state, &v.pubkey, h1, &proposer_slashing.signed_header_1.signature, c) {
            return Some(ProposerSlashingInvalid::BadProposal1Signature);
        }
        if !verify_header_signature(state, &v.pubkey, h2, &proposer_slashing.signed_header_2.signature, c) {
            return Some(ProposerSlashingInvalid::BadProposal2Signature);
        }
    }
    None
}

} // verus!
