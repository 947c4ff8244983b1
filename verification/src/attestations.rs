//! Attestations in blocks: their committees, their checks, and what they
//! change in the state.
use vstd::prelude::*;
use vstd::relations::{sorted_by, total_ordering};
use crate::spec::ChainSpec;
use crate::errors::{ArithError, AttestationInvalid, BlockProcessingError, CommitteeError};
use crate::beacon_state::{
    BeaconState, CommitteeCacheView, PendingAttestation, PendingAttestationView, StateView, copy_bytes,
    current_epoch, total_active_balance,
};
use crate::attester_slashing::{IndexedAttestation, IndexedAttestationView, indexed_attestation_validity, is_valid_indexed_attestation};
use crate::churn::{outcome_matches, outcome_matches_with, overflow};
use crate::common::increase_balance;
use crate::operations::{AttestationData, AttestationDataView, Checkpoint, CheckpointView, ConsensusContext, VerifySignatures};
use crate::process_operations::{apply_ops, first_failure, lemma_apply_ops_stop};
use crate::sync_committee::{base_reward_per_increment, block_root_at, get_block_root, integer_sqrt, isqrt};

pub mod base;
pub mod altair_deneb;

verus! {

broadcast use vstd::multiset::group_multiset_axioms, vstd::seq_lib::group_to_multiset_ensures;

/// The order of validator indices.
pub open spec fn index_le() -> spec_fn(u64, u64) -> bool {
    |a: u64, b: u64| a <= b
}

proof fn lemma_index_le_total()
    ensures
        total_ordering(index_le()),
{
    assert(vstd::relations::reflexive(index_le()));
    assert(vstd::relations::antisymmetric(index_le()));
    assert(vstd::relations::transitive(index_le()));
    assert(vstd::relations::strongly_connected(index_le()));
}

/// Sorts indices in increasing order.
pub fn sort_indices(v: &mut Vec<u64>)
    ensures
        final(v)@ == old(v)@.sort_by(index_le()),
{
    let ghost orig = v@;
    let n = v.len();
    let mut i: usize = 1;
    if n < 2 {
        proof {
            lemma_index_le_total();
            orig.lemma_sort_by_ensures(index_le());
            vstd::seq_lib::lemma_sorted_unique(orig, orig.sort_by(index_le()), index_le());
        }
        return;
    }
    while i < n
        invariant
            v.len() == n,
            1 <= i <= n,
            v@.to_multiset() == orig.to_multiset(),
            forall|a: int, b: int| 0 <= a < b < i ==> v@[a] <= v@[b],
        decreases n - i,
    {
        let mut j: usize = i;
        while j > 0 && v[j - 1] > v[j]
            invariant
                v.len() == n,
                1 <= i < n,
                j <= i,
                v@.to_multiset() == orig.to_multiset(),
                forall|a: int, b: int| 0 <= a < b <= i && a != j && b != j ==> v@[a] <= v@[b],
                forall|b: int| j < b <= i ==> v@[j as int] <= v@[b],
            decreases j,
        {
            let x = v[j - 1];
            let y = v[j];
            let ghost before = v@;
            v.set(j - 1, y);
            v.set(j, x);
            assert(v@ == before.update(j - 1, y).update(j as int, x));
            assert(v@.to_multiset() =~= before.to_multiset());
            j = j - 1;
        }
        i = i + 1;
    }
    proof {
        lemma_index_le_total();
        orig.lemma_sort_by_ensures(index_le());
        assert(sorted_by(v@, index_le()));
        vstd::seq_lib::lemma_sorted_unique(v@, orig.sort_by(index_le()), index_le());
    }
}

/// Where the state caches the committees of `epoch`: the previous, current
/// and next epochs have places of their own.
pub open spec fn relative_cache_index(current: u64, epoch: u64) -> Result<nat, CommitteeError> {
    if epoch == current {
        Ok(1)
    } else if epoch + 1 == current {
        Ok(0)
    } else if epoch == current + 1 {
        Ok(2)
    } else {
        Err(CommitteeError::EpochOutOfBounds)
    }
}

/// The committees of `epoch`, which must have been computed.
pub open spec fn committee_cache_at(s: StateView, epoch: u64, c: ChainSpec) -> Result<
    CommitteeCacheView,
    CommitteeError,
> {
    match relative_cache_index(current_epoch(s, c), epoch) {
        Err(e) => Err(e),
        Ok(k) => if s.committee_caches[k as int].initialized_epoch == Some(epoch) {
            Ok(s.committee_caches[k as int])
        } else {
            Err(CommitteeError::CommitteeCacheUninitialized)
        },
    }
}

/// The number of committees at each slot of the epoch of `slot`.
pub open spec fn committee_count_at_slot(s: StateView, slot: u64, c: ChainSpec) -> Result<u64, CommitteeError> {
    match committee_cache_at(s, (slot / c.slots_per_epoch) as u64, c) {
        Err(e) => Err(e),
        Ok(cache) => Ok(cache.committees_per_slot),
    }
}

/// Committee `index` of `slot`: the part of the epoch's shuffling that falls
/// to it when the shuffling is split evenly among the epoch's committees.
pub open spec fn committee_in_cache(cache: CommitteeCacheView, slot: u64, index: u64, c: ChainSpec) -> Seq<u64> {
    let count = cache.committees_per_slot * c.slots_per_epoch;
    let i = (slot % c.slots_per_epoch) * cache.committees_per_slot + index;
    let len = cache.shuffling.len();
    cache.shuffling.subrange((len * i) / count, (len * (i + 1)) / count)
}

pub open spec fn beacon_committee(s: StateView, slot: u64, index: u64, c: ChainSpec) -> Result<
    Seq<u64>,
    CommitteeError,
> {
    match committee_cache_at(s, (slot / c.slots_per_epoch) as u64, c) {
        Err(e) => Err(e),
        Ok(cache) => if index >= cache.committees_per_slot {
            Err(CommitteeError::NoCommittee { slot, index })
        } else {
            Ok(committee_in_cache(cache, slot, index, c))
        },
    }
}

proof fn lemma_split_bounds(len: nat, i: nat, count: nat)
    requires
        i < count,
    ensures
        (len * i) / count <= (len * (i + 1)) / count <= len,
{
    vstd::arithmetic::mul::lemma_mul_inequality(i as int, (i + 1) as int, len as int);
    vstd::arithmetic::mul::lemma_mul_is_commutative(i as int, len as int);
    vstd::arithmetic::mul::lemma_mul_is_commutative((i + 1) as int, len as int);
    vstd::arithmetic::div_mod::lemma_div_is_ordered((len * i) as int, (len * (i + 1)) as int, count as int);
    vstd::arithmetic::mul::lemma_mul_inequality((i + 1) as int, count as int, len as int);
    vstd::arithmetic::mul::lemma_mul_is_commutative(count as int, len as int);
    vstd::arithmetic::div_mod::lemma_div_is_ordered((len * (i + 1)) as int, (len * count) as int, count as int);
    vstd::arithmetic::div_mod::lemma_div_multiples_vanish(len as int, count as int);
}

impl BeaconState {
    fn committee_cache_index(&self, epoch: u64, c: &ChainSpec) -> (r: Result<usize, CommitteeError>)
        requires
            c.valid(),
            self@.wf(*c),
        ensures
            match committee_cache_at(self@, epoch, *c) {
                Ok(cache) => r matches Ok(k) && k < self.committee_caches.len() && self@.committee_caches[k as int]
                    == cache,
                Err(e) => r == Err::<usize, CommitteeError>(e),
            },
    {
        let current = self.current_epoch(c);
        let k: usize = if epoch == current {
            1
        } else if epoch < u64::MAX && epoch + 1 == current {
            0
        } else if current < u64::MAX && epoch == current + 1 {
            2
        } else {
            return Err(CommitteeError::EpochOutOfBounds);
        };
        if self.committee_caches[k].initialized_epoch == Some(epoch) {
            Ok(k)
        } else {
            Err(CommitteeError::CommitteeCacheUninitialized)
        }
    }

    /// The number of committees at each slot of the epoch of `slot`.
    pub fn get_committee_count_at_slot(&self, slot: u64, c: &ChainSpec) -> (r: Result<u64, CommitteeError>)
        requires
            c.valid(),
            self@.wf(*c),
        ensures
            r == committee_count_at_slot(self@, slot, *c),
    {
        let k = self.committee_cache_index(slot / c.slots_per_epoch, c)?;
        Ok(self.committee_caches[k].committees_per_slot)
    }

    /// Committee `index` of `slot`.
    pub fn get_beacon_committee(&self, slot: u64, index: u64, c: &ChainSpec) -> (r: Result<Vec<u64>, CommitteeError>)
        requires
            c.valid(),
            self@.wf(*c),
        ensures
            match beacon_committee(self@, slot, index, *c) {
                Ok(m) => r matches Ok(v) && v@ == m,
                Err(e) => r == Err::<Vec<u64>, CommitteeError>(e),
            },
    {
        let k = self.committee_cache_index(slot / c.slots_per_epoch, c)?;
        let cache = &self.committee_caches[k];
        if index >= cache.committees_per_slot {
            return Err(CommitteeError::NoCommittee { slot, index });
        }
        assert(self@.committee_caches[k as int].wf(*c));
        let spe = c.slots_per_epoch;
        let cps = cache.committees_per_slot;
        assert(cps * spe <= u32::MAX);
        let count = cps * spe;
        assert((slot % spe) * cps + index < count) by (nonlinear_arith)
            requires
                slot % spe < spe,
                index < cps,
                count == cps * spe,
        ;
        let i = (slot % spe) * cps + index;
        let len = cache.shuffling.len() as u64;
        assert(len * (i + 1) <= 0xffff_ffffu64 * 0xffff_ffffu64) by (nonlinear_arith)
            requires
                len <= 0xffff_ffffu64,
                i + 1 <= 0xffff_ffffu64,
        ;
        assert(len * i <= len * (i + 1)) by (nonlinear_arith);
        let start = len * i / count;
        let end = len * (i + 1) / count;
        proof {
            lemma_split_bounds(len as nat, i as nat, count as nat);
        }
        let mut r: Vec<u64> = Vec::new();
        let mut p: usize = start as usize;
        while p < end as usize
            invariant
                start <= p <= end <= cache.shuffling.len(),
                r@ == cache.shuffling@.subrange(start as int, p as int),
            decreases end - p,
        {
            r.push(cache.shuffling[p]);
            p = p + 1;
            assert(r@ =~= cache.shuffling@.subrange(start as int, p as int));
        }
        Ok(r)
    }
}

/// An attestation as a block carries it. Electra attestations name the
/// committees they aggregate; base ones stand for one committee.
pub struct Attestation {
    pub aggregation_bits: Vec<bool>,
    pub data: AttestationData,
    pub signature: Vec<u8>,
    pub committee_bits: Option<Vec<bool>>,
}

pub struct AttestationView {
    pub aggregation_bits: Seq<bool>,
    pub data: AttestationDataView,
    pub signature: Seq<u8>,
    pub committee_bits: Option<Seq<bool>>,
}

impl View for Attestation {
    type V = AttestationView;

    open spec fn view(&self) -> AttestationView {
        AttestationView {
            aggregation_bits: self.aggregation_bits@,
            data: self.data@,
            signature: self.signature@,
            committee_bits: match &self.committee_bits {
                Some(b) => Some(b@),
                None => None,
            },
        }
    }
}

/// The members of a committee whose aggregation bit (counted from `offset`)
/// is set.
pub open spec fn committee_attesters(committee: Seq<u64>, bits: Seq<bool>, offset: nat) -> Seq<u64>
    decreases committee.len(),
{
    if committee.len() == 0 {
        Seq::empty()
    } else {
        let rest = committee_attesters(committee.drop_last(), bits, offset);
        let p = offset + committee.len() - 1;
        if p < bits.len() && bits[p] {
            rest.push(committee.last())
        } else {
            rest
        }
    }
}

/// The attesters of the committees named by an Electra attestation, and how
/// many aggregation bits those committees take.
pub open spec fn electra_attesters(
    cache: CommitteeCacheView,
    slot: u64,
    committee_bits: Seq<bool>,
    bits: Seq<bool>,
    c: ChainSpec,
) -> Result<(Seq<u64>, nat), CommitteeError>
    decreases committee_bits.len(),
{
    if committee_bits.len() == 0 {
        Ok((Seq::empty(), 0))
    } else {
        match electra_attesters(cache, slot, committee_bits.drop_last(), bits, c) {
            Err(e) => Err(e),
            Ok((att, offset)) => {
                let index = (committee_bits.len() - 1) as u64;
                if !committee_bits.last() {
                    Ok((att, offset))
                } else if index >= cache.committees_per_slot {
                    Err(CommitteeError::NoCommitteeFound(index))
                } else {
                    let m = committee_in_cache(cache, slot, index, c);
                    let at = committee_attesters(m, bits, offset);
                    if at.len() == 0 {
                        Err(CommitteeError::EmptyCommittee)
                    } else {
                        Ok((att + at, offset + m.len()))
                    }
                }
            },
        }
    }
}

/// The indices of the validators that signed the attestation, in increasing
/// order.
pub open spec fn attesting_indices(s: StateView, a: AttestationView, c: ChainSpec) -> Result<Seq<u64>, CommitteeError> {
    match a.committee_bits {
        None => match beacon_committee(s, a.data.slot, a.data.index, c) {
            Err(e) => Err(e),
            Ok(m) => if a.aggregation_bits.len() != m.len() {
                Err(CommitteeError::InvalidBitfield)
            } else {
                Ok(committee_attesters(m, a.aggregation_bits, 0).sort_by(index_le()))
            },
        },
        Some(cb) => match committee_cache_at(s, (a.data.slot / c.slots_per_epoch) as u64, c) {
            Err(e) => Err(e),
            Ok(cache) => match electra_attesters(cache, a.data.slot, cb, a.aggregation_bits, c) {
                Err(e) => Err(e),
                Ok((att, count)) => if count != a.aggregation_bits.len() {
                    Err(CommitteeError::InvalidBitfield)
                } else {
                    Ok(att.sort_by(index_le()))
                },
            },
        },
    }
}

/// The epoch before the current one (the current one at genesis).
pub open spec fn previous_epoch(s: StateView, c: ChainSpec) -> u64 {
    if current_epoch(s, c) > 0 {
        (current_epoch(s, c) - 1) as u64
    } else {
        current_epoch(s, c)
    }
}

/// The Casper FFG vote of an attestation: its target is the epoch of its
/// slot, the current or the previous one, and its source is the justified
/// checkpoint that the state holds for that epoch.
pub open spec fn ffg_vote_check(s: StateView, d: AttestationDataView, c: ChainSpec) -> Option<AttestationInvalid> {
    let slot_epoch = (d.slot / c.slots_per_epoch) as u64;
    if d.target.epoch != slot_epoch {
        Some(AttestationInvalid::TargetEpochSlotMismatch { target_epoch: d.target.epoch, slot_epoch })
    } else if d.target.epoch == current_epoch(s, c) {
        if d.source != s.current_justified_checkpoint {
            Some(AttestationInvalid::WrongJustifiedCheckpoint { is_current: true })
        } else {
            None
        }
    } else if d.target.epoch == previous_epoch(s, c) {
        if d.source != s.previous_justified_checkpoint {
            Some(AttestationInvalid::WrongJustifiedCheckpoint { is_current: false })
        } else {
            None
        }
    } else {
        Some(AttestationInvalid::BadTargetEpoch)
    }
}

/// Whether the committee index fits the slot, by the attestation's format.
pub open spec fn committee_index_check(s: StateView, a: AttestationView, k: nat, c: ChainSpec) -> Option<
    BlockProcessingError,
> {
    match a.committee_bits {
        None => match committee_count_at_slot(s, a.data.slot, c) {
            Err(e) => Some(BlockProcessingError::CommitteeError(e)),
            Ok(n) => if a.data.index >= n {
                Some(BlockProcessingError::AttestationInvalid { index: k as u64, reason: AttestationInvalid::BadCommitteeIndex })
            } else {
                None
            },
        },
        Some(_) => if a.data.index != 0 {
            Some(BlockProcessingError::AttestationInvalid { index: k as u64, reason: AttestationInvalid::BadCommitteeIndex })
        } else {
            None
        },
    }
}

/// Whether the attestation at position `k` of a block can be included in the
/// state, and if so, who signed it: not before the inclusion delay, not more
/// than an epoch late before Deneb, with a committee of its slot, a valid FFG
/// vote and a valid aggregate.
pub open spec fn attestation_for_block(s: StateView, a: AttestationView, k: nat, verify: bool, c: ChainSpec) -> Result<
    Seq<u64>,
    BlockProcessingError,
> {
    let d = a.data;
    if d.slot + c.min_attestation_inclusion_delay > u64::MAX {
        overflow()
    } else if d.slot + c.min_attestation_inclusion_delay > s.slot {
        Err(
            BlockProcessingError::AttestationInvalid {
                index: k as u64,
                reason: AttestationInvalid::IncludedTooEarly {
                    state: s.slot,
                    delay: c.min_attestation_inclusion_delay,
                    attestation: d.slot,
                },
            },
        )
    } else if s.fork_name.index() < 4 && d.slot + c.slots_per_epoch > u64::MAX {
        overflow()
    } else if s.fork_name.index() < 4 && s.slot > d.slot + c.slots_per_epoch {
        Err(
            BlockProcessingError::AttestationInvalid {
                index: k as u64,
                reason: AttestationInvalid::IncludedTooLate { state: s.slot, attestation: d.slot },
            },
        )
    } else if committee_index_check(s, a, k, c) is Some {
        Err(committee_index_check(s, a, k, c)->0)
    } else if ffg_vote_check(s, d, c) is Some {
        Err(BlockProcessingError::AttestationInvalid { index: k as u64, reason: ffg_vote_check(s, d, c)->0 })
    } else {
        match attesting_indices(s, a, c) {
            Err(e) => Err(BlockProcessingError::CommitteeError(e)),
            Ok(ix) => match indexed_attestation_validity(
                s,
                IndexedAttestationView { attesting_indices: ix, data: d, signature: a.signature },
                verify,
            ) {
                Some(e) => Err(
                    BlockProcessingError::AttestationInvalid {
                        index: k as u64,
                        reason: AttestationInvalid::BadIndexedAttestation(e),
                    },
                ),
                None => Ok(ix),
            },
        }
    }
}

fn push_attesters(committee: &Vec<u64>, bits: &Vec<bool>, offset: u64, out: &mut Vec<u64>)
    requires
        offset + committee.len() <= u64::MAX,
    ensures
        final(out)@ == old(out)@ + committee_attesters(committee@, bits@, offset as nat),
{
    let ghost start = out@;
    let mut i: usize = 0;
    while i < committee.len()
        invariant
            offset + committee.len() <= u64::MAX,
            i <= committee.len(),
            out@ == start + committee_attesters(committee@.take(i as int), bits@, offset as nat),
        decreases committee.len() - i,
    {
        assert(committee@.take(i + 1).drop_last() =~= committee@.take(i as int));
        let p = offset + i as u64;
        if p < bits.len() as u64 && bits[p as usize] {
            out.push(committee[i]);
            assert(out@ =~= start + committee_attesters(committee@.take(i + 1), bits@, offset as nat));
        }
        i = i + 1;
    }
    assert(committee@.take(i as int) =~= committee@);
}

impl BeaconState {
    /// The indices of the validators that signed `a`, in increasing order.
    pub fn get_attesting_indices(&self, a: &Attestation, c: &ChainSpec) -> (r: Result<Vec<u64>, CommitteeError>)
        requires
            c.valid(),
            self@.wf(*c),
        ensures
            match attesting_indices(self@, a@, *c) {
                Ok(ix) => r matches Ok(v) && v@ == ix,
                Err(e) => r == Err::<Vec<u64>, CommitteeError>(e),
            },
    {
        match &a.committee_bits {
            None => {
                let m = self.get_beacon_committee(a.data.slot, a.data.index, c)?;
                if a.aggregation_bits.len() != m.len() {
                    return Err(CommitteeError::InvalidBitfield);
                }
                let mut out: Vec<u64> = Vec::new();
                push_attesters(&m, &a.aggregation_bits, 0, &mut out);
                assert(out@ =~= committee_attesters(m@, a.aggregation_bits@, 0));
                sort_indices(&mut out);
                Ok(out)
            },
            Some(cb) => {
                let slot = a.data.slot;
                let k = self.committee_cache_index(slot / c.slots_per_epoch, c)?;
                let ghost cache = self@.committee_caches[k as int];
                let cps = self.committee_caches[k].committees_per_slot;
                let mut att: Vec<u64> = Vec::new();
                let mut offset: u64 = 0;
                let mut i: usize = 0;
                assert(cache.wf(*c));
                assert(cps <= 0xffff_ffffu64) by (nonlinear_arith)
                    requires
                        cps * c.slots_per_epoch <= 0xffff_ffffu64,
                        c.slots_per_epoch >= 1,
                ;
                while i < cb.len()
                    invariant
                        c.valid(),
                        self@.wf(*c),
                        committee_cache_at(self@, (slot / c.slots_per_epoch) as u64, *c) == Ok::<
                            CommitteeCacheView,
                            CommitteeError,
                        >(cache),
                        cache.wf(*c),
                        cps == cache.committees_per_slot,
                        cps <= 0xffff_ffffu64,
                        a@.committee_bits == Some(cb@),
                        slot == a.data.slot,
                        i <= cb.len(),
                        offset <= i * 0xffff_ffffu64,
                        electra_attesters(cache, slot, cb@.take(i as int), a.aggregation_bits@, *c) == Ok::<
                            (Seq<u64>, nat),
                            CommitteeError,
                        >((att@, offset as nat)),
                    decreases cb.len() - i,
                {
                    assert(cb@.take(i + 1).drop_last() =~= cb@.take(i as int));
                    if cb[i] {
                        if i as u64 >= cps {
                            proof {
                                lemma_electra_attesters_stop(cache, slot, cb@, a.aggregation_bits@, *c, i + 1);
                            }
                            return Err(CommitteeError::NoCommitteeFound(i as u64));
                        }
                        let m = self.get_beacon_committee(slot, i as u64, c)?;
                        assert(m@.len() <= 0xffff_ffff) by {
                            assert(m@ == committee_in_cache(cache, slot, i as u64, *c));
                            let count = cache.committees_per_slot * c.slots_per_epoch;
                            let j = (slot % c.slots_per_epoch) * cache.committees_per_slot + i;
                            assert(j < count) by (nonlinear_arith)
                                requires
                                    slot % c.slots_per_epoch < c.slots_per_epoch,
                                    i < cache.committees_per_slot,
                                    j == (slot % c.slots_per_epoch) * cache.committees_per_slot + i,
                                    count == cache.committees_per_slot * c.slots_per_epoch,
                            ;
                            lemma_split_bounds(cache.shuffling.len(), j as nat, count as nat);
                        }
                        assert(offset + m.len() <= (i + 1) * 0xffff_ffffu64) by (nonlinear_arith)
                            requires
                                offset <= i * 0xffff_ffffu64,
                                m.len() <= 0xffff_ffffu64,
                        ;
                        assert((i + 1) * 0xffff_ffffu64 <= 0xffff_ffffu64 * 0xffff_ffffu64) by (nonlinear_arith)
                            requires
                                i < cps,
                                cps <= 0xffff_ffffu64,
                        ;
                        let before = att.len();
                        let ghost att0 = att@;
                        push_attesters(&m, &a.aggregation_bits, offset, &mut att);
                        if att.len() == before {
                            proof {
                                lemma_electra_attesters_stop(cache, slot, cb@, a.aggregation_bits@, *c, i + 1);
                            }
                            return Err(CommitteeError::EmptyCommittee);
                        }
                        offset = offset + m.len() as u64;
                    }
                    i = i + 1;
                }
                assert(cb@.take(i as int) =~= cb@);
                if offset != a.aggregation_bits.len() as u64 {
                    return Err(CommitteeError::InvalidBitfield);
                }
                sort_indices(&mut att);
                Ok(att)
            },
        }
    }
}

proof fn lemma_electra_attesters_stop(
    cache: CommitteeCacheView,
    slot: u64,
    cb: Seq<bool>,
    bits: Seq<bool>,
    c: ChainSpec,
    n: int,
)
    requires
        0 <= n <= cb.len(),
        electra_attesters(cache, slot, cb.take(n), bits, c) is Err,
    ensures
        electra_attesters(cache, slot, cb, bits, c) == electra_attesters(cache, slot, cb.take(n), bits, c),
    decreases cb.len() - n,
{
    if n < cb.len() {
        assert(cb.take(n + 1).drop_last() =~= cb.take(n));
        lemma_electra_attesters_stop(cache, slot, cb, bits, c, n + 1);
    } else {
        assert(cb.take(n) =~= cb);
    }
}

fn checkpoints_equal(a: &Checkpoint, b: &Checkpoint) -> (r: bool)
    ensures
        r == (a@ == b@),
{
    a.epoch == b.epoch && crate::beacon_state::bytes_eq(&a.root, &b.root)
}

pub(crate) fn copy_data(d: &AttestationData) -> (r: AttestationData)
    ensures
        r@ == d@,
{
    AttestationData {
        slot: d.slot,
        index: d.index,
        beacon_block_root: copy_bytes(&d.beacon_block_root),
        source: Checkpoint { epoch: d.source.epoch, root: copy_bytes(&d.source.root) },
        target: Checkpoint { epoch: d.target.epoch, root: copy_bytes(&d.target.root) },
    }
}

/// Checks that the attestation at position `k` of a block can be included;
/// gives the indices of its signers.
pub fn verify_attestation_for_block_inclusion(
    state: &BeaconState,
    a: &Attestation,
    k: usize,
    verify_signatures: VerifySignatures,
    c: &ChainSpec,
) -> (r: Result<Vec<u64>, BlockProcessingError>)
    requires
        c.valid(),
        state@.wf(*c),
    ensures
        match attestation_for_block(state@, a@, k as nat, verify_signatures == VerifySignatures::True, *c) {
            Ok(ix) => r matches Ok(v) && v@ == ix,
            Err(e) => r == Err::<Vec<u64>, BlockProcessingError>(e),
        },
{
    let d = &a.data;
    if d.slot > u64::MAX - c.min_attestation_inclusion_delay {
        return Err(BlockProcessingError::ArithError(ArithError::Overflow));
    }
    if d.slot + c.min_attestation_inclusion_delay > state.slot {
        return Err(
            BlockProcessingError::AttestationInvalid {
                index: k as u64,
                reason: AttestationInvalid::IncludedTooEarly {
                    state: state.slot,
                    delay: c.min_attestation_inclusion_delay,
                    attestation: d.slot,
                },
            },
        );
    }
    if !state.fork_name.deneb_enabled() {
        if d.slot > u64::MAX - c.slots_per_epoch {
            return Err(BlockProcessingError::ArithError(ArithError::Overflow));
        }
        if state.slot > d.slot + c.slots_per_epoch {
            return Err(
                BlockProcessingError::AttestationInvalid {
                    index: k as u64,
                    reason: AttestationInvalid::IncludedTooLate { state: state.slot, attestation: d.slot },
                },
            );
        }
    }
    match &a.committee_bits {
        None => {
            match state.get_committee_count_at_slot(d.slot, c) {
                Err(e) => {
                    return Err(BlockProcessingError::CommitteeError(e));
                },
                Ok(n) => {
                    if d.index >= n {
                        return Err(
                            BlockProcessingError::AttestationInvalid {
                                index: k as u64,
                                reason: AttestationInvalid::BadCommitteeIndex,
                            },
                        );
                    }
                },
            }
        },
        Some(_) => {
            if d.index != 0 {
                return Err(
                    BlockProcessingError::AttestationInvalid {
                        index: k as u64,
                        reason: AttestationInvalid::BadCommitteeIndex,
                    },
                );
            }
        },
    }
    let slot_epoch = d.slot / c.slots_per_epoch;
    let current = state.current_epoch(c);
    let previous = if current > 0 {
        current - 1
    } else {
        current
    };
    if d.target.epoch != slot_epoch {
        return Err(
            BlockProcessingError::AttestationInvalid {
                index: k as u64,
                reason: AttestationInvalid::TargetEpochSlotMismatch { target_epoch: d.target.epoch, slot_epoch },
            },
        );
    }
    if d.target.epoch == current {
        if !checkpoints_equal(&d.source, &state.current_justified_checkpoint) {
            return Err(
                BlockProcessingError::AttestationInvalid {
                    index: k as u64,
                    reason: AttestationInvalid::WrongJustifiedCheckpoint { is_current: true },
                },
            );
        }
    } else if d.target.epoch == previous {
        if !checkpoints_equal(&d.source, &state.previous_justified_checkpoint) {
            return Err(
                BlockProcessingError::AttestationInvalid {
                    index: k as u64,
                    reason: AttestationInvalid::WrongJustifiedCheckpoint { is_current: false },
                },
            );
        }
    } else {
        return Err(
            BlockProcessingError::AttestationInvalid { index: k as u64, reason: AttestationInvalid::BadTargetEpoch },
        );
    }
    let ix = match state.get_attesting_indices(a, c) {
        Err(e) => {
            return Err(BlockProcessingError::CommitteeError(e));
        },
        Ok(v) => v,
    };
    let indexed = IndexedAttestation {
        attesting_indices: ix,
        data: copy_data(d),
        signature: copy_bytes(&a.signature),
    };
    match is_valid_indexed_attestation(state, &indexed, verify_signatures, c) {
        Some(e) => {
            return Err(
                BlockProcessingError::AttestationInvalid {
                    index: k as u64,
                    reason: AttestationInvalid::BadIndexedAttestation(e),
                },
            );
        },
        None => {},
    }
    Ok(indexed.attesting_indices)
}

/// The weights of the timely source, target and head flags.
pub const TIMELY_SOURCE_WEIGHT: u64 = 14;

pub const TIMELY_TARGET_WEIGHT: u64 = 26;

pub const TIMELY_HEAD_WEIGHT: u64 = 14;

/// The share of attestation rewards that the proposer gets, as the divisor
/// of the rewards it included: `(64 - 8) * 64 / 8`.
pub const PROPOSER_REWARD_DENOMINATOR: u64 = 448;

/// The first slot of `epoch`, saturating at the largest slot.
pub open spec fn epoch_start_slot(epoch: u64, c: ChainSpec) -> u64 {
    if epoch * c.slots_per_epoch > u64::MAX {
        u64::MAX
    } else {
        (epoch * c.slots_per_epoch) as u64
    }
}

/// Which participation flags a timely attestation earns: source within the
/// square root of an epoch, target (within an epoch before Deneb) and head
/// at the minimum delay, each only if the votes before it match.
pub open spec fn participation_flags(s: StateView, d: AttestationDataView, delay: u64, c: ChainSpec) -> Result<
    (bool, bool, bool),
    BlockProcessingError,
> {
    let justified = if d.target.epoch == current_epoch(s, c) {
        s.current_justified_checkpoint
    } else {
        s.previous_justified_checkpoint
    };
    if d.source != justified {
        Err(BlockProcessingError::IncorrectAttestationSource)
    } else {
        match block_root_at(s, epoch_start_slot(d.target.epoch, c)) {
            Err(e) => Err(e),
            Ok(target_root) => {
                let matching_target = d.target.root == target_root;
                let matching_head: Result<bool, BlockProcessingError> = if matching_target {
                    match block_root_at(s, d.slot) {
                        Err(e) => Err(e),
                        Ok(head_root) => Ok(d.beacon_block_root == head_root),
                    }
                } else {
                    Ok(false)
                };
                match matching_head {
                    Err(e) => Err(e),
                    Ok(mh) => Ok(
                        (
                            delay <= integer_sqrt(c.slots_per_epoch as nat),
                            if s.fork_name.index() >= 4 {
                                matching_target
                            } else {
                                matching_target && delay <= c.slots_per_epoch
                            },
                            mh && delay == c.min_attestation_inclusion_delay,
                        ),
                    ),
                }
            },
        }
    }
}

/// The bit of participation flag `f`.
pub open spec fn flag_mask(f: nat) -> u8 {
    if f == 0 {
        1
    } else if f == 1 {
        2
    } else {
        4
    }
}

pub open spec fn participation_of(s: StateView, on_current: bool) -> Seq<u8> {
    if on_current {
        s.current_epoch_participation
    } else {
        s.previous_epoch_participation
    }
}

pub open spec fn with_participation(s: StateView, on_current: bool, i: int, b: u8) -> StateView {
    if on_current {
        StateView { current_epoch_participation: s.current_epoch_participation.update(i, b), ..s }
    } else {
        StateView { previous_epoch_participation: s.previous_epoch_participation.update(i, b), ..s }
    }
}

/// The base reward of validator `i`: its effective balance in increments
/// times the reward per increment.
pub open spec fn base_reward(s: StateView, i: u64, per_increment: Result<u64, BlockProcessingError>, c: ChainSpec) -> Result<
    u64,
    BlockProcessingError,
> {
    match per_increment {
        Err(e) => Err(e),
        Ok(p) => {
            let increments = s.validators[i as int].effective_balance / c.effective_balance_increment;
            if increments * p > u64::MAX {
                overflow()
            } else {
                Ok((increments * p) as u64)
            }
        },
    }
}

/// Setting flag `f` of validator `i` where earned and not yet set, adding
/// the weighted base reward to the proposer's numerator.
pub open spec fn flag_update(
    s: StateView,
    i: u64,
    f: nat,
    weight: u64,
    earned: bool,
    on_current: bool,
    num: u64,
    per_increment: Result<u64, BlockProcessingError>,
    c: ChainSpec,
) -> Result<(StateView, u64), BlockProcessingError> {
    let part = participation_of(s, on_current);
    if !earned {
        Ok((s, num))
    } else if i >= part.len() {
        Err(BlockProcessingError::ParticipationOutOfBounds(i))
    } else if part[i as int] & flag_mask(f) == flag_mask(f) {
        Ok((s, num))
    } else {
        match base_reward(s, i, per_increment, c) {
            Err(e) => Err(e),
            Ok(br) => if br * weight > u64::MAX || num + br * weight > u64::MAX {
                overflow()
            } else {
                Ok(
                    (
                        with_participation(s, on_current, i as int, part[i as int] | flag_mask(f)),
                        (num + br * weight) as u64,
                    ),
                )
            },
        }
    }
}

/// The flags of one attester.
pub open spec fn index_update(
    s: StateView,
    i: u64,
    flags: (bool, bool, bool),
    on_current: bool,
    num: u64,
    per_increment: Result<u64, BlockProcessingError>,
    c: ChainSpec,
) -> Result<(StateView, u64), BlockProcessingError> {
    if i >= s.validators.len() {
        Err(BlockProcessingError::UnknownValidator(i))
    } else {
        match flag_update(s, i, 0, TIMELY_SOURCE_WEIGHT, flags.0, on_current, num, per_increment, c) {
            Err(e) => Err(e),
            Ok((s1, n1)) => match flag_update(s1, i, 1, TIMELY_TARGET_WEIGHT, flags.1, on_current, n1, per_increment, c) {
                Err(e) => Err(e),
                Ok((s2, n2)) => flag_update(s2, i, 2, TIMELY_HEAD_WEIGHT, flags.2, on_current, n2, per_increment, c),
            },
        }
    }
}

/// The flags of each attester in turn, with the proposer's numerator.
pub open spec fn participation_updates(
    s: StateView,
    ix: Seq<u64>,
    flags: (bool, bool, bool),
    on_current: bool,
    per_increment: Result<u64, BlockProcessingError>,
    c: ChainSpec,
) -> Result<(StateView, u64), BlockProcessingError>
    decreases ix.len(),
{
    if ix.len() == 0 {
        Ok((s, 0))
    } else {
        match participation_updates(s, ix.drop_last(), flags, on_current, per_increment, c) {
            Err(e) => Err(e),
            Ok((s1, n1)) => index_update(s1, ix.last(), flags, on_current, n1, per_increment, c),
        }
    }
}

/// The reward per increment of the state's total active balance.
pub open spec fn state_reward_per_increment(s: StateView, c: ChainSpec) -> Result<u64, BlockProcessingError> {
    match total_active_balance(s, c) {
        Err(e) => Err(e),
        Ok(t) => base_reward_per_increment(t, c),
    }
}

/// The effect of the attestation at position `k` (since Altair): its
/// signers earn the flags that its timeliness gives them, and the proposer
/// a share of the base rewards of the flags it newly set.
pub open spec fn attestation_outcome(
    s: StateView,
    a: AttestationView,
    k: nat,
    verify: bool,
    proposer: u64,
    c: ChainSpec,
) -> Result<StateView, BlockProcessingError> {
    match attestation_for_block(s, a, k, verify, c) {
        Err(e) => Err(e),
        Ok(ix) => match participation_flags(s, a.data, (s.slot - a.data.slot) as u64, c) {
            Err(e) => Err(e),
            Ok(flags) => match participation_updates(
                s,
                ix,
                flags,
                a.data.target.epoch == current_epoch(s, c),
                state_reward_per_increment(s, c),
                c,
            ) {
                Err(e) => Err(e),
                Ok((s1, num)) => increase_balance(s1, proposer as nat, num / PROPOSER_REWARD_DENOMINATOR),
            },
        },
    }
}

/// The effect of the attestation at position `k` on a base state: it waits
/// in the list of its target epoch for the epoch's processing.
pub open spec fn base_attestation_outcome(
    s: StateView,
    a: AttestationView,
    k: nat,
    verify: bool,
    proposer: u64,
    c: ChainSpec,
) -> Result<StateView, BlockProcessingError> {
    match attestation_for_block(s, a, k, verify, c) {
        Err(e) => Err(e),
        Ok(_) => if a.committee_bits is Some {
            Err(BlockProcessingError::PendingAttestationInElectra)
        } else {
            let pending = PendingAttestationView {
                aggregation_bits: a.aggregation_bits,
                data: a.data,
                inclusion_delay: (s.slot - a.data.slot) as u64,
                proposer_index: proposer,
            };
            if a.data.target.epoch == current_epoch(s, c) {
                if s.current_epoch_attestations.len() >= c.max_pending_attestations {
                    Err(BlockProcessingError::ListFull)
                } else {
                    Ok(StateView { current_epoch_attestations: s.current_epoch_attestations.push(pending), ..s })
                }
            } else if s.previous_epoch_attestations.len() >= c.max_pending_attestations {
                Err(BlockProcessingError::ListFull)
            } else {
                Ok(StateView { previous_epoch_attestations: s.previous_epoch_attestations.push(pending), ..s })
            }
        },
    }
}

fn start_slot_of(epoch: u64, c: &ChainSpec) -> (r: u64)
    requires
        c.valid(),
    ensures
        r == epoch_start_slot(epoch, *c),
{
    if epoch > u64::MAX / c.slots_per_epoch {
        assert(epoch * c.slots_per_epoch > u64::MAX) by (nonlinear_arith)
            requires
                c.slots_per_epoch > 0,
                epoch > u64::MAX / c.slots_per_epoch,
        ;
        u64::MAX
    } else {
        assert(epoch * c.slots_per_epoch <= u64::MAX) by (nonlinear_arith)
            requires
                c.slots_per_epoch > 0,
                epoch <= u64::MAX / c.slots_per_epoch,
        ;
        epoch * c.slots_per_epoch
    }
}

/// The participation flags that an attestation earns.
pub fn get_attestation_participation_flag_indices(
    state: &BeaconState,
    d: &AttestationData,
    inclusion_delay: u64,
    c: &ChainSpec,
) -> (r: Result<(bool, bool, bool), BlockProcessingError>)
    requires
        c.valid(),
    ensures
        r == participation_flags(state@, d@, inclusion_delay, *c),
{
    let justified = if d.target.epoch == state.current_epoch(c) {
        &state.current_justified_checkpoint
    } else {
        &state.previous_justified_checkpoint
    };
    if !checkpoints_equal(&d.source, justified) {
        return Err(BlockProcessingError::IncorrectAttestationSource);
    }
    let target_root = get_block_root(state, start_slot_of(d.target.epoch, c))?;
    let matching_target = crate::beacon_state::bytes_eq(&d.target.root, &target_root);
    let matching_head = if matching_target {
        let head_root = get_block_root(state, d.slot)?;
        crate::beacon_state::bytes_eq(&d.beacon_block_root, &head_root)
    } else {
        false
    };
    let source = inclusion_delay <= isqrt(c.slots_per_epoch);
    let target = if state.fork_name.deneb_enabled() {
        matching_target
    } else {
        matching_target && inclusion_delay <= c.slots_per_epoch
    };
    let head = matching_head && inclusion_delay == c.min_attestation_inclusion_delay;
    Ok((source, target, head))
}

fn flag_mask_exec(f: u8) -> (r: u8)
    requires
        f < 3,
    ensures
        r == flag_mask(f as nat),
{
    if f == 0 {
        1
    } else if f == 1 {
        2
    } else {
        4
    }
}

impl BeaconState {
    fn update_flag(
        &mut self,
        i: u64,
        f: u8,
        weight: u64,
        earned: bool,
        on_current: bool,
        num: u64,
        per_increment: Result<u64, BlockProcessingError>,
        c: &ChainSpec,
    ) -> (r: Result<u64, BlockProcessingError>)
        requires
            c.valid(),
            old(self)@.wf(*c),
            f < 3,
            i < old(self)@.validators.len(),
        ensures
            outcome_matches_with(
                r,
                final(self)@,
                flag_update(old(self)@, i, f as nat, weight, earned, on_current, num, per_increment, *c),
            ),
            final(self)@.wf(*c),
            final(self)@.validators == old(self)@.validators,
    {
        if !earned {
            return Ok(num);
        }
        let len = if on_current {
            self.current_epoch_participation.len()
        } else {
            self.previous_epoch_participation.len()
        };
        if i >= len as u64 {
            return Err(BlockProcessingError::ParticipationOutOfBounds(i));
        }
        let iu = i as usize;
        let b = if on_current {
            self.current_epoch_participation[iu]
        } else {
            self.previous_epoch_participation[iu]
        };
        let mask = flag_mask_exec(f);
        if b & mask == mask {
            return Ok(num);
        }
        let br = match per_increment {
            Err(e) => {
                return Err(e);
            },
            Ok(p) => {
                let increments = self.validators[iu].effective_balance / c.effective_balance_increment;
                if p > 0 && increments > u64::MAX / p {
                    assert(increments * p > u64::MAX) by (nonlinear_arith)
                        requires
                            p > 0,
                            increments > u64::MAX / p,
                    ;
                    return Err(BlockProcessingError::ArithError(ArithError::Overflow));
                }
                assert(increments * p <= u64::MAX) by (nonlinear_arith)
                    requires
                        p == 0 || increments <= u64::MAX / p,
                ;
                increments * p
            },
        };
        if weight > 0 && br > u64::MAX / weight {
            assert(br * weight > u64::MAX) by (nonlinear_arith)
                requires
                    weight > 0,
                    br > u64::MAX / weight,
            ;
            return Err(BlockProcessingError::ArithError(ArithError::Overflow));
        }
        assert(br * weight <= u64::MAX) by (nonlinear_arith)
            requires
                weight == 0 || br <= u64::MAX / weight,
        ;
        let add = br * weight;
        if num > u64::MAX - add {
            return Err(BlockProcessingError::ArithError(ArithError::Overflow));
        }
        if on_current {
            self.current_epoch_participation.set(iu, b | mask);
        } else {
            self.previous_epoch_participation.set(iu, b | mask);
        }
        Ok(num + add)
    }

    fn update_index(
        &mut self,
        i: u64,
        flags: (bool, bool, bool),
        on_current: bool,
        num: u64,
        per_increment: Result<u64, BlockProcessingError>,
        c: &ChainSpec,
    ) -> (r: Result<u64, BlockProcessingError>)
        requires
            c.valid(),
            old(self)@.wf(*c),
        ensures
            outcome_matches_with(
                r,
                final(self)@,
                index_update(old(self)@, i, flags, on_current, num, per_increment, *c),
            ),
            final(self)@.wf(*c),
    {
        if i >= self.validators.len() as u64 {
            return Err(BlockProcessingError::UnknownValidator(i));
        }
        let n1 = self.update_flag(i, 0, TIMELY_SOURCE_WEIGHT, flags.0, on_current, num, per_increment, c)?;
        let n2 = self.update_flag(i, 1, TIMELY_TARGET_WEIGHT, flags.1, on_current, n1, per_increment, c)?;
        self.update_flag(i, 2, TIMELY_HEAD_WEIGHT, flags.2, on_current, n2, per_increment, c)
    }
}

/// The reward per increment of the state's total active balance.
pub fn get_base_reward_per_increment(state: &BeaconState, c: &ChainSpec) -> (r: Result<u64, BlockProcessingError>)
    requires
        c.valid(),
    ensures
        r == state_reward_per_increment(state@, *c),
{
    let tab = state.get_total_active_balance(c)?;
    if c.base_reward_factor > 0 && c.effective_balance_increment > u64::MAX / c.base_reward_factor {
        assert(c.effective_balance_increment * c.base_reward_factor > u64::MAX) by (nonlinear_arith)
            requires
                c.base_reward_factor > 0,
                c.effective_balance_increment > u64::MAX / c.base_reward_factor,
        ;
        return Err(BlockProcessingError::ArithError(ArithError::Overflow));
    }
    assert(c.effective_balance_increment * c.base_reward_factor <= u64::MAX) by (nonlinear_arith)
        requires
            c.base_reward_factor == 0 || c.effective_balance_increment <= u64::MAX / c.base_reward_factor,
    ;
    let root = isqrt(tab);
    if root == 0 {
        return Err(BlockProcessingError::ArithError(ArithError::DivisionByZero));
    }
    Ok(c.effective_balance_increment * c.base_reward_factor / root)
}

proof fn lemma_participation_updates_stop(
    s: StateView,
    ix: Seq<u64>,
    flags: (bool, bool, bool),
    on_current: bool,
    per_increment: Result<u64, BlockProcessingError>,
    c: ChainSpec,
    n: int,
)
    requires
        0 <= n <= ix.len(),
        participation_updates(s, ix.take(n), flags, on_current, per_increment, c) is Err,
    ensures
        participation_updates(s, ix, flags, on_current, per_increment, c) == participation_updates(
            s,
            ix.take(n),
            flags,
            on_current,
            per_increment,
            c,
        ),
    decreases ix.len() - n,
{
    if n < ix.len() {
        assert(ix.take(n + 1).drop_last() =~= ix.take(n));
        lemma_participation_updates_stop(s, ix, flags, on_current, per_increment, c, n + 1);
    } else {
        assert(ix.take(n) =~= ix);
    }
}

/// An attestation refused before it touches the state: it fails the checks
/// for inclusion, or its participation flags cannot be computed.
#[verifier::opaque]
pub open spec fn attestation_refused(s: StateView, a: AttestationView, k: nat, verify: bool, c: ChainSpec) -> bool {
    match attestation_for_block(s, a, k, verify, c) {
        Err(_) => true,
        Ok(_) => participation_flags(s, a.data, (s.slot - a.data.slot) as u64, c) is Err,
    }
}

/// Processes one attestation of a block, at position `att_index` (since
/// Altair).
pub fn process_attestation(
    state: &mut BeaconState,
    a: &Attestation,
    att_index: usize,
    ctxt: &ConsensusContext,
    verify_signatures: VerifySignatures,
    c: &ChainSpec,
) -> (r: Result<(), BlockProcessingError>)
    requires
        c.valid(),
        old(state)@.wf(*c),
    ensures
        outcome_matches(
            r,
            final(state)@,
            attestation_outcome(
                old(state)@,
                a@,
                att_index as nat,
                verify_signatures == VerifySignatures::True,
                ctxt.proposer_index,
                *c,
            ),
        ),
        final(state)@.wf(*c),
        attestation_refused(old(state)@, a@, att_index as nat, verify_signatures == VerifySignatures::True, *c)
            ==> final(state)@ == old(state)@,
{
    let ghost s0 = state@;
    let ix = verify_attestation_for_block_inclusion(state, a, att_index, verify_signatures, c)?;
    let inclusion_delay = state.slot - a.data.slot;
    let flags = get_attestation_participation_flag_indices(state, &a.data, inclusion_delay, c)?;
    let on_current = a.data.target.epoch == state.current_epoch(c);
    let per_increment = get_base_reward_per_increment(state, c);
    let ghost expected = attestation_outcome(
        s0,
        a@,
        att_index as nat,
        verify_signatures == VerifySignatures::True,
        ctxt.proposer_index,
        *c,
    );
    assert(!attestation_refused(s0, a@, att_index as nat, verify_signatures == VerifySignatures::True, *c)) by {
        reveal(attestation_refused);
    }
    let mut numerator: u64 = 0;
    let mut k: usize = 0;
    while k < ix.len()
        invariant
            c.valid(),
            state@.wf(*c),
            s0 == old(state)@,
            !attestation_refused(s0, a@, att_index as nat, verify_signatures == VerifySignatures::True, *c),
            k <= ix.len(),
            expected == attestation_outcome(
                s0,
                a@,
                att_index as nat,
                verify_signatures == VerifySignatures::True,
                ctxt.proposer_index,
                *c,
            ),
            expected == match participation_updates(s0, ix@, flags, on_current, per_increment, *c) {
                Err(e) => Err(e),
                Ok((s1, num)) => increase_balance(s1, ctxt.proposer_index as nat, num / PROPOSER_REWARD_DENOMINATOR),
            },
            participation_updates(s0, ix@.take(k as int), flags, on_current, per_increment, *c) == Ok::<
                (StateView, u64),
                BlockProcessingError,
            >((state@, numerator)),
        decreases ix.len() - k,
    {
        assert(ix@.take(k + 1).drop_last() =~= ix@.take(k as int));
        match state.update_index(ix[k], flags, on_current, numerator, per_increment, c) {
            Err(e) => {
                proof {
                    lemma_participation_updates_stop(s0, ix@, flags, on_current, per_increment, *c, k + 1);
                }
                return Err(e);
            },
            Ok(n) => {
                numerator = n;
            },
        }
        k = k + 1;
    }
    assert(ix@.take(k as int) =~= ix@);
    let reward = numerator / PROPOSER_REWARD_DENOMINATOR;
    if ctxt.proposer_index >= state.balances.len() as u64 {
        return Err(BlockProcessingError::BalancesOutOfBounds(ctxt.proposer_index));
    }
    state.increase_balance(ctxt.proposer_index as usize, reward)
}

pub(crate) fn copy_bits(b: &Vec<bool>) -> (r: Vec<bool>)
    ensures
        r@ == b@,
{
    crate::upgrade::copy_vec(b)
}

/// The effect of the attestations of a block, by the fork of the state.
pub open spec fn attestations_outcome(
    s: StateView,
    attestations: Seq<AttestationView>,
    verify: bool,
    proposer: u64,
    c: ChainSpec,
) -> Result<StateView, BlockProcessingError> {
    if s.altair_enabled() {
        apply_ops(
            s,
            attestations,
            |s1: StateView, a: AttestationView, k: nat| attestation_outcome(s1, a, k, verify, proposer, c),
        )
    } else {
        apply_ops(
            s,
            attestations,
            |s1: StateView, a: AttestationView, k: nat| base_attestation_outcome(s1, a, k, verify, proposer, c),
        )
    }
}

/// Where the attestations of a block stop: the position of the first that
/// fails, and the state that those before it leave.
pub open spec fn attestations_stop(
    s: StateView,
    attestations: Seq<AttestationView>,
    verify: bool,
    proposer: u64,
    c: ChainSpec,
) -> (nat, StateView) {
    if s.altair_enabled() {
        first_failure(
            s,
            attestations,
            |s1: StateView, a: AttestationView, k: nat| attestation_outcome(s1, a, k, verify, proposer, c),
        )
    } else {
        first_failure(
            s,
            attestations,
            |s1: StateView, a: AttestationView, k: nat| base_attestation_outcome(s1, a, k, verify, proposer, c),
        )
    }
}

/// Processes the attestations of a block: since Altair they set
/// participation flags, before they wait in the state. Where one is refused
/// before it changes the state (always so before Altair), the state is the
/// one that the attestations before it leave.
pub fn process_attestations(
    state: &mut BeaconState,
    attestations: &Vec<Attestation>,
    verify_signatures: VerifySignatures,
    ctxt: &ConsensusContext,
    c: &ChainSpec,
) -> (r: Result<(), BlockProcessingError>)
    requires
        c.valid(),
        old(state)@.wf(*c),
    ensures
        outcome_matches(
            r,
            final(state)@,
            attestations_outcome(
                old(state)@,
                attestations@.map_values(|a: Attestation| a@),
                verify_signatures == VerifySignatures::True,
                ctxt.proposer_index,
                *c,
            ),
        ),
        final(state)@.wf(*c),
        r is Err ==> ({
            let (k, p) = attestations_stop(
                old(state)@,
                attestations@.map_values(|a: Attestation| a@),
                verify_signatures == VerifySignatures::True,
                ctxt.proposer_index,
                *c,
            );
            (!old(state)@.altair_enabled() || attestation_refused(
                p,
                attestations@[k as int]@,
                k,
                verify_signatures == VerifySignatures::True,
                *c,
            )) ==> final(state)@ == p
        }),
{
    if state.fork_name.altair_enabled() {
        altair_deneb::process_attestations(state, attestations, verify_signatures, ctxt, c)
    } else {
        base::process_attestations(state, attestations, verify_signatures, ctxt, c)
    }
}

} // verus!
