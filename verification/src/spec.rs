//! Fork names and the chain constants that the state transition reads.
use vstd::prelude::*;

verus! {

/// The consensus forks, oldest first.
#[derive(Clone, Copy, Debug, PartialEq, Eq, Structural)]
pub enum ForkName {
    Base,
    Altair,
    Bellatrix,
    Capella,
    Deneb,
    Electra,
    Fulu,
}

impl ForkName {
    /// Position of the fork in chronological order.
    pub open spec fn index(self) -> nat {
        match self {
            ForkName::Base => 0,
            ForkName::Altair => 1,
            ForkName::Bellatrix => 2,
            ForkName::Capella => 3,
            ForkName::Deneb => 4,
            ForkName::Electra => 5,
            ForkName::Fulu => 6,
        }
    }

    /// Every fork, oldest first.
    pub open spec fn all() -> Seq<ForkName> {
        seq![
            ForkName::Base,
            ForkName::Altair,
            ForkName::Bellatrix,
            ForkName::Capella,
            ForkName::Deneb,
            ForkName::Electra,
            ForkName::Fulu,
        ]
    }

    pub fn ordinal(&self) -> (r: u8)
        ensures
            r as nat == self.index(),
    {
        match self {
            ForkName::Base => 0,
            ForkName::Altair => 1,
            ForkName::Bellatrix => 2,
            ForkName::Capella => 3,
            ForkName::Deneb => 4,
            ForkName::Electra => 5,
            ForkName::Fulu => 6,
        }
    }

    /// Lists every fork, oldest first.
    pub fn list_all() -> (r: Vec<ForkName>)
        ensures
            r@ == Self::all(),
    {
        let r = vec![
            ForkName::Base,
            ForkName::Altair,
            ForkName::Bellatrix,
            ForkName::Capella,
            ForkName::Deneb,
            ForkName::Electra,
            ForkName::Fulu,
        ];
        assert(r@ =~= Self::all());
        r
    }

    /// The name of the fork as test directories and logs give it.
    pub fn as_str(&self) -> (r: &'static str)
        ensures
            r@ == match *self {
                ForkName::Base => "phase0"@,
                ForkName::Altair => "altair"@,
                ForkName::Bellatrix => "bellatrix"@,
                ForkName::Capella => "capella"@,
                ForkName::Deneb => "deneb"@,
                ForkName::Electra => "electra"@,
                ForkName::Fulu => "fulu"@,
            },
    {
        match self {
            ForkName::Base => "phase0",
            ForkName::Altair => "altair",
            ForkName::Bellatrix => "bellatrix",
            ForkName::Capella => "capella",
            ForkName::Deneb => "deneb",
            ForkName::Electra => "electra",
            ForkName::Fulu => "fulu",
        }
    }

    pub fn altair_enabled(&self) -> (r: bool)
        ensures
            r == (self.index() >= 1),
    {
        self.ordinal() >= 1
    }

    pub fn bellatrix_enabled(&self) -> (r: bool)
        ensures
            r == (self.index() >= 2),
    {
        self.ordinal() >= 2
    }

    pub fn capella_enabled(&self) -> (r: bool)
        ensures
            r == (self.index() >= 3),
    {
        self.ordinal() >= 3
    }

    pub fn deneb_enabled(&self) -> (r: bool)
        ensures
            r == (self.index() >= 4),
    {
        self.ordinal() >= 4
    }

    pub fn electra_enabled(&self) -> (r: bool)
        ensures
            r == (self.index() >= 5),
    {
        self.ordinal() >= 5
    }

    pub fn fulu_enabled(&self) -> (r: bool)
        ensures
            r == (self.index() >= 6),
    {
        self.ordinal() >= 6
    }
}

/// The chain constants (and preset sizes) that the state transition reads.
#[derive(Clone, Copy, Debug)]
pub struct ChainSpec {
    pub far_future_epoch: u64,
    pub genesis_slot: u64,
    pub slots_per_epoch: u64,
    pub max_deposits: u64,
    pub full_exit_request_amount: u64,
    pub shard_committee_period: u64,
    pub min_activation_balance: u64,
    pub min_validator_withdrawability_delay: u64,
    pub effective_balance_increment: u64,
    pub min_per_epoch_churn_limit: u64,
    pub min_per_epoch_churn_limit_electra: u64,
    pub max_per_epoch_activation_exit_churn_limit: u64,
    pub churn_limit_quotient: u64,
    pub max_seed_lookahead: u64,
    pub unset_deposit_requests_start_index: u64,
    pub pending_deposits_limit: u64,
    pub pending_partial_withdrawals_limit: u64,
    pub pending_consolidations_limit: u64,
    pub base_reward_factor: u64,
    pub sync_committee_size: u64,
    pub slots_per_historical_root: u64,
    pub min_attestation_inclusion_delay: u64,
    pub max_pending_attestations: u64,
    pub max_effective_balance: u64,
    pub max_effective_balance_electra: u64,
    pub epochs_per_slashings_vector: u64,
    pub validator_registry_limit: u64,
    pub deposit_contract_tree_depth: u64,
    pub min_slashing_penalty_quotient: u64,
    pub min_slashing_penalty_quotient_altair: u64,
    pub min_slashing_penalty_quotient_bellatrix: u64,
    pub min_slashing_penalty_quotient_electra: u64,
    pub whistleblower_reward_quotient: u64,
    pub whistleblower_reward_quotient_electra: u64,
    pub proposer_reward_quotient: u64,
    pub genesis_fork_version: [u8; 4],
    pub capella_fork_version: [u8; 4],
    pub fulu_fork_version: [u8; 4],
}

impl ChainSpec {
    /// The constants of the main network.
    pub fn mainnet() -> (c: ChainSpec)
        ensures
            c.far_future_epoch == u64::MAX,
            c.genesis_slot == 0,
            c.slots_per_epoch == 32,
            c.max_deposits == 16,
            c.full_exit_request_amount == 0,
            c.shard_committee_period == 256,
            c.min_activation_balance == 32_000_000_000,
            c.min_validator_withdrawability_delay == 256,
            c.effective_balance_increment == 1_000_000_000,
            c.min_per_epoch_churn_limit == 4,
            c.min_per_epoch_churn_limit_electra == 128_000_000_000,
            c.max_per_epoch_activation_exit_churn_limit == 256_000_000_000,
            c.churn_limit_quotient == 65536,
            c.max_seed_lookahead == 4,
            c.unset_deposit_requests_start_index == u64::MAX,
            c.pending_deposits_limit == 134_217_728,
            c.pending_partial_withdrawals_limit == 134_217_728,
            c.pending_consolidations_limit == 262_144,
            c.base_reward_factor == 64,
            c.sync_committee_size == 512,
            c.slots_per_historical_root == 8192,
            c.min_attestation_inclusion_delay == 1,
            c.max_pending_attestations == 4096,
            c.max_effective_balance == 32_000_000_000,
            c.max_effective_balance_electra == 2_048_000_000_000,
            c.epochs_per_slashings_vector == 8192,
            c.validator_registry_limit == 1_099_511_627_776,
            c.deposit_contract_tree_depth == 32,
            c.min_slashing_penalty_quotient == 128,
            c.min_slashing_penalty_quotient_altair == 64,
            c.min_slashing_penalty_quotient_bellatrix == 32,
            c.min_slashing_penalty_quotient_electra == 4096,
            c.whistleblower_reward_quotient == 512,
            c.whistleblower_reward_quotient_electra == 4096,
            c.proposer_reward_quotient == 8,
            c.genesis_fork_version@ == seq![0u8, 0u8, 0u8, 0u8],
            c.capella_fork_version@ == seq![3u8, 0u8, 0u8, 0u8],
            c.fulu_fork_version@ == seq![6u8, 0u8, 0u8, 0u8],
    {
        ChainSpec {
            far_future_epoch: u64::MAX,
            genesis_slot: 0,
            slots_per_epoch: 32,
            max_deposits: 16,
            full_exit_request_amount: 0,
            shard_committee_period: 256,
            min_activation_balance: 32_000_000_000,
            min_validator_withdrawability_delay: 256,
            effective_balance_increment: 1_000_000_000,
            min_per_epoch_churn_limit: 4,
            min_per_epoch_churn_limit_electra: 128_000_000_000,
            max_per_epoch_activation_exit_churn_limit: 256_000_000_000,
            churn_limit_quotient: 65536,
            max_seed_lookahead: 4,
            unset_deposit_requests_start_index: u64::MAX,
            pending_deposits_limit: 134_217_728,
            pending_partial_withdrawals_limit: 134_217_728,
            pending_consolidations_limit: 262_144,
            base_reward_factor: 64,
            sync_committee_size: 512,
            slots_per_historical_root: 8192,
            min_attestation_inclusion_delay: 1,
            max_pending_attestations: 4096,
            max_effective_balance: 32_000_000_000,
            max_effective_balance_electra: 2_048_000_000_000,
            epochs_per_slashings_vector: 8192,
            validator_registry_limit: 1_099_511_627_776,
            deposit_contract_tree_depth: 32,
            min_slashing_penalty_quotient: 128,
            min_slashing_penalty_quotient_altair: 64,
            min_slashing_penalty_quotient_bellatrix: 32,
            min_slashing_penalty_quotient_electra: 4096,
            whistleblower_reward_quotient: 512,
            whistleblower_reward_quotient_electra: 4096,
            proposer_reward_quotient: 8,
            genesis_fork_version: [0u8, 0u8, 0u8, 0u8],
            capella_fork_version: [3u8, 0u8, 0u8, 0u8],
            fulu_fork_version: [6u8, 0u8, 0u8, 0u8],
        }
    }

    /// The spec is usable by the state transition: slots form epochs and the
    /// balance increment is nonzero.
    pub open spec fn valid(self) -> bool {
        &&& self.slots_per_epoch > 0
        &&& self.effective_balance_increment > 0
        &&& self.churn_limit_quotient > 0
        &&& self.epochs_per_slashings_vector > 0
        &&& self.slots_per_historical_root > 0
        &&& self.min_slashing_penalty_quotient > 0
        &&& self.min_slashing_penalty_quotient_altair > 0
        &&& self.min_slashing_penalty_quotient_bellatrix > 0
        &&& self.min_slashing_penalty_quotient_electra > 0
        &&& self.whistleblower_reward_quotient > 0
        &&& self.whistleblower_reward_quotient_electra > 0
        &&& self.proposer_reward_quotient > 0
    }
}

} // verus!
