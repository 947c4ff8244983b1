use std::marker::PhantomData;

use lighthouse::handlers::{
    BasicVector, BeaconBlockBodyMerkleProofValidityHandler, FeatureName, ForkChoiceHandler, Handler,
    KZGBlobToKZGCommitmentHandler, KZGRecoverCellsAndKZGProofHandler, MainnetEthSpec, MinimalEthSpec,
    OptimisticSyncHandler, RewardsHandler, ShufflingHandler, SszGenericHandler, SszStaticHandler,
    TypeName,
};
use lighthouse::spec::ForkName;

#[test]
fn handler_directories() {
    let h = ShufflingHandler::<MainnetEthSpec>(PhantomData);
    assert_eq!(h.config_name(), "mainnet");
    assert_eq!(h.runner_name(), "shuffling");
    assert_eq!(h.handler_name(), "core");
    let k = KZGBlobToKZGCommitmentHandler::<MinimalEthSpec>(PhantomData);
    assert_eq!(k.config_name(), "general");
    assert_eq!(k.handler_name(), "blob_to_kzg_commitment");
    let g = SszGenericHandler::<BasicVector>(PhantomData);
    assert_eq!(g.handler_name(), BasicVector::name());
    assert_eq!(g.runner_name(), "ssz_generic");
    let r = RewardsHandler::<MinimalEthSpec>::new("basic");
    assert_eq!(r.config_name(), "minimal");
    assert_eq!(r.handler_name(), "basic");
}

#[test]
fn forks_each_handler_runs() {
    let shuffling = ShufflingHandler::<MainnetEthSpec>(PhantomData);
    assert_eq!(shuffling.forks_to_run(), vec![ForkName::Base]);
    let body = BeaconBlockBodyMerkleProofValidityHandler::<MainnetEthSpec>(PhantomData);
    assert_eq!(body.forks_to_run(), vec![ForkName::Capella, ForkName::Deneb, ForkName::Electra]);
    let sync = OptimisticSyncHandler::<MainnetEthSpec>(PhantomData);
    assert!(!sync.use_rayon());
    assert_eq!(sync.forks_to_run(), vec![ForkName::Bellatrix, ForkName::Capella, ForkName::Deneb, ForkName::Electra]);
    assert_eq!(shuffling.disabled_forks(), vec![ForkName::Fulu]);
}

#[test]
fn feature_runs() {
    let k = KZGRecoverCellsAndKZGProofHandler::<MainnetEthSpec>(PhantomData);
    assert_eq!(k.features_to_run(), vec![FeatureName::Fulu]);
    let s = ShufflingHandler::<MainnetEthSpec>(PhantomData);
    assert_eq!(s.features_to_run(), vec![]);
    assert_eq!(FeatureName::Fulu.fork_name(), ForkName::Electra);
    assert_eq!(FeatureName::Fulu.as_str(), "fulu");
    assert_eq!(FeatureName::list_all(), vec![FeatureName::Fulu]);
}

#[test]
fn fork_choice_handler_forks() {
    let h = ForkChoiceHandler::<MainnetEthSpec>::new("on_block");
    assert_eq!(h.handler_name(), "on_block");
    assert!(!h.is_enabled_for_fork(ForkName::Base));
    assert!(h.is_enabled_for_fork(ForkName::Altair));
    let merge = ForkChoiceHandler::<MainnetEthSpec>::new("on_merge_block");
    assert!(!merge.is_enabled_for_fork(ForkName::Deneb));
    let fcu = ForkChoiceHandler::<MainnetEthSpec>::new("should_override_forkchoice_update");
    assert!(!fcu.is_enabled_for_fork(ForkName::Altair));
    assert!(fcu.is_enabled_for_fork(ForkName::Bellatrix));
    assert!(!fcu.use_rayon());
}

#[test]
fn ssz_static_fork_sets() {
    let h = SszStaticHandler::<BasicVector, MainnetEthSpec>::pre_electra();
    assert!(h.is_enabled_for_fork(ForkName::Deneb));
    assert!(!h.is_enabled_for_fork(ForkName::Electra));
    assert!(!h.is_enabled_for_feature(FeatureName::Fulu));
    let e = SszStaticHandler::<BasicVector, MainnetEthSpec>::electra_and_later();
    assert!(e.is_enabled_for_feature(FeatureName::Fulu));
    assert_eq!(e.forks_to_run(), vec![ForkName::Electra]);
    let all = SszStaticHandler::<BasicVector, MainnetEthSpec>::all_forks();
    assert_eq!(all.forks_to_run().len(), 6);
    assert_eq!(SszStaticHandler::<BasicVector, MainnetEthSpec>::altair_only().forks_to_run(), vec![ForkName::Altair]);
}
