//! The runners of the consensus spec tests: where each handler finds its
//! cases, and for which forks and features it runs them.
use vstd::prelude::*;
use std::marker::PhantomData;
use crate::spec::ForkName;

verus! {

/// A feature whose tests live in a directory of their own until it joins a
/// fork.
#[derive(Clone, Copy, Debug, PartialEq, Eq, Structural)]
pub enum FeatureName {
    Fulu,
}

impl FeatureName {
    pub open spec fn all() -> Seq<FeatureName> {
        seq![FeatureName::Fulu]
    }

    /// Every feature.
    pub fn list_all() -> (r: Vec<FeatureName>)
        ensures
            r@ == Self::all(),
    {
        let r = vec![FeatureName::Fulu];
        assert(r@ =~= Self::all());
        r
    }

    pub open spec fn spec_fork_name(self) -> ForkName {
        match self {
            FeatureName::Fulu => ForkName::Electra,
        }
    }

    /// The fork whose types the feature's tests use.
    pub fn fork_name(&self) -> (r: ForkName)
        ensures
            r == self.spec_fork_name(),
    {
        match self {
            FeatureName::Fulu => ForkName::Electra,
        }
    }

    /// The name of the feature's test directory.
    pub fn as_str(&self) -> (r: &'static str)
        ensures
            r@ == "fulu"@,
    {
        match self {
            FeatureName::Fulu => "fulu",
        }
    }
}

/// A type with the name that the test directories use for it.
pub trait TypeName {
    spec fn spec_name() -> Seq<char>;

    fn name() -> (r: &'static str)
        ensures
            r@ == Self::spec_name(),
    ;
}

/// The preset of the main network.
pub struct MainnetEthSpec;

/// The preset of small test networks.
pub struct MinimalEthSpec;

impl TypeName for MainnetEthSpec {
    open spec fn spec_name() -> Seq<char> {
        "mainnet"@
    }

    fn name() -> (r: &'static str) {
        "mainnet"
    }
}

impl TypeName for MinimalEthSpec {
    open spec fn spec_name() -> Seq<char> {
        "minimal"@
    }

    fn name() -> (r: &'static str) {
        "minimal"
    }
}

/// The forks of `forks` that a handler runs: every one but Fulu (whose
/// tests are not run yet) for which the handler is enabled.
pub open spec fn selected_forks(forks: Seq<ForkName>, enabled: spec_fn(ForkName) -> bool) -> Seq<ForkName>
    decreases forks.len(),
{
    if forks.len() == 0 {
        Seq::empty()
    } else {
        let rest = selected_forks(forks.drop_last(), enabled);
        let f = forks.last();
        if f != ForkName::Fulu && enabled(f) {
            rest.push(f)
        } else {
            rest
        }
    }
}

/// The features of `features` for which a handler is enabled.
pub open spec fn selected_features(features: Seq<FeatureName>, enabled: spec_fn(FeatureName) -> bool) -> Seq<
    FeatureName,
>
    decreases features.len(),
{
    if features.len() == 0 {
        Seq::empty()
    } else {
        let rest = selected_features(features.drop_last(), enabled);
        if enabled(features.last()) {
            rest.push(features.last())
        } else {
            rest
        }
    }
}

/// A runner of one kind of consensus spec test.
pub trait Handler {
    spec fn spec_config_name(&self) -> Seq<char>;

    spec fn spec_runner_name(&self) -> Seq<char>;

    spec fn spec_handler_name(&self) -> Seq<char>;

    spec fn spec_enabled_for_fork(&self, fork: ForkName) -> bool;

    spec fn spec_enabled_for_feature(&self, feature: FeatureName) -> bool;

    spec fn spec_use_rayon(&self) -> bool;

    /// The configuration directory of the tests ("general", or a preset).
    fn config_name(&self) -> (r: &'static str)
        ensures
            r@ == self.spec_config_name(),
    ;

    /// The runner directory of the tests.
    fn runner_name(&self) -> (r: &'static str)
        ensures
            r@ == self.spec_runner_name(),
    ;

    /// The handler directory of the tests.
    fn handler_name(&self) -> (r: String)
        ensures
            r@ == self.spec_handler_name(),
    ;

    fn is_enabled_for_fork(&self, fork: ForkName) -> (r: bool)
        ensures
            r == self.spec_enabled_for_fork(fork),
    ;

    fn is_enabled_for_feature(&self, feature: FeatureName) -> (r: bool)
        ensures
            r == self.spec_enabled_for_feature(feature),
    ;

    /// Whether cases may run in parallel.
    fn use_rayon(&self) -> (r: bool)
        ensures
            r == self.spec_use_rayon(),
    ;

    /// Forks excluded from spec testing.
    fn disabled_forks(&self) -> (r: Vec<ForkName>)
        ensures
            r@ == seq![ForkName::Fulu],
    {
        let r = vec![ForkName::Fulu];
        assert(r@ =~= seq![ForkName::Fulu]);
        r
    }

    /// The forks whose tests `run` runs, oldest first.
    fn forks_to_run(&self) -> (r: Vec<ForkName>)
        ensures
            r@ == selected_forks(ForkName::all(), |f: ForkName| self.spec_enabled_for_fork(f)),
    {
        let all = ForkName::list_all();
        let disabled = self.disabled_forks();
        let ghost enabled = |f: ForkName| self.spec_enabled_for_fork(f);
        let mut r: Vec<ForkName> = Vec::new();
        let mut i: usize = 0;
        while i < all.len()
            invariant
                all@ == ForkName::all(),
                disabled@ == seq![ForkName::Fulu],
                i <= all.len(),
                enabled == (|f: ForkName| self.spec_enabled_for_fork(f)),
                r@ == selected_forks(all@.take(i as int), enabled),
            decreases all.len() - i,
        {
            assert(all@.take(i + 1).drop_last() =~= all@.take(i as int));
            let f = all[i];
            let is_disabled = disabled[0] == f;
            if !is_disabled && self.is_enabled_for_fork(f) {
                r.push(f);
            }
            i = i + 1;
        }
        assert(all@.take(i as int) =~= all@);
        r
    }

    /// The features whose tests `run` runs.
    fn features_to_run(&self) -> (r: Vec<FeatureName>)
        ensures
            r@ == selected_features(FeatureName::all(), |f: FeatureName| self.spec_enabled_for_feature(f)),
    {
        let all = FeatureName::list_all();
        let ghost enabled = |f: FeatureName| self.spec_enabled_for_feature(f);
        let mut r: Vec<FeatureName> = Vec::new();
        let mut i: usize = 0;
        while i < all.len()
            invariant
                all@ == FeatureName::all(),
                i <= all.len(),
                enabled == (|f: FeatureName| self.spec_enabled_for_feature(f)),
                r@ == selected_features(all@.take(i as int), enabled),
            decreases all.len() - i,
        {
            assert(all@.take(i + 1).drop_last() =~= all@.take(i as int));
            let f = all[i];
            if self.is_enabled_for_feature(f) {
                r.push(f);
            }
            i = i + 1;
        }
        assert(all@.take(i as int) =~= all@);
        r
    }
}

/// Handler for SSZ types.
pub struct SszStaticHandler<T, E> {
    supported_forks: Vec<ForkName>,
    _phantom: PhantomData<(T, E)>,
}

impl<T, E> SszStaticHandler<T, E> {
    pub closed spec fn spec_supported_forks(&self) -> Seq<ForkName> {
        self.supported_forks@
    }

    /// A handler for the given forks.
    pub fn for_forks(supported_forks: Vec<ForkName>) -> (r: Self)
        ensures
            r.spec_supported_forks() == supported_forks@,
    {
        SszStaticHandler { supported_forks, _phantom: PhantomData }
    }

    fn forks_between(start: usize, end: usize) -> (r: Vec<ForkName>)
        requires
            start <= end <= 7,
        ensures
            r@ == ForkName::all().subrange(start as int, end as int),
    {
        let all = ForkName::list_all();
        let mut r: Vec<ForkName> = Vec::new();
        let mut i: usize = start;
        while i < end
            invariant
                all@ == ForkName::all(),
                start <= i <= end <= 7,
                r@ == ForkName::all().subrange(start as int, i as int),
            decreases end - i,
        {
            r.push(all[i]);
            i = i + 1;
            assert(r@ =~= ForkName::all().subrange(start as int, i as int));
        }
        r
    }

    /// A handler for every fork.
    pub fn all_forks() -> (r: Self)
        ensures
            r.spec_supported_forks() == ForkName::all(),
    {
        Self::for_forks(ForkName::list_all())
    }

    pub fn base_only() -> (r: Self)
        ensures
            r.spec_supported_forks() == seq![ForkName::Base],
    {
        Self::for_forks(vec![ForkName::Base])
    }

    pub fn altair_only() -> (r: Self)
        ensures
            r.spec_supported_forks() == seq![ForkName::Altair],
    {
        Self::for_forks(vec![ForkName::Altair])
    }

    pub fn bellatrix_only() -> (r: Self)
        ensures
            r.spec_supported_forks() == seq![ForkName::Bellatrix],
    {
        Self::for_forks(vec![ForkName::Bellatrix])
    }

    pub fn capella_only() -> (r: Self)
        ensures
            r.spec_supported_forks() == seq![ForkName::Capella],
    {
        Self::for_forks(vec![ForkName::Capella])
    }

    pub fn deneb_only() -> (r: Self)
        ensures
            r.spec_supported_forks() == seq![ForkName::Deneb],
    {
        Self::for_forks(vec![ForkName::Deneb])
    }

    pub fn electra_only() -> (r: Self)
        ensures
            r.spec_supported_forks() == seq![ForkName::Electra],
    {
        Self::for_forks(vec![ForkName::Electra])
    }

    pub fn fulu_only() -> (r: Self)
        ensures
            r.spec_supported_forks() == seq![ForkName::Fulu],
    {
        Self::for_forks(vec![ForkName::Fulu])
    }

    pub fn altair_and_later() -> (r: Self)
        ensures
            r.spec_supported_forks() == ForkName::all().subrange(1, 7),
    {
        Self::for_forks(Self::forks_between(1, 7))
    }

    pub fn merge_and_later() -> (r: Self)
        ensures
            r.spec_supported_forks() == ForkName::all().subrange(2, 7),
    {
        Self::for_forks(Self::forks_between(2, 7))
    }

    pub fn capella_and_later() -> (r: Self)
        ensures
            r.spec_supported_forks() == ForkName::all().subrange(3, 7),
    {
        Self::for_forks(Self::forks_between(3, 7))
    }

    pub fn deneb_and_later() -> (r: Self)
        ensures
            r.spec_supported_forks() == ForkName::all().subrange(4, 7),
    {
        Self::for_forks(Self::forks_between(4, 7))
    }

    pub fn electra_and_later() -> (r: Self)
        ensures
            r.spec_supported_forks() == ForkName::all().subrange(5, 7),
    {
        Self::for_forks(Self::forks_between(5, 7))
    }

    pub fn fulu_and_later() -> (r: Self)
        ensures
            r.spec_supported_forks() == ForkName::all().subrange(6, 7),
    {
        Self::for_forks(Self::forks_between(6, 7))
    }

    pub fn pre_electra() -> (r: Self)
        ensures
            r.spec_supported_forks() == ForkName::all().subrange(0, 5),
    {
        Self::for_forks(Self::forks_between(0, 5))
    }

    fn supports(&self, fork: ForkName) -> (r: bool)
        ensures
            r == self.supported_forks@.contains(fork),
    {
        let mut i: usize = 0;
        while i < self.supported_forks.len()
            invariant
                i <= self.supported_forks.len(),
                forall|j: int| 0 <= j < i ==> self.supported_forks@[j] != fork,
            decreases self.supported_forks.len() - i,
        {
            if self.supported_forks[i] == fork {
                return true;
            }
            i = i + 1;
        }
        false
    }
}

impl<T: TypeName, E: TypeName> Handler for SszStaticHandler<T, E> {
    open spec fn spec_config_name(&self) -> Seq<char> {
        E::spec_name()
    }

    open spec fn spec_runner_name(&self) -> Seq<char> {
        "ssz_static"@
    }

    open spec fn spec_handler_name(&self) -> Seq<char> {
        T::spec_name()
    }

    open spec fn spec_enabled_for_fork(&self, fork: ForkName) -> bool {
        self.spec_supported_forks().contains(fork)
    }

    open spec fn spec_enabled_for_feature(&self, feature: FeatureName) -> bool {
        feature == FeatureName::Fulu && self.spec_supported_forks().contains(feature.spec_fork_name())
    }

    open spec fn spec_use_rayon(&self) -> bool {
        true
    }

    fn config_name(&self) -> (r: &'static str) {
        E::name()
    }

    fn runner_name(&self) -> (r: &'static str) {
        "ssz_static"
    }

    fn handler_name(&self) -> (r: String) {
        String::from_str(T::name())
    }

    fn is_enabled_for_fork(&self, fork: ForkName) -> (r: bool) {
        self.supports(fork)
    }

    fn is_enabled_for_feature(&self, feature: FeatureName) -> (r: bool) {
        feature == FeatureName::Fulu && self.supports(feature.fork_name())
    }

    fn use_rayon(&self) -> (r: bool) {
        true
    }
}

/// Handler for the reward tests of one kind.
pub struct RewardsHandler<E> {
    handler_name: &'static str,
    _phantom: PhantomData<E>,
}

impl<E> RewardsHandler<E> {
    pub closed spec fn spec_name(&self) -> Seq<char> {
        self.handler_name@
    }

    pub fn new(handler_name: &'static str) -> (r: Self)
        ensures
            r.spec_name() == handler_name@,
    {
        Self { handler_name, _phantom: PhantomData }
    }
}

impl<E: TypeName> Handler for RewardsHandler<E> {
    open spec fn spec_config_name(&self) -> Seq<char> {
        E::spec_name()
    }

    open spec fn spec_runner_name(&self) -> Seq<char> {
        "rewards"@
    }

    open spec fn spec_handler_name(&self) -> Seq<char> {
        self.spec_name()
    }

    open spec fn spec_enabled_for_fork(&self, fork: ForkName) -> bool {
        true
    }

    open spec fn spec_enabled_for_feature(&self, feature: FeatureName) -> bool {
        false
    }

    open spec fn spec_use_rayon(&self) -> bool {
        true
    }

    fn config_name(&self) -> (r: &'static str) {
        E::name()
    }

    fn runner_name(&self) -> (r: &'static str) {
        "rewards"
    }

    fn handler_name(&self) -> (r: String) {
        String::from_str(self.handler_name)
    }

    fn is_enabled_for_fork(&self, _fork: ForkName) -> (r: bool) {
        true
    }

    fn is_enabled_for_feature(&self, _feature: FeatureName) -> (r: bool) {
        false
    }

    fn use_rayon(&self) -> (r: bool) {
        true
    }
}

/// Handler for the fork choice tests of one kind.
pub struct ForkChoiceHandler<E> {
    handler_name: String,
    _phantom: PhantomData<E>,
}

impl<E> ForkChoiceHandler<E> {
    pub closed spec fn spec_name(&self) -> Seq<char> {
        self.handler_name@
    }

    pub fn new(handler_name: &str) -> (r: Self)
        ensures
            r.spec_name() == handler_name@,
    {
        Self { handler_name: String::from_str(handler_name), _phantom: PhantomData }
    }
}

/// The fork choice tests run from Altair on (none are generated for the
/// base fork), never the retired merge-block tests, and the forkchoice
/// update override tests only from Bellatrix.
pub open spec fn fork_choice_enabled(name: Seq<char>, fork: ForkName) -> bool {
    &&& name != "on_merge_block"@
    &&& fork != ForkName::Base
    &&& (name == "should_override_forkchoice_update"@ ==> fork.index() >= 2)
}

impl<E: TypeName> Handler for ForkChoiceHandler<E> {
    open spec fn spec_config_name(&self) -> Seq<char> {
        E::spec_name()
    }

    open spec fn spec_runner_name(&self) -> Seq<char> {
        "fork_choice"@
    }

    open spec fn spec_handler_name(&self) -> Seq<char> {
        self.spec_name()
    }

    open spec fn spec_enabled_for_fork(&self, fork: ForkName) -> bool {
        fork_choice_enabled(self.spec_name(), fork)
    }

    open spec fn spec_enabled_for_feature(&self, feature: FeatureName) -> bool {
        false
    }

    open spec fn spec_use_rayon(&self) -> bool {
        false
    }

    fn config_name(&self) -> (r: &'static str) {
        E::name()
    }

    fn runner_name(&self) -> (r: &'static str) {
        "fork_choice"
    }

    fn handler_name(&self) -> (r: String) {
        self.handler_name.clone()
    }

    fn is_enabled_for_fork(&self, fork: ForkName) -> (r: bool) {
        if self.handler_name == String::from_str("on_merge_block") {
            return false;
        }
        if fork == ForkName::Base {
            return false;
        }
        if self.handler_name == String::from_str("should_override_forkchoice_update") && !fork.bellatrix_enabled() {
            return false;
        }
        true
    }

    fn is_enabled_for_feature(&self, _feature: FeatureName) -> (r: bool) {
        false
    }

    fn use_rayon(&self) -> (r: bool) {
        false
    }
}

/// Handler for SSZ types that implement `CachedTreeHash`.
pub struct SszStaticTHCHandler<T, E>(pub PhantomData<(T, E)>);

impl<T: TypeName, E: TypeName> Handler for SszStaticTHCHandler<T, E> {
    open spec fn spec_config_name(&self) -> Seq<char> {
        E::spec_name()
    }

    open spec fn spec_runner_name(&self) -> Seq<char> {
        "ssz_static"@
    }

    open spec fn spec_handler_name(&self) -> Seq<char> {
        "BeaconState"@
    }

    open spec fn spec_enabled_for_fork(&self, fork: ForkName) -> bool {
        true
    }

    open spec fn spec_enabled_for_feature(&self, feature: FeatureName) -> bool {
        feature == FeatureName::Fulu
    }

    open spec fn spec_use_rayon(&self) -> bool {
        true
    }

    fn config_name(&self) -> (r: &'static str) {
        E::name()
    }

    fn runner_name(&self) -> (r: &'static str) {
        "ssz_static"
    }

    fn handler_name(&self) -> (r: String) {
        String::from_str("BeaconState")
    }

    fn is_enabled_for_fork(&self, _fork: ForkName) -> (r: bool) {
        true
    }

    fn is_enabled_for_feature(&self, feature: FeatureName) -> (r: bool) {
        feature == FeatureName::Fulu
    }

    fn use_rayon(&self) -> (r: bool) {
        true
    }
}

/// Handler for SSZ types that don't implement `ssz::Decode`.
pub struct SszStaticWithSpecHandler<T, E>(pub PhantomData<(T, E)>);

impl<T: TypeName, E: TypeName> Handler for SszStaticWithSpecHandler<T, E> {
    open spec fn spec_config_name(&self) -> Seq<char> {
        E::spec_name()
    }

    open spec fn spec_runner_name(&self) -> Seq<char> {
        "ssz_static"@
    }

    open spec fn spec_handler_name(&self) -> Seq<char> {
        T::spec_name()
    }

    open spec fn spec_enabled_for_fork(&self, fork: ForkName) -> bool {
        true
    }

    open spec fn spec_enabled_for_feature(&self, feature: FeatureName) -> bool {
        feature == FeatureName::Fulu
    }

    open spec fn spec_use_rayon(&self) -> bool {
        true
    }

    fn config_name(&self) -> (r: &'static str) {
        E::name()
    }

    fn runner_name(&self) -> (r: &'static str) {
        "ssz_static"
    }

    fn handler_name(&self) -> (r: String) {
        String::from_str(T::name())
    }

    fn is_enabled_for_fork(&self, _fork: ForkName) -> (r: bool) {
        true
    }

    fn is_enabled_for_feature(&self, feature: FeatureName) -> (r: bool) {
        feature == FeatureName::Fulu
    }

    fn use_rayon(&self) -> (r: bool) {
        true
    }
}

pub struct ShufflingHandler<E>(pub PhantomData<E>);

impl<E: TypeName> Handler for ShufflingHandler<E> {
    open spec fn spec_config_name(&self) -> Seq<char> {
        E::spec_name()
    }

    open spec fn spec_runner_name(&self) -> Seq<char> {
        "shuffling"@
    }

    open spec fn spec_handler_name(&self) -> Seq<char> {
        "core"@
    }

    open spec fn spec_enabled_for_fork(&self, fork: ForkName) -> bool {
        fork == ForkName::Base
    }

    open spec fn spec_enabled_for_feature(&self, feature: FeatureName) -> bool {
        false
    }

    open spec fn spec_use_rayon(&self) -> bool {
        true
    }

    fn config_name(&self) -> (r: &'static str) {
        E::name()
    }

    fn runner_name(&self) -> (r: &'static str) {
        "shuffling"
    }

    fn handler_name(&self) -> (r: String) {
        String::from_str("core")
    }

    fn is_enabled_for_fork(&self, fork: ForkName) -> (r: bool) {
        fork == ForkName::Base
    }

    fn is_enabled_for_feature(&self, _feature: FeatureName) -> (r: bool) {
        false
    }

    fn use_rayon(&self) -> (r: bool) {
        true
    }
}

pub struct SanityBlocksHandler<E>(pub PhantomData<E>);

impl<E: TypeName> Handler for SanityBlocksHandler<E> {
    open spec fn spec_config_name(&self) -> Seq<char> {
        E::spec_name()
    }

    open spec fn spec_runner_name(&self) -> Seq<char> {
        "sanity"@
    }

    open spec fn spec_handler_name(&self) -> Seq<char> {
        "blocks"@
    }

    open spec fn spec_enabled_for_fork(&self, fork: ForkName) -> bool {
        true
    }

    open spec fn spec_enabled_for_feature(&self, feature: FeatureName) -> bool {
        false
    }

    open spec fn spec_use_rayon(&self) -> bool {
        true
    }

    fn config_name(&self) -> (r: &'static str) {
        E::name()
    }

    fn runner_name(&self) -> (r: &'static str) {
        "sanity"
    }

    fn handler_name(&self) -> (r: String) {
        String::from_str("blocks")
    }

    fn is_enabled_for_fork(&self, _fork: ForkName) -> (r: bool) {
        true
    }

    fn is_enabled_for_feature(&self, _feature: FeatureName) -> (r: bool) {
        false
    }

    fn use_rayon(&self) -> (r: bool) {
        true
    }
}

pub struct SanitySlotsHandler<E>(pub PhantomData<E>);

impl<E: TypeName> Handler for SanitySlotsHandler<E> {
    open spec fn spec_config_name(&self) -> Seq<char> {
        E::spec_name()
    }

    open spec fn spec_runner_name(&self) -> Seq<char> {
        "sanity"@
    }

    open spec fn spec_handler_name(&self) -> Seq<char> {
        "slots"@
    }

    open spec fn spec_enabled_for_fork(&self, fork: ForkName) -> bool {
        true
    }

    open spec fn spec_enabled_for_feature(&self, feature: FeatureName) -> bool {
        false
    }

    open spec fn spec_use_rayon(&self) -> bool {
        true
    }

    fn config_name(&self) -> (r: &'static str) {
        E::name()
    }

    fn runner_name(&self) -> (r: &'static str) {
        "sanity"
    }

    fn handler_name(&self) -> (r: String) {
        String::from_str("slots")
    }

    fn is_enabled_for_fork(&self, _fork: ForkName) -> (r: bool) {
        true
    }

    fn is_enabled_for_feature(&self, _feature: FeatureName) -> (r: bool) {
        false
    }

    fn use_rayon(&self) -> (r: bool) {
        true
    }
}

pub struct RandomHandler<E>(pub PhantomData<E>);

impl<E: TypeName> Handler for RandomHandler<E> {
    open spec fn spec_config_name(&self) -> Seq<char> {
        E::spec_name()
    }

    open spec fn spec_runner_name(&self) -> Seq<char> {
        "random"@
    }

    open spec fn spec_handler_name(&self) -> Seq<char> {
        "random"@
    }

    open spec fn spec_enabled_for_fork(&self, fork: ForkName) -> bool {
        true
    }

    open spec fn spec_enabled_for_feature(&self, feature: FeatureName) -> bool {
        false
    }

    open spec fn spec_use_rayon(&self) -> bool {
        true
    }

    fn config_name(&self) -> (r: &'static str) {
        E::name()
    }

    fn runner_name(&self) -> (r: &'static str) {
        "random"
    }

    fn handler_name(&self) -> (r: String) {
        String::from_str("random")
    }

    fn is_enabled_for_fork(&self, _fork: ForkName) -> (r: bool) {
        true
    }

    fn is_enabled_for_feature(&self, _feature: FeatureName) -> (r: bool) {
        false
    }

    fn use_rayon(&self) -> (r: bool) {
        true
    }
}

pub struct EpochProcessingHandler<E, T>(pub PhantomData<(E, T)>);

impl<E: TypeName, T: TypeName> Handler for EpochProcessingHandler<E, T> {
    open spec fn spec_config_name(&self) -> Seq<char> {
        E::spec_name()
    }

    open spec fn spec_runner_name(&self) -> Seq<char> {
        "epoch_processing"@
    }

    open spec fn spec_handler_name(&self) -> Seq<char> {
        T::spec_name()
    }

    open spec fn spec_enabled_for_fork(&self, fork: ForkName) -> bool {
        true
    }

    open spec fn spec_enabled_for_feature(&self, feature: FeatureName) -> bool {
        false
    }

    open spec fn spec_use_rayon(&self) -> bool {
        true
    }

    fn config_name(&self) -> (r: &'static str) {
        E::name()
    }

    fn runner_name(&self) -> (r: &'static str) {
        "epoch_processing"
    }

    fn handler_name(&self) -> (r: String) {
        String::from_str(T::name())
    }

    fn is_enabled_for_fork(&self, _fork: ForkName) -> (r: bool) {
        true
    }

    fn is_enabled_for_feature(&self, _feature: FeatureName) -> (r: bool) {
        false
    }

    fn use_rayon(&self) -> (r: bool) {
        true
    }
}

pub struct ForkHandler<E>(pub PhantomData<E>);

impl<E: TypeName> Handler for ForkHandler<E> {
    open spec fn spec_config_name(&self) -> Seq<char> {
        E::spec_name()
    }

    open spec fn spec_runner_name(&self) -> Seq<char> {
        "fork"@
    }

    open spec fn spec_handler_name(&self) -> Seq<char> {
        "fork"@
    }

    open spec fn spec_enabled_for_fork(&self, fork: ForkName) -> bool {
        true
    }

    open spec fn spec_enabled_for_feature(&self, feature: FeatureName) -> bool {
        false
    }

    open spec fn spec_use_rayon(&self) -> bool {
        true
    }

    fn config_name(&self) -> (r: &'static str) {
        E::name()
    }

    fn runner_name(&self) -> (r: &'static str) {
        "fork"
    }

    fn handler_name(&self) -> (r: String) {
        String::from_str("fork")
    }

    fn is_enabled_for_fork(&self, _fork: ForkName) -> (r: bool) {
        true
    }

    fn is_enabled_for_feature(&self, _feature: FeatureName) -> (r: bool) {
        false
    }

    fn use_rayon(&self) -> (r: bool) {
        true
    }
}

pub struct TransitionHandler<E>(pub PhantomData<E>);

impl<E: TypeName> Handler for TransitionHandler<E> {
    open spec fn spec_config_name(&self) -> Seq<char> {
        E::spec_name()
    }

    open spec fn spec_runner_name(&self) -> Seq<char> {
        "transition"@
    }

    open spec fn spec_handler_name(&self) -> Seq<char> {
        "core"@
    }

    open spec fn spec_enabled_for_fork(&self, fork: ForkName) -> bool {
        true
    }

    open spec fn spec_enabled_for_feature(&self, feature: FeatureName) -> bool {
        false
    }

    open spec fn spec_use_rayon(&self) -> bool {
        true
    }

    fn config_name(&self) -> (r: &'static str) {
        E::name()
    }

    fn runner_name(&self) -> (r: &'static str) {
        "transition"
    }

    fn handler_name(&self) -> (r: String) {
        String::from_str("core")
    }

    fn is_enabled_for_fork(&self, _fork: ForkName) -> (r: bool) {
        true
    }

    fn is_enabled_for_feature(&self, _feature: FeatureName) -> (r: bool) {
        false
    }

    fn use_rayon(&self) -> (r: bool) {
        true
    }
}

pub struct FinalityHandler<E>(pub PhantomData<E>);

impl<E: TypeName> Handler for FinalityHandler<E> {
    open spec fn spec_config_name(&self) -> Seq<char> {
        E::spec_name()
    }

    open spec fn spec_runner_name(&self) -> Seq<char> {
        "finality"@
    }

    open spec fn spec_handler_name(&self) -> Seq<char> {
        "finality"@
    }

    open spec fn spec_enabled_for_fork(&self, fork: ForkName) -> bool {
        true
    }

    open spec fn spec_enabled_for_feature(&self, feature: FeatureName) -> bool {
        false
    }

    open spec fn spec_use_rayon(&self) -> bool {
        true
    }

    fn config_name(&self) -> (r: &'static str) {
        E::name()
    }

    fn runner_name(&self) -> (r: &'static str) {
        "finality"
    }

    fn handler_name(&self) -> (r: String) {
        String::from_str("finality")
    }

    fn is_enabled_for_fork(&self, _fork: ForkName) -> (r: bool) {
        true
    }

    fn is_enabled_for_feature(&self, _feature: FeatureName) -> (r: bool) {
        false
    }

    fn use_rayon(&self) -> (r: bool) {
        true
    }
}

pub struct OptimisticSyncHandler<E>(pub PhantomData<E>);

impl<E: TypeName> Handler for OptimisticSyncHandler<E> {
    open spec fn spec_config_name(&self) -> Seq<char> {
        E::spec_name()
    }

    open spec fn spec_runner_name(&self) -> Seq<char> {
        "sync"@
    }

    open spec fn spec_handler_name(&self) -> Seq<char> {
        "optimistic"@
    }

    open spec fn spec_enabled_for_fork(&self, fork: ForkName) -> bool {
        fork.index() >= 2
    }

    open spec fn spec_enabled_for_feature(&self, feature: FeatureName) -> bool {
        false
    }

    open spec fn spec_use_rayon(&self) -> bool {
        false
    }

    fn config_name(&self) -> (r: &'static str) {
        E::name()
    }

    fn runner_name(&self) -> (r: &'static str) {
        "sync"
    }

    fn handler_name(&self) -> (r: String) {
        String::from_str("optimistic")
    }

    fn is_enabled_for_fork(&self, fork: ForkName) -> (r: bool) {
        fork.bellatrix_enabled()
    }

    fn is_enabled_for_feature(&self, _feature: FeatureName) -> (r: bool) {
        false
    }

    fn use_rayon(&self) -> (r: bool) {
        false
    }
}

pub struct GenesisValidityHandler<E>(pub PhantomData<E>);

impl<E: TypeName> Handler for GenesisValidityHandler<E> {
    open spec fn spec_config_name(&self) -> Seq<char> {
        E::spec_name()
    }

    open spec fn spec_runner_name(&self) -> Seq<char> {
        "genesis"@
    }

    open spec fn spec_handler_name(&self) -> Seq<char> {
        "validity"@
    }

    open spec fn spec_enabled_for_fork(&self, fork: ForkName) -> bool {
        true
    }

    open spec fn spec_enabled_for_feature(&self, feature: FeatureName) -> bool {
        false
    }

    open spec fn spec_use_rayon(&self) -> bool {
        true
    }

    fn config_name(&self) -> (r: &'static str) {
        E::name()
    }

    fn runner_name(&self) -> (r: &'static str) {
        "genesis"
    }

    fn handler_name(&self) -> (r: String) {
        String::from_str("validity")
    }

    fn is_enabled_for_fork(&self, _fork: ForkName) -> (r: bool) {
        true
    }

    fn is_enabled_for_feature(&self, _feature: FeatureName) -> (r: bool) {
        false
    }

    fn use_rayon(&self) -> (r: bool) {
        true
    }
}

pub struct GenesisInitializationHandler<E>(pub PhantomData<E>);

impl<E: TypeName> Handler for GenesisInitializationHandler<E> {
    open spec fn spec_config_name(&self) -> Seq<char> {
        E::spec_name()
    }

    open spec fn spec_runner_name(&self) -> Seq<char> {
        "genesis"@
    }

    open spec fn spec_handler_name(&self) -> Seq<char> {
        "initialization"@
    }

    open spec fn spec_enabled_for_fork(&self, fork: ForkName) -> bool {
        true
    }

    open spec fn spec_enabled_for_feature(&self, feature: FeatureName) -> bool {
        false
    }

    open spec fn spec_use_rayon(&self) -> bool {
        true
    }

    fn config_name(&self) -> (r: &'static str) {
        E::name()
    }

    fn runner_name(&self) -> (r: &'static str) {
        "genesis"
    }

    fn handler_name(&self) -> (r: String) {
        String::from_str("initialization")
    }

    fn is_enabled_for_fork(&self, _fork: ForkName) -> (r: bool) {
        true
    }

    fn is_enabled_for_feature(&self, _feature: FeatureName) -> (r: bool) {
        false
    }

    fn use_rayon(&self) -> (r: bool) {
        true
    }
}

pub struct KZGBlobToKZGCommitmentHandler<E>(pub PhantomData<E>);

impl<E: TypeName> Handler for KZGBlobToKZGCommitmentHandler<E> {
    open spec fn spec_config_name(&self) -> Seq<char> {
        "general"@
    }

    open spec fn spec_runner_name(&self) -> Seq<char> {
        "kzg"@
    }

    open spec fn spec_handler_name(&self) -> Seq<char> {
        "blob_to_kzg_commitment"@
    }

    open spec fn spec_enabled_for_fork(&self, fork: ForkName) -> bool {
        true
    }

    open spec fn spec_enabled_for_feature(&self, feature: FeatureName) -> bool {
        false
    }

    open spec fn spec_use_rayon(&self) -> bool {
        true
    }

    fn config_name(&self) -> (r: &'static str) {
        "general"
    }

    fn runner_name(&self) -> (r: &'static str) {
        "kzg"
    }

    fn handler_name(&self) -> (r: String) {
        String::from_str("blob_to_kzg_commitment")
    }

    fn is_enabled_for_fork(&self, _fork: ForkName) -> (r: bool) {
        true
    }

    fn is_enabled_for_feature(&self, _feature: FeatureName) -> (r: bool) {
        false
    }

    fn use_rayon(&self) -> (r: bool) {
        true
    }
}

pub struct KZGComputeBlobKZGProofHandler<E>(pub PhantomData<E>);

impl<E: TypeName> Handler for KZGComputeBlobKZGProofHandler<E> {
    open spec fn spec_config_name(&self) -> Seq<char> {
        "general"@
    }

    open spec fn spec_runner_name(&self) -> Seq<char> {
        "kzg"@
    }

    open spec fn spec_handler_name(&self) -> Seq<char> {
        "compute_blob_kzg_proof"@
    }

    open spec fn spec_enabled_for_fork(&self, fork: ForkName) -> bool {
        true
    }

    open spec fn spec_enabled_for_feature(&self, feature: FeatureName) -> bool {
        false
    }

    open spec fn spec_use_rayon(&self) -> bool {
        true
    }

    fn config_name(&self) -> (r: &'static str) {
        "general"
    }

    fn runner_name(&self) -> (r: &'static str) {
        "kzg"
    }

    fn handler_name(&self) -> (r: String) {
        String::from_str("compute_blob_kzg_proof")
    }

    fn is_enabled_for_fork(&self, _fork: ForkName) -> (r: bool) {
        true
    }

    fn is_enabled_for_feature(&self, _feature: FeatureName) -> (r: bool) {
        false
    }

    fn use_rayon(&self) -> (r: bool) {
        true
    }
}

pub struct KZGComputeKZGProofHandler<E>(pub PhantomData<E>);

impl<E: TypeName> Handler for KZGComputeKZGProofHandler<E> {
    open spec fn spec_config_name(&self) -> Seq<char> {
        "general"@
    }

    open spec fn spec_runner_name(&self) -> Seq<char> {
        "kzg"@
    }

    open spec fn spec_handler_name(&self) -> Seq<char> {
        "compute_kzg_proof"@
    }

    open spec fn spec_enabled_for_fork(&self, fork: ForkName) -> bool {
        true
    }

    open spec fn spec_enabled_for_feature(&self, feature: FeatureName) -> bool {
        false
    }

    open spec fn spec_use_rayon(&self) -> bool {
        true
    }

    fn config_name(&self) -> (r: &'static str) {
        "general"
    }

    fn runner_name(&self) -> (r: &'static str) {
        "kzg"
    }

    fn handler_name(&self) -> (r: String) {
        String::from_str("compute_kzg_proof")
    }

    fn is_enabled_for_fork(&self, _fork: ForkName) -> (r: bool) {
        true
    }

    fn is_enabled_for_feature(&self, _feature: FeatureName) -> (r: bool) {
        false
    }

    fn use_rayon(&self) -> (r: bool) {
        true
    }
}

pub struct KZGVerifyBlobKZGProofHandler<E>(pub PhantomData<E>);

impl<E: TypeName> Handler for KZGVerifyBlobKZGProofHandler<E> {
    open spec fn spec_config_name(&self) -> Seq<char> {
        "general"@
    }

    open spec fn spec_runner_name(&self) -> Seq<char> {
        "kzg"@
    }

    open spec fn spec_handler_name(&self) -> Seq<char> {
        "verify_blob_kzg_proof"@
    }

    open spec fn spec_enabled_for_fork(&self, fork: ForkName) -> bool {
        true
    }

    open spec fn spec_enabled_for_feature(&self, feature: FeatureName) -> bool {
        false
    }

    open spec fn spec_use_rayon(&self) -> bool {
        true
    }

    fn config_name(&self) -> (r: &'static str) {
        "general"
    }

    fn runner_name(&self) -> (r: &'static str) {
        "kzg"
    }

    fn handler_name(&self) -> (r: String) {
        String::from_str("verify_blob_kzg_proof")
    }

    fn is_enabled_for_fork(&self, _fork: ForkName) -> (r: bool) {
        true
    }

    fn is_enabled_for_feature(&self, _feature: FeatureName) -> (r: bool) {
        false
    }

    fn use_rayon(&self) -> (r: bool) {
        true
    }
}

pub struct KZGVerifyBlobKZGProofBatchHandler<E>(pub PhantomData<E>);

impl<E: TypeName> Handler for KZGVerifyBlobKZGProofBatchHandler<E> {
    open spec fn spec_config_name(&self) -> Seq<char> {
        "general"@
    }

    open spec fn spec_runner_name(&self) -> Seq<char> {
        "kzg"@
    }

    open spec fn spec_handler_name(&self) -> Seq<char> {
        "verify_blob_kzg_proof_batch"@
    }

    open spec fn spec_enabled_for_fork(&self, fork: ForkName) -> bool {
        true
    }

    open spec fn spec_enabled_for_feature(&self, feature: FeatureName) -> bool {
        false
    }

    open spec fn spec_use_rayon(&self) -> bool {
        true
    }

    fn config_name(&self) -> (r: &'static str) {
        "general"
    }

    fn runner_name(&self) -> (r: &'static str) {
        "kzg"
    }

    fn handler_name(&self) -> (r: String) {
        String::from_str("verify_blob_kzg_proof_batch")
    }

    fn is_enabled_for_fork(&self, _fork: ForkName) -> (r: bool) {
        true
    }

    fn is_enabled_for_feature(&self, _feature: FeatureName) -> (r: bool) {
        false
    }

    fn use_rayon(&self) -> (r: bool) {
        true
    }
}

pub struct KZGVerifyKZGProofHandler<E>(pub PhantomData<E>);

impl<E: TypeName> Handler for KZGVerifyKZGProofHandler<E> {
    open spec fn spec_config_name(&self) -> Seq<char> {
        "general"@
    }

    open spec fn spec_runner_name(&self) -> Seq<char> {
        "kzg"@
    }

    open spec fn spec_handler_name(&self) -> Seq<char> {
        "verify_kzg_proof"@
    }

    open spec fn spec_enabled_for_fork(&self, fork: ForkName) -> bool {
        true
    }

    open spec fn spec_enabled_for_feature(&self, feature: FeatureName) -> bool {
        false
    }

    open spec fn spec_use_rayon(&self) -> bool {
        true
    }

    fn config_name(&self) -> (r: &'static str) {
        "general"
    }

    fn runner_name(&self) -> (r: &'static str) {
        "kzg"
    }

    fn handler_name(&self) -> (r: String) {
        String::from_str("verify_kzg_proof")
    }

    fn is_enabled_for_fork(&self, _fork: ForkName) -> (r: bool) {
        true
    }

    fn is_enabled_for_feature(&self, _feature: FeatureName) -> (r: bool) {
        false
    }

    fn use_rayon(&self) -> (r: bool) {
        true
    }
}

pub struct KZGComputeCellsAndKZGProofHandler<E>(pub PhantomData<E>);

impl<E: TypeName> Handler for KZGComputeCellsAndKZGProofHandler<E> {
    open spec fn spec_config_name(&self) -> Seq<char> {
        "general"@
    }

    open spec fn spec_runner_name(&self) -> Seq<char> {
        "kzg"@
    }

    open spec fn spec_handler_name(&self) -> Seq<char> {
        "compute_cells_and_kzg_proofs"@
    }

    open spec fn spec_enabled_for_fork(&self, fork: ForkName) -> bool {
        true
    }

    open spec fn spec_enabled_for_feature(&self, feature: FeatureName) -> bool {
        feature == FeatureName::Fulu
    }

    open spec fn spec_use_rayon(&self) -> bool {
        true
    }

    fn config_name(&self) -> (r: &'static str) {
        "general"
    }

    fn runner_name(&self) -> (r: &'static str) {
        "kzg"
    }

    fn handler_name(&self) -> (r: String) {
        String::from_str("compute_cells_and_kzg_proofs")
    }

    fn is_enabled_for_fork(&self, _fork: ForkName) -> (r: bool) {
        true
    }

    fn is_enabled_for_feature(&self, feature: FeatureName) -> (r: bool) {
        feature == FeatureName::Fulu
    }

    fn use_rayon(&self) -> (r: bool) {
        true
    }
}

pub struct KZGVerifyCellKZGProofBatchHandler<E>(pub PhantomData<E>);

impl<E: TypeName> Handler for KZGVerifyCellKZGProofBatchHandler<E> {
    open spec fn spec_config_name(&self) -> Seq<char> {
        "general"@
    }

    open spec fn spec_runner_name(&self) -> Seq<char> {
        "kzg"@
    }

    open spec fn spec_handler_name(&self) -> Seq<char> {
        "verify_cell_kzg_proof_batch"@
    }

    open spec fn spec_enabled_for_fork(&self, fork: ForkName) -> bool {
        true
    }

    open spec fn spec_enabled_for_feature(&self, feature: FeatureName) -> bool {
        feature == FeatureName::Fulu
    }

    open spec fn spec_use_rayon(&self) -> bool {
        true
    }

    fn config_name(&self) -> (r: &'static str) {
        "general"
    }

    fn runner_name(&self) -> (r: &'static str) {
        "kzg"
    }

    fn handler_name(&self) -> (r: String) {
        String::from_str("verify_cell_kzg_proof_batch")
    }

    fn is_enabled_for_fork(&self, _fork: ForkName) -> (r: bool) {
        true
    }

    fn is_enabled_for_feature(&self, feature: FeatureName) -> (r: bool) {
        feature == FeatureName::Fulu
    }

    fn use_rayon(&self) -> (r: bool) {
        true
    }
}

pub struct KZGRecoverCellsAndKZGProofHandler<E>(pub PhantomData<E>);

impl<E: TypeName> Handler for KZGRecoverCellsAndKZGProofHandler<E> {
    open spec fn spec_config_name(&self) -> Seq<char> {
        "general"@
    }

    open spec fn spec_runner_name(&self) -> Seq<char> {
        "kzg"@
    }

    open spec fn spec_handler_name(&self) -> Seq<char> {
        "recover_cells_and_kzg_proofs"@
    }

    open spec fn spec_enabled_for_fork(&self, fork: ForkName) -> bool {
        true
    }

    open spec fn spec_enabled_for_feature(&self, feature: FeatureName) -> bool {
        feature == FeatureName::Fulu
    }

    open spec fn spec_use_rayon(&self) -> bool {
        true
    }

    fn config_name(&self) -> (r: &'static str) {
        "general"
    }

    fn runner_name(&self) -> (r: &'static str) {
        "kzg"
    }

    fn handler_name(&self) -> (r: String) {
        String::from_str("recover_cells_and_kzg_proofs")
    }

    fn is_enabled_for_fork(&self, _fork: ForkName) -> (r: bool) {
        true
    }

    fn is_enabled_for_feature(&self, feature: FeatureName) -> (r: bool) {
        feature == FeatureName::Fulu
    }

    fn use_rayon(&self) -> (r: bool) {
        true
    }
}

pub struct GetCustodyGroupsHandler<E>(pub PhantomData<E>);

impl<E: TypeName> Handler for GetCustodyGroupsHandler<E> {
    open spec fn spec_config_name(&self) -> Seq<char> {
        E::spec_name()
    }

    open spec fn spec_runner_name(&self) -> Seq<char> {
        "networking"@
    }

    open spec fn spec_handler_name(&self) -> Seq<char> {
        "get_custody_groups"@
    }

    open spec fn spec_enabled_for_fork(&self, fork: ForkName) -> bool {
        true
    }

    open spec fn spec_enabled_for_feature(&self, feature: FeatureName) -> bool {
        feature == FeatureName::Fulu
    }

    open spec fn spec_use_rayon(&self) -> bool {
        true
    }

    fn config_name(&self) -> (r: &'static str) {
        E::name()
    }

    fn runner_name(&self) -> (r: &'static str) {
        "networking"
    }

    fn handler_name(&self) -> (r: String) {
        String::from_str("get_custody_groups")
    }

    fn is_enabled_for_fork(&self, _fork: ForkName) -> (r: bool) {
        true
    }

    fn is_enabled_for_feature(&self, feature: FeatureName) -> (r: bool) {
        feature == FeatureName::Fulu
    }

    fn use_rayon(&self) -> (r: bool) {
        true
    }
}

pub struct ComputeColumnsForCustodyGroupHandler<E>(pub PhantomData<E>);

impl<E: TypeName> Handler for ComputeColumnsForCustodyGroupHandler<E> {
    open spec fn spec_config_name(&self) -> Seq<char> {
        E::spec_name()
    }

    open spec fn spec_runner_name(&self) -> Seq<char> {
        "networking"@
    }

    open spec fn spec_handler_name(&self) -> Seq<char> {
        "compute_columns_for_custody_group"@
    }

    open spec fn spec_enabled_for_fork(&self, fork: ForkName) -> bool {
        true
    }

    open spec fn spec_enabled_for_feature(&self, feature: FeatureName) -> bool {
        feature == FeatureName::Fulu
    }

    open spec fn spec_use_rayon(&self) -> bool {
        true
    }

    fn config_name(&self) -> (r: &'static str) {
        E::name()
    }

    fn runner_name(&self) -> (r: &'static str) {
        "networking"
    }

    fn handler_name(&self) -> (r: String) {
        String::from_str("compute_columns_for_custody_group")
    }

    fn is_enabled_for_fork(&self, _fork: ForkName) -> (r: bool) {
        true
    }

    fn is_enabled_for_feature(&self, feature: FeatureName) -> (r: bool) {
        feature == FeatureName::Fulu
    }

    fn use_rayon(&self) -> (r: bool) {
        true
    }
}

pub struct BeaconStateMerkleProofValidityHandler<E>(pub PhantomData<E>);

impl<E: TypeName> Handler for BeaconStateMerkleProofValidityHandler<E> {
    open spec fn spec_config_name(&self) -> Seq<char> {
        E::spec_name()
    }

    open spec fn spec_runner_name(&self) -> Seq<char> {
        "light_client"@
    }

    open spec fn spec_handler_name(&self) -> Seq<char> {
        "single_merkle_proof/BeaconState"@
    }

    open spec fn spec_enabled_for_fork(&self, fork: ForkName) -> bool {
        fork.index() >= 1
    }

    open spec fn spec_enabled_for_feature(&self, feature: FeatureName) -> bool {
        false
    }

    open spec fn spec_use_rayon(&self) -> bool {
        true
    }

    fn config_name(&self) -> (r: &'static str) {
        E::name()
    }

    fn runner_name(&self) -> (r: &'static str) {
        "light_client"
    }

    fn handler_name(&self) -> (r: String) {
        String::from_str("single_merkle_proof/BeaconState")
    }

    fn is_enabled_for_fork(&self, fork: ForkName) -> (r: bool) {
        fork.altair_enabled()
    }

    fn is_enabled_for_feature(&self, _feature: FeatureName) -> (r: bool) {
        false
    }

    fn use_rayon(&self) -> (r: bool) {
        true
    }
}

pub struct KzgInclusionMerkleProofValidityHandler<E>(pub PhantomData<E>);

impl<E: TypeName> Handler for KzgInclusionMerkleProofValidityHandler<E> {
    open spec fn spec_config_name(&self) -> Seq<char> {
        E::spec_name()
    }

    open spec fn spec_runner_name(&self) -> Seq<char> {
        "merkle_proof"@
    }

    open spec fn spec_handler_name(&self) -> Seq<char> {
        "single_merkle_proof"@
    }

    open spec fn spec_enabled_for_fork(&self, fork: ForkName) -> bool {
        fork.index() >= 4
    }

    open spec fn spec_enabled_for_feature(&self, feature: FeatureName) -> bool {
        feature == FeatureName::Fulu
    }

    open spec fn spec_use_rayon(&self) -> bool {
        true
    }

    fn config_name(&self) -> (r: &'static str) {
        E::name()
    }

    fn runner_name(&self) -> (r: &'static str) {
        "merkle_proof"
    }

    fn handler_name(&self) -> (r: String) {
        String::from_str("single_merkle_proof")
    }

    fn is_enabled_for_fork(&self, fork: ForkName) -> (r: bool) {
        fork.deneb_enabled()
    }

    fn is_enabled_for_feature(&self, feature: FeatureName) -> (r: bool) {
        feature == FeatureName::Fulu
    }

    fn use_rayon(&self) -> (r: bool) {
        true
    }
}

pub struct BeaconBlockBodyMerkleProofValidityHandler<E>(pub PhantomData<E>);

impl<E: TypeName> Handler for BeaconBlockBodyMerkleProofValidityHandler<E> {
    open spec fn spec_config_name(&self) -> Seq<char> {
        E::spec_name()
    }

    open spec fn spec_runner_name(&self) -> Seq<char> {
        "light_client"@
    }

    open spec fn spec_handler_name(&self) -> Seq<char> {
        "single_merkle_proof/BeaconBlockBody"@
    }

    open spec fn spec_enabled_for_fork(&self, fork: ForkName) -> bool {
        fork.index() >= 3
    }

    open spec fn spec_enabled_for_feature(&self, feature: FeatureName) -> bool {
        false
    }

    open spec fn spec_use_rayon(&self) -> bool {
        true
    }

    fn config_name(&self) -> (r: &'static str) {
        E::name()
    }

    fn runner_name(&self) -> (r: &'static str) {
        "light_client"
    }

    fn handler_name(&self) -> (r: String) {
        String::from_str("single_merkle_proof/BeaconBlockBody")
    }

    fn is_enabled_for_fork(&self, fork: ForkName) -> (r: bool) {
        fork.capella_enabled()
    }

    fn is_enabled_for_feature(&self, _feature: FeatureName) -> (r: bool) {
        false
    }

    fn use_rayon(&self) -> (r: bool) {
        true
    }
}

pub struct LightClientUpdateHandler<E>(pub PhantomData<E>);

impl<E: TypeName> Handler for LightClientUpdateHandler<E> {
    open spec fn spec_config_name(&self) -> Seq<char> {
        E::spec_name()
    }

    open spec fn spec_runner_name(&self) -> Seq<char> {
        "light_client"@
    }

    open spec fn spec_handler_name(&self) -> Seq<char> {
        "update_ranking"@
    }

    open spec fn spec_enabled_for_fork(&self, fork: ForkName) -> bool {
        fork.index() >= 1
    }

    open spec fn spec_enabled_for_feature(&self, feature: FeatureName) -> bool {
        false
    }

    open spec fn spec_use_rayon(&self) -> bool {
        true
    }

    fn config_name(&self) -> (r: &'static str) {
        E::name()
    }

    fn runner_name(&self) -> (r: &'static str) {
        "light_client"
    }

    fn handler_name(&self) -> (r: String) {
        String::from_str("update_ranking")
    }

    fn is_enabled_for_fork(&self, fork: ForkName) -> (r: bool) {
        fork.altair_enabled()
    }

    fn is_enabled_for_feature(&self, _feature: FeatureName) -> (r: bool) {
        false
    }

    fn use_rayon(&self) -> (r: bool) {
        true
    }
}

pub struct OperationsHandler<E, O>(pub PhantomData<(E, O)>);

impl<E: TypeName, O: TypeName> Handler for OperationsHandler<E, O> {
    open spec fn spec_config_name(&self) -> Seq<char> {
        E::spec_name()
    }

    open spec fn spec_runner_name(&self) -> Seq<char> {
        "operations"@
    }

    open spec fn spec_handler_name(&self) -> Seq<char> {
        O::spec_name()
    }

    open spec fn spec_enabled_for_fork(&self, fork: ForkName) -> bool {
        true
    }

    open spec fn spec_enabled_for_feature(&self, feature: FeatureName) -> bool {
        false
    }

    open spec fn spec_use_rayon(&self) -> bool {
        true
    }

    fn config_name(&self) -> (r: &'static str) {
        E::name()
    }

    fn runner_name(&self) -> (r: &'static str) {
        "operations"
    }

    fn handler_name(&self) -> (r: String) {
        String::from_str(O::name())
    }

    fn is_enabled_for_fork(&self, _fork: ForkName) -> (r: bool) {
        true
    }

    fn is_enabled_for_feature(&self, _feature: FeatureName) -> (r: bool) {
        false
    }

    fn use_rayon(&self) -> (r: bool) {
        true
    }
}

pub struct SszGenericHandler<H>(pub PhantomData<H>);

impl<H: TypeName> Handler for SszGenericHandler<H> {
    open spec fn spec_config_name(&self) -> Seq<char> {
        "general"@
    }

    open spec fn spec_runner_name(&self) -> Seq<char> {
        "ssz_generic"@
    }

    open spec fn spec_handler_name(&self) -> Seq<char> {
        H::spec_name()
    }

    open spec fn spec_enabled_for_fork(&self, fork: ForkName) -> bool {
        fork == ForkName::Base
    }

    open spec fn spec_enabled_for_feature(&self, feature: FeatureName) -> bool {
        false
    }

    open spec fn spec_use_rayon(&self) -> bool {
        true
    }

    fn config_name(&self) -> (r: &'static str) {
        "general"
    }

    fn runner_name(&self) -> (r: &'static str) {
        "ssz_generic"
    }

    fn handler_name(&self) -> (r: String) {
        String::from_str(H::name())
    }

    fn is_enabled_for_fork(&self, fork: ForkName) -> (r: bool) {
        fork == ForkName::Base
    }

    fn is_enabled_for_feature(&self, _feature: FeatureName) -> (r: bool) {
        false
    }

    fn use_rayon(&self) -> (r: bool) {
        true
    }
}

// Supported SSZ generic handlers
pub struct BasicVector;

impl TypeName for BasicVector {
    open spec fn spec_name() -> Seq<char> {
        "basic_vector"@
    }

    fn name() -> (r: &'static str) {
        "basic_vector"
    }
}

pub struct Bitlist;

impl TypeName for Bitlist {
    open spec fn spec_name() -> Seq<char> {
        "bitlist"@
    }

    fn name() -> (r: &'static str) {
        "bitlist"
    }
}

pub struct Bitvector;

impl TypeName for Bitvector {
    open spec fn spec_name() -> Seq<char> {
        "bitvector"@
    }

    fn name() -> (r: &'static str) {
        "bitvector"
    }
}

pub struct Boolean;

impl TypeName for Boolean {
    open spec fn spec_name() -> Seq<char> {
        "boolean"@
    }

    fn name() -> (r: &'static str) {
        "boolean"
    }
}

pub struct Uints;

impl TypeName for Uints {
    open spec fn spec_name() -> Seq<char> {
        "uints"@
    }

    fn name() -> (r: &'static str) {
        "uints"
    }
}

pub struct Containers;

impl TypeName for Containers {
    open spec fn spec_name() -> Seq<char> {
        "containers"@
    }

    fn name() -> (r: &'static str) {
        "containers"
    }
}

} // verus!
