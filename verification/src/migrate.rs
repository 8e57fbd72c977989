//! The migration of the world.
//!
//! A migration is a fixed sequence of phases, planned from the difference
//! between the declared world and the remote one:
//!
//! 1. The world itself is deployed or upgraded.
//! 2. The resources are synced: namespaces are registered, classes are
//!    declared, contracts, models and events are registered or upgraded.
//! 3. The permissions are synced: what is declared and not yet granted is
//!    granted. Nothing is revoked.
//! 4. The contracts that are not initialized are initialized. This comes
//!    last since an initialization may write to resources and needs the
//!    permissions.
//!
//! A phase assumes that the phases before it have landed. The plan holds
//! no state of its own: a run that failed is repeated from a fresh
//! difference.

pub mod calls;
pub mod error;
pub mod run;

use crate::diff::{
    fully_synced, ResourceDiff, ResourceDiffView, WorldDiff, WorldInfo, WorldStatus,
};
use crate::felt::{felt_literal, parse_felt, Felt};
use crate::local::{string_views, ResourceLocal, ResourceLocalView};
use crate::migrate::calls::{
    call_views, ClassDeclaration, Declarer, DeclarerView, Invoker, WorldCall, WorldCallView,
};
use crate::migrate::error::MigrationError;
use crate::migrate::run::Phase;
use crate::namespace_index::ResourceType;
use crate::naming::{byte_array_felts, is_encodable};
use crate::remote::{ResourceRemote, ResourceRemoteView};
use vstd::prelude::*;

verus! {

/// How the calls of a migration are submitted.
#[derive(Clone, Copy, Debug, PartialEq, Eq, Structural)]
pub struct MigrationConfig {
    /// Submit the calls of a phase one by one instead of as one
    /// all-or-nothing transaction.
    pub disable_multicall: bool,
}

/// The configuration of a migration.
#[derive(Debug)]
pub struct ProfileConfig {
    /// The seed from which the address of a new world is derived.
    pub world_seed: String,
    pub migration: Option<MigrationConfig>,
}

/// The deployment of a new world through the universal deployer.
#[derive(Debug, PartialEq, Eq)]
pub struct WorldDeployment {
    pub class_hash: Felt,
    /// The seed of the salt that fixes the world's address.
    pub seed: String,
    pub constructor_calldata: Vec<Felt>,
    pub deployer_address: Felt,
}

/// The mathematical value of [`WorldDeployment`].
pub struct WorldDeploymentView {
    pub class_hash: Felt,
    pub seed: Seq<char>,
    pub constructor_calldata: Seq<Felt>,
    pub deployer_address: Felt,
}

impl View for WorldDeployment {
    type V = WorldDeploymentView;

    open spec fn view(&self) -> WorldDeploymentView {
        WorldDeploymentView {
            class_hash: self.class_hash,
            seed: self.seed@,
            constructor_calldata: self.constructor_calldata@,
            deployer_address: self.deployer_address,
        }
    }
}

/// What one phase submits, in this order: the declarations, the
/// deployment, the calls.
#[derive(Debug, PartialEq, Eq)]
pub struct Batch {
    pub declarations: Vec<ClassDeclaration>,
    pub deployment: Option<WorldDeployment>,
    pub calls: Vec<WorldCall>,
    /// Whether the calls go out as one all-or-nothing transaction
    /// (`true`) or one by one.
    pub multicall: bool,
}

/// The mathematical value of [`Batch`].
pub struct BatchView {
    pub declarations: Seq<ClassDeclaration>,
    pub deployment: Option<WorldDeploymentView>,
    pub calls: Seq<WorldCallView>,
    pub multicall: bool,
}

impl View for Batch {
    type V = BatchView;

    open spec fn view(&self) -> BatchView {
        BatchView {
            declarations: self.declarations@,
            deployment: match self.deployment {
                Some(deployment) => Some(deployment@),
                None => None,
            },
            calls: call_views(self.calls@),
            multicall: self.multicall,
        }
    }
}

impl BatchView {
    /// A batch of calls alone.
    pub open spec fn of_calls(calls: Seq<WorldCallView>, multicall: bool) -> BatchView {
        BatchView { declarations: Seq::empty(), deployment: None, calls, multicall }
    }

    /// Whether the batch submits nothing.
    pub open spec fn is_empty(self) -> bool {
        self.declarations.len() == 0 && self.deployment is None && self.calls.len() == 0
    }
}

impl Batch {
    /// Whether the batch submits nothing.
    pub fn is_empty(&self) -> (empty: bool)
        ensures
            empty == self@.is_empty(),
    {
        self.declarations.len() == 0 && self.deployment.is_none() && self.calls.len() == 0
    }
}

/// The four phases of a migration, in the order of their submission.
#[derive(Debug, PartialEq, Eq)]
pub struct MigrationPlan {
    pub ensure_world: Batch,
    pub sync_resources: Batch,
    pub sync_permissions: Batch,
    pub initialize_contracts: Batch,
}

/// The mathematical value of [`MigrationPlan`].
pub struct MigrationPlanView {
    pub ensure_world: BatchView,
    pub sync_resources: BatchView,
    pub sync_permissions: BatchView,
    pub initialize_contracts: BatchView,
}

impl View for MigrationPlan {
    type V = MigrationPlanView;

    open spec fn view(&self) -> MigrationPlanView {
        MigrationPlanView {
            ensure_world: self.ensure_world@,
            sync_resources: self.sync_resources@,
            sync_permissions: self.sync_permissions@,
            initialize_contracts: self.initialize_contracts@,
        }
    }
}

impl MigrationPlanView {
    /// Whether no phase submits anything.
    pub open spec fn is_empty(self) -> bool {
        &&& self.ensure_world.is_empty()
        &&& self.sync_resources.is_empty()
        &&& self.sync_permissions.is_empty()
        &&& self.initialize_contracts.is_empty()
    }
}

impl MigrationPlan {
    /// What a phase submits.
    pub fn batch(&self, phase: Phase) -> (batch: &Batch)
        ensures
            *batch == match phase {
                Phase::EnsureWorld => self.ensure_world,
                Phase::SyncResources => self.sync_resources,
                Phase::SyncPermissions => self.sync_permissions,
                Phase::InitializeContracts => self.initialize_contracts,
            },
    {
        match phase {
            Phase::EnsureWorld => &self.ensure_world,
            Phase::SyncResources => &self.sync_resources,
            Phase::SyncPermissions => &self.sync_permissions,
            Phase::InitializeContracts => &self.initialize_contracts,
        }
    }

    /// Whether no phase submits anything: the remote world is the
    /// declared one.
    pub fn is_empty(&self) -> (empty: bool)
        ensures
            empty == self@.is_empty(),
    {
        self.ensure_world.is_empty() && self.sync_resources.is_empty()
            && self.sync_permissions.is_empty() && self.initialize_contracts.is_empty()
    }
}

/// Calls that were collected, and the fault that ended the collection,
/// if one did.
pub struct Collected {
    pub calls: Seq<WorldCallView>,
    pub error: Option<MigrationError>,
}

/// Classes and calls that were collected, and the fault that ended the
/// collection, if one did.
pub struct CollectedSync {
    pub declarer: DeclarerView,
    pub calls: Seq<WorldCallView>,
    pub error: Option<MigrationError>,
}

/// Whether the calls of a phase go out as one transaction: they do
/// unless the configuration says otherwise.
pub open spec fn uses_multicall(config: Option<MigrationConfig>) -> bool {
    match config {
        Some(migration) => !migration.disable_multicall,
        None => true,
    }
}

/// The first phase. A world that is not deployed is declared and
/// deployed; one that runs another class is declared and upgraded in one
/// transaction; one that is synced needs nothing.
pub open spec fn world_batch(info: WorldInfo, seed: Seq<char>) -> BatchView {
    let class = ClassDeclaration {
        casm_class_hash: info.casm_class_hash,
        class_hash: info.class_hash,
    };
    match info.status {
        WorldStatus::Synced => BatchView::of_calls(Seq::empty(), true),
        WorldStatus::NotDeployed => BatchView {
            declarations: seq![class],
            deployment: Some(
                WorldDeploymentView {
                    class_hash: info.class_hash,
                    seed,
                    constructor_calldata: seq![info.class_hash],
                    deployer_address: Felt { hi: 0, lo: 0 },
                },
            ),
            calls: Seq::empty(),
            multicall: true,
        },
        WorldStatus::NewVersion => BatchView {
            declarations: seq![class],
            deployment: None,
            calls: seq![WorldCallView::Upgrade { class_hash: info.class_hash }],
            multicall: true,
        },
    }
}

/// The registrations of the namespaces among the first `count`
/// resources of a difference, in the order of the declaration: one for
/// every namespace of the difference that is declared and not registered.
pub open spec fn namespace_calls(diff: &WorldDiff, count: nat) -> Collected
    decreases count,
{
    if count == 0 {
        Collected { calls: Seq::empty(), error: None }
    } else {
        let before = namespace_calls(diff, (count - 1) as nat);
        if before.error is Some || !diff.namespaces@.contains(diff.resources.keys()[count - 1]) {
            before
        } else {
            match diff.resource_at(count - 1) {
                ResourceDiffView::Created(ResourceLocalView::Namespace { name }) => {
                    if byte_array_felts(name) is Some {
                        Collected {
                            calls: before.calls.push(
                                WorldCallView::RegisterNamespace { namespace: name },
                            ),
                            error: None,
                        }
                    } else {
                        Collected { calls: before.calls, error: Some(MigrationError::InvalidName) }
                    }
                },
                _ => before,
            }
        }
    }
}

/// The class that a declared resource needs declared.
pub open spec fn class_of(local: ResourceLocalView) -> ClassDeclaration {
    ClassDeclaration {
        casm_class_hash: local.casm_class_hash()->Some_0,
        class_hash: local.class_hash()->Some_0,
    }
}

/// The call that registers a declared resource of a kind.
pub open spec fn register_call(kind: ResourceType, local: ResourceLocalView, salt: Felt)
    -> WorldCallView {
    let namespace = local.namespace();
    let class_hash = local.class_hash()->Some_0;
    match kind {
        ResourceType::Contract => WorldCallView::RegisterContract { salt, namespace, class_hash },
        ResourceType::Model => WorldCallView::RegisterModel { namespace, class_hash },
        ResourceType::Event => WorldCallView::RegisterEvent { namespace, class_hash },
        ResourceType::Namespace => WorldCallView::RegisterNamespace { namespace },
    }
}

/// The call that upgrades a declared resource of a kind.
pub open spec fn upgrade_call(kind: ResourceType, local: ResourceLocalView) -> WorldCallView {
    let namespace = local.namespace();
    let class_hash = local.class_hash()->Some_0;
    match kind {
        ResourceType::Contract => WorldCallView::UpgradeContract { namespace, class_hash },
        ResourceType::Model => WorldCallView::UpgradeModel { namespace, class_hash },
        ResourceType::Event => WorldCallView::UpgradeEvent { namespace, class_hash },
        ResourceType::Namespace => WorldCallView::RegisterNamespace { namespace },
    }
}

/// What syncing one resource as a resource of `kind` takes: nothing for a
/// resource of another kind or one that is synced; for a created one its
/// class and its registration; for an updated one, whose remote
/// counterpart is of the same kind, its class and its upgrade. A
/// contract is registered with its selector as salt. A namespace that
/// cannot be encoded is a fault, whatever the classification.
pub open spec fn calls_for(kind: ResourceType, resource: ResourceDiffView) -> Result<
    Option<(ClassDeclaration, WorldCallView)>,
    MigrationError,
> {
    let local = resource.local();
    if kind is Namespace {
        Ok(None)
    } else if byte_array_felts(local.namespace()) is None {
        Err(MigrationError::InvalidName)
    } else if local.resource_type() != kind {
        Ok(None)
    } else {
        match resource {
            ResourceDiffView::Created(_) => if kind is Contract {
                match local.dojo_selector() {
                    Some(salt) => Ok(Some((class_of(local), register_call(kind, local, salt)))),
                    None => Err(MigrationError::InvalidName),
                }
            } else {
                Ok(Some((class_of(local), register_call(kind, local, Felt { hi: 0, lo: 0 }))))
            },
            ResourceDiffView::Updated(_, remote) => if remote.resource_type() == kind {
                Ok(Some((class_of(local), upgrade_call(kind, local))))
            } else {
                Ok(None)
            },
            ResourceDiffView::Synced(_, _) => Ok(None),
        }
    }
}

/// The classes and calls that sync the first `count` resources of a
/// difference, in the order of the declaration.
pub open spec fn resource_calls(diff: &WorldDiff, count: nat) -> CollectedSync
    decreases count,
{
    if count == 0 {
        CollectedSync { declarer: DeclarerView::empty(), calls: Seq::empty(), error: None }
    } else {
        let before = resource_calls(diff, (count - 1) as nat);
        if before.error is Some {
            before
        } else {
            let resource = diff.resource_at(count - 1);
            match calls_for(resource.resource_type(), resource) {
                Err(error) => CollectedSync { error: Some(error), ..before },
                Ok(None) => before,
                Ok(Some((class, call))) => CollectedSync {
                    declarer: before.declarer.add_class(class),
                    calls: before.calls.push(call),
                    error: None,
                },
            }
        }
    }
}

/// The second phase, or the fault that it finds: nothing where the
/// difference is fully synced; else the registrations of the namespaces,
/// then the registrations and upgrades of the resources, with the
/// classes that they name declared before.
pub open spec fn sync_batch(diff: &WorldDiff, multicall: bool) -> Result<BatchView, MigrationError> {
    let namespaces = namespace_calls(diff, diff.resources.keys().len());
    let resources = resource_calls(diff, diff.resources.keys().len());
    if fully_synced(diff) {
        Ok(BatchView::of_calls(Seq::empty(), multicall))
    } else if namespaces.error is Some {
        Err(namespaces.error->Some_0)
    } else if resources.error is Some {
        Err(resources.error->Some_0)
    } else {
        Ok(
            BatchView {
                declarations: resources.declarer.declarations(),
                deployment: None,
                calls: namespaces.calls + resources.calls,
                multicall,
            },
        )
    }
}

/// The grants of a list of addresses on a resource, as writers or as owners.
pub open spec fn grants(resource: Felt, addresses: Seq<Felt>, owner: bool) -> Seq<WorldCallView> {
    addresses.map_values(
        |contract: Felt|
            if owner {
                WorldCallView::GrantOwner { resource, contract }
            } else {
                WorldCallView::GrantWriter { resource, contract }
            },
    )
}

/// The grants that the first `count` resources of a difference need:
/// for each resource the writers, then the owners, that only the declared
/// side has. What only the remote side has is left alone.
pub open spec fn permission_calls(diff: &WorldDiff, count: nat) -> Seq<WorldCallView>
    decreases count,
{
    if count == 0 {
        Seq::empty()
    } else {
        let before = permission_calls(diff, (count - 1) as nat);
        let selector = diff.resources.keys()[count - 1];
        if diff.permission_diffs@.contains_key(selector) {
            let delta = diff.permission_diffs@[selector];
            before + grants(selector, delta.writers_only_local.elements(), false) + grants(
                selector,
                delta.owners_only_local.elements(),
                true,
            )
        } else {
            before
        }
    }
}

/// Whether a resource is a contract that waits for its initialization:
/// one that is created, or one whose remote counterpart is a contract
/// that was not initialized.
pub open spec fn needs_init(resource: ResourceDiffView) -> bool {
    resource.resource_type() is Contract && match resource {
        ResourceDiffView::Created(_) => true,
        ResourceDiffView::Updated(_, remote) => remote matches ResourceRemoteView::Contract {
            initialized,
            ..
        } && !initialized,
        ResourceDiffView::Synced(_, remote) => remote matches ResourceRemoteView::Contract {
            initialized,
            ..
        } && !initialized,
    }
}

/// The first `count` literals parsed, or the position of the first that
/// is no felt literal.
pub open spec fn parsed_args(literals: Seq<Seq<char>>, count: nat) -> Result<Seq<Felt>, int>
    decreases count,
{
    if count == 0 {
        Ok(Seq::empty())
    } else {
        match parsed_args(literals, (count - 1) as nat) {
            Err(position) => Err(position),
            Ok(felts) => match felt_literal(literals[count - 1]) {
                Some(felt) => Ok(felts.push(felt)),
                None => Err(count - 1),
            },
        }
    }
}

/// The initializations that the first `count` resources of a difference
/// need, each with the contract's declared arguments and nothing else.
pub open spec fn init_calls(diff: &WorldDiff, count: nat) -> Collected
    decreases count,
{
    if count == 0 {
        Collected { calls: Seq::empty(), error: None }
    } else {
        let before = init_calls(diff, (count - 1) as nat);
        let selector = diff.resources.keys()[count - 1];
        let resource = diff.resource_at(count - 1);
        if before.error is Some || !needs_init(resource) {
            before
        } else {
            let literals = resource.local().init_call_args();
            match parsed_args(literals, literals.len()) {
                Ok(init_calldata) => Collected {
                    calls: before.calls.push(WorldCallView::InitContract { selector, init_calldata }),
                    error: None,
                },
                Err(position) => Collected {
                    calls: before.calls,
                    error: Some(
                        MigrationError::InvalidInitArg { selector, position: position as usize },
                    ),
                },
            }
        }
    }
}

/// The plan of a migration, or the fault that planning finds: a fault of
/// the second phase before one of the fourth.
pub open spec fn migration_plan(diff: &WorldDiff, seed: Seq<char>, multicall: bool) -> Result<
    MigrationPlanView,
    MigrationError,
> {
    let count = diff.resources.keys().len();
    let initializations = init_calls(diff, count);
    match sync_batch(diff, multicall) {
        Err(error) => Err(error),
        Ok(sync_resources) => if initializations.error is Some {
            Err(initializations.error->Some_0)
        } else {
            Ok(
                MigrationPlanView {
                    ensure_world: world_batch(diff.world_info, seed),
                    sync_resources,
                    sync_permissions: BatchView::of_calls(permission_calls(diff, count), multicall),
                    initialize_contracts: BatchView::of_calls(initializations.calls, multicall),
                },
            )
        },
    }
}

/// Parses the literals of a contract's initialization arguments. On a
/// literal that is no felt, returns its position.
pub fn parse_init_args(literals: &Vec<String>) -> (result: Result<Vec<Felt>, usize>)
    ensures
        match parsed_args(string_views(literals@), literals@.len()) {
            Ok(felts) => result is Ok && result->Ok_0@ == felts,
            Err(position) => result == Err::<Vec<Felt>, usize>(position as usize) && 0 <= position
                < literals@.len(),
        },
{
    let ghost texts = string_views(literals@);
    let mut felts: Vec<Felt> = Vec::new();
    let mut index: usize = 0;
    while index < literals.len()
        invariant
            index <= literals.len(),
            texts == string_views(literals@),
            parsed_args(texts, index as nat) == Ok::<Seq<Felt>, int>(felts@),
        decreases literals.len() - index,
    {
        assert(texts[index as int] == literals@[index as int]@);
        match parse_felt(literals[index].as_str()) {
            Some(felt) => {
                felts.push(felt);
            },
            None => {
                proof {
                    lemma_parsed_args_fault(texts, (index + 1) as nat, literals@.len() as nat);
                }
                return Err(index);
            },
        }
        index += 1;
    }
    Ok(felts)
}

/// A fault that parsing has found stays the fault when more literals follow.
proof fn lemma_parsed_args_fault(literals: Seq<Seq<char>>, count: nat, more: nat)
    requires
        count <= more,
        parsed_args(literals, count) is Err,
    ensures
        parsed_args(literals, more) == parsed_args(literals, count),
    decreases more,
{
    if count < more {
        lemma_parsed_args_fault(literals, count, (more - 1) as nat);
    }
}

/// A migration: the difference to remove and the configuration to do it
/// with.
#[derive(Debug)]
pub struct Migration {
    pub diff: WorldDiff,
    pub profile_config: ProfileConfig,
}

impl Migration {
    /// Creates a new migration.
    pub fn new(diff: WorldDiff, profile_config: ProfileConfig) -> (migration: Migration)
        ensures
            migration.diff == diff,
            migration.profile_config == profile_config,
    {
        Migration { diff, profile_config }
    }

    /// Plans the migration: the world, the resources, the permissions and
    /// the initializations, in this order. A fault in the declared world
    /// is reported before anything can be submitted.
    pub fn migrate(&self) -> (result: Result<MigrationPlan, MigrationError>)
        ensures
            match migration_plan(
                &self.diff,
                self.profile_config.world_seed@,
                uses_multicall(self.profile_config.migration),
            ) {
                Ok(plan) => result is Ok && result->Ok_0@ == plan,
                Err(error) => result == Err::<MigrationPlan, MigrationError>(error),
            },
    {
        let ensure_world = self.ensure_world();
        let sync_resources = match self.sync_resources() {
            Ok(batch) => batch,
            Err(error) => {
                return Err(error);
            },
        };
        let sync_permissions = self.sync_permissions();
        let initialize_contracts = match self.initialize_contracts() {
            Ok(batch) => batch,
            Err(error) => {
                return Err(error);
            },
        };
        Ok(MigrationPlan { ensure_world, sync_resources, sync_permissions, initialize_contracts })
    }

    /// Returns whether multicall should be used. By default, it is enabled.
    pub fn do_multicall(&self) -> (multicall: bool)
        ensures
            multicall == uses_multicall(self.profile_config.migration),
    {
        match self.profile_config.migration {
            Some(migration) => !migration.disable_multicall,
            None => true,
        }
    }

    /// Plans the initialization of every contract that is not
    /// initialized, with the arguments declared for it. Only felts are
    /// arguments: no address or class hash is added.
    pub fn initialize_contracts(&self) -> (result: Result<Batch, MigrationError>)
        ensures
            ({
                let collected = init_calls(&self.diff, self.diff.resources.keys().len());
                match collected.error {
                    Some(error) => result == Err::<Batch, MigrationError>(error),
                    None => result is Ok && result->Ok_0@ == BatchView::of_calls(
                        collected.calls,
                        uses_multicall(self.profile_config.migration),
                    ),
                }
            }),
    {
        let mut invoker = Invoker::new();
        let count = self.diff.resources.len();
        let mut index: usize = 0;
        while index < count
            invariant
                index <= count,
                count == self.diff.resources.keys().len(),
                count == self.diff.resources.values().len(),
                init_calls(&self.diff, index as nat) == (Collected {
                    calls: invoker@,
                    error: None,
                }),
            decreases count - index,
        {
            let selector = self.diff.resources.key_at(index);
            let resource = self.diff.resources.value_at(index);
            let do_init = match resource.resource_type() {
                ResourceType::Contract => match resource {
                    ResourceDiff::Created(_) => true,
                    ResourceDiff::Updated(_, ResourceRemote::Contract(contract)) => {
                        !contract.initialized
                    },
                    ResourceDiff::Synced(_, ResourceRemote::Contract(contract)) => {
                        !contract.initialized
                    },
                    _ => false,
                },
                _ => false,
            };
            if do_init {
                let parsed = match resource.local() {
                    ResourceLocal::Contract(contract) => parse_init_args(&contract.init_call_args),
                    _ => Ok(Vec::new()),
                };
                match parsed {
                    Ok(init_calldata) => {
                        invoker.add_call(WorldCall::InitContract { selector, init_calldata });
                    },
                    Err(position) => {
                        proof {
                            lemma_init_calls_fault(&self.diff, (index + 1) as nat, count as nat);
                        }
                        return Err(MigrationError::InvalidInitArg { selector, position });
                    },
                }
            }
            index += 1;
        }
        Ok(self.batch_of(invoker))
    }

    /// The batch of the calls of an invoker, submitted as the
    /// configuration says.
    fn batch_of(&self, invoker: Invoker) -> (batch: Batch)
        ensures
            batch@ == BatchView::of_calls(invoker@, uses_multicall(self.profile_config.migration)),
    {
        Batch {
            declarations: Vec::new(),
            deployment: None,
            calls: invoker.calls,
            multicall: self.do_multicall(),
        }
    }

    /// Plans the grants. Only what is declared and not yet granted is
    /// granted; a permission that only the remote world has stays.
    pub fn sync_permissions(&self) -> (batch: Batch)
        ensures
            batch@ == BatchView::of_calls(
                permission_calls(&self.diff, self.diff.resources.keys().len()),
                uses_multicall(self.profile_config.migration),
            ),
    {
        let mut invoker = Invoker::new();
        let count = self.diff.resources.len();
        let mut index: usize = 0;
        while index < count
            invariant
                index <= count,
                count == self.diff.resources.keys().len(),
                invoker@ == permission_calls(&self.diff, index as nat),
            decreases count - index,
        {
            let selector = self.diff.resources.key_at(index);
            match self.diff.permission_diffs.get(&selector) {
                Some(delta) => {
                    let ghost before = invoker@;
                    let writers = delta.writers_only_local.to_vec();
                    let mut at: usize = 0;
                    while at < writers.len()
                        invariant
                            at <= writers.len(),
                            invoker@ == before + grants(
                                selector,
                                writers@.subrange(0, at as int),
                                false,
                            ),
                        decreases writers.len() - at,
                    {
                        invoker.add_call(
                            WorldCall::GrantWriter { resource: selector, contract: writers[at] },
                        );
                        assert(writers@.subrange(0, at + 1) =~= writers@.subrange(0, at as int).push(
                            writers@[at as int],
                        ));
                        assert(invoker@ =~= before + grants(
                            selector,
                            writers@.subrange(0, at + 1),
                            false,
                        ));
                        at += 1;
                    }
                    assert(writers@.subrange(0, at as int) =~= writers@);
                    let ghost granted = invoker@;
                    let owners = delta.owners_only_local.to_vec();
                    let mut at: usize = 0;
                    while at < owners.len()
                        invariant
                            at <= owners.len(),
                            invoker@ == granted + grants(
                                selector,
                                owners@.subrange(0, at as int),
                                true,
                            ),
                        decreases owners.len() - at,
                    {
                        invoker.add_call(
                            WorldCall::GrantOwner { resource: selector, contract: owners[at] },
                        );
                        assert(owners@.subrange(0, at + 1) =~= owners@.subrange(0, at as int).push(
                            owners@[at as int],
                        ));
                        assert(invoker@ =~= granted + grants(
                            selector,
                            owners@.subrange(0, at + 1),
                            true,
                        ));
                        at += 1;
                    }
                    assert(owners@.subrange(0, at as int) =~= owners@);
                },
                None => {},
            }
            index += 1;
        }
        self.batch_of(invoker)
    }

    /// Plans the sync of the resources: the classes to declare and the
    /// calls that register and upgrade. Nothing where every resource and
    /// the world are synced.
    pub fn sync_resources(&self) -> (result: Result<Batch, MigrationError>)
        ensures
            match sync_batch(&self.diff, uses_multicall(self.profile_config.migration)) {
                Ok(batch) => result is Ok && result->Ok_0@ == batch,
                Err(error) => result == Err::<Batch, MigrationError>(error),
            },
    {
        let mut invoker = Invoker::new();
        if self.diff.is_synced() {
            return Ok(self.batch_of(invoker));
        }
        let mut declarer = Declarer::new();

        // Namespaces must be synced first, since contracts, models and events are namespaced.
        match self.namespaces_getcalls(&mut invoker) {
            Ok(()) => {},
            Err(error) => {
                return Err(error);
            },
        }
        let ghost namespaces = invoker@;

        let count = self.diff.resources.len();
        let mut index: usize = 0;
        while index < count
            invariant
                index <= count,
                count == self.diff.resources.keys().len(),
                count == self.diff.resources.values().len(),
                !fully_synced(&self.diff),
                namespace_calls(&self.diff, self.diff.resources.keys().len()).error is None,
                namespaces == namespace_calls(&self.diff, self.diff.resources.keys().len()).calls,
                resource_calls(&self.diff, index as nat).error is None,
                resource_calls(&self.diff, index as nat).declarer == declarer@,
                invoker@ == namespaces + resource_calls(&self.diff, index as nat).calls,
            decreases count - index,
        {
            let resource = self.diff.resources.value_at(index);
            let outcome = match resource.resource_type() {
                ResourceType::Contract => self.contracts_getcalls(
                    resource,
                    &mut invoker,
                    &mut declarer,
                ),
                ResourceType::Model => self.models_getcalls(resource, &mut invoker, &mut declarer),
                ResourceType::Event => self.events_getcalls(resource, &mut invoker, &mut declarer),
                ResourceType::Namespace => Ok(()),
            };
            match outcome {
                Ok(()) => {},
                Err(error) => {
                    proof {
                        lemma_resource_calls_fault(&self.diff, (index + 1) as nat, count as nat);
                    }
                    return Err(error);
                },
            }
            assert(invoker@ =~= namespaces + resource_calls(&self.diff, (index + 1) as nat).calls);
            index += 1;
        }
        Ok(
            Batch {
                declarations: declarer.declarations(),
                deployment: None,
                calls: invoker.calls,
                multicall: self.do_multicall(),
            },
        )
    }

    /// Adds the registrations of the namespaces that are declared and
    /// not registered.
    pub fn namespaces_getcalls(&self, invoker: &mut Invoker) -> (result: Result<(), MigrationError>)
        ensures
            ({
                let collected = namespace_calls(&self.diff, self.diff.resources.keys().len());
                &&& final(invoker)@ == old(invoker)@ + collected.calls
                &&& match collected.error {
                    Some(error) => result == Err::<(), MigrationError>(error),
                    None => result is Ok,
                }
            }),
    {
        let count = self.diff.resources.len();
        let mut index: usize = 0;
        assert(invoker@ =~= old(invoker)@ + Seq::<WorldCallView>::empty());
        while index < count
            invariant
                index <= count,
                count == self.diff.resources.keys().len(),
                count == self.diff.resources.values().len(),
                namespace_calls(&self.diff, index as nat).error is None,
                invoker@ == old(invoker)@ + namespace_calls(&self.diff, index as nat).calls,
            decreases count - index,
        {
            let namespace_selector = self.diff.resources.key_at(index);
            if self.diff.namespaces.contains(&namespace_selector) {
                if let ResourceDiff::Created(ResourceLocal::Namespace(namespace)) =
                    self.diff.resources.value_at(index) {
                    if is_encodable(namespace.name.as_str()) {
                        invoker.add_call(
                            WorldCall::RegisterNamespace { namespace: namespace.name.clone() },
                        );
                        assert(invoker@ =~= old(invoker)@ + namespace_calls(
                            &self.diff,
                            (index + 1) as nat,
                        ).calls);
                    } else {
                        proof {
                            lemma_namespace_calls_fault(
                                &self.diff,
                                (index + 1) as nat,
                                count as nat,
                            );
                        }
                        return Err(MigrationError::InvalidName);
                    }
                }
            }
            index += 1;
        }
        Ok(())
    }

    /// Adds what syncing one resource of a kind takes: its class to the
    /// declarer, its registration or upgrade to the invoker.
    fn resource_getcalls(
        kind: ResourceType,
        resource: &ResourceDiff,
        invoker: &mut Invoker,
        declarer: &mut Declarer,
    ) -> (result: Result<(), MigrationError>)
        ensures
            match calls_for(kind, resource@) {
                Err(error) => {
                    &&& result == Err::<(), MigrationError>(error)
                    &&& final(invoker)@ == old(invoker)@
                    &&& final(declarer)@ == old(declarer)@
                },
                Ok(None) => {
                    &&& result is Ok
                    &&& final(invoker)@ == old(invoker)@
                    &&& final(declarer)@ == old(declarer)@
                },
                Ok(Some((class, call))) => {
                    &&& result is Ok
                    &&& final(invoker)@ == old(invoker)@.push(call)
                    &&& final(declarer)@ == old(declarer)@.add_class(class)
                },
            },
    {
        if let ResourceType::Namespace = kind {
            return Ok(());
        }
        let local = resource.local();
        let namespace = local.namespace();
        if !is_encodable(namespace.as_str()) {
            return Err(MigrationError::InvalidName);
        }
        if local.resource_type() != kind {
            return Ok(());
        }
        let (class_hash, casm_class_hash) = match (local.class_hash(), local.casm_class_hash()) {
            (Some(class_hash), Some(casm_class_hash)) => (class_hash, casm_class_hash),
            _ => {
                return Ok(());
            },
        };
        let class = ClassDeclaration { casm_class_hash, class_hash };
        let call = match resource {
            ResourceDiff::Created(_) => match kind {
                ResourceType::Contract => match local.dojo_selector() {
                    Some(salt) => WorldCall::RegisterContract {
                        salt,
                        namespace: namespace.clone(),
                        class_hash,
                    },
                    None => {
                        return Err(MigrationError::InvalidName);
                    },
                },
                ResourceType::Model => WorldCall::RegisterModel {
                    namespace: namespace.clone(),
                    class_hash,
                },
                _ => WorldCall::RegisterEvent { namespace: namespace.clone(), class_hash },
            },
            ResourceDiff::Updated(_, remote) => {
                if remote.resource_type() != kind {
                    return Ok(());
                }
                match kind {
                    ResourceType::Contract => WorldCall::UpgradeContract {
                        namespace: namespace.clone(),
                        class_hash,
                    },
                    ResourceType::Model => WorldCall::UpgradeModel {
                        namespace: namespace.clone(),
                        class_hash,
                    },
                    _ => WorldCall::UpgradeEvent { namespace: namespace.clone(), class_hash },
                }
            },
            ResourceDiff::Synced(_, _) => {
                return Ok(());
            },
        };
        declarer.add_class(class);
        invoker.add_call(call);
        Ok(())
    }

    /// Adds what syncing a contract takes: for a created contract its
    /// class and its registration, for an updated one its class and its
    /// upgrade.
    pub fn contracts_getcalls(
        &self,
        resource: &ResourceDiff,
        invoker: &mut Invoker,
        declarer: &mut Declarer,
    ) -> (result: Result<(), MigrationError>)
        ensures
            match calls_for(ResourceType::Contract, resource@) {
                Err(error) => {
                    &&& result == Err::<(), MigrationError>(error)
                    &&& final(invoker)@ == old(invoker)@
                    &&& final(declarer)@ == old(declarer)@
                },
                Ok(None) => {
                    &&& result is Ok
                    &&& final(invoker)@ == old(invoker)@
                    &&& final(declarer)@ == old(declarer)@
                },
                Ok(Some((class, call))) => {
                    &&& result is Ok
                    &&& final(invoker)@ == old(invoker)@.push(call)
                    &&& final(declarer)@ == old(declarer)@.add_class(class)
                },
            },
    {
        Self::resource_getcalls(ResourceType::Contract, resource, invoker, declarer)
    }

    /// Adds what syncing a model takes: for a created model its class
    /// and its registration, for an updated one its class and its upgrade.
    pub fn models_getcalls(
        &self,
        resource: &ResourceDiff,
        invoker: &mut Invoker,
        declarer: &mut Declarer,
    ) -> (result: Result<(), MigrationError>)
        ensures
            match calls_for(ResourceType::Model, resource@) {
                Err(error) => {
                    &&& result == Err::<(), MigrationError>(error)
                    &&& final(invoker)@ == old(invoker)@
                    &&& final(declarer)@ == old(declarer)@
                },
                Ok(None) => {
                    &&& result is Ok
                    &&& final(invoker)@ == old(invoker)@
                    &&& final(declarer)@ == old(declarer)@
                },
                Ok(Some((class, call))) => {
                    &&& result is Ok
                    &&& final(invoker)@ == old(invoker)@.push(call)
                    &&& final(declarer)@ == old(declarer)@.add_class(class)
                },
            },
    {
        Self::resource_getcalls(ResourceType::Model, resource, invoker, declarer)
    }

    /// Adds what syncing an event type takes: for a created event its
    /// class and its registration, for an updated one its class and its
    /// upgrade.
    pub fn events_getcalls(
        &self,
        resource: &ResourceDiff,
        invoker: &mut Invoker,
        declarer: &mut Declarer,
    ) -> (result: Result<(), MigrationError>)
        ensures
            match calls_for(ResourceType::Event, resource@) {
                Err(error) => {
                    &&& result == Err::<(), MigrationError>(error)
                    &&& final(invoker)@ == old(invoker)@
                    &&& final(declarer)@ == old(declarer)@
                },
                Ok(None) => {
                    &&& result is Ok
                    &&& final(invoker)@ == old(invoker)@
                    &&& final(declarer)@ == old(declarer)@
                },
                Ok(Some((class, call))) => {
                    &&& result is Ok
                    &&& final(invoker)@ == old(invoker)@.push(call)
                    &&& final(declarer)@ == old(declarer)@.add_class(class)
                },
            },
    {
        Self::resource_getcalls(ResourceType::Event, resource, invoker, declarer)
    }

    /// Plans what the world itself needs: its declaration and deployment
    /// where it is not deployed, its declaration and upgrade where it
    /// runs another class, nothing where it is synced.
    pub fn ensure_world(&self) -> (batch: Batch)
        ensures
            batch@ == world_batch(self.diff.world_info, self.profile_config.world_seed@),
    {
        let info = self.diff.world_info;
        let class = ClassDeclaration {
            casm_class_hash: info.casm_class_hash,
            class_hash: info.class_hash,
        };
        match info.status {
            WorldStatus::Synced => {
                let batch = Batch {
                    declarations: Vec::new(),
                    deployment: None,
                    calls: Vec::new(),
                    multicall: true,
                };
                assert(batch@.calls =~= Seq::<WorldCallView>::empty());
                batch
            },
            WorldStatus::NotDeployed => {
                let mut declarations: Vec<ClassDeclaration> = Vec::new();
                declarations.push(class);
                let mut constructor_calldata: Vec<Felt> = Vec::new();
                constructor_calldata.push(info.class_hash);
                let batch = Batch {
                    declarations,
                    deployment: Some(
                        WorldDeployment {
                            class_hash: info.class_hash,
                            seed: self.profile_config.world_seed.clone(),
                            constructor_calldata,
                            deployer_address: Felt::zero(),
                        },
                    ),
                    calls: Vec::new(),
                    multicall: true,
                };
                assert(batch@.calls =~= Seq::<WorldCallView>::empty());
                assert(batch@.declarations =~= seq![class]);
                assert(batch@.deployment->Some_0.constructor_calldata =~= seq![info.class_hash]);
                batch
            },
            WorldStatus::NewVersion => {
                let mut declarations: Vec<ClassDeclaration> = Vec::new();
                declarations.push(class);
                let mut invoker = Invoker::new();
                invoker.add_call(WorldCall::Upgrade { class_hash: info.class_hash });
                let batch = Batch {
                    declarations,
                    deployment: None,
                    calls: invoker.calls,
                    multicall: true,
                };
                assert(batch@.declarations =~= seq![class]);
                assert(batch@.calls =~= seq![WorldCallView::Upgrade { class_hash: info.class_hash }]);
                batch
            },
        }
    }
}

/// A fault that the namespaces have shown stays the fault when more follow.
proof fn lemma_namespace_calls_fault(diff: &WorldDiff, count: nat, more: nat)
    requires
        count <= more,
        namespace_calls(diff, count).error is Some,
    ensures
        namespace_calls(diff, more) == namespace_calls(diff, count),
    decreases more,
{
    if count < more {
        lemma_namespace_calls_fault(diff, count, (more - 1) as nat);
    }
}

/// A fault that the resources have shown stays the fault when more follow.
proof fn lemma_resource_calls_fault(diff: &WorldDiff, count: nat, more: nat)
    requires
        count <= more,
        resource_calls(diff, count).error is Some,
    ensures
        resource_calls(diff, more) == resource_calls(diff, count),
    decreases more,
{
    if count < more {
        lemma_resource_calls_fault(diff, count, (more - 1) as nat);
    }
}

/// A fault that the initializations have shown stays the fault when more follow.
proof fn lemma_init_calls_fault(diff: &WorldDiff, count: nat, more: nat)
    requires
        count <= more,
        init_calls(diff, count).error is Some,
    ensures
        init_calls(diff, more) == init_calls(diff, count),
    decreases more,
{
    if count < more {
        lemma_init_calls_fault(diff, count, (more - 1) as nat);
    }
}

/// Whether nothing is left to grant on the first `count` resources of a
/// difference.
pub open spec fn nothing_to_grant(diff: &WorldDiff, count: nat) -> bool {
    forall|i: int|
        0 <= i < count && diff.permission_diffs@.contains_key(#[trigger] diff.resources.keys()[i])
            ==> {
            let delta = diff.permission_diffs@[diff.resources.keys()[i]];
            delta.writers_only_local.elements().len() == 0
                && delta.owners_only_local.elements().len() == 0
        }
}

/// Whether none of the first `count` resources of a difference waits
/// for its initialization.
pub open spec fn nothing_to_initialize(diff: &WorldDiff, count: nat) -> bool {
    forall|i: int| 0 <= i < count ==> !needs_init(#[trigger] diff.resource_at(i))
}

/// A migration converges: where the world and every resource are
/// synced, every declared permission is granted and every contract is
/// initialized, the plan is empty.
pub proof fn law_synced_world_needs_nothing(diff: &WorldDiff, seed: Seq<char>, multicall: bool)
    requires
        fully_synced(diff),
        nothing_to_grant(diff, diff.resources.keys().len()),
        nothing_to_initialize(diff, diff.resources.keys().len()),
    ensures
        migration_plan(diff, seed, multicall) is Ok,
        migration_plan(diff, seed, multicall)->Ok_0.is_empty(),
{
    lemma_no_grants(diff, diff.resources.keys().len());
    lemma_no_initializations(diff, diff.resources.keys().len());
}

/// Where nothing is left to grant, the permission phase has no call.
proof fn lemma_no_grants(diff: &WorldDiff, count: nat)
    requires
        nothing_to_grant(diff, count),
    ensures
        permission_calls(diff, count) == Seq::<WorldCallView>::empty(),
    decreases count,
{
    if count > 0 {
        lemma_no_grants(diff, (count - 1) as nat);
        let selector = diff.resources.keys()[count - 1];
        if diff.permission_diffs@.contains_key(selector) {
            let delta = diff.permission_diffs@[selector];
            assert(grants(selector, delta.writers_only_local.elements(), false)
                =~= Seq::<WorldCallView>::empty());
            assert(grants(selector, delta.owners_only_local.elements(), true)
                =~= Seq::<WorldCallView>::empty());
            assert(permission_calls(diff, count) =~= Seq::<WorldCallView>::empty());
        }
    }
}

/// Where no contract waits, the initialization phase has no call and no fault.
proof fn lemma_no_initializations(diff: &WorldDiff, count: nat)
    requires
        nothing_to_initialize(diff, count),
    ensures
        init_calls(diff, count) == (Collected { calls: Seq::empty(), error: None }),
    decreases count,
{
    if count > 0 {
        lemma_no_initializations(diff, (count - 1) as nat);
        assert(!needs_init(diff.resource_at(count - 1)));
    }
}

/// The permission phase only adds: each of its calls grants to an
/// address, on a declared resource, a permission that only the declared
/// side has. Nothing that only the remote side has is touched.
pub proof fn law_permission_phase_only_grants(diff: &WorldDiff, count: nat, position: int)
    requires
        count <= diff.resources.keys().len(),
        0 <= position < permission_calls(diff, count).len(),
    ensures
        match permission_calls(diff, count)[position] {
            WorldCallView::GrantWriter { resource, contract } => {
                &&& diff.resources.keys().contains(resource)
                &&& diff.permission_diffs@.contains_key(resource)
                &&& diff.permission_diffs@[resource]@.writers_only_local.contains(contract)
            },
            WorldCallView::GrantOwner { resource, contract } => {
                &&& diff.resources.keys().contains(resource)
                &&& diff.permission_diffs@.contains_key(resource)
                &&& diff.permission_diffs@[resource]@.owners_only_local.contains(contract)
            },
            _ => false,
        },
    decreases count,
{
    let before = permission_calls(diff, (count - 1) as nat);
    let selector = diff.resources.keys()[count - 1];
    if position < before.len() {
        law_permission_phase_only_grants(diff, (count - 1) as nat, position);
    } else {
        let delta = diff.permission_diffs@[selector];
        let writers = delta.writers_only_local.elements();
        let owners = delta.owners_only_local.elements();
        assert(diff.permission_diffs@.contains_key(selector));
        let offset = position - before.len();
        if offset < writers.len() {
            assert(permission_calls(diff, count)[position] == grants(selector, writers, false)[offset]);
            assert(writers.contains(writers[offset]));
        } else {
            assert(permission_calls(diff, count)[position] == grants(selector, owners, true)[offset
                - writers.len()]);
            assert(owners.contains(owners[offset - writers.len()]));
        }
    }
}

/// Every declared permission that the world lacks is granted: for each
/// declared resource the permission phase holds a grant for every writer
/// and every owner that only the declared side has.
pub proof fn law_missing_permissions_are_granted(
    diff: &WorldDiff,
    count: nat,
    index: int,
    address: Felt,
)
    requires
        count <= diff.resources.keys().len(),
        0 <= index < count,
        diff.permission_diffs@.contains_key(diff.resources.keys()[index]),
    ensures
        diff.permission_diffs@[diff.resources.keys()[index]]@.writers_only_local.contains(address)
            ==> permission_calls(diff, count).contains(
            WorldCallView::GrantWriter { resource: diff.resources.keys()[index], contract: address },
        ),
        diff.permission_diffs@[diff.resources.keys()[index]]@.owners_only_local.contains(address)
            ==> permission_calls(diff, count).contains(
            WorldCallView::GrantOwner { resource: diff.resources.keys()[index], contract: address },
        ),
    decreases count,
{
    let resource = diff.resources.keys()[index];
    let before = permission_calls(diff, (count - 1) as nat);
    let all = permission_calls(diff, count);
    let writer = WorldCallView::GrantWriter { resource, contract: address };
    let owner = WorldCallView::GrantOwner { resource, contract: address };
    if index < count - 1 {
        law_missing_permissions_are_granted(diff, (count - 1) as nat, index, address);
        if before.contains(writer) {
            let at = choose|at: int| 0 <= at < before.len() && before[at] == writer;
            assert(all[at] == writer);
        }
        if before.contains(owner) {
            let at = choose|at: int| 0 <= at < before.len() && before[at] == owner;
            assert(all[at] == owner);
        }
    } else {
        let delta = diff.permission_diffs@[resource];
        let writers = delta.writers_only_local.elements();
        let owners = delta.owners_only_local.elements();
        if writers.contains(address) {
            let at = choose|at: int| 0 <= at < writers.len() && writers[at] == address;
            assert(all[before.len() + at] == writer);
        }
        if owners.contains(address) {
            let at = choose|at: int| 0 <= at < owners.len() && owners[at] == address;
            assert(all[before.len() + writers.len() + at] == owner);
        }
    }
}

/// The namespaces' part of the second phase only registers namespaces.
pub proof fn law_namespace_calls_register_namespaces(diff: &WorldDiff, count: nat, position: int)
    requires
        0 <= position < namespace_calls(diff, count).calls.len(),
    ensures
        namespace_calls(diff, count).calls[position] is RegisterNamespace,
    decreases count,
{
    if count > 0 {
        let before = namespace_calls(diff, (count - 1) as nat);
        if position < before.calls.len() {
            law_namespace_calls_register_namespaces(diff, (count - 1) as nat, position);
        }
    }
}

/// The resources' part of the second phase registers no namespace.
pub proof fn law_resource_calls_register_no_namespace(diff: &WorldDiff, count: nat, position: int)
    requires
        0 <= position < resource_calls(diff, count).calls.len(),
    ensures
        !(resource_calls(diff, count).calls[position] is RegisterNamespace),
    decreases count,
{
    if count > 0 {
        let before = resource_calls(diff, (count - 1) as nat);
        if position < before.calls.len() {
            law_resource_calls_register_no_namespace(diff, (count - 1) as nat, position);
        }
    }
}

/// Namespaces come first: in the second phase every registration of a
/// namespace stands before every registration and upgrade of a resource.
pub proof fn law_namespaces_are_registered_first(
    diff: &WorldDiff,
    multicall: bool,
    namespace_position: int,
    resource_position: int,
)
    requires
        sync_batch(diff, multicall) is Ok,
        0 <= namespace_position < sync_batch(diff, multicall)->Ok_0.calls.len(),
        0 <= resource_position < sync_batch(diff, multicall)->Ok_0.calls.len(),
        sync_batch(diff, multicall)->Ok_0.calls[namespace_position] is RegisterNamespace,
        !(sync_batch(diff, multicall)->Ok_0.calls[resource_position] is RegisterNamespace),
    ensures
        namespace_position < resource_position,
{
    let count = diff.resources.keys().len();
    let namespaces = namespace_calls(diff, count).calls;
    if namespace_position >= namespaces.len() {
        law_resource_calls_register_no_namespace(
            diff,
            count,
            namespace_position - namespaces.len(),
        );
    }
    if resource_position < namespaces.len() {
        law_namespace_calls_register_namespaces(diff, count, resource_position);
    }
}

/// Classes are declared before they are named: where the second phase
/// registers or upgrades a resource, the compiled class of the resource
/// is among the declarations of the phase.
pub proof fn law_synced_classes_are_declared(diff: &WorldDiff, count: nat, index: int)
    requires
        0 <= index < count,
        resource_calls(diff, count).error is None,
        calls_for(diff.resource_at(index).resource_type(), diff.resource_at(index)) matches Ok(
            Some(_),
        ),
    ensures
        resource_calls(diff, count).declarer.casm_class_hashes.contains(
            class_of(diff.resource_at(index).local()).casm_class_hash,
        ),
    decreases count,
{
    let before = resource_calls(diff, (count - 1) as nat);
    let last = diff.resource_at(count - 1);
    let wanted = class_of(diff.resource_at(index).local()).casm_class_hash;
    if index < count - 1 {
        law_synced_classes_are_declared(diff, (count - 1) as nat, index);
        match calls_for(last.resource_type(), last) {
            Ok(Some((class, _))) => {
                lemma_add_class_keeps(before.declarer, class, wanted);
            },
            _ => {},
        }
    } else {
        lemma_add_class_keeps(before.declarer, class_of(last.local()), wanted);
    }
}

/// A declarer with one more class holds the class, and what it held.
proof fn lemma_add_class_keeps(declarer: DeclarerView, class: ClassDeclaration, wanted: Felt)
    requires
        declarer.casm_class_hashes.contains(wanted) || wanted == class.casm_class_hash,
    ensures
        declarer.add_class(class).casm_class_hashes.contains(wanted),
{
    let keys = declarer.casm_class_hashes;
    if !keys.contains(class.casm_class_hash) {
        let longer = keys.push(class.casm_class_hash);
        if keys.contains(wanted) {
            let at = choose|at: int| 0 <= at < keys.len() && keys[at] == wanted;
            assert(longer[at] == wanted);
        } else {
            assert(longer[keys.len() as int] == wanted);
        }
    }
}

} // verus!
