use world_migration::diff::WorldDiff;
use world_migration::felt::Felt;
use world_migration::local::{
    CommonLocalInfo, ContractLocal, EventLocal, ModelLocal, NamespaceLocal, ResourceLocal,
    WorldLocal,
};
use world_migration::migrate::calls::{ClassDeclaration, Declarer, Invoker, WorldCall};
use world_migration::migrate::error::MigrationError;
use world_migration::migrate::{
    parse_init_args, Migration, MigrationConfig, ProfileConfig, WorldDeployment,
};
use world_migration::naming;
use world_migration::remote::WorldRemote;
use world_migration::world;
use world_migration::world::Event as WorldEvent;

fn felt(value: u128) -> Felt {
    Felt::from_u128(value)
}

fn common(namespace: &str, name: &str, class_hash: u128) -> CommonLocalInfo {
    CommonLocalInfo {
        name: name.to_string(),
        namespace: namespace.to_string(),
        class_hash: felt(class_hash),
        casm_class_hash: felt(class_hash + 0x1000),
    }
}

fn contract(namespace: &str, name: &str, class_hash: u128, args: &[&str]) -> ResourceLocal {
    ResourceLocal::Contract(ContractLocal {
        common: common(namespace, name, class_hash),
        init_call_args: args.iter().map(|arg| arg.to_string()).collect(),
    })
}

fn config(disable_multicall: Option<bool>) -> ProfileConfig {
    ProfileConfig {
        world_seed: "seed".to_string(),
        migration: disable_multicall.map(|disable_multicall| MigrationConfig { disable_multicall }),
    }
}

fn declaration(class_hash: u128) -> ClassDeclaration {
    ClassDeclaration { casm_class_hash: felt(class_hash + 0x1000), class_hash: felt(class_hash) }
}

const WORLD_CLASS: u128 = 0x77;

fn declared_world() -> WorldLocal {
    let mut local = WorldLocal::new(felt(WORLD_CLASS), felt(WORLD_CLASS + 0x1000));
    local.add_resource(ResourceLocal::Namespace(NamespaceLocal { name: "ns".to_string() })).unwrap();
    local.add_resource(contract("ns", "c", 5, &[])).unwrap();
    local
}

#[test]
fn fresh_world_is_deployed_registered_and_initialized_then_nothing_is_left() {
    let local = declared_world();
    let c = naming::compute_selector_from_names("ns", "c").unwrap();

    let diff = WorldDiff::new(&local, &WorldRemote::default());
    let plan = Migration::new(diff, config(None)).migrate().unwrap();

    // (1) The world is declared and deployed.
    assert_eq!(plan.ensure_world.declarations, vec![declaration(WORLD_CLASS)]);
    assert_eq!(
        plan.ensure_world.deployment,
        Some(WorldDeployment {
            class_hash: felt(WORLD_CLASS),
            seed: "seed".to_string(),
            constructor_calldata: vec![felt(WORLD_CLASS)],
            deployer_address: Felt::zero(),
        })
    );
    assert!(plan.ensure_world.calls.is_empty());

    // (2) The namespace is registered, the contract class declared, the contract registered.
    assert_eq!(plan.sync_resources.declarations, vec![declaration(5)]);
    assert_eq!(plan.sync_resources.deployment, None);
    assert_eq!(
        plan.sync_resources.calls,
        vec![
            WorldCall::RegisterNamespace { namespace: "ns".to_string() },
            WorldCall::RegisterContract {
                salt: c,
                namespace: "ns".to_string(),
                class_hash: felt(5),
            },
        ]
    );
    assert!(plan.sync_resources.multicall);

    // (3) Nothing is declared about permissions.
    assert!(plan.sync_permissions.is_empty());

    // (4) The contract is initialized, without arguments.
    assert_eq!(
        plan.initialize_contracts.calls,
        vec![WorldCall::InitContract { selector: c, init_calldata: vec![] }]
    );
    assert!(plan.initialize_contracts.declarations.is_empty());
    assert!(!plan.is_empty());

    // The events that the world emits once the plan has landed.
    let remote = WorldRemote::from_events(vec![
        Some(WorldEvent::WorldSpawned(world::WorldSpawned {
            creator: felt(1),
            class_hash: felt(WORLD_CLASS),
        })),
        Some(WorldEvent::NamespaceRegistered(world::NamespaceRegistered {
            namespace: "ns".to_string(),
            hash: naming::compute_bytearray_hash("ns").unwrap(),
        })),
        Some(WorldEvent::ContractRegistered(world::ContractRegistered {
            name: "c".to_string(),
            namespace: "ns".to_string(),
            address: felt(0xc0),
            class_hash: felt(5),
            salt: c,
        })),
        Some(WorldEvent::ContractInitialized(world::ContractInitialized {
            selector: c,
            init_calldata: vec![],
        })),
    ])
    .unwrap();

    let diff = WorldDiff::new(&local, &remote);
    assert!(diff.is_synced());
    let plan = Migration::new(diff, config(None)).migrate().unwrap();
    assert!(plan.is_empty());
    assert!(plan.ensure_world.is_empty());
    assert!(plan.sync_resources.is_empty());
    assert!(plan.sync_permissions.is_empty());
    assert!(plan.initialize_contracts.is_empty());
}

#[test]
fn registered_but_uninitialized_contract_is_only_initialized() {
    let local = declared_world();
    let c = naming::compute_selector_from_names("ns", "c").unwrap();
    let remote = WorldRemote::from_events(vec![
        Some(WorldEvent::WorldSpawned(world::WorldSpawned {
            creator: felt(1),
            class_hash: felt(WORLD_CLASS),
        })),
        Some(WorldEvent::NamespaceRegistered(world::NamespaceRegistered {
            namespace: "ns".to_string(),
            hash: Felt::zero(),
        })),
        Some(WorldEvent::ContractRegistered(world::ContractRegistered {
            name: "c".to_string(),
            namespace: "ns".to_string(),
            address: felt(0xc0),
            class_hash: felt(5),
            salt: c,
        })),
    ])
    .unwrap();

    let plan = Migration::new(WorldDiff::new(&local, &remote), config(None)).migrate().unwrap();
    assert!(plan.ensure_world.is_empty());
    assert!(plan.sync_resources.is_empty());
    assert!(plan.sync_permissions.is_empty());
    assert_eq!(
        plan.initialize_contracts.calls,
        vec![WorldCall::InitContract { selector: c, init_calldata: vec![] }]
    );
}

#[test]
fn new_world_version_is_declared_and_upgraded_in_one_transaction() {
    let local = WorldLocal::new(felt(WORLD_CLASS), felt(WORLD_CLASS + 0x1000));
    let remote = WorldRemote::from_events(vec![Some(WorldEvent::WorldSpawned(world::WorldSpawned {
        creator: felt(1),
        class_hash: felt(0x66),
    }))])
    .unwrap();

    // Even where multicall is disabled for the other phases.
    let migration = Migration::new(WorldDiff::new(&local, &remote), config(Some(true)));
    let batch = migration.ensure_world();
    assert_eq!(batch.declarations, vec![declaration(WORLD_CLASS)]);
    assert_eq!(batch.deployment, None);
    assert_eq!(batch.calls, vec![WorldCall::Upgrade { class_hash: felt(WORLD_CLASS) }]);
    assert!(batch.multicall);

    let plan = migration.migrate().unwrap();
    assert_eq!(plan.ensure_world, batch);
    // The world's new version makes the difference unsynced, but no resource needs anything.
    assert!(plan.sync_resources.is_empty());
    assert!(!plan.sync_resources.multicall);
}

#[test]
fn multicall_is_the_default() {
    let diff = || WorldDiff::new(&declared_world(), &WorldRemote::default());
    assert!(Migration::new(diff(), config(None)).do_multicall());
    assert!(Migration::new(diff(), config(Some(false))).do_multicall());
    assert!(!Migration::new(diff(), config(Some(true))).do_multicall());

    let plan = Migration::new(diff(), config(Some(true))).migrate().unwrap();
    assert!(plan.ensure_world.multicall);
    assert!(!plan.sync_resources.multicall);
    assert!(!plan.sync_permissions.multicall);
    assert!(!plan.initialize_contracts.multicall);
}

#[test]
fn resources_are_registered_or_upgraded_by_kind_and_classes_declared_once() {
    let mut local = WorldLocal::new(felt(WORLD_CLASS), felt(WORLD_CLASS + 0x1000));
    local.add_resource(ResourceLocal::Namespace(NamespaceLocal { name: "ns".to_string() })).unwrap();
    local.add_resource(ResourceLocal::Model(ModelLocal { common: common("ns", "m1", 5) })).unwrap();
    // A second model with the same class: declared once.
    local.add_resource(ResourceLocal::Model(ModelLocal { common: common("ns", "m2", 5) })).unwrap();
    local.add_resource(ResourceLocal::Event(EventLocal { common: common("ns", "e", 6) })).unwrap();
    local.add_resource(contract("ns", "c", 7, &[])).unwrap();
    local.add_resource(ResourceLocal::Model(ModelLocal { common: common("ns", "same", 8) })).unwrap();

    let m1 = naming::compute_selector_from_names("ns", "m1").unwrap();
    let e = naming::compute_selector_from_names("ns", "e").unwrap();
    let c = naming::compute_selector_from_names("ns", "c").unwrap();
    let registered = |name: &str, class_hash: u128| world::ModelRegistered {
        name: name.to_string(),
        namespace: "ns".to_string(),
        class_hash: felt(class_hash),
        address: felt(1),
    };
    let remote = WorldRemote::from_events(vec![
        Some(WorldEvent::WorldSpawned(world::WorldSpawned {
            creator: felt(1),
            class_hash: felt(WORLD_CLASS),
        })),
        Some(WorldEvent::NamespaceRegistered(world::NamespaceRegistered {
            namespace: "ns".to_string(),
            hash: Felt::zero(),
        })),
        Some(WorldEvent::ModelRegistered(registered("m1", 4))),
        Some(WorldEvent::ModelRegistered(registered("same", 4))),
        Some(WorldEvent::ModelUpgraded(world::ModelUpgraded {
            selector: naming::compute_selector_from_names("ns", "same").unwrap(),
            class_hash: felt(8),
            address: felt(1),
            prev_address: felt(1),
        })),
        Some(WorldEvent::EventRegistered(world::EventRegistered {
            name: "e".to_string(),
            namespace: "ns".to_string(),
            class_hash: felt(3),
            address: felt(1),
        })),
        Some(WorldEvent::ContractRegistered(world::ContractRegistered {
            name: "c".to_string(),
            namespace: "ns".to_string(),
            address: felt(1),
            class_hash: felt(2),
            salt: c,
        })),
        Some(WorldEvent::ContractInitialized(world::ContractInitialized {
            selector: c,
            init_calldata: vec![],
        })),
    ])
    .unwrap();
    assert!(remote.resources.contains_key(&m1) && remote.resources.contains_key(&e));

    let plan = Migration::new(WorldDiff::new(&local, &remote), config(None)).migrate().unwrap();

    assert!(plan.ensure_world.is_empty());
    assert_eq!(plan.sync_resources.declarations, vec![declaration(5), declaration(6), declaration(7)]);
    let ns = || "ns".to_string();
    assert_eq!(
        plan.sync_resources.calls,
        vec![
            WorldCall::UpgradeModel { namespace: ns(), class_hash: felt(5) },
            WorldCall::RegisterModel { namespace: ns(), class_hash: felt(5) },
            WorldCall::UpgradeEvent { namespace: ns(), class_hash: felt(6) },
            WorldCall::UpgradeContract { namespace: ns(), class_hash: felt(7) },
        ]
    );
    assert!(plan.sync_permissions.is_empty());
    // The upgraded contract was initialized before: it is not initialized again.
    assert!(plan.initialize_contracts.is_empty());
}

#[test]
fn only_missing_permissions_are_granted_and_none_is_revoked() {
    let mut local = declared_world();
    let ns = naming::compute_bytearray_hash("ns").unwrap();
    let c = naming::compute_selector_from_names("ns", "c").unwrap();
    local.add_owner(c, felt(0xa));
    local.add_owner(c, felt(0xb));
    local.add_writer(c, felt(0xd));
    local.add_writer(ns, felt(0xe));

    let remote = WorldRemote::from_events(vec![
        Some(WorldEvent::WorldSpawned(world::WorldSpawned {
            creator: felt(1),
            class_hash: felt(WORLD_CLASS),
        })),
        Some(WorldEvent::NamespaceRegistered(world::NamespaceRegistered {
            namespace: "ns".to_string(),
            hash: Felt::zero(),
        })),
        Some(WorldEvent::ContractRegistered(world::ContractRegistered {
            name: "c".to_string(),
            namespace: "ns".to_string(),
            address: felt(0xc0),
            class_hash: felt(5),
            salt: c,
        })),
        Some(WorldEvent::ContractInitialized(world::ContractInitialized {
            selector: c,
            init_calldata: vec![],
        })),
        Some(WorldEvent::OwnerUpdated(world::OwnerUpdated { resource: c, contract: felt(0xb), value: true })),
        Some(WorldEvent::OwnerUpdated(world::OwnerUpdated { resource: c, contract: felt(0xc), value: true })),
        Some(WorldEvent::WriterUpdated(world::WriterUpdated { resource: ns, contract: felt(0xf), value: true })),
    ])
    .unwrap();

    let diff = WorldDiff::new(&local, &remote);
    // The resources are synced; the permissions are not.
    assert!(diff.is_synced());
    let migration = Migration::new(diff, config(None));
    let batch = migration.sync_permissions();
    assert_eq!(
        batch.calls,
        vec![
            WorldCall::GrantWriter { resource: ns, contract: felt(0xe) },
            WorldCall::GrantWriter { resource: c, contract: felt(0xd) },
            WorldCall::GrantOwner { resource: c, contract: felt(0xa) },
        ]
    );
    assert!(batch.declarations.is_empty());
    assert_eq!(batch.deployment, None);

    let plan = migration.migrate().unwrap();
    assert_eq!(plan.sync_permissions, batch);
    assert!(plan.sync_resources.is_empty());
    assert!(plan.initialize_contracts.is_empty());
}

#[test]
fn initialization_arguments_are_parsed_as_felts() {
    let mut local = WorldLocal::new(felt(WORLD_CLASS), felt(WORLD_CLASS + 0x1000));
    local.add_resource(contract("ns", "c", 5, &["0x10", "17", "0"])).unwrap();
    let c = naming::compute_selector_from_names("ns", "c").unwrap();

    let migration = Migration::new(WorldDiff::new(&local, &WorldRemote::default()), config(None));
    let batch = migration.initialize_contracts().unwrap();
    assert_eq!(
        batch.calls,
        vec![WorldCall::InitContract {
            selector: c,
            init_calldata: vec![felt(16), felt(17), felt(0)],
        }]
    );
}

#[test]
fn non_numeric_initialization_argument_is_a_planning_error() {
    let mut local = WorldLocal::new(felt(WORLD_CLASS), felt(WORLD_CLASS + 0x1000));
    local.add_resource(contract("ns", "ok", 4, &["1"])).unwrap();
    local.add_resource(contract("ns", "c", 5, &["1", "0x2", "two", "also bad"])).unwrap();
    let c = naming::compute_selector_from_names("ns", "c").unwrap();

    let migration = Migration::new(WorldDiff::new(&local, &WorldRemote::default()), config(None));
    let error = MigrationError::InvalidInitArg { selector: c, position: 2 };
    assert_eq!(migration.initialize_contracts(), Err(error));
    assert_eq!(migration.migrate(), Err(error));
}

#[test]
fn parse_init_args_reports_the_first_bad_literal() {
    assert_eq!(parse_init_args(&vec![]), Ok(vec![]));
    assert_eq!(
        parse_init_args(&vec!["0xff".to_string(), "255".to_string()]),
        Ok(vec![felt(255), felt(255)])
    );
    assert_eq!(parse_init_args(&vec!["x".to_string(), "y".to_string()]), Err(0));
    assert_eq!(parse_init_args(&vec!["1".to_string(), "".to_string()]), Err(1));
}

#[test]
fn large_literals_fill_both_halves_of_a_felt() {
    let parsed = parse_init_args(&vec![
        "0x1000000000000000000000000000000ff".to_string(),
        "340282366920938463463374607431768211456".to_string(),
    ])
    .unwrap();
    assert_eq!(parsed[0], Felt { hi: 1, lo: 0xff });
    assert_eq!(parsed[1], Felt { hi: 1, lo: 0 });
}

#[test]
fn declarer_keeps_one_class_per_compiled_class_hash() {
    let mut declarer = Declarer::new();
    declarer.add_class(ClassDeclaration { casm_class_hash: felt(1), class_hash: felt(10) });
    declarer.add_class(ClassDeclaration { casm_class_hash: felt(2), class_hash: felt(20) });
    declarer.add_class(ClassDeclaration { casm_class_hash: felt(1), class_hash: felt(11) });
    assert_eq!(
        declarer.declarations(),
        vec![
            ClassDeclaration { casm_class_hash: felt(1), class_hash: felt(11) },
            ClassDeclaration { casm_class_hash: felt(2), class_hash: felt(20) },
        ]
    );
}

#[test]
fn invoker_keeps_the_calls_in_order() {
    let mut invoker = Invoker::new();
    assert!(invoker.is_empty());
    invoker.add_call(WorldCall::Upgrade { class_hash: felt(1) });
    invoker.add_call(WorldCall::GrantOwner { resource: felt(2), contract: felt(3) });
    invoker.add_call(WorldCall::Upgrade { class_hash: felt(1) });
    assert!(!invoker.is_empty());
    assert_eq!(
        invoker.calls,
        vec![
            WorldCall::Upgrade { class_hash: felt(1) },
            WorldCall::GrantOwner { resource: felt(2), contract: felt(3) },
            WorldCall::Upgrade { class_hash: felt(1) },
        ]
    );
}

#[test]
fn getcalls_of_another_kind_add_nothing() {
    let local = declared_world();
    let c = naming::compute_selector_from_names("ns", "c").unwrap();
    let diff = WorldDiff::new(&local, &WorldRemote::default());
    let migration = Migration::new(diff, config(None));
    let resource = migration.diff.resources.get(&c).unwrap();

    let mut invoker = Invoker::new();
    let mut declarer = Declarer::new();
    migration.models_getcalls(resource, &mut invoker, &mut declarer).unwrap();
    migration.events_getcalls(resource, &mut invoker, &mut declarer).unwrap();
    assert!(invoker.is_empty());
    assert!(declarer.declarations().is_empty());

    migration.contracts_getcalls(resource, &mut invoker, &mut declarer).unwrap();
    assert_eq!(
        invoker.calls,
        vec![WorldCall::RegisterContract { salt: c, namespace: "ns".to_string(), class_hash: felt(5) }]
    );
    assert_eq!(declarer.declarations(), vec![declaration(5)]);

    let mut invoker = Invoker::new();
    migration.namespaces_getcalls(&mut invoker).unwrap();
    assert_eq!(invoker.calls, vec![WorldCall::RegisterNamespace { namespace: "ns".to_string() }]);
}
