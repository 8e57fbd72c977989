use world_migration::felt::Felt;
use world_migration::naming;
use world_migration::remote::{
    CommonResourceRemoteInfo, ContractRemote, EventRemote, ModelRemote, NamespaceRemote,
    RemoteError, ResourceRemote, WorldRemote,
};
use world_migration::world;
use world_migration::world::Event as WorldEvent;

#[test]
fn test_world_spawned_event() {
    let mut world_remote = WorldRemote::default();
    let event = WorldEvent::WorldSpawned(world::WorldSpawned {
        class_hash: Felt::one(),
        creator: Felt::one(),
    });

    world_remote.match_event(event).unwrap();
    assert_eq!(world_remote.class_hashes.len(), 1);
}

#[test]
fn test_world_upgraded_event() {
    let mut world_remote = WorldRemote::default();
    let event = WorldEvent::WorldUpgraded(world::WorldUpgraded { class_hash: Felt::one() });

    world_remote.match_event(event).unwrap();
    assert_eq!(world_remote.class_hashes.len(), 1);
}

#[test]
fn test_namespace_registered_event() {
    let mut world_remote = WorldRemote::default();
    let event = WorldEvent::NamespaceRegistered(world::NamespaceRegistered {
        namespace: "ns".to_string(),
        hash: Felt::from_u128(123),
    });

    world_remote.match_event(event).unwrap();

    let selector = naming::compute_bytearray_hash("ns").unwrap();
    assert!(world_remote.namespaces.contains(&selector));
    assert!(world_remote.resources.contains_key(&selector));

    let resource = world_remote.resources.get(&selector).unwrap();
    assert!(matches!(resource, ResourceRemote::Namespace(_)));
}

#[test]
fn test_model_registered_event() {
    let mut world_remote = WorldRemote::default();
    let event = WorldEvent::ModelRegistered(world::ModelRegistered {
        class_hash: Felt::one(),
        name: "m".to_string(),
        address: Felt::one(),
        namespace: "ns".to_string(),
    });

    world_remote.match_event(event).unwrap();
    let selector = naming::compute_selector_from_names("ns", "m").unwrap();
    assert!(world_remote.models("ns").unwrap().contains(&selector));
    assert!(world_remote.resources.contains_key(&selector));

    let resource = world_remote.resources.get(&selector).unwrap();
    assert!(matches!(resource, ResourceRemote::Model(_)));
}

#[test]
fn test_event_registered_event() {
    let mut world_remote = WorldRemote::default();
    let event = WorldEvent::EventRegistered(world::EventRegistered {
        class_hash: Felt::one(),
        name: "e".to_string(),
        address: Felt::one(),
        namespace: "ns".to_string(),
    });

    world_remote.match_event(event).unwrap();
    let selector = naming::compute_selector_from_names("ns", "e").unwrap();
    assert!(world_remote.events("ns").unwrap().contains(&selector));
    assert!(world_remote.resources.contains_key(&selector));

    let resource = world_remote.resources.get(&selector).unwrap();
    assert!(matches!(resource, ResourceRemote::Event(_)));
}

#[test]
fn test_contract_registered_event() {
    let mut world_remote = WorldRemote::default();
    let event = WorldEvent::ContractRegistered(world::ContractRegistered {
        class_hash: Felt::one(),
        name: "c".to_string(),
        address: Felt::one(),
        namespace: "ns".to_string(),
        salt: Felt::one(),
    });

    world_remote.match_event(event).unwrap();
    let selector = naming::compute_selector_from_names("ns", "c").unwrap();
    assert!(world_remote.contracts("ns").unwrap().contains(&selector));
    assert!(world_remote.resources.contains_key(&selector));

    let resource = world_remote.resources.get(&selector).unwrap();
    assert!(matches!(resource, ResourceRemote::Contract(_)));
}

#[test]
fn test_model_upgraded_event() {
    let mut world_remote = WorldRemote::default();
    let selector = naming::compute_selector_from_names("ns", "m").unwrap();

    let resource = ResourceRemote::Model(ModelRemote {
        common: CommonResourceRemoteInfo::new(Felt::one(), "m".to_string(), Felt::one()),
    });

    world_remote.add_resource("ns".to_string(), resource).unwrap();

    let event = WorldEvent::ModelUpgraded(world::ModelUpgraded {
        selector,
        class_hash: Felt::two(),
        address: Felt::one(),
        prev_address: Felt::one(),
    });

    world_remote.match_event(event).unwrap();

    let resource = world_remote.resources.get(&selector).unwrap();
    assert_eq!(
        resource.as_model_or_panic().common.class_hashes,
        vec![Felt::one(), Felt::two()]
    );
}

#[test]
fn test_event_upgraded_event() {
    let mut world_remote = WorldRemote::default();
    let selector = naming::compute_selector_from_names("ns", "e").unwrap();

    let resource = ResourceRemote::Event(EventRemote {
        common: CommonResourceRemoteInfo::new(Felt::one(), "e".to_string(), Felt::one()),
    });

    world_remote.add_resource("ns".to_string(), resource).unwrap();

    let event = WorldEvent::EventUpgraded(world::EventUpgraded {
        selector,
        class_hash: Felt::two(),
        address: Felt::one(),
        prev_address: Felt::one(),
    });

    world_remote.match_event(event).unwrap();

    let resource = world_remote.resources.get(&selector).unwrap();
    assert_eq!(
        resource.as_event_or_panic().common.class_hashes,
        vec![Felt::one(), Felt::two()]
    );
}

#[test]
fn test_contract_upgraded_event() {
    let mut world_remote = WorldRemote::default();
    let selector = naming::compute_selector_from_names("ns", "c").unwrap();

    let resource = ResourceRemote::Contract(ContractRemote {
        common: CommonResourceRemoteInfo::new(Felt::one(), "c".to_string(), Felt::one()),
        initialized: false,
    });

    world_remote.add_resource("ns".to_string(), resource).unwrap();

    let event = WorldEvent::ContractUpgraded(world::ContractUpgraded {
        selector,
        class_hash: Felt::two(),
    });

    world_remote.match_event(event).unwrap();
    let resource = world_remote.resources.get(&selector).unwrap();
    assert_eq!(
        resource.as_contract_or_panic().common.class_hashes,
        vec![Felt::one(), Felt::two()]
    );
}

#[test]
fn test_contract_initialized_event() {
    let mut world_remote = WorldRemote::default();
    let selector = naming::compute_selector_from_names("ns", "c").unwrap();

    let resource = ResourceRemote::Contract(ContractRemote {
        common: CommonResourceRemoteInfo::new(Felt::one(), "c".to_string(), Felt::one()),
        initialized: false,
    });

    world_remote.add_resource("ns".to_string(), resource).unwrap();

    let event = WorldEvent::ContractInitialized(world::ContractInitialized {
        selector,
        init_calldata: vec![],
    });

    world_remote.match_event(event).unwrap();

    let resource = world_remote.resources.get(&selector).unwrap();
    assert!(resource.as_contract_or_panic().initialized);
}

#[test]
fn test_writer_updated_event() {
    let mut world_remote = WorldRemote::default();
    let selector = naming::compute_bytearray_hash("ns").unwrap();

    let resource = ResourceRemote::Namespace(NamespaceRemote::new("ns".to_string()));
    world_remote.add_resource("ns".to_string(), resource).unwrap();

    let event = WorldEvent::WriterUpdated(world::WriterUpdated {
        resource: selector,
        contract: Felt::one(),
        value: true,
    });

    world_remote.match_event(event).unwrap();

    let resource = world_remote.resources.get(&selector).unwrap();
    assert_eq!(resource.as_namespace_or_panic().writers.to_vec(), vec![Felt::one()]);

    let event = WorldEvent::WriterUpdated(world::WriterUpdated {
        resource: selector,
        contract: Felt::one(),
        value: false,
    });

    world_remote.match_event(event).unwrap();

    let resource = world_remote.resources.get(&selector).unwrap();
    assert_eq!(resource.as_namespace_or_panic().writers.to_vec(), vec![]);
}

#[test]
fn test_owner_updated_event() {
    let mut world_remote = WorldRemote::default();
    let selector = naming::compute_bytearray_hash("ns").unwrap();

    let resource = ResourceRemote::Namespace(NamespaceRemote::new("ns".to_string()));
    world_remote.add_resource("ns".to_string(), resource).unwrap();

    let event = WorldEvent::OwnerUpdated(world::OwnerUpdated {
        resource: selector,
        contract: Felt::one(),
        value: true,
    });

    world_remote.match_event(event).unwrap();

    let resource = world_remote.resources.get(&selector).unwrap();
    assert_eq!(resource.as_namespace_or_panic().owners.to_vec(), vec![Felt::one()]);

    let event = WorldEvent::OwnerUpdated(world::OwnerUpdated {
        resource: selector,
        contract: Felt::one(),
        value: false,
    });

    world_remote.match_event(event).unwrap();

    let resource = world_remote.resources.get(&selector).unwrap();
    assert_eq!(resource.as_namespace_or_panic().owners.to_vec(), vec![]);
}

fn namespace_registered(name: &str) -> Option<WorldEvent> {
    Some(WorldEvent::NamespaceRegistered(world::NamespaceRegistered {
        namespace: name.to_string(),
        hash: Felt::zero(),
    }))
}

fn writer_updated(resource: Felt, contract: Felt, value: bool) -> Option<WorldEvent> {
    Some(WorldEvent::WriterUpdated(world::WriterUpdated { resource, contract, value }))
}

#[test]
fn replay_of_a_namespace_registration_alone() {
    let world_remote = WorldRemote::from_events(vec![namespace_registered("ns")]).unwrap();
    let selector = naming::compute_bytearray_hash("ns").unwrap();

    assert!(world_remote.namespaces.contains(&selector));
    assert_eq!(world_remote.namespaces.len(), 1);
    assert_eq!(world_remote.resources.len(), 1);
    let namespace = world_remote.resources.get(&selector).unwrap().as_namespace_or_panic();
    assert_eq!(namespace.name, "ns");
    assert!(namespace.owners.is_empty());
    assert!(namespace.writers.is_empty());
    let permissions = world_remote.permissions.get(&selector).unwrap();
    assert!(permissions.owners.is_empty());
    assert!(permissions.writers.is_empty());
    assert!(world_remote.class_hashes.is_empty());
    assert!(world_remote.models("ns").is_none());
}

#[test]
fn replay_of_a_model_registration_and_upgrade() {
    let c1 = Felt::from_u128(0xc1);
    let c2 = Felt::from_u128(0xc2);
    let selector = naming::compute_selector_from_names("ns", "m").unwrap();
    let world_remote = WorldRemote::from_events(vec![
        Some(WorldEvent::ModelRegistered(world::ModelRegistered {
            name: "m".to_string(),
            namespace: "ns".to_string(),
            class_hash: c1,
            address: Felt::from_u128(7),
        })),
        Some(WorldEvent::ModelUpgraded(world::ModelUpgraded {
            selector,
            class_hash: c2,
            address: Felt::from_u128(8),
            prev_address: Felt::from_u128(7),
        })),
    ])
    .unwrap();

    let model = world_remote.resources.get(&selector).unwrap().as_model_or_panic();
    assert_eq!(model.common.class_hashes, vec![c1, c2]);
    assert_eq!(model.common.current_class_hash(), Some(c2));
    assert_eq!(model.common.name, "m");
    assert_eq!(model.common.address, Felt::from_u128(7));
}

#[test]
fn repeated_writer_grant_is_one_grant_and_revocation_removes_it() {
    let s = naming::compute_bytearray_hash("ns").unwrap();
    let a = Felt::from_u128(0xa);

    let granted = WorldRemote::from_events(vec![
        namespace_registered("ns"),
        writer_updated(s, a, true),
        writer_updated(s, a, true),
    ])
    .unwrap();
    assert_eq!(granted.permissions.get(&s).unwrap().writers.to_vec(), vec![a]);
    assert!(granted.permissions.get(&s).unwrap().owners.is_empty());

    let revoked = WorldRemote::from_events(vec![
        namespace_registered("ns"),
        writer_updated(s, a, true),
        writer_updated(s, a, true),
        writer_updated(s, a, false),
    ])
    .unwrap();
    assert!(revoked.permissions.get(&s).unwrap().writers.is_empty());

    let never_granted = WorldRemote::from_events(vec![
        namespace_registered("ns"),
        writer_updated(s, a, false),
        writer_updated(s, a, false),
    ])
    .unwrap();
    assert!(never_granted.permissions.get(&s).unwrap().writers.is_empty());
}

#[test]
fn events_for_an_unregistered_selector_are_invariant_violations() {
    let selector = Felt::from_u128(42);
    let not_found = RemoteError::ResourceNotFound { selector };
    assert!(not_found.is_invariant_violation());

    let upgraded = WorldEvent::ContractUpgraded(world::ContractUpgraded {
        selector,
        class_hash: Felt::one(),
    });
    assert_eq!(WorldRemote::from_events(vec![Some(upgraded)]).unwrap_err(), not_found);

    let model_upgraded = WorldEvent::ModelUpgraded(world::ModelUpgraded {
        selector,
        class_hash: Felt::one(),
        address: Felt::one(),
        prev_address: Felt::one(),
    });
    assert_eq!(WorldRemote::default().match_event(model_upgraded), Err(not_found));

    let event_upgraded = WorldEvent::EventUpgraded(world::EventUpgraded {
        selector,
        class_hash: Felt::one(),
        address: Felt::one(),
        prev_address: Felt::one(),
    });
    assert_eq!(WorldRemote::default().match_event(event_upgraded), Err(not_found));

    let initialized = WorldEvent::ContractInitialized(world::ContractInitialized {
        selector,
        init_calldata: vec![],
    });
    assert_eq!(WorldRemote::default().match_event(initialized), Err(not_found));

    assert_eq!(
        WorldRemote::from_events(vec![writer_updated(selector, Felt::one(), true)]).unwrap_err(),
        not_found
    );
    let owner = WorldEvent::OwnerUpdated(world::OwnerUpdated {
        resource: selector,
        contract: Felt::one(),
        value: false,
    });
    assert_eq!(WorldRemote::default().match_event(owner), Err(not_found));
}

#[test]
fn initialization_of_a_resource_that_is_no_contract_is_refused() {
    let selector = naming::compute_selector_from_names("ns", "m").unwrap();
    let mut world_remote = WorldRemote::default();
    world_remote
        .match_event(WorldEvent::ModelRegistered(world::ModelRegistered {
            name: "m".to_string(),
            namespace: "ns".to_string(),
            class_hash: Felt::one(),
            address: Felt::one(),
        }))
        .unwrap();

    let initialized = WorldEvent::ContractInitialized(world::ContractInitialized {
        selector,
        init_calldata: vec![],
    });
    let error = RemoteError::NotAContract { selector };
    assert_eq!(world_remote.match_event(initialized), Err(error));
    assert!(error.is_invariant_violation());
    assert!(!RemoteError::InvalidName.is_invariant_violation());
    // The refused event changed nothing.
    assert!(matches!(world_remote.resources.get(&selector), Some(ResourceRemote::Model(_))));
    assert_eq!(world_remote.resources.len(), 1);
}

#[test]
fn undecodable_and_unrelated_events_are_passed_over() {
    let selector = naming::compute_selector_from_names("ns", "c").unwrap();
    let world_remote = WorldRemote::from_events(vec![
        None,
        Some(WorldEvent::WorldSpawned(world::WorldSpawned {
            creator: Felt::one(),
            class_hash: Felt::from_u128(10),
        })),
        Some(WorldEvent::Other),
        Some(WorldEvent::ContractRegistered(world::ContractRegistered {
            name: "c".to_string(),
            namespace: "ns".to_string(),
            address: Felt::from_u128(5),
            class_hash: Felt::from_u128(6),
            salt: Felt::zero(),
        })),
        None,
        Some(WorldEvent::WorldUpgraded(world::WorldUpgraded { class_hash: Felt::from_u128(11) })),
        Some(WorldEvent::ContractInitialized(world::ContractInitialized {
            selector,
            init_calldata: vec![Felt::one()],
        })),
    ])
    .unwrap();

    assert_eq!(world_remote.class_hashes, vec![Felt::from_u128(10), Felt::from_u128(11)]);
    let contract = world_remote.resources.get(&selector).unwrap().as_contract_or_panic();
    assert!(contract.initialized);
    assert_eq!(contract.common.class_hashes, vec![Felt::from_u128(6)]);
    assert_eq!(world_remote.contracts("ns").unwrap().to_vec(), vec![selector]);
    assert!(world_remote.models("ns").unwrap().is_empty());
    assert!(world_remote.namespaces.is_empty());
}

#[test]
fn a_violation_ends_the_replay() {
    let known = naming::compute_bytearray_hash("ns").unwrap();
    let unknown = Felt::from_u128(9);
    let result = WorldRemote::from_events(vec![
        namespace_registered("ns"),
        writer_updated(unknown, Felt::one(), true),
        writer_updated(known, Felt::one(), true),
    ]);
    assert_eq!(result.unwrap_err(), RemoteError::ResourceNotFound { selector: unknown });
}

#[test]
fn owner_updates_on_a_contract_are_kept_in_the_permissions() {
    let selector = naming::compute_selector_from_names("ns", "c").unwrap();
    let (a, b) = (Felt::from_u128(1), Felt::from_u128(2));
    let world_remote = WorldRemote::from_events(vec![
        Some(WorldEvent::ContractRegistered(world::ContractRegistered {
            name: "c".to_string(),
            namespace: "ns".to_string(),
            address: Felt::from_u128(5),
            class_hash: Felt::from_u128(6),
            salt: Felt::zero(),
        })),
        Some(WorldEvent::OwnerUpdated(world::OwnerUpdated { resource: selector, contract: a, value: true })),
        Some(WorldEvent::OwnerUpdated(world::OwnerUpdated { resource: selector, contract: b, value: true })),
        Some(WorldEvent::OwnerUpdated(world::OwnerUpdated { resource: selector, contract: a, value: false })),
        writer_updated(selector, a, true),
    ])
    .unwrap();
    let permissions = world_remote.permissions.get(&selector).unwrap();
    assert_eq!(permissions.owners.to_vec(), vec![b]);
    assert_eq!(permissions.writers.to_vec(), vec![a]);
}

fn sample_log() -> Vec<Option<WorldEvent>> {
    let c = naming::compute_selector_from_names("ns", "c").unwrap();
    let ns = naming::compute_bytearray_hash("ns").unwrap();
    vec![
        Some(WorldEvent::WorldSpawned(world::WorldSpawned {
            creator: Felt::one(),
            class_hash: Felt::from_u128(10),
        })),
        namespace_registered("ns"),
        None,
        Some(WorldEvent::ContractRegistered(world::ContractRegistered {
            name: "c".to_string(),
            namespace: "ns".to_string(),
            address: Felt::from_u128(5),
            class_hash: Felt::from_u128(6),
            salt: Felt::zero(),
        })),
        writer_updated(ns, c, true),
        Some(WorldEvent::ContractUpgraded(world::ContractUpgraded {
            selector: c,
            class_hash: Felt::from_u128(7),
        })),
        writer_updated(c, Felt::from_u128(0xa), true),
    ]
}

fn summary(world_remote: &WorldRemote) -> Vec<(Felt, Vec<Felt>, Vec<Felt>, Vec<Felt>)> {
    let mut entries = Vec::new();
    for index in 0..world_remote.resources.len() {
        let selector = world_remote.resources.key_at(index);
        let resource = world_remote.resources.value_at(index);
        let class_hashes = match resource {
            ResourceRemote::Namespace(_) => vec![],
            ResourceRemote::Contract(contract) => contract.common.class_hashes.clone(),
            ResourceRemote::Model(model) => model.common.class_hashes.clone(),
            ResourceRemote::Event(event) => event.common.class_hashes.clone(),
        };
        let permissions = world_remote.permissions.get(&selector).unwrap();
        let mut owners = permissions.owners.to_vec();
        let mut writers = permissions.writers.to_vec();
        owners.sort_by_key(|felt| (felt.hi, felt.lo));
        writers.sort_by_key(|felt| (felt.hi, felt.lo));
        entries.push((selector, class_hashes, owners, writers));
    }
    entries.sort_by_key(|entry| (entry.0.hi, entry.0.lo));
    entries
}

#[test]
fn replay_in_two_pieces_gives_the_same_world() {
    for cut in 0..=sample_log().len() {
        let mut first = sample_log();
        let second = first.split_off(cut);
        let mut in_pieces = WorldRemote::from_events(first).unwrap();
        for entry in second {
            if let Some(event) = entry {
                in_pieces.match_event(event).unwrap();
            }
        }
        let at_once = WorldRemote::from_events(sample_log()).unwrap();
        assert_eq!(summary(&in_pieces), summary(&at_once));
        assert_eq!(in_pieces.class_hashes, at_once.class_hashes);
        assert_eq!(in_pieces.namespaces.to_vec(), at_once.namespaces.to_vec());
    }
}

#[test]
fn replayed_world_is_consistent() {
    let world_remote = WorldRemote::from_events(sample_log()).unwrap();
    let c = naming::compute_selector_from_names("ns", "c").unwrap();
    let ns = naming::compute_bytearray_hash("ns").unwrap();

    // Namespaces and indexed selectors are registered resources.
    for selector in world_remote.namespaces.to_vec() {
        assert!(world_remote.resources.contains_key(&selector));
    }
    for selector in world_remote.contracts("ns").unwrap().to_vec() {
        assert!(world_remote.resources.contains_key(&selector));
    }
    // Every resource has a permission entry, and no other selector has one.
    assert_eq!(world_remote.permissions.len(), world_remote.resources.len());
    for index in 0..world_remote.resources.len() {
        assert!(world_remote.permissions.contains_key(&world_remote.resources.key_at(index)));
    }
    // A namespace records what its entry holds.
    let namespace = world_remote.resources.get(&ns).unwrap().as_namespace_or_panic();
    assert_eq!(namespace.writers.to_vec(), world_remote.permissions.get(&ns).unwrap().writers.to_vec());
    assert_eq!(namespace.writers.to_vec(), vec![c]);
    // Every resource with a class has one in force.
    assert_eq!(
        world_remote.resources.get(&c).unwrap().current_class_hash(),
        Some(Felt::from_u128(7))
    );
}

#[test]
fn registering_a_resource_again_replaces_it_and_its_permissions() {
    let m = naming::compute_selector_from_names("ns", "m").unwrap();
    let registered = |class_hash: u128| {
        Some(WorldEvent::ModelRegistered(world::ModelRegistered {
            name: "m".to_string(),
            namespace: "ns".to_string(),
            class_hash: Felt::from_u128(class_hash),
            address: Felt::one(),
        }))
    };
    let world_remote = WorldRemote::from_events(vec![
        registered(1),
        writer_updated(m, Felt::from_u128(0xa), true),
        registered(2),
    ])
    .unwrap();
    assert_eq!(world_remote.resources.len(), 1);
    assert_eq!(
        world_remote.resources.get(&m).unwrap().as_model_or_panic().common.class_hashes,
        vec![Felt::from_u128(2)]
    );
    assert!(world_remote.permissions.get(&m).unwrap().writers.is_empty());
    assert_eq!(world_remote.models("ns").unwrap().to_vec(), vec![m]);
}
