//! Replay of the world's event log into the remote state.
//!
//! The log is the only source of truth. Events are applied one at a time
//! in log order; a resource is registered before it is upgraded,
//! initialized or given permissions, so an event that speaks of an
//! unregistered selector shows that the log is no valid trace.

use crate::felt::Felt;
use crate::felt_set::with_membership;
use crate::remote::{
    CommonResourceRemoteInfo, ContractRemote, EventRemote, ModelRemote, NamespaceRemote,
    Permissions, RemoteError, ResourceRemote, ResourceRemoteView, CommonRemoteView, WorldRemote,
    WorldRemoteView,
};
use crate::selector_map::lemma_views_insert;
use crate::world::Event as WorldEvent;
use vstd::prelude::*;

verus! {

/// The view of a resource that was just registered with a class.
pub open spec fn registered(name: Seq<char>, class_hash: Felt, address: Felt) -> CommonRemoteView {
    CommonRemoteView { class_hashes: seq![class_hash], name, address }
}

/// The world after one event, or the reason why the event cannot be applied.
pub open spec fn apply_event(world: WorldRemoteView, event: WorldEvent) -> Result<
    WorldRemoteView,
    RemoteError,
> {
    match event {
        WorldEvent::WorldSpawned(e) => Ok(world.with_world_class(e.class_hash)),
        WorldEvent::WorldUpgraded(e) => Ok(world.with_world_class(e.class_hash)),
        WorldEvent::NamespaceRegistered(e) => registration(
            world,
            e.namespace@,
            ResourceRemoteView::Namespace {
                name: e.namespace@,
                owners: Set::empty(),
                writers: Set::empty(),
            },
        ),
        WorldEvent::ModelRegistered(e) => registration(
            world,
            e.namespace@,
            ResourceRemoteView::Model { common: registered(e.name@, e.class_hash, e.address) },
        ),
        WorldEvent::EventRegistered(e) => registration(
            world,
            e.namespace@,
            ResourceRemoteView::Event { common: registered(e.name@, e.class_hash, e.address) },
        ),
        WorldEvent::ContractRegistered(e) => registration(
            world,
            e.namespace@,
            ResourceRemoteView::Contract {
                common: registered(e.name@, e.class_hash, e.address),
                initialized: false,
            },
        ),
        WorldEvent::ModelUpgraded(e) => world.upgraded(e.selector, e.class_hash),
        WorldEvent::EventUpgraded(e) => world.upgraded(e.selector, e.class_hash),
        WorldEvent::ContractUpgraded(e) => world.upgraded(e.selector, e.class_hash),
        WorldEvent::ContractInitialized(e) => world.initialized(e.selector),
        WorldEvent::WriterUpdated(e) => world.with_writer(e.resource, e.contract, e.value),
        WorldEvent::OwnerUpdated(e) => world.with_owner(e.resource, e.contract, e.value),
        WorldEvent::Other => Ok(world),
    }
}

/// The world after the registration of a resource, or the error for a
/// name without a selector.
pub open spec fn registration(
    world: WorldRemoteView,
    namespace: Seq<char>,
    resource: ResourceRemoteView,
) -> Result<WorldRemoteView, RemoteError> {
    match world.with_resource(namespace, resource) {
        Some(world) => Ok(world),
        None => Err(RemoteError::InvalidName),
    }
}

/// The world after a log of events, in order. An entry that is `None`
/// stands for an event that could not be decoded and is passed over. The
/// first event that cannot be applied ends the replay with its error.
pub open spec fn replay(world: WorldRemoteView, events: Seq<Option<WorldEvent>>) -> Result<
    WorldRemoteView,
    RemoteError,
>
    decreases events.len(),
{
    if events.len() == 0 {
        Ok(world)
    } else {
        match events[0] {
            None => replay(world, events.drop_first()),
            Some(event) => match apply_event(world, event) {
                Ok(next) => replay(next, events.drop_first()),
                Err(error) => Err(error),
            },
        }
    }
}

impl WorldRemote {
    /// Rebuilds the remote state from the world's event log, oldest event
    /// first. An entry that is `None` stands for an event that could not
    /// be decoded: it is passed over. The first event that cannot be
    /// applied ends the replay with its error.
    pub fn from_events(events: Vec<Option<WorldEvent>>) -> (result: Result<WorldRemote, RemoteError>)
        ensures
            match replay(WorldRemoteView::empty(), events@) {
                Ok(world) => result is Ok && result->Ok_0@ == world,
                Err(error) => result == Err::<WorldRemote, RemoteError>(error),
            },
    {
        let ghost log = events@;
        let mut world = WorldRemote::default();
        assert(log.subrange(0, log.len() as int) =~= log);
        for entry in entries: events.into_iter()
            invariant
                entries.seq() == log,
                replay(WorldRemoteView::empty(), log) == replay(
                    world@,
                    log.subrange(entries.index() as int, log.len() as int),
                ),
        {
            proof {
                let rest = log.subrange(entries.index() as int, log.len() as int);
                assert(rest[0] == entry);
                assert(rest.drop_first() =~= log.subrange(
                    entries.index() + 1,
                    log.len() as int,
                ));
            }
            match entry {
                Some(event) => {
                    match world.match_event(event) {
                        Ok(()) => {},
                        Err(error) => {
                            return Err(error);
                        },
                    }
                },
                None => {},
            }
        }
        Ok(world)
    }

    /// Applies one event to the remote state. An event that cannot be
    /// applied changes nothing.
    pub fn match_event(&mut self, event: WorldEvent) -> (result: Result<(), RemoteError>)
        ensures
            match apply_event(old(self)@, event) {
                Ok(world) => result is Ok && final(self)@ == world,
                Err(error) => result == Err::<(), RemoteError>(error) && final(self)@ == old(
                    self,
                )@,
            },
    {
        match event {
            WorldEvent::WorldSpawned(e) => {
                self.class_hashes.push(e.class_hash);
                Ok(())
            },
            WorldEvent::WorldUpgraded(e) => {
                self.class_hashes.push(e.class_hash);
                Ok(())
            },
            WorldEvent::NamespaceRegistered(e) => {
                let namespace = e.namespace.clone();
                let r = ResourceRemote::Namespace(NamespaceRemote::new(e.namespace));
                self.add_resource(namespace, r)
            },
            WorldEvent::ModelRegistered(e) => {
                let r = ResourceRemote::Model(
                    ModelRemote {
                        common: CommonResourceRemoteInfo::new(e.class_hash, e.name, e.address),
                    },
                );
                self.add_resource(e.namespace, r)
            },
            WorldEvent::EventRegistered(e) => {
                let r = ResourceRemote::Event(
                    EventRemote {
                        common: CommonResourceRemoteInfo::new(e.class_hash, e.name, e.address),
                    },
                );
                self.add_resource(e.namespace, r)
            },
            WorldEvent::ContractRegistered(e) => {
                let r = ResourceRemote::Contract(
                    ContractRemote {
                        common: CommonResourceRemoteInfo::new(e.class_hash, e.name, e.address),
                        initialized: false,
                    },
                );
                self.add_resource(e.namespace, r)
            },
            WorldEvent::ModelUpgraded(e) => self.upgrade_resource(e.selector, e.class_hash),
            WorldEvent::EventUpgraded(e) => self.upgrade_resource(e.selector, e.class_hash),
            WorldEvent::ContractUpgraded(e) => self.upgrade_resource(e.selector, e.class_hash),
            WorldEvent::ContractInitialized(e) => self.initialize_contract(e.selector),
            WorldEvent::WriterUpdated(e) => self.update_writer(e.resource, e.contract, e.value),
            WorldEvent::OwnerUpdated(e) => self.update_owner(e.resource, e.contract, e.value),
            WorldEvent::Other => Ok(()),
        }
    }

    /// Records that the resource with a selector got a new class.
    pub fn upgrade_resource(&mut self, selector: Felt, class_hash: Felt) -> (result: Result<
        (),
        RemoteError,
    >)
        ensures
            match old(self)@.upgraded(selector, class_hash) {
                Ok(world) => result is Ok && final(self)@ == world,
                Err(error) => result == Err::<(), RemoteError>(error) && final(self)@ == old(
                    self,
                )@,
            },
    {
        let ghost before = self.resources@;
        match self.resources.remove(&selector) {
            Some(resource) => {
                let mut resource = resource;
                resource.push_class_hash(class_hash);
                self.resources.insert(selector, resource);
                proof {
                    lemma_views_insert(before, selector, resource);
                    assert(before.remove(selector).insert(selector, resource) =~= before.insert(
                        selector,
                        resource,
                    ));
                }
                Ok(())
            },
            None => {
                assert(self.resources@ =~= before);
                Err(RemoteError::ResourceNotFound { selector })
            },
        }
    }

    /// Records that the contract with a selector was initialized.
    pub fn initialize_contract(&mut self, selector: Felt) -> (result: Result<(), RemoteError>)
        ensures
            match old(self)@.initialized(selector) {
                Ok(world) => result is Ok && final(self)@ == world,
                Err(error) => result == Err::<(), RemoteError>(error) && final(self)@ == old(
                    self,
                )@,
            },
    {
        let ghost before = self.resources@;
        match self.resources.remove(&selector) {
            Some(resource) => {
                let mut resource = resource;
                let is_contract = resource.set_initialized();
                self.resources.insert(selector, resource);
                proof {
                    lemma_views_insert(before, selector, resource);
                    assert(before.remove(selector).insert(selector, resource) =~= before.insert(
                        selector,
                        resource,
                    ));
                }
                if is_contract {
                    Ok(())
                } else {
                    assert(self@.resources =~= old(self)@.resources);
                    Err(RemoteError::NotAContract { selector })
                }
            },
            None => {
                assert(self.resources@ =~= before);
                Err(RemoteError::ResourceNotFound { selector })
            },
        }
    }

    /// Takes the permissions on a selector out of the state; none where
    /// nothing is recorded.
    fn take_permissions(&mut self, selector: Felt) -> (permissions: Permissions)
        ensures
            permissions@ == old(self)@.permissions_of(selector),
            final(self).permissions@ == old(self).permissions@.remove(selector),
            final(self).class_hashes == old(self).class_hashes,
            final(self).namespaces == old(self).namespaces,
            final(self).resources == old(self).resources,
            final(self).by_namespace == old(self).by_namespace,
    {
        match self.permissions.remove(&selector) {
            Some(permissions) => permissions,
            None => Permissions::new(),
        }
    }

    /// Records a grant (`value` true) or a revocation of the writer
    /// permission of an address on the resource with a selector.
    pub fn update_writer(&mut self, selector: Felt, address: Felt, value: bool) -> (result: Result<
        (),
        RemoteError,
    >)
        ensures
            match old(self)@.with_writer(selector, address, value) {
                Ok(world) => result is Ok && final(self)@ == world,
                Err(error) => result == Err::<(), RemoteError>(error) && final(self)@ == old(
                    self,
                )@,
            },
    {
        let ghost before = self.resources@;
        let ghost permissions_before = self.permissions@;
        match self.resources.remove(&selector) {
            Some(resource) => {
                let mut resource = resource;
                resource.update_writer(address, value);
                self.resources.insert(selector, resource);
                let mut permissions = self.take_permissions(selector);
                permissions.update_writer(address, value);
                self.permissions.insert(selector, permissions);
                proof {
                    lemma_views_insert(before, selector, resource);
                    lemma_views_insert(permissions_before, selector, permissions);
                    assert(before.remove(selector).insert(selector, resource) =~= before.insert(
                        selector,
                        resource,
                    ));
                    assert(permissions_before.remove(selector).insert(selector, permissions)
                        =~= permissions_before.insert(selector, permissions));
                }
                Ok(())
            },
            None => {
                assert(self.resources@ =~= before);
                Err(RemoteError::ResourceNotFound { selector })
            },
        }
    }

    /// Records a grant (`value` true) or a revocation of the owner
    /// permission of an address on the resource with a selector.
    pub fn update_owner(&mut self, selector: Felt, address: Felt, value: bool) -> (result: Result<
        (),
        RemoteError,
    >)
        ensures
            match old(self)@.with_owner(selector, address, value) {
                Ok(world) => result is Ok && final(self)@ == world,
                Err(error) => result == Err::<(), RemoteError>(error) && final(self)@ == old(
                    self,
                )@,
            },
    {
        let ghost before = self.resources@;
        let ghost permissions_before = self.permissions@;
        match self.resources.remove(&selector) {
            Some(resource) => {
                let mut resource = resource;
                resource.update_owner(address, value);
                self.resources.insert(selector, resource);
                let mut permissions = self.take_permissions(selector);
                permissions.update_owner(address, value);
                self.permissions.insert(selector, permissions);
                proof {
                    lemma_views_insert(before, selector, resource);
                    lemma_views_insert(permissions_before, selector, permissions);
                    assert(before.remove(selector).insert(selector, resource) =~= before.insert(
                        selector,
                        resource,
                    ));
                    assert(permissions_before.remove(selector).insert(selector, permissions)
                        =~= permissions_before.insert(selector, permissions));
                }
                Ok(())
            },
            None => {
                assert(self.resources@ =~= before);
                Err(RemoteError::ResourceNotFound { selector })
            },
        }
    }
}

/// The selector that an event refers to without registering it: the
/// resource of an upgrade, of an initialization or of a permission update.
pub open spec fn referred_selector(event: WorldEvent) -> Option<Felt> {
    match event {
        WorldEvent::ModelUpgraded(e) => Some(e.selector),
        WorldEvent::EventUpgraded(e) => Some(e.selector),
        WorldEvent::ContractUpgraded(e) => Some(e.selector),
        WorldEvent::ContractInitialized(e) => Some(e.selector),
        WorldEvent::WriterUpdated(e) => Some(e.resource),
        WorldEvent::OwnerUpdated(e) => Some(e.resource),
        _ => None,
    }
}

/// Replaying the registration of a namespace alone gives a world whose
/// namespaces hold the namespace's selector and whose resource under that
/// selector is the namespace, owned and written by nobody.
pub proof fn law_namespace_registration(event: crate::world::NamespaceRegistered, selector: Felt)
    requires
        crate::naming::bytearray_hash(event.namespace@) == Some(selector),
    ensures
        replay(WorldRemoteView::empty(), seq![Some(WorldEvent::NamespaceRegistered(event))]) is Ok,
        ({
            let world = replay(
                WorldRemoteView::empty(),
                seq![Some(WorldEvent::NamespaceRegistered(event))],
            )->Ok_0;
            &&& world.namespaces.contains(selector)
            &&& world.resources.contains_key(selector)
            &&& world.resources[selector] == (ResourceRemoteView::Namespace {
                name: event.namespace@,
                owners: Set::empty(),
                writers: Set::empty(),
            })
            &&& world.owners(selector) == Set::<Felt>::empty()
            &&& world.writers(selector) == Set::<Felt>::empty()
        }),
{
    let log = seq![Some(WorldEvent::NamespaceRegistered(event))];
    let first = apply_event(WorldRemoteView::empty(), WorldEvent::NamespaceRegistered(event));
    assert(first is Ok);
    assert(log.drop_first().len() == 0);
    assert(replay(first->Ok_0, log.drop_first()) == Ok::<WorldRemoteView, RemoteError>(first->Ok_0));
    assert(replay(WorldRemoteView::empty(), log) == replay(first->Ok_0, log.drop_first()));
}

/// After the registration of a model with a class and an upgrade of its
/// selector to a second class, the history of the model holds the two
/// classes in that order.
pub proof fn law_registration_then_upgrade(
    world: WorldRemoteView,
    registered: crate::world::ModelRegistered,
    upgraded: crate::world::ModelUpgraded,
)
    requires
        crate::naming::selector_from_names(registered.namespace@, registered.name@) == Some(
            upgraded.selector,
        ),
    ensures
        replay(
            world,
            seq![
                Some(WorldEvent::ModelRegistered(registered)),
                Some(WorldEvent::ModelUpgraded(upgraded)),
            ],
        ) is Ok,
        replay(
            world,
            seq![
                Some(WorldEvent::ModelRegistered(registered)),
                Some(WorldEvent::ModelUpgraded(upgraded)),
            ],
        )->Ok_0.resources[upgraded.selector].class_hashes() == seq![
            registered.class_hash,
            upgraded.class_hash,
        ],
{
    let log = seq![
        Some(WorldEvent::ModelRegistered(registered)),
        Some(WorldEvent::ModelUpgraded(upgraded)),
    ];
    let first = apply_event(world, WorldEvent::ModelRegistered(registered));
    assert(first is Ok);
    let second = apply_event(first->Ok_0, WorldEvent::ModelUpgraded(upgraded));
    assert(second is Ok);
    let rest = log.drop_first();
    assert(rest[0] == Some(WorldEvent::ModelUpgraded(upgraded)));
    assert(rest.drop_first().len() == 0);
    assert(replay(second->Ok_0, rest.drop_first()) == Ok::<WorldRemoteView, RemoteError>(
        second->Ok_0,
    ));
    assert(replay(first->Ok_0, rest) == replay(second->Ok_0, rest.drop_first()));
    assert(replay(world, log) == replay(first->Ok_0, rest));
    assert(second->Ok_0.resources[upgraded.selector].class_hashes() =~= seq![
        registered.class_hash,
        upgraded.class_hash,
    ]);
}

/// A permission update that is repeated changes nothing the second time:
/// permissions are sets, not counters.
pub proof fn law_permission_update_idempotent(
    world: WorldRemoteView,
    selector: Felt,
    address: Felt,
    value: bool,
)
    requires
        world.resources.contains_key(selector),
    ensures
        world.with_writer(selector, address, value) is Ok,
        world.with_writer(selector, address, value)->Ok_0.with_writer(selector, address, value)
            == world.with_writer(selector, address, value),
        world.with_owner(selector, address, value) is Ok,
        world.with_owner(selector, address, value)->Ok_0.with_owner(selector, address, value)
            == world.with_owner(selector, address, value),
{
    let written = world.with_writer(selector, address, value)->Ok_0;
    let again = written.with_writer(selector, address, value)->Ok_0;
    assert(with_membership(
        with_membership(world.writers(selector), address, value),
        address,
        value,
    ) =~= with_membership(world.writers(selector), address, value));
    match world.resources[selector] {
        ResourceRemoteView::Namespace { name, owners, writers } => {
            assert(with_membership(with_membership(writers, address, value), address, value)
                =~= with_membership(writers, address, value));
            assert(with_membership(with_membership(owners, address, value), address, value)
                =~= with_membership(owners, address, value));
        },
        _ => {},
    }
    assert(again.resources =~= written.resources);
    assert(again.permissions =~= written.permissions);
    let owned = world.with_owner(selector, address, value)->Ok_0;
    let owned_again = owned.with_owner(selector, address, value)->Ok_0;
    assert(with_membership(
        with_membership(world.owners(selector), address, value),
        address,
        value,
    ) =~= with_membership(world.owners(selector), address, value));
    assert(owned_again.resources =~= owned.resources);
    assert(owned_again.permissions =~= owned.permissions);
}

/// After any number of grants of the writer permission to an address the
/// address is a writer, and the writers are those of before and the
/// address; after a revocation it is none, and the other writers stay.
pub proof fn law_writer_grant_then_revoke(world: WorldRemoteView, selector: Felt, address: Felt)
    requires
        world.resources.contains_key(selector),
    ensures
        world.with_writer(selector, address, true)->Ok_0.writers(selector) == world.writers(
            selector,
        ).insert(address),
        world.with_writer(selector, address, true)->Ok_0.with_writer(
            selector,
            address,
            true,
        )->Ok_0.writers(selector) == world.writers(selector).insert(address),
        world.with_writer(selector, address, true)->Ok_0.with_writer(
            selector,
            address,
            true,
        )->Ok_0.with_writer(selector, address, false)->Ok_0.writers(selector) == world.writers(
            selector,
        ).remove(address),
{
    let once = world.with_writer(selector, address, true)->Ok_0;
    let twice = once.with_writer(selector, address, true)->Ok_0;
    let revoked = twice.with_writer(selector, address, false)->Ok_0;
    assert(twice.writers(selector) =~= world.writers(selector).insert(address));
    assert(revoked.writers(selector) =~= world.writers(selector).remove(address));
}

/// An upgrade, an initialization or a permission update of a selector
/// that was never registered cannot be applied: the log breaks the
/// protocol.
pub proof fn law_unregistered_selector_is_refused(world: WorldRemoteView, event: WorldEvent)
    requires
        referred_selector(event) matches Some(selector) && !world.resources.contains_key(selector),
    ensures
        apply_event(world, event) == Err::<WorldRemoteView, RemoteError>(
            RemoteError::ResourceNotFound { selector: referred_selector(event)->Some_0 },
        ),
{
}

/// A world in which nothing was ever registered refuses every upgrade,
/// initialization and permission update.
pub proof fn law_empty_world_refuses_references(event: WorldEvent)
    requires
        referred_selector(event) is Some,
    ensures
        replay(WorldRemoteView::empty(), seq![Some(event)]) == Err::<WorldRemoteView, RemoteError>(
            RemoteError::ResourceNotFound { selector: referred_selector(event)->Some_0 },
        ),
{
    law_unregistered_selector_is_refused(WorldRemoteView::empty(), event);
}

/// Every event keeps a consistent world consistent.
pub proof fn law_event_keeps_consistency(world: WorldRemoteView, event: WorldEvent)
    requires
        world.consistent(),
        apply_event(world, event) is Ok,
    ensures
        apply_event(world, event)->Ok_0.consistent(),
{
    let next = apply_event(world, event)->Ok_0;
    match event {
        WorldEvent::NamespaceRegistered(e) => {
            let resource = ResourceRemoteView::Namespace {
                name: e.namespace@,
                owners: Set::empty(),
                writers: Set::empty(),
            };
            lemma_registration_keeps_consistency(world, e.namespace@, resource);
        },
        WorldEvent::ModelRegistered(e) => {
            let resource = ResourceRemoteView::Model {
                common: registered(e.name@, e.class_hash, e.address),
            };
            lemma_registration_keeps_consistency(world, e.namespace@, resource);
        },
        WorldEvent::EventRegistered(e) => {
            let resource = ResourceRemoteView::Event {
                common: registered(e.name@, e.class_hash, e.address),
            };
            lemma_registration_keeps_consistency(world, e.namespace@, resource);
        },
        WorldEvent::ContractRegistered(e) => {
            let resource = ResourceRemoteView::Contract {
                common: registered(e.name@, e.class_hash, e.address),
                initialized: false,
            };
            lemma_registration_keeps_consistency(world, e.namespace@, resource);
        },
        WorldEvent::ModelUpgraded(e) => {
            lemma_update_keeps_consistency(world, next, e.selector);
        },
        WorldEvent::EventUpgraded(e) => {
            lemma_update_keeps_consistency(world, next, e.selector);
        },
        WorldEvent::ContractUpgraded(e) => {
            lemma_update_keeps_consistency(world, next, e.selector);
        },
        WorldEvent::ContractInitialized(e) => {
            lemma_update_keeps_consistency(world, next, e.selector);
        },
        WorldEvent::WriterUpdated(e) => {
            lemma_update_keeps_consistency(world, next, e.resource);
        },
        WorldEvent::OwnerUpdated(e) => {
            lemma_update_keeps_consistency(world, next, e.resource);
        },
        _ => {},
    }
}

/// A log can be replayed in pieces: the replay of two logs one after the
/// other is the replay of the second on the world that the first gives,
/// and a fault of the first is the fault of the whole.
pub proof fn law_replay_in_pieces(
    world: WorldRemoteView,
    first: Seq<Option<WorldEvent>>,
    second: Seq<Option<WorldEvent>>,
)
    ensures
        replay(world, first + second) == match replay(world, first) {
            Ok(next) => replay(next, second),
            Err(error) => Err(error),
        },
    decreases first.len(),
{
    if first.len() == 0 {
        assert(first + second =~= second);
    } else {
        assert((first + second).drop_first() =~= first.drop_first() + second);
        assert((first + second)[0] == first[0]);
        match first[0] {
            None => {
                law_replay_in_pieces(world, first.drop_first(), second);
            },
            Some(event) => {
                match apply_event(world, event) {
                    Ok(next) => {
                        law_replay_in_pieces(next, first.drop_first(), second);
                    },
                    Err(_) => {},
                }
            },
        }
    }
}

/// The world that a log describes is consistent, whatever the log.
pub proof fn law_replay_keeps_consistency(world: WorldRemoteView, events: Seq<Option<WorldEvent>>)
    requires
        world.consistent(),
        replay(world, events) is Ok,
    ensures
        replay(world, events)->Ok_0.consistent(),
    decreases events.len(),
{
    if events.len() > 0 {
        match events[0] {
            None => {
                law_replay_keeps_consistency(world, events.drop_first());
            },
            Some(event) => {
                law_event_keeps_consistency(world, event);
                law_replay_keeps_consistency(
                    apply_event(world, event)->Ok_0,
                    events.drop_first(),
                );
            },
        }
    }
}

/// A world of which nothing is known is consistent.
pub proof fn law_empty_world_is_consistent()
    ensures
        WorldRemoteView::empty().consistent(),
{
    assert(WorldRemoteView::empty().permissions.dom() =~= WorldRemoteView::empty().resources.dom());
}

/// A world stays consistent when one registered resource is replaced by
/// one of the same kind that has a class where it needs one, and, for a
/// namespace, records the permissions of its new entry.
proof fn lemma_update_keeps_consistency(
    world: WorldRemoteView,
    next: WorldRemoteView,
    selector: Felt,
)
    requires
        world.consistent(),
        world.resources.contains_key(selector),
        next.class_hashes == world.class_hashes,
        next.namespaces == world.namespaces,
        next.by_namespace == world.by_namespace,
        next.resources.dom() =~= world.resources.dom(),
        next.permissions.dom() =~= world.permissions.dom(),
        forall|other: Felt|
            other != selector && world.resources.contains_key(other) ==> next.resources[other]
                == world.resources[other] && next.permissions[other] == world.permissions[other],
        next.resources[selector].has_class(),
        next.resources[selector] is Namespace ==> next.resources[selector].own_permissions()
            == next.permissions[selector],
    ensures
        next.consistent(),
{
    assert forall|key: Felt| #[trigger] next.resources.contains_key(key) implies {
        &&& next.resources[key].has_class()
        &&& next.resources[key] is Namespace ==> next.resources[key].own_permissions()
            == next.permissions[key]
    } by {
        if key != selector {
            assert(world.resources.contains_key(key));
        }
    }
    assert forall|namespace: Seq<char>, key: Felt|
        next.by_namespace.contains_key(namespace) && #[trigger] next.by_namespace[namespace].selectors().contains(
            key,
        ) implies next.resources.contains_key(key) by {
        assert(world.by_namespace[namespace].selectors().contains(key));
    }
}

/// The registration of a resource that has a class where it needs one
/// keeps a consistent world consistent.
proof fn lemma_registration_keeps_consistency(
    world: WorldRemoteView,
    namespace: Seq<char>,
    resource: ResourceRemoteView,
)
    requires
        world.consistent(),
        resource.has_class(),
        world.with_resource(namespace, resource) is Some,
    ensures
        world.with_resource(namespace, resource)->Some_0.consistent(),
{
    let selector = resource.dojo_selector(namespace)->Some_0;
    let next = world.with_resource(namespace, resource)->Some_0;
    assert(next.permissions.dom() =~= next.resources.dom());
    assert forall|key: Felt| #[trigger] next.resources.contains_key(key) implies {
        &&& next.resources[key].has_class()
        &&& next.resources[key] is Namespace ==> next.resources[key].own_permissions()
            == next.permissions[key]
    } by {
        if key != selector {
            assert(world.resources.contains_key(key));
        }
    }
    assert forall|name: Seq<char>, key: Felt|
        next.by_namespace.contains_key(name) && #[trigger] next.by_namespace[name].selectors().contains(
            key,
        ) implies next.resources.contains_key(key) by {
        if name == namespace && !(resource is Namespace) {
            if key != selector {
                assert(world.by_namespace.contains_key(name));
                assert(world.by_namespace[name].selectors().contains(key));
            }
        } else {
            assert(world.by_namespace[name].selectors().contains(key));
        }
    }
}

} // verus!
