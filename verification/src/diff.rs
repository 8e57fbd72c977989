//! The difference between the declared world and the remote one.
//!
//! Every declared resource is classified as created, updated or synced;
//! for every declared resource the owners and writers that only one side
//! has are listed. Resources that only the remote side has are not
//! represented: nothing is ever pruned.

use crate::felt::Felt;
use crate::felt_set::{minus, FeltSet};
use crate::local::{ResourceLocal, ResourceLocalView, WorldLocal};
use crate::namespace_index::ResourceType;
use crate::remote::{Permissions, PermissionsView, ResourceRemote, ResourceRemoteView, WorldRemote};
use crate::selector_map::SelectorMap;
use vstd::prelude::*;

verus! {

/// How far the remote world itself is from the declared one.
#[derive(Clone, Copy, Debug, PartialEq, Eq, Structural)]
pub enum WorldStatus {
    /// No event says that the world was deployed.
    NotDeployed,
    /// The world runs another class than the declared one.
    NewVersion,
    /// The world runs the declared class.
    Synced,
}

/// The status of a world with a history of classes, oldest first, against
/// the declared class.
pub open spec fn world_status(local_class_hash: Felt, remote_class_hashes: Seq<Felt>)
    -> WorldStatus {
    if remote_class_hashes.len() == 0 {
        WorldStatus::NotDeployed
    } else if remote_class_hashes.last() != local_class_hash {
        WorldStatus::NewVersion
    } else {
        WorldStatus::Synced
    }
}

/// The declared class of the world and the status of the remote world
/// against it.
#[derive(Clone, Copy, Debug, PartialEq, Eq, Structural)]
pub struct WorldInfo {
    pub class_hash: Felt,
    pub casm_class_hash: Felt,
    pub status: WorldStatus,
}

/// A declared resource against the remote world.
#[derive(Debug)]
pub enum ResourceDiff {
    /// Declared, and not registered in the world.
    Created(ResourceLocal),
    /// Declared and registered, but the world runs another class for it.
    Updated(ResourceLocal, ResourceRemote),
    /// Declared and registered with the class in force.
    Synced(ResourceLocal, ResourceRemote),
}

/// The mathematical value of [`ResourceDiff`].
pub enum ResourceDiffView {
    Created(ResourceLocalView),
    Updated(ResourceLocalView, ResourceRemoteView),
    Synced(ResourceLocalView, ResourceRemoteView),
}

impl View for ResourceDiff {
    type V = ResourceDiffView;

    open spec fn view(&self) -> ResourceDiffView {
        match self {
            ResourceDiff::Created(local) => ResourceDiffView::Created(local@),
            ResourceDiff::Updated(local, remote) => ResourceDiffView::Updated(local@, remote@),
            ResourceDiff::Synced(local, remote) => ResourceDiffView::Synced(local@, remote@),
        }
    }
}

/// The classification of a declared resource against its remote
/// counterpart, if the world has one: created where it has none, synced
/// where the class in force is the declared one, updated where it is
/// another. A namespace has no class, so a registered namespace is synced.
pub open spec fn classify(local: ResourceLocalView, remote: Option<ResourceRemoteView>)
    -> ResourceDiffView {
    match remote {
        None => ResourceDiffView::Created(local),
        Some(remote) => if remote.current_class_hash() == local.class_hash() {
            ResourceDiffView::Synced(local, remote)
        } else {
            ResourceDiffView::Updated(local, remote)
        },
    }
}

impl ResourceDiffView {
    /// The declared side.
    pub open spec fn local(self) -> ResourceLocalView {
        match self {
            ResourceDiffView::Created(local) => local,
            ResourceDiffView::Updated(local, _) => local,
            ResourceDiffView::Synced(local, _) => local,
        }
    }

    /// The kind of the declared resource.
    pub open spec fn resource_type(self) -> ResourceType {
        self.local().resource_type()
    }
}

impl ResourceDiff {
    /// Classifies a declared resource against its remote counterpart, if
    /// the world has one.
    pub fn compare(local: &ResourceLocal, remote: Option<&ResourceRemote>) -> (diff: ResourceDiff)
        ensures
            diff@ == classify(
                local@,
                match remote {
                    Some(remote) => Some(remote@),
                    None => None,
                },
            ),
    {
        match remote {
            None => ResourceDiff::Created(local.clone()),
            Some(remote) => {
                let same = match (remote.current_class_hash(), local.class_hash()) {
                    (Some(in_force), Some(declared)) => in_force == declared,
                    (None, None) => true,
                    _ => false,
                };
                if same {
                    ResourceDiff::Synced(local.clone(), remote.clone())
                } else {
                    ResourceDiff::Updated(local.clone(), remote.clone())
                }
            },
        }
    }

    /// The declared side.
    pub fn local(&self) -> (local: &ResourceLocal)
        ensures
            local@ == self@.local(),
    {
        match self {
            ResourceDiff::Created(local) => local,
            ResourceDiff::Updated(local, _) => local,
            ResourceDiff::Synced(local, _) => local,
        }
    }

    /// The kind of the declared resource.
    pub fn resource_type(&self) -> (kind: ResourceType)
        ensures
            kind == self@.resource_type(),
    {
        self.local().resource_type()
    }

    /// The namespace of the declared resource.
    pub fn namespace(&self) -> (namespace: &String)
        ensures
            namespace@ == self@.local().namespace(),
    {
        self.local().namespace()
    }

    /// Whether the world has the resource with the declared class.
    pub fn is_synced(&self) -> (synced: bool)
        ensures
            synced == (self@ is Synced),
    {
        match self {
            ResourceDiff::Synced(_, _) => true,
            _ => false,
        }
    }
}

/// The owners and writers of a resource that only one side has.
#[derive(Debug)]
pub struct PermissionDelta {
    pub owners_only_local: FeltSet,
    pub owners_only_remote: FeltSet,
    pub writers_only_local: FeltSet,
    pub writers_only_remote: FeltSet,
}

/// The mathematical value of [`PermissionDelta`].
pub struct PermissionDeltaView {
    pub owners_only_local: Set<Felt>,
    pub owners_only_remote: Set<Felt>,
    pub writers_only_local: Set<Felt>,
    pub writers_only_remote: Set<Felt>,
}

impl View for PermissionDelta {
    type V = PermissionDeltaView;

    open spec fn view(&self) -> PermissionDeltaView {
        PermissionDeltaView {
            owners_only_local: self.owners_only_local@,
            owners_only_remote: self.owners_only_remote@,
            writers_only_local: self.writers_only_local@,
            writers_only_remote: self.writers_only_remote@,
        }
    }
}

impl PermissionDeltaView {
    /// The four set differences between declared and remote permissions.
    pub open spec fn between(local: PermissionsView, remote: PermissionsView)
        -> PermissionDeltaView {
        PermissionDeltaView {
            owners_only_local: local.owners.difference(remote.owners),
            owners_only_remote: remote.owners.difference(local.owners),
            writers_only_local: local.writers.difference(remote.writers),
            writers_only_remote: remote.writers.difference(local.writers),
        }
    }
}

impl PermissionDelta {
    /// The owners and writers that only one of two sides has, each list
    /// in the order of the side that has them.
    pub fn new(local: &Permissions, remote: &Permissions) -> (delta: PermissionDelta)
        ensures
            delta@ == PermissionDeltaView::between(local@, remote@),
            delta.owners_only_local.elements() == minus(local.owners.elements(), remote.owners@),
            delta.owners_only_remote.elements() == minus(remote.owners.elements(), local.owners@),
            delta.writers_only_local.elements() == minus(
                local.writers.elements(),
                remote.writers@,
            ),
            delta.writers_only_remote.elements() == minus(
                remote.writers.elements(),
                local.writers@,
            ),
    {
        PermissionDelta {
            owners_only_local: local.owners.difference(&remote.owners),
            owners_only_remote: remote.owners.difference(&local.owners),
            writers_only_local: local.writers.difference(&remote.writers),
            writers_only_remote: remote.writers.difference(&local.writers),
        }
    }
}

/// The value of a key in a map, if it has one.
pub open spec fn lookup<V>(map: Map<Felt, V>, key: Felt) -> Option<V> {
    if map.contains_key(key) {
        Some(map[key])
    } else {
        None
    }
}

/// The owners that the world records for a selector, in the order in
/// which they came; none where nothing is recorded.
pub open spec fn recorded_owners(remote: &WorldRemote, selector: Felt) -> Seq<Felt> {
    if remote.permissions@.contains_key(selector) {
        remote.permissions@[selector].owners.elements()
    } else {
        Seq::empty()
    }
}

/// The writers that the world records for a selector, in the order in
/// which they came; none where nothing is recorded.
pub open spec fn recorded_writers(remote: &WorldRemote, selector: Felt) -> Seq<Felt> {
    if remote.permissions@.contains_key(selector) {
        remote.permissions@[selector].writers.elements()
    } else {
        Seq::empty()
    }
}

/// The selectors of the declared namespaces.
pub open spec fn declared_namespaces(local: &WorldLocal) -> Set<Felt> {
    Set::new(
        |selector: Felt|
            local.resources@.contains_key(selector) && local.resources@[selector] is Namespace,
    )
}

/// Whether every declared resource, and the world itself, is synced.
pub open spec fn fully_synced(diff: &WorldDiff) -> bool {
    &&& diff.world_info.status is Synced
    &&& forall|i: int| 0 <= i < diff.resources.keys().len() ==> diff.resource_at(i) is Synced
}

/// The difference between a declared world and a remote one.
#[derive(Debug)]
pub struct WorldDiff {
    /// The declared class of the world and the world's status.
    pub world_info: WorldInfo,
    /// The selectors of the namespaces of both sides.
    pub namespaces: FeltSet,
    /// The classification of every declared resource, by selector, in
    /// the order of the declaration.
    pub resources: SelectorMap<ResourceDiff>,
    /// For every declared resource, the owners and writers that only one
    /// side has.
    pub permission_diffs: SelectorMap<PermissionDelta>,
}

impl WorldDiff {
    /// The classification of the declared resource at a position of the
    /// order of the declaration.
    pub open spec fn resource_at(&self, index: int) -> ResourceDiffView {
        self.resources@[self.resources.keys()[index]]@
    }

    /// Compares a declared world with a remote one. Nothing is changed on
    /// either side, and the same two worlds give the same difference.
    pub fn new(local: &WorldLocal, remote: &WorldRemote) -> (diff: WorldDiff)
        ensures
            diff.world_info == (WorldInfo {
                class_hash: local.class_hash,
                casm_class_hash: local.casm_class_hash,
                status: world_status(local.class_hash, remote@.class_hashes),
            }),
            diff.namespaces@ == remote@.namespaces.union(declared_namespaces(local)),
            diff.resources.keys() == local.resources.keys(),
            diff.permission_diffs.keys() == local.resources.keys(),
            forall|selector: Felt| #[trigger]
                local.resources@.contains_key(selector) ==> {
                    &&& diff.resources@.contains_key(selector)
                    &&& diff.resources@[selector]@ == classify(
                        local.resources@[selector]@,
                        lookup(remote@.resources, selector),
                    )
                    &&& diff.permission_diffs@.contains_key(selector)
                    &&& diff.permission_diffs@[selector]@ == PermissionDeltaView::between(
                        local.permissions_of(selector),
                        remote@.permissions_of(selector),
                    )
                    &&& diff.permission_diffs@[selector].owners_only_local.elements() == minus(
                        local.declared_owners(selector),
                        remote@.owners(selector),
                    )
                    &&& diff.permission_diffs@[selector].writers_only_local.elements() == minus(
                        local.declared_writers(selector),
                        remote@.writers(selector),
                    )
                    &&& diff.permission_diffs@[selector].owners_only_remote.elements() == minus(
                        recorded_owners(remote, selector),
                        local.permissions_of(selector).owners,
                    )
                    &&& diff.permission_diffs@[selector].writers_only_remote.elements() == minus(
                        recorded_writers(remote, selector),
                        local.permissions_of(selector).writers,
                    )
                },
    {
        let status = Self::status_of(local.class_hash, &remote.class_hashes);
        let world_info = WorldInfo {
            class_hash: local.class_hash,
            casm_class_hash: local.casm_class_hash,
            status,
        };
        let mut namespaces = remote.namespaces.clone();
        let mut resources: SelectorMap<ResourceDiff> = SelectorMap::new();
        let mut permission_diffs: SelectorMap<PermissionDelta> = SelectorMap::new();
        let nobody = Permissions::new();
        let count = local.resources.len();
        let ghost keys = local.resources.keys();
        let ghost locals = local.resources.values();
        let mut index: usize = 0;
        while index < count
            invariant
                index <= count,
                count == keys.len(),
                count == locals.len(),
                keys == local.resources.keys(),
                locals == local.resources.values(),
                keys.no_duplicates(),
                local.resources@.dom() == keys.to_set(),
                forall|i: int|
                    0 <= i < count ==> local.resources@.contains_key(#[trigger] keys[i])
                        && local.resources@[keys[i]] == locals[i],
                nobody@ == PermissionsView::empty(),
                nobody.owners.elements() == Seq::<Felt>::empty(),
                nobody.writers.elements() == Seq::<Felt>::empty(),
                namespaces@ == remote@.namespaces.union(
                    Set::new(
                        |selector: Felt|
                            exists|i: int|
                                0 <= i < index && keys[i] == selector && locals[i] is Namespace,
                    ),
                ),
                resources.keys() == keys.subrange(0, index as int),
                permission_diffs.keys() == keys.subrange(0, index as int),
                forall|i: int|
                    0 <= i < index ==> {
                        let selector = #[trigger] keys[i];
                        &&& resources@.contains_key(selector)
                        &&& resources@[selector]@ == classify(
                            locals[i]@,
                            lookup(remote@.resources, selector),
                        )
                        &&& permission_diffs@.contains_key(selector)
                        &&& permission_diffs@[selector]@ == PermissionDeltaView::between(
                            local.permissions_of(selector),
                            remote@.permissions_of(selector),
                        )
                        &&& permission_diffs@[selector].owners_only_local.elements() == minus(
                            local.declared_owners(selector),
                            remote@.owners(selector),
                        )
                        &&& permission_diffs@[selector].writers_only_local.elements() == minus(
                            local.declared_writers(selector),
                            remote@.writers(selector),
                        )
                        &&& permission_diffs@[selector].owners_only_remote.elements() == minus(
                            recorded_owners(remote, selector),
                            local.permissions_of(selector).owners,
                        )
                        &&& permission_diffs@[selector].writers_only_remote.elements() == minus(
                            recorded_writers(remote, selector),
                            local.permissions_of(selector).writers,
                        )
                    },
            decreases count - index,
        {
            let selector = local.resources.key_at(index);
            let declared = local.resources.value_at(index);
            let ghost resources_before = resources@;
            let ghost deltas_before = permission_diffs@;
            resources.len();
            permission_diffs.len();
            assert(!keys.subrange(0, index as int).contains(selector)) by {
                if keys.subrange(0, index as int).contains(selector) {
                    let j = choose|j: int|
                        0 <= j < index && keys.subrange(0, index as int)[j] == selector;
                    assert(keys[j] == keys[index as int]);
                }
            }
            assert(!resources_before.contains_key(selector));
            assert(!deltas_before.contains_key(selector));

            if let ResourceLocal::Namespace(_) = declared {
                namespaces.insert(selector);
            }
            assert(namespaces@ == remote@.namespaces.union(
                Set::new(
                    |selector: Felt|
                        exists|i: int|
                            0 <= i < index + 1 && keys[i] == selector && locals[i] is Namespace,
                ),
            )) by {
                let before = Set::new(
                    |selector: Felt|
                        exists|i: int|
                            0 <= i < index && keys[i] == selector && locals[i] is Namespace,
                );
                let after = Set::new(
                    |selector: Felt|
                        exists|i: int|
                            0 <= i < index + 1 && keys[i] == selector && locals[i] is Namespace,
                );
                assert forall|s: Felt| after.contains(s) <==> (before.contains(s) || (s
                    == selector && locals[index as int] is Namespace)) by {
                    if before.contains(s) {
                        let i = choose|i: int|
                            0 <= i < index && keys[i] == s && locals[i] is Namespace;
                        assert(0 <= i < index + 1 && keys[i] == s && locals[i] is Namespace);
                    }
                    if s == selector && locals[index as int] is Namespace {
                        assert(0 <= index < index + 1 && keys[index as int] == s
                            && locals[index as int] is Namespace);
                    }
                    if after.contains(s) {
                        let i = choose|i: int|
                            0 <= i < index + 1 && keys[i] == s && locals[i] is Namespace;
                        if i < index {
                            assert(before.contains(s));
                        }
                    }
                }
                assert(namespaces@ =~= remote@.namespaces.union(after));
            }

            let counterpart = remote.resources.get(&selector);
            let diff = ResourceDiff::compare(declared, counterpart);
            let declared_permissions = match local.permissions.get(&selector) {
                Some(permissions) => permissions,
                None => &nobody,
            };
            let recorded_permissions = match remote.permissions.get(&selector) {
                Some(permissions) => permissions,
                None => &nobody,
            };
            let delta = PermissionDelta::new(declared_permissions, recorded_permissions);
            resources.insert(selector, diff);
            permission_diffs.insert(selector, delta);
            proof {
                assert(keys.subrange(0, index + 1) =~= keys.subrange(0, index as int).push(
                    selector,
                ));
                assert forall|i: int| 0 <= i < index implies keys[i] != selector by {
                    assert(keys[i] != keys[index as int]);
                }
            }
            index += 1;
        }
        proof {
            assert(keys.subrange(0, count as int) =~= keys);
            assert(namespaces@ =~= remote@.namespaces.union(declared_namespaces(local))) by {
                let found = Set::new(
                    |selector: Felt|
                        exists|i: int|
                            0 <= i < count && keys[i] == selector && locals[i] is Namespace,
                );
                assert forall|s: Felt| found.contains(s) <==> declared_namespaces(local).contains(
                    s,
                ) by {
                    if found.contains(s) {
                        let i = choose|i: int|
                            0 <= i < count && keys[i] == s && locals[i] is Namespace;
                        assert(local.resources@.contains_key(keys[i]));
                    }
                    if declared_namespaces(local).contains(s) {
                        assert(keys.to_set().contains(s));
                        let i = choose|i: int| 0 <= i < keys.len() && keys[i] == s;
                        assert(local.resources@.contains_key(keys[i]));
                        assert(0 <= i < count && keys[i] == s && locals[i] is Namespace);
                    }
                }
                assert(found =~= declared_namespaces(local));
            }
            assert forall|selector: Felt| #[trigger]
                local.resources@.contains_key(selector) implies {
                &&& resources@.contains_key(selector)
                &&& resources@[selector]@ == classify(
                    local.resources@[selector]@,
                    lookup(remote@.resources, selector),
                )
                &&& permission_diffs@.contains_key(selector)
                &&& permission_diffs@[selector]@ == PermissionDeltaView::between(
                    local.permissions_of(selector),
                    remote@.permissions_of(selector),
                )
                &&& permission_diffs@[selector].owners_only_local.elements() == minus(
                    local.declared_owners(selector),
                    remote@.owners(selector),
                )
                &&& permission_diffs@[selector].writers_only_local.elements() == minus(
                    local.declared_writers(selector),
                    remote@.writers(selector),
                )
                &&& permission_diffs@[selector].owners_only_remote.elements() == minus(
                    recorded_owners(remote, selector),
                    local.permissions_of(selector).owners,
                )
                &&& permission_diffs@[selector].writers_only_remote.elements() == minus(
                    recorded_writers(remote, selector),
                    local.permissions_of(selector).writers,
                )
            } by {
                assert(keys.to_set().contains(selector));
                let i = choose|i: int| 0 <= i < keys.len() && keys[i] == selector;
                assert(local.resources@.contains_key(keys[i]));
            }
        }
        WorldDiff { world_info, namespaces, resources, permission_diffs }
    }

    /// Whether the world and every declared resource are synced.
    pub fn is_synced(&self) -> (synced: bool)
        ensures
            synced == fully_synced(self),
    {
        if self.world_info.status != WorldStatus::Synced {
            return false;
        }
        let count = self.resources.len();
        let mut index: usize = 0;
        while index < count
            invariant
                index <= count,
                count == self.resources.keys().len(),
                count == self.resources.values().len(),
                forall|i: int| 0 <= i < index ==> self.resource_at(i) is Synced,
            decreases count - index,
        {
            if !self.resources.value_at(index).is_synced() {
                assert(!(self.resource_at(index as int) is Synced));
                return false;
            }
            index += 1;
        }
        true
    }

    /// The status of a world with a history of classes against the
    /// declared class.
    pub fn status_of(local_class_hash: Felt, remote_class_hashes: &Vec<Felt>) -> (status:
        WorldStatus)
        ensures
            status == world_status(local_class_hash, remote_class_hashes@),
    {
        let len = remote_class_hashes.len();
        if len == 0 {
            WorldStatus::NotDeployed
        } else if remote_class_hashes[len - 1] != local_class_hash {
            WorldStatus::NewVersion
        } else {
            WorldStatus::Synced
        }
    }
}

/// A declared resource that the world does not have is created; one
/// whose class in force is the declared class is synced; one whose class
/// in force is another is updated.
pub proof fn law_classification(local: ResourceLocalView, remote: ResourceRemoteView)
    ensures
        classify(local, None) == ResourceDiffView::Created(local),
        remote.current_class_hash() == local.class_hash() ==> classify(local, Some(remote))
            == ResourceDiffView::Synced(local, remote),
        remote.current_class_hash() != local.class_hash() ==> classify(local, Some(remote))
            == ResourceDiffView::Updated(local, remote),
{
}

/// The permission delta is made of true set differences: an address is
/// on a side's list exactly when that side has it and the other has not.
pub proof fn law_permission_delta(local: PermissionsView, remote: PermissionsView, address: Felt)
    ensures
        PermissionDeltaView::between(local, remote).owners_only_local.contains(address) <==> (
        local.owners.contains(address) && !remote.owners.contains(address)),
        PermissionDeltaView::between(local, remote).owners_only_remote.contains(address) <==> (
        remote.owners.contains(address) && !local.owners.contains(address)),
        PermissionDeltaView::between(local, remote).writers_only_local.contains(address) <==> (
        local.writers.contains(address) && !remote.writers.contains(address)),
        PermissionDeltaView::between(local, remote).writers_only_remote.contains(address) <==> (
        remote.writers.contains(address) && !local.writers.contains(address)),
{
}

/// Where both sides hold the same permissions, no side has anything alone.
pub proof fn law_equal_permissions_have_no_delta(permissions: PermissionsView)
    ensures
        PermissionDeltaView::between(permissions, permissions) == (PermissionDeltaView {
            owners_only_local: Set::empty(),
            owners_only_remote: Set::empty(),
            writers_only_local: Set::empty(),
            writers_only_remote: Set::empty(),
        }),
{
    let delta = PermissionDeltaView::between(permissions, permissions);
    assert(delta.owners_only_local =~= Set::empty());
    assert(delta.owners_only_remote =~= Set::empty());
    assert(delta.writers_only_local =~= Set::empty());
    assert(delta.writers_only_remote =~= Set::empty());
}

} // verus!
