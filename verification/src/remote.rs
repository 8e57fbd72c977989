//! The remote side: what the world's events say of its resources.

use crate::felt::Felt;
use crate::felt_set::{with_membership, with_ordered_membership, FeltSet};
use crate::namespace_index::{NamespaceIndex, NamespaceResourcesView, ResourceType};
use crate::naming::{
    bytearray_hash, compute_bytearray_hash, compute_selector_from_names, selector_from_names,
};
use crate::selector_map::{lemma_views_insert, SelectorMap};
use vstd::prelude::*;

verus! {

/// Who may administer a resource and who may write to it.
#[derive(Debug)]
pub struct Permissions {
    pub owners: FeltSet,
    pub writers: FeltSet,
}

/// The mathematical value of [`Permissions`].
pub struct PermissionsView {
    pub owners: Set<Felt>,
    pub writers: Set<Felt>,
}

impl View for Permissions {
    type V = PermissionsView;

    open spec fn view(&self) -> PermissionsView {
        PermissionsView { owners: self.owners@, writers: self.writers@ }
    }
}

impl PermissionsView {
    /// Nobody owns, nobody writes.
    pub open spec fn empty() -> PermissionsView {
        PermissionsView { owners: Set::empty(), writers: Set::empty() }
    }

    /// After a grant or a revocation of the writer permission.
    pub open spec fn with_writer(self, address: Felt, value: bool) -> PermissionsView {
        PermissionsView { writers: with_membership(self.writers, address, value), ..self }
    }

    /// After a grant or a revocation of the owner permission.
    pub open spec fn with_owner(self, address: Felt, value: bool) -> PermissionsView {
        PermissionsView { owners: with_membership(self.owners, address, value), ..self }
    }
}

impl Permissions {
    /// Permissions that nobody holds.
    pub fn new() -> (permissions: Permissions)
        ensures
            permissions@ == PermissionsView::empty(),
            permissions.owners.elements() == Seq::<Felt>::empty(),
            permissions.writers.elements() == Seq::<Felt>::empty(),
    {
        Permissions { owners: FeltSet::new(), writers: FeltSet::new() }
    }

    /// Grants (`value` true) or revokes the writer permission of an address.
    pub fn update_writer(&mut self, address: Felt, value: bool)
        ensures
            final(self)@ == old(self)@.with_writer(address, value),
            final(self).owners.elements() == old(self).owners.elements(),
            final(self).writers.elements() == with_ordered_membership(
                old(self).writers.elements(),
                address,
                value,
            ),
    {
        self.writers.set_membership(address, value);
    }

    /// Grants (`value` true) or revokes the owner permission of an address.
    pub fn update_owner(&mut self, address: Felt, value: bool)
        ensures
            final(self)@ == old(self)@.with_owner(address, value),
            final(self).writers.elements() == old(self).writers.elements(),
            final(self).owners.elements() == with_ordered_membership(
                old(self).owners.elements(),
                address,
                value,
            ),
    {
        self.owners.set_membership(address, value);
    }
}

impl Clone for Permissions {
    fn clone(&self) -> (copy: Permissions)
        ensures
            copy@ == self@,
            copy.owners.elements() == self.owners.elements(),
            copy.writers.elements() == self.writers.elements(),
    {
        Permissions { owners: self.owners.clone(), writers: self.writers.clone() }
    }
}

/// What a contract, a model and an event have in common on the remote
/// side: a name, an address and the history of their classes, oldest
/// first. The last class hash is the one in force.
#[derive(Debug)]
pub struct CommonResourceRemoteInfo {
    pub class_hashes: Vec<Felt>,
    pub name: String,
    pub address: Felt,
}

/// The mathematical value of [`CommonResourceRemoteInfo`].
pub struct CommonRemoteView {
    pub class_hashes: Seq<Felt>,
    pub name: Seq<char>,
    pub address: Felt,
}

impl View for CommonResourceRemoteInfo {
    type V = CommonRemoteView;

    open spec fn view(&self) -> CommonRemoteView {
        CommonRemoteView {
            class_hashes: self.class_hashes@,
            name: self.name@,
            address: self.address,
        }
    }
}

impl CommonRemoteView {
    /// After an upgrade to a class.
    pub open spec fn upgraded(self, class_hash: Felt) -> CommonRemoteView {
        CommonRemoteView { class_hashes: self.class_hashes.push(class_hash), ..self }
    }

    /// The class in force, if the history holds any.
    pub open spec fn current_class_hash(self) -> Option<Felt> {
        if self.class_hashes.len() > 0 {
            Some(self.class_hashes.last())
        } else {
            None
        }
    }
}

/// A copy of a list of field elements.
pub fn copy_felts(felts: &Vec<Felt>) -> (copy: Vec<Felt>)
    ensures
        copy@ == felts@,
{
    let mut copy: Vec<Felt> = Vec::new();
    let mut index: usize = 0;
    while index < felts.len()
        invariant
            index <= felts.len(),
            copy@ == felts@.subrange(0, index as int),
        decreases felts.len() - index,
    {
        copy.push(felts[index]);
        assert(felts@.subrange(0, index + 1) =~= felts@.subrange(0, index as int).push(
            felts@[index as int],
        ));
        index += 1;
    }
    assert(felts@.subrange(0, index as int) =~= felts@);
    copy
}

impl CommonResourceRemoteInfo {
    /// The information of a resource that was just registered with a class.
    pub fn new(class_hash: Felt, name: String, address: Felt) -> (info:
        CommonResourceRemoteInfo)
        ensures
            info@ == (CommonRemoteView {
                class_hashes: seq![class_hash],
                name: name@,
                address,
            }),
    {
        let mut class_hashes: Vec<Felt> = Vec::new();
        class_hashes.push(class_hash);
        assert(class_hashes@ =~= seq![class_hash]);
        CommonResourceRemoteInfo { class_hashes, name, address }
    }

    /// Records an upgrade: the class becomes the one in force.
    pub fn push_class_hash(&mut self, class_hash: Felt)
        ensures
            final(self)@ == old(self)@.upgraded(class_hash),
    {
        self.class_hashes.push(class_hash);
    }

    /// The class in force, if the history holds any.
    pub fn current_class_hash(&self) -> (class_hash: Option<Felt>)
        ensures
            class_hash == self@.current_class_hash(),
    {
        let len = self.class_hashes.len();
        if len > 0 {
            Some(self.class_hashes[len - 1])
        } else {
            None
        }
    }
}

impl Clone for CommonResourceRemoteInfo {
    fn clone(&self) -> (copy: CommonResourceRemoteInfo)
        ensures
            copy@ == self@,
    {
        CommonResourceRemoteInfo {
            class_hashes: copy_felts(&self.class_hashes),
            name: self.name.clone(),
            address: self.address,
        }
    }
}

/// A contract as the world knows it.
#[derive(Debug)]
pub struct ContractRemote {
    pub common: CommonResourceRemoteInfo,
    /// Whether the contract's initialization has run.
    pub initialized: bool,
}

/// A model as the world knows it.
#[derive(Debug)]
pub struct ModelRemote {
    pub common: CommonResourceRemoteInfo,
}

/// An event type as the world knows it.
#[derive(Debug)]
pub struct EventRemote {
    pub common: CommonResourceRemoteInfo,
}

/// A namespace as the world knows it.
#[derive(Debug)]
pub struct NamespaceRemote {
    pub name: String,
    pub owners: FeltSet,
    pub writers: FeltSet,
}

impl NamespaceRemote {
    /// A namespace that was just registered: nobody owns it, nobody writes to it.
    pub fn new(name: String) -> (namespace: NamespaceRemote)
        ensures
            namespace.name@ == name@,
            namespace.owners@ == Set::<Felt>::empty(),
            namespace.writers@ == Set::<Felt>::empty(),
    {
        NamespaceRemote { name, owners: FeltSet::new(), writers: FeltSet::new() }
    }
}

/// A resource of the world, by kind.
#[derive(Debug)]
pub enum ResourceRemote {
    Namespace(NamespaceRemote),
    Contract(ContractRemote),
    Model(ModelRemote),
    Event(EventRemote),
}

/// The mathematical value of [`ResourceRemote`].
pub enum ResourceRemoteView {
    Namespace { name: Seq<char>, owners: Set<Felt>, writers: Set<Felt> },
    Contract { common: CommonRemoteView, initialized: bool },
    Model { common: CommonRemoteView },
    Event { common: CommonRemoteView },
}

impl View for ResourceRemote {
    type V = ResourceRemoteView;

    open spec fn view(&self) -> ResourceRemoteView {
        match self {
            ResourceRemote::Namespace(namespace) => ResourceRemoteView::Namespace {
                name: namespace.name@,
                owners: namespace.owners@,
                writers: namespace.writers@,
            },
            ResourceRemote::Contract(contract) => ResourceRemoteView::Contract {
                common: contract.common@,
                initialized: contract.initialized,
            },
            ResourceRemote::Model(model) => ResourceRemoteView::Model { common: model.common@ },
            ResourceRemote::Event(event) => ResourceRemoteView::Event { common: event.common@ },
        }
    }
}

impl ResourceRemoteView {
    /// The name of the resource.
    pub open spec fn name(self) -> Seq<char> {
        match self {
            ResourceRemoteView::Namespace { name, .. } => name,
            ResourceRemoteView::Contract { common, .. } => common.name,
            ResourceRemoteView::Model { common } => common.name,
            ResourceRemoteView::Event { common } => common.name,
        }
    }

    /// The history of the resource's classes; a namespace has none.
    pub open spec fn class_hashes(self) -> Seq<Felt> {
        match self {
            ResourceRemoteView::Namespace { .. } => Seq::empty(),
            ResourceRemoteView::Contract { common, .. } => common.class_hashes,
            ResourceRemoteView::Model { common } => common.class_hashes,
            ResourceRemoteView::Event { common } => common.class_hashes,
        }
    }

    /// The class in force, if the resource has one.
    pub open spec fn current_class_hash(self) -> Option<Felt> {
        if self.class_hashes().len() > 0 {
            Some(self.class_hashes().last())
        } else {
            None
        }
    }

    /// After an upgrade to a class. A namespace has no class and stays as it is.
    pub open spec fn upgraded(self, class_hash: Felt) -> ResourceRemoteView {
        match self {
            ResourceRemoteView::Namespace { .. } => self,
            ResourceRemoteView::Contract { common, initialized } => ResourceRemoteView::Contract {
                common: common.upgraded(class_hash),
                initialized,
            },
            ResourceRemoteView::Model { common } => ResourceRemoteView::Model {
                common: common.upgraded(class_hash),
            },
            ResourceRemoteView::Event { common } => ResourceRemoteView::Event {
                common: common.upgraded(class_hash),
            },
        }
    }

    /// A contract after its initialization; any other resource as it is.
    pub open spec fn initialized(self) -> ResourceRemoteView {
        match self {
            ResourceRemoteView::Contract { common, .. } => ResourceRemoteView::Contract {
                common,
                initialized: true,
            },
            _ => self,
        }
    }

    /// After a grant or a revocation of the writer permission. Only a
    /// namespace keeps its writers itself.
    pub open spec fn with_writer(self, address: Felt, value: bool) -> ResourceRemoteView {
        match self {
            ResourceRemoteView::Namespace { name, owners, writers } => ResourceRemoteView::Namespace {
                name,
                owners,
                writers: with_membership(writers, address, value),
            },
            _ => self,
        }
    }

    /// After a grant or a revocation of the owner permission. Only a
    /// namespace keeps its owners itself.
    pub open spec fn with_owner(self, address: Felt, value: bool) -> ResourceRemoteView {
        match self {
            ResourceRemoteView::Namespace { name, owners, writers } => ResourceRemoteView::Namespace {
                name,
                owners: with_membership(owners, address, value),
                writers,
            },
            _ => self,
        }
    }
}

impl ResourceRemote {
    /// Records an upgrade to a class. A namespace has no class and stays as it is.
    pub fn push_class_hash(&mut self, class_hash: Felt)
        ensures
            final(self)@ == old(self)@.upgraded(class_hash),
    {
        match self {
            ResourceRemote::Namespace(_) => {},
            ResourceRemote::Contract(contract) => contract.common.push_class_hash(class_hash),
            ResourceRemote::Model(model) => model.common.push_class_hash(class_hash),
            ResourceRemote::Event(event) => event.common.push_class_hash(class_hash),
        }
    }

    /// The class in force, if the resource has one.
    pub fn current_class_hash(&self) -> (class_hash: Option<Felt>)
        ensures
            class_hash == self@.current_class_hash(),
    {
        match self {
            ResourceRemote::Namespace(_) => None,
            ResourceRemote::Contract(contract) => contract.common.current_class_hash(),
            ResourceRemote::Model(model) => model.common.current_class_hash(),
            ResourceRemote::Event(event) => event.common.current_class_hash(),
        }
    }

    /// Records that a contract was initialized. Returns whether the
    /// resource is a contract; any other resource stays as it is.
    pub fn set_initialized(&mut self) -> (is_contract: bool)
        ensures
            is_contract == (old(self)@ is Contract),
            final(self)@ == old(self)@.initialized(),
    {
        match self {
            ResourceRemote::Contract(contract) => {
                contract.initialized = true;
                true
            },
            _ => false,
        }
    }

    /// Grants (`value` true) or revokes the writer permission on a namespace.
    pub fn update_writer(&mut self, address: Felt, value: bool)
        ensures
            final(self)@ == old(self)@.with_writer(address, value),
    {
        match self {
            ResourceRemote::Namespace(namespace) => namespace.writers.set_membership(address, value),
            _ => {},
        }
    }

    /// Grants (`value` true) or revokes the owner permission on a namespace.
    pub fn update_owner(&mut self, address: Felt, value: bool)
        ensures
            final(self)@ == old(self)@.with_owner(address, value),
    {
        match self {
            ResourceRemote::Namespace(namespace) => namespace.owners.set_membership(address, value),
            _ => {},
        }
    }

    /// The namespace that this resource is.
    pub fn as_namespace_or_panic(&self) -> (namespace: &NamespaceRemote)
        requires
            self is Namespace,
        ensures
            *self == ResourceRemote::Namespace(*namespace),
    {
        match self {
            ResourceRemote::Namespace(namespace) => namespace,
            _ => unreached(),
        }
    }

    /// The contract that this resource is.
    pub fn as_contract_or_panic(&self) -> (contract: &ContractRemote)
        requires
            self is Contract,
        ensures
            *self == ResourceRemote::Contract(*contract),
    {
        match self {
            ResourceRemote::Contract(contract) => contract,
            _ => unreached(),
        }
    }

    /// The model that this resource is.
    pub fn as_model_or_panic(&self) -> (model: &ModelRemote)
        requires
            self is Model,
        ensures
            *self == ResourceRemote::Model(*model),
    {
        match self {
            ResourceRemote::Model(model) => model,
            _ => unreached(),
        }
    }

    /// The event type that this resource is.
    pub fn as_event_or_panic(&self) -> (event: &EventRemote)
        requires
            self is Event,
        ensures
            *self == ResourceRemote::Event(*event),
    {
        match self {
            ResourceRemote::Event(event) => event,
            _ => unreached(),
        }
    }
}

impl Clone for ResourceRemote {
    fn clone(&self) -> (copy: ResourceRemote)
        ensures
            copy@ == self@,
    {
        match self {
            ResourceRemote::Namespace(namespace) => ResourceRemote::Namespace(
                NamespaceRemote {
                    name: namespace.name.clone(),
                    owners: namespace.owners.clone(),
                    writers: namespace.writers.clone(),
                },
            ),
            ResourceRemote::Contract(contract) => ResourceRemote::Contract(
                ContractRemote {
                    common: contract.common.clone(),
                    initialized: contract.initialized,
                },
            ),
            ResourceRemote::Model(model) => ResourceRemote::Model(
                ModelRemote { common: model.common.clone() },
            ),
            ResourceRemote::Event(event) => ResourceRemote::Event(
                EventRemote { common: event.common.clone() },
            ),
        }
    }
}

/// Why an event log cannot be replayed.
#[derive(Clone, Copy, Debug, PartialEq, Eq, Structural)]
pub enum RemoteError {
    /// An event speaks of a selector that no earlier event registered:
    /// the log is not a valid trace of the world.
    ResourceNotFound { selector: Felt },
    /// An initialization event speaks of a resource that is no contract.
    NotAContract { selector: Felt },
    /// A name has no byte-array encoding, so it has no selector.
    InvalidName,
}

impl RemoteError {
    /// Whether the error says that the log breaks the world's protocol.
    pub fn is_invariant_violation(&self) -> (violation: bool)
        ensures
            violation == (self is ResourceNotFound || self is NotAContract),
    {
        match self {
            RemoteError::ResourceNotFound { .. } => true,
            RemoteError::NotAContract { .. } => true,
            RemoteError::InvalidName => false,
        }
    }
}

impl ResourceRemoteView {
    /// The kind of the resource.
    pub open spec fn resource_type(self) -> ResourceType {
        match self {
            ResourceRemoteView::Namespace { .. } => ResourceType::Namespace,
            ResourceRemoteView::Contract { .. } => ResourceType::Contract,
            ResourceRemoteView::Model { .. } => ResourceType::Model,
            ResourceRemoteView::Event { .. } => ResourceType::Event,
        }
    }

    /// The selector of the resource when it lives in `namespace`: for a
    /// namespace the hash of its own name, for any other resource the hash
    /// of the namespace's and the resource's names. `None` where a name
    /// cannot be encoded.
    pub open spec fn dojo_selector(self, namespace: Seq<char>) -> Option<Felt> {
        match self {
            ResourceRemoteView::Namespace { name, .. } => bytearray_hash(name),
            _ => selector_from_names(namespace, self.name()),
        }
    }

    /// The permissions that the resource itself records: those of a
    /// namespace; any other resource starts with none.
    pub open spec fn own_permissions(self) -> PermissionsView {
        match self {
            ResourceRemoteView::Namespace { owners, writers, .. } => PermissionsView {
                owners,
                writers,
            },
            _ => PermissionsView::empty(),
        }
    }

    /// Whether a resource with a class has at least one in its history.
    pub open spec fn has_class(self) -> bool {
        self is Namespace || self.class_hashes().len() > 0
    }
}

impl ResourceRemote {
    /// The kind of the resource.
    pub fn resource_type(&self) -> (kind: ResourceType)
        ensures
            kind == self@.resource_type(),
    {
        match self {
            ResourceRemote::Namespace(_) => ResourceType::Namespace,
            ResourceRemote::Contract(_) => ResourceType::Contract,
            ResourceRemote::Model(_) => ResourceType::Model,
            ResourceRemote::Event(_) => ResourceType::Event,
        }
    }

    /// The selector of the resource when it lives in `namespace`. `None`
    /// where a name cannot be encoded.
    pub fn dojo_selector(&self, namespace: &str) -> (selector: Option<Felt>)
        ensures
            selector == self@.dojo_selector(namespace@),
    {
        match self {
            ResourceRemote::Namespace(own) => compute_bytearray_hash(own.name.as_str()),
            ResourceRemote::Contract(contract) => compute_selector_from_names(
                namespace,
                contract.common.name.as_str(),
            ),
            ResourceRemote::Model(model) => compute_selector_from_names(
                namespace,
                model.common.name.as_str(),
            ),
            ResourceRemote::Event(event) => compute_selector_from_names(
                namespace,
                event.common.name.as_str(),
            ),
        }
    }

    /// The permissions that the resource itself records.
    pub fn own_permissions(&self) -> (permissions: Permissions)
        ensures
            permissions@ == self@.own_permissions(),
    {
        match self {
            ResourceRemote::Namespace(own) => Permissions {
                owners: own.owners.clone(),
                writers: own.writers.clone(),
            },
            _ => Permissions::new(),
        }
    }
}

/// The world as its events describe it.
#[derive(Debug)]
pub struct WorldRemote {
    /// The classes that the world itself has had, oldest first.
    pub class_hashes: Vec<Felt>,
    /// The selectors of the registered namespaces.
    pub namespaces: FeltSet,
    /// Every registered resource, by selector.
    pub resources: SelectorMap<ResourceRemote>,
    /// Owners and writers of every registered resource, by selector.
    pub permissions: SelectorMap<Permissions>,
    /// The selectors of the models, events and contracts of each namespace.
    pub by_namespace: NamespaceIndex,
}

/// The mathematical value of [`WorldRemote`].
pub struct WorldRemoteView {
    pub class_hashes: Seq<Felt>,
    pub namespaces: Set<Felt>,
    pub resources: Map<Felt, ResourceRemoteView>,
    pub permissions: Map<Felt, PermissionsView>,
    pub by_namespace: Map<Seq<char>, NamespaceResourcesView>,
}

impl View for WorldRemote {
    type V = WorldRemoteView;

    open spec fn view(&self) -> WorldRemoteView {
        WorldRemoteView {
            class_hashes: self.class_hashes@,
            namespaces: self.namespaces@,
            resources: self.resources.model(),
            permissions: self.permissions.model(),
            by_namespace: self.by_namespace@,
        }
    }
}

impl WorldRemoteView {
    /// A world of which nothing is known: not deployed, no resource.
    pub open spec fn empty() -> WorldRemoteView {
        WorldRemoteView {
            class_hashes: Seq::empty(),
            namespaces: Set::empty(),
            resources: Map::empty(),
            permissions: Map::empty(),
            by_namespace: Map::empty(),
        }
    }

    /// The permissions on a selector; none where nothing is recorded.
    pub open spec fn permissions_of(self, selector: Felt) -> PermissionsView {
        if self.permissions.contains_key(selector) {
            self.permissions[selector]
        } else {
            PermissionsView::empty()
        }
    }

    /// The writers of a resource.
    pub open spec fn writers(self, selector: Felt) -> Set<Felt> {
        self.permissions_of(selector).writers
    }

    /// The owners of a resource.
    pub open spec fn owners(self, selector: Felt) -> Set<Felt> {
        self.permissions_of(selector).owners
    }

    /// The world after it was deployed with, or upgraded to, a class.
    pub open spec fn with_world_class(self, class_hash: Felt) -> WorldRemoteView {
        WorldRemoteView { class_hashes: self.class_hashes.push(class_hash), ..self }
    }

    /// The world after the registration of a resource under a selector.
    /// The resource takes the place of one that had the selector; its
    /// permission entry starts with what the resource itself records. A
    /// namespace joins the namespaces; any other resource is indexed under
    /// its namespace.
    pub open spec fn with_resource_at(
        self,
        selector: Felt,
        namespace: Seq<char>,
        resource: ResourceRemoteView,
    ) -> WorldRemoteView {
        WorldRemoteView {
            class_hashes: self.class_hashes,
            namespaces: if resource is Namespace {
                self.namespaces.insert(selector)
            } else {
                self.namespaces
            },
            resources: self.resources.insert(selector, resource),
            permissions: self.permissions.insert(selector, resource.own_permissions()),
            by_namespace: if resource is Namespace {
                self.by_namespace
            } else {
                self.by_namespace.insert(
                    namespace,
                    NamespaceIndex::resources_of(self.by_namespace, namespace).with(
                        resource.resource_type(),
                        selector,
                    ),
                )
            },
        }
    }

    /// The world after the registration of a resource in a namespace;
    /// `None` where the resource has no selector.
    pub open spec fn with_resource(self, namespace: Seq<char>, resource: ResourceRemoteView)
        -> Option<WorldRemoteView> {
        match resource.dojo_selector(namespace) {
            Some(selector) => Some(self.with_resource_at(selector, namespace, resource)),
            None => None,
        }
    }

    /// The world after an upgrade of the resource with a selector.
    pub open spec fn upgraded(self, selector: Felt, class_hash: Felt) -> Result<
        WorldRemoteView,
        RemoteError,
    > {
        if self.resources.contains_key(selector) {
            Ok(
                WorldRemoteView {
                    resources: self.resources.insert(
                        selector,
                        self.resources[selector].upgraded(class_hash),
                    ),
                    ..self
                },
            )
        } else {
            Err(RemoteError::ResourceNotFound { selector })
        }
    }

    /// The world after the initialization of the contract with a selector.
    pub open spec fn initialized(self, selector: Felt) -> Result<WorldRemoteView, RemoteError> {
        if !self.resources.contains_key(selector) {
            Err(RemoteError::ResourceNotFound { selector })
        } else if !(self.resources[selector] is Contract) {
            Err(RemoteError::NotAContract { selector })
        } else {
            Ok(
                WorldRemoteView {
                    resources: self.resources.insert(
                        selector,
                        self.resources[selector].initialized(),
                    ),
                    ..self
                },
            )
        }
    }

    /// The world after a grant or a revocation of the writer permission
    /// of an address on the resource with a selector.
    pub open spec fn with_writer(self, selector: Felt, address: Felt, value: bool) -> Result<
        WorldRemoteView,
        RemoteError,
    > {
        if self.resources.contains_key(selector) {
            Ok(
                WorldRemoteView {
                    resources: self.resources.insert(
                        selector,
                        self.resources[selector].with_writer(address, value),
                    ),
                    permissions: self.permissions.insert(
                        selector,
                        self.permissions_of(selector).with_writer(address, value),
                    ),
                    ..self
                },
            )
        } else {
            Err(RemoteError::ResourceNotFound { selector })
        }
    }

    /// The world after a grant or a revocation of the owner permission of
    /// an address on the resource with a selector.
    pub open spec fn with_owner(self, selector: Felt, address: Felt, value: bool) -> Result<
        WorldRemoteView,
        RemoteError,
    > {
        if self.resources.contains_key(selector) {
            Ok(
                WorldRemoteView {
                    resources: self.resources.insert(
                        selector,
                        self.resources[selector].with_owner(address, value),
                    ),
                    permissions: self.permissions.insert(
                        selector,
                        self.permissions_of(selector).with_owner(address, value),
                    ),
                    ..self
                },
            )
        } else {
            Err(RemoteError::ResourceNotFound { selector })
        }
    }

    /// What holds of every world that a log of events describes: the
    /// namespaces and the indexed selectors are registered resources,
    /// every resource has a permission entry and no other selector has
    /// one, a namespace records the permissions that its entry holds, and
    /// every resource with a class has one in force.
    pub open spec fn consistent(self) -> bool {
        &&& self.namespaces.subset_of(self.resources.dom())
        &&& forall|namespace: Seq<char>, selector: Felt|
            #![trigger self.by_namespace[namespace].selectors().contains(selector)]
            self.by_namespace.contains_key(namespace) && self.by_namespace[namespace].selectors().contains(
                selector,
            ) ==> self.resources.contains_key(selector)
        &&& self.permissions.dom() == self.resources.dom()
        &&& forall|selector: Felt| #[trigger]
            self.resources.contains_key(selector) ==> {
                &&& self.resources[selector].has_class()
                &&& self.resources[selector] is Namespace ==> self.resources[selector].own_permissions()
                    == self.permissions[selector]
            }
    }
}

impl Default for WorldRemote {
    fn default() -> (world: WorldRemote)
        ensures
            world@ == WorldRemoteView::empty(),
    {
        let world = WorldRemote {
            class_hashes: Vec::new(),
            namespaces: FeltSet::new(),
            resources: SelectorMap::new(),
            permissions: SelectorMap::new(),
            by_namespace: NamespaceIndex::new(),
        };
        assert(world@.resources =~= Map::empty());
        assert(world@.permissions =~= Map::empty());
        world
    }
}

impl WorldRemote {
    /// Registers a resource in a namespace. The resource takes the place
    /// of one with the same selector. Fails, and changes nothing, where
    /// the resource has no selector.
    pub fn add_resource(&mut self, namespace: String, resource: ResourceRemote) -> (result: Result<
        (),
        RemoteError,
    >)
        ensures
            match old(self)@.with_resource(namespace@, resource@) {
                Some(world) => result is Ok && final(self)@ == world,
                None => result == Err::<(), RemoteError>(RemoteError::InvalidName) && final(self)@
                    == old(self)@,
            },
    {
        match resource.dojo_selector(namespace.as_str()) {
            None => Err(RemoteError::InvalidName),
            Some(selector) => {
                let kind = resource.resource_type();
                let permissions = resource.own_permissions();
                proof {
                    lemma_views_insert(self.resources@, selector, resource);
                    lemma_views_insert(self.permissions@, selector, permissions);
                }
                match kind {
                    ResourceType::Namespace => {
                        self.namespaces.insert(selector);
                    },
                    _ => {
                        self.by_namespace.add(namespace, kind, selector);
                    },
                }
                self.resources.insert(selector, resource);
                self.permissions.insert(selector, permissions);
                Ok(())
            },
        }
    }

    /// The selectors of the models of a namespace, if it has resources.
    pub fn models(&self, namespace: &str) -> (selectors: Option<&FeltSet>)
        ensures
            match selectors {
                Some(selectors) => self@.by_namespace.contains_key(namespace@)
                    && self@.by_namespace[namespace@].models == selectors@,
                None => !self@.by_namespace.contains_key(namespace@),
            },
    {
        match self.by_namespace.get(namespace) {
            Some(resources) => Some(&resources.models),
            None => None,
        }
    }

    /// The selectors of the event types of a namespace, if it has resources.
    pub fn events(&self, namespace: &str) -> (selectors: Option<&FeltSet>)
        ensures
            match selectors {
                Some(selectors) => self@.by_namespace.contains_key(namespace@)
                    && self@.by_namespace[namespace@].events == selectors@,
                None => !self@.by_namespace.contains_key(namespace@),
            },
    {
        match self.by_namespace.get(namespace) {
            Some(resources) => Some(&resources.events),
            None => None,
        }
    }

    /// The selectors of the contracts of a namespace, if it has resources.
    pub fn contracts(&self, namespace: &str) -> (selectors: Option<&FeltSet>)
        ensures
            match selectors {
                Some(selectors) => self@.by_namespace.contains_key(namespace@)
                    && self@.by_namespace[namespace@].contracts == selectors@,
                None => !self@.by_namespace.contains_key(namespace@),
            },
    {
        match self.by_namespace.get(namespace) {
            Some(resources) => Some(&resources.contracts),
            None => None,
        }
    }
}

} // verus!
