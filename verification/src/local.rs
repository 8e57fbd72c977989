//! The local side: the world as it is declared and wished for.

use crate::felt::Felt;
use crate::felt_set::with_ordered_membership;
use crate::namespace_index::ResourceType;
use crate::naming::{
    bytearray_hash, compute_bytearray_hash, compute_selector_from_names, selector_from_names,
};
use crate::remote::{Permissions, PermissionsView};
use crate::selector_map::{lemma_views_insert, SelectorMap};
use vstd::prelude::*;

verus! {

/// What a contract, a model and an event type have in common on the
/// local side.
#[derive(Debug)]
pub struct CommonLocalInfo {
    pub name: String,
    pub namespace: String,
    /// The hash of the class that the world runs for the resource: the
    /// one that a registration or an upgrade names.
    pub class_hash: Felt,
    /// The hash of the compiled class, under which the class artifact is
    /// declared.
    pub casm_class_hash: Felt,
}

/// The mathematical value of [`CommonLocalInfo`].
pub struct CommonLocalView {
    pub name: Seq<char>,
    pub namespace: Seq<char>,
    pub class_hash: Felt,
    pub casm_class_hash: Felt,
}

impl View for CommonLocalInfo {
    type V = CommonLocalView;

    open spec fn view(&self) -> CommonLocalView {
        CommonLocalView {
            name: self.name@,
            namespace: self.namespace@,
            class_hash: self.class_hash,
            casm_class_hash: self.casm_class_hash,
        }
    }
}

impl Clone for CommonLocalInfo {
    fn clone(&self) -> (copy: CommonLocalInfo)
        ensures
            copy@ == self@,
    {
        CommonLocalInfo {
            name: self.name.clone(),
            namespace: self.namespace.clone(),
            class_hash: self.class_hash,
            casm_class_hash: self.casm_class_hash,
        }
    }
}

/// A declared contract, with the literals of its initialization arguments.
#[derive(Debug)]
pub struct ContractLocal {
    pub common: CommonLocalInfo,
    pub init_call_args: Vec<String>,
}

/// A declared model.
#[derive(Debug)]
pub struct ModelLocal {
    pub common: CommonLocalInfo,
}

/// A declared event type.
#[derive(Debug)]
pub struct EventLocal {
    pub common: CommonLocalInfo,
}

/// A declared namespace.
#[derive(Debug)]
pub struct NamespaceLocal {
    pub name: String,
}

/// A declared resource, by kind.
#[derive(Debug)]
pub enum ResourceLocal {
    Namespace(NamespaceLocal),
    Contract(ContractLocal),
    Model(ModelLocal),
    Event(EventLocal),
}

/// The mathematical value of [`ResourceLocal`].
pub enum ResourceLocalView {
    Namespace { name: Seq<char> },
    Contract { common: CommonLocalView, init_call_args: Seq<Seq<char>> },
    Model { common: CommonLocalView },
    Event { common: CommonLocalView },
}

/// The texts of a list of strings.
pub open spec fn string_views(strings: Seq<String>) -> Seq<Seq<char>> {
    strings.map_values(|s: String| s@)
}

/// A copy of a list of strings.
pub fn copy_strings(strings: &Vec<String>) -> (copy: Vec<String>)
    ensures
        string_views(copy@) == string_views(strings@),
{
    let mut copy: Vec<String> = Vec::new();
    let mut index: usize = 0;
    while index < strings.len()
        invariant
            index <= strings.len(),
            copy@.len() == index,
            string_views(copy@) == string_views(strings@.subrange(0, index as int)),
        decreases strings.len() - index,
    {
        let ghost before = copy@;
        let item = strings[index].clone();
        copy.push(item);
        assert(string_views(copy@) =~= string_views(strings@.subrange(0, index + 1))) by {
            assert(string_views(before) == string_views(strings@.subrange(0, index as int)));
            assert forall|i: int| 0 <= i < copy@.len() implies string_views(copy@)[i]
                == string_views(strings@.subrange(0, index + 1))[i] by {
                if i < index {
                    assert(string_views(before)[i] == string_views(
                        strings@.subrange(0, index as int),
                    )[i]);
                }
            }
        }
        index += 1;
    }
    assert(strings@.subrange(0, index as int) =~= strings@);
    copy
}

impl View for ResourceLocal {
    type V = ResourceLocalView;

    open spec fn view(&self) -> ResourceLocalView {
        match self {
            ResourceLocal::Namespace(namespace) => ResourceLocalView::Namespace {
                name: namespace.name@,
            },
            ResourceLocal::Contract(contract) => ResourceLocalView::Contract {
                common: contract.common@,
                init_call_args: string_views(contract.init_call_args@),
            },
            ResourceLocal::Model(model) => ResourceLocalView::Model { common: model.common@ },
            ResourceLocal::Event(event) => ResourceLocalView::Event { common: event.common@ },
        }
    }
}

impl ResourceLocalView {
    /// The kind of the resource.
    pub open spec fn resource_type(self) -> ResourceType {
        match self {
            ResourceLocalView::Namespace { .. } => ResourceType::Namespace,
            ResourceLocalView::Contract { .. } => ResourceType::Contract,
            ResourceLocalView::Model { .. } => ResourceType::Model,
            ResourceLocalView::Event { .. } => ResourceType::Event,
        }
    }

    /// The name of the resource.
    pub open spec fn name(self) -> Seq<char> {
        match self {
            ResourceLocalView::Namespace { name } => name,
            ResourceLocalView::Contract { common, .. } => common.name,
            ResourceLocalView::Model { common } => common.name,
            ResourceLocalView::Event { common } => common.name,
        }
    }

    /// The namespace of the resource; a namespace is its own.
    pub open spec fn namespace(self) -> Seq<char> {
        match self {
            ResourceLocalView::Namespace { name } => name,
            ResourceLocalView::Contract { common, .. } => common.namespace,
            ResourceLocalView::Model { common } => common.namespace,
            ResourceLocalView::Event { common } => common.namespace,
        }
    }

    /// The literals of the initialization arguments; only a contract has any.
    pub open spec fn init_call_args(self) -> Seq<Seq<char>> {
        match self {
            ResourceLocalView::Contract { init_call_args, .. } => init_call_args,
            _ => Seq::empty(),
        }
    }

    /// The hash of the compiled class; a namespace has none.
    pub open spec fn casm_class_hash(self) -> Option<Felt> {
        match self {
            ResourceLocalView::Namespace { .. } => None,
            ResourceLocalView::Contract { common, .. } => Some(common.casm_class_hash),
            ResourceLocalView::Model { common } => Some(common.casm_class_hash),
            ResourceLocalView::Event { common } => Some(common.casm_class_hash),
        }
    }

    /// The class that the resource is meant to run; a namespace has none.
    pub open spec fn class_hash(self) -> Option<Felt> {
        match self {
            ResourceLocalView::Namespace { .. } => None,
            ResourceLocalView::Contract { common, .. } => Some(common.class_hash),
            ResourceLocalView::Model { common } => Some(common.class_hash),
            ResourceLocalView::Event { common } => Some(common.class_hash),
        }
    }

    /// The selector of the resource: for a namespace the hash of its
    /// name, for any other resource the hash of its namespace's and its
    /// own names. `None` where a name cannot be encoded.
    pub open spec fn dojo_selector(self) -> Option<Felt> {
        match self {
            ResourceLocalView::Namespace { name } => bytearray_hash(name),
            _ => selector_from_names(self.namespace(), self.name()),
        }
    }
}

impl ResourceLocal {
    /// The kind of the resource.
    pub fn resource_type(&self) -> (kind: ResourceType)
        ensures
            kind == self@.resource_type(),
    {
        match self {
            ResourceLocal::Namespace(_) => ResourceType::Namespace,
            ResourceLocal::Contract(_) => ResourceType::Contract,
            ResourceLocal::Model(_) => ResourceType::Model,
            ResourceLocal::Event(_) => ResourceType::Event,
        }
    }

    /// The name of the resource.
    pub fn name(&self) -> (name: &String)
        ensures
            name@ == self@.name(),
    {
        match self {
            ResourceLocal::Namespace(namespace) => &namespace.name,
            ResourceLocal::Contract(contract) => &contract.common.name,
            ResourceLocal::Model(model) => &model.common.name,
            ResourceLocal::Event(event) => &event.common.name,
        }
    }

    /// The namespace of the resource; a namespace is its own.
    pub fn namespace(&self) -> (namespace: &String)
        ensures
            namespace@ == self@.namespace(),
    {
        match self {
            ResourceLocal::Namespace(namespace) => &namespace.name,
            ResourceLocal::Contract(contract) => &contract.common.namespace,
            ResourceLocal::Model(model) => &model.common.namespace,
            ResourceLocal::Event(event) => &event.common.namespace,
        }
    }

    /// The class that the resource is meant to run; a namespace has none.
    pub fn class_hash(&self) -> (class_hash: Option<Felt>)
        ensures
            class_hash == self@.class_hash(),
    {
        match self {
            ResourceLocal::Namespace(_) => None,
            ResourceLocal::Contract(contract) => Some(contract.common.class_hash),
            ResourceLocal::Model(model) => Some(model.common.class_hash),
            ResourceLocal::Event(event) => Some(event.common.class_hash),
        }
    }

    /// The hash of the compiled class; a namespace has none.
    pub fn casm_class_hash(&self) -> (casm_class_hash: Option<Felt>)
        ensures
            casm_class_hash == self@.casm_class_hash(),
    {
        match self {
            ResourceLocal::Namespace(_) => None,
            ResourceLocal::Contract(contract) => Some(contract.common.casm_class_hash),
            ResourceLocal::Model(model) => Some(model.common.casm_class_hash),
            ResourceLocal::Event(event) => Some(event.common.casm_class_hash),
        }
    }

    /// The selector of the resource. `None` where a name cannot be encoded.
    pub fn dojo_selector(&self) -> (selector: Option<Felt>)
        ensures
            selector == self@.dojo_selector(),
    {
        match self {
            ResourceLocal::Namespace(namespace) => compute_bytearray_hash(namespace.name.as_str()),
            _ => compute_selector_from_names(self.namespace().as_str(), self.name().as_str()),
        }
    }
}

impl Clone for ResourceLocal {
    fn clone(&self) -> (copy: ResourceLocal)
        ensures
            copy@ == self@,
    {
        match self {
            ResourceLocal::Namespace(namespace) => ResourceLocal::Namespace(
                NamespaceLocal { name: namespace.name.clone() },
            ),
            ResourceLocal::Contract(contract) => ResourceLocal::Contract(
                ContractLocal {
                    common: contract.common.clone(),
                    init_call_args: copy_strings(&contract.init_call_args),
                },
            ),
            ResourceLocal::Model(model) => ResourceLocal::Model(
                ModelLocal { common: model.common.clone() },
            ),
            ResourceLocal::Event(event) => ResourceLocal::Event(
                EventLocal { common: event.common.clone() },
            ),
        }
    }
}

/// The declared world: its own class, its resources by selector, and the
/// owners and writers that are declared for them.
#[derive(Debug)]
pub struct WorldLocal {
    /// The hash of the class that the world itself is meant to run.
    pub class_hash: Felt,
    /// The hash of the world's compiled class.
    pub casm_class_hash: Felt,
    /// The declared resources, by selector.
    pub resources: SelectorMap<ResourceLocal>,
    /// The declared owners and writers, by the selector of the resource.
    pub permissions: SelectorMap<Permissions>,
}

impl WorldLocal {
    /// The owners and writers declared for a selector; none where
    /// nothing is declared.
    pub open spec fn permissions_of(&self, selector: Felt) -> PermissionsView {
        if self.permissions@.contains_key(selector) {
            self.permissions@[selector]@
        } else {
            PermissionsView::empty()
        }
    }

    /// The owners declared for a selector, in the order of their
    /// declaration; none where nothing is declared.
    pub open spec fn declared_owners(&self, selector: Felt) -> Seq<Felt> {
        if self.permissions@.contains_key(selector) {
            self.permissions@[selector].owners.elements()
        } else {
            Seq::empty()
        }
    }

    /// The writers declared for a selector, in the order of their
    /// declaration; none where nothing is declared.
    pub open spec fn declared_writers(&self, selector: Felt) -> Seq<Felt> {
        if self.permissions@.contains_key(selector) {
            self.permissions@[selector].writers.elements()
        } else {
            Seq::empty()
        }
    }

    /// A declaration of a world with a class and nothing in it.
    pub fn new(class_hash: Felt, casm_class_hash: Felt) -> (world: WorldLocal)
        ensures
            world.class_hash == class_hash,
            world.casm_class_hash == casm_class_hash,
            world.resources.keys() == Seq::<Felt>::empty(),
            world.resources@ == Map::<Felt, ResourceLocal>::empty(),
            world.permissions@ == Map::<Felt, Permissions>::empty(),
            forall|selector: Felt| #[trigger]
                world.declared_owners(selector) == Seq::<Felt>::empty()
                    && world.declared_writers(selector) == Seq::<Felt>::empty(),
    {
        WorldLocal {
            class_hash,
            casm_class_hash,
            resources: SelectorMap::new(),
            permissions: SelectorMap::new(),
        }
    }

    /// Declares a resource under its selector and returns the selector.
    /// A resource declared again under the same selector takes the place
    /// of the first. `None`, and nothing changed, where a name of the
    /// resource cannot be encoded.
    pub fn add_resource(&mut self, resource: ResourceLocal) -> (selector: Option<Felt>)
        ensures
            selector == resource@.dojo_selector(),
            final(self).class_hash == old(self).class_hash,
            final(self).casm_class_hash == old(self).casm_class_hash,
            final(self).permissions == old(self).permissions,
            match selector {
                Some(selector) => {
                    &&& final(self).resources@.contains_key(selector)
                    &&& final(self).resources.model() == old(self).resources.model().insert(
                        selector,
                        resource@,
                    )
                    &&& final(self).resources.keys() == if old(self).resources@.contains_key(
                        selector,
                    ) {
                        old(self).resources.keys()
                    } else {
                        old(self).resources.keys().push(selector)
                    }
                },
                None => final(self).resources == old(self).resources,
            },
    {
        match resource.dojo_selector() {
            Some(selector) => {
                proof {
                    lemma_views_insert(self.resources@, selector, resource);
                }
                self.resources.insert(selector, resource);
                Some(selector)
            },
            None => None,
        }
    }

    /// Declares that an address owns the resource with a selector.
    pub fn add_owner(&mut self, selector: Felt, address: Felt)
        ensures
            final(self).permissions_of(selector) == old(self).permissions_of(selector).with_owner(
                address,
                true,
            ),
            final(self).declared_owners(selector) == with_ordered_membership(
                old(self).declared_owners(selector),
                address,
                true,
            ),
            final(self).declared_writers(selector) == old(self).declared_writers(selector),
            forall|other: Felt|
                other != selector ==> {
                    &&& final(self).permissions_of(other) == old(self).permissions_of(other)
                    &&& final(self).declared_owners(other) == old(self).declared_owners(other)
                    &&& final(self).declared_writers(other) == old(self).declared_writers(other)
                },
            final(self).class_hash == old(self).class_hash,
            final(self).casm_class_hash == old(self).casm_class_hash,
            final(self).resources == old(self).resources,
    {
        let mut permissions = match self.permissions.remove(&selector) {
            Some(permissions) => permissions,
            None => Permissions::new(),
        };
        permissions.update_owner(address, true);
        self.permissions.insert(selector, permissions);
    }

    /// Declares that an address writes to the resource with a selector.
    pub fn add_writer(&mut self, selector: Felt, address: Felt)
        ensures
            final(self).permissions_of(selector) == old(self).permissions_of(selector).with_writer(
                address,
                true,
            ),
            final(self).declared_writers(selector) == with_ordered_membership(
                old(self).declared_writers(selector),
                address,
                true,
            ),
            final(self).declared_owners(selector) == old(self).declared_owners(selector),
            forall|other: Felt|
                other != selector ==> {
                    &&& final(self).permissions_of(other) == old(self).permissions_of(other)
                    &&& final(self).declared_owners(other) == old(self).declared_owners(other)
                    &&& final(self).declared_writers(other) == old(self).declared_writers(other)
                },
            final(self).class_hash == old(self).class_hash,
            final(self).casm_class_hash == old(self).casm_class_hash,
            final(self).resources == old(self).resources,
    {
        let mut permissions = match self.permissions.remove(&selector) {
            Some(permissions) => permissions,
            None => Permissions::new(),
        };
        permissions.update_writer(address, true);
        self.permissions.insert(selector, permissions);
    }
}

} // verus!
