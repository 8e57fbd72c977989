//! The index of the world's resources by namespace.

use crate::felt::Felt;
use crate::felt_set::FeltSet;
use crate::selector_map::{
    entries_map, lemma_entries_push, lemma_entries_update, lemma_index_of_distinct,
    lemma_views_insert, views_of,
};
use vstd::prelude::*;

verus! {

/// The kinds of resource that a world holds.
#[derive(Clone, Copy, Debug, PartialEq, Eq, Structural)]
pub enum ResourceType {
    Namespace,
    Contract,
    Model,
    Event,
}

/// The selectors of the resources of one namespace, by kind.
#[derive(Debug)]
pub struct NamespaceResources {
    pub models: FeltSet,
    pub events: FeltSet,
    pub contracts: FeltSet,
}

/// The mathematical value of [`NamespaceResources`].
pub struct NamespaceResourcesView {
    pub models: Set<Felt>,
    pub events: Set<Felt>,
    pub contracts: Set<Felt>,
}

impl View for NamespaceResources {
    type V = NamespaceResourcesView;

    open spec fn view(&self) -> NamespaceResourcesView {
        NamespaceResourcesView {
            models: self.models@,
            events: self.events@,
            contracts: self.contracts@,
        }
    }
}

impl NamespaceResourcesView {
    /// A namespace without resources.
    pub open spec fn empty() -> NamespaceResourcesView {
        NamespaceResourcesView {
            models: Set::empty(),
            events: Set::empty(),
            contracts: Set::empty(),
        }
    }

    /// With one more resource of a kind. A namespace is no resource of a
    /// namespace and changes nothing.
    pub open spec fn with(self, kind: ResourceType, selector: Felt) -> NamespaceResourcesView {
        match kind {
            ResourceType::Namespace => self,
            ResourceType::Contract => NamespaceResourcesView {
                contracts: self.contracts.insert(selector),
                ..self
            },
            ResourceType::Model => NamespaceResourcesView {
                models: self.models.insert(selector),
                ..self
            },
            ResourceType::Event => NamespaceResourcesView {
                events: self.events.insert(selector),
                ..self
            },
        }
    }

    /// All the selectors of the namespace.
    pub open spec fn selectors(self) -> Set<Felt> {
        self.models.union(self.events).union(self.contracts)
    }
}

impl NamespaceResources {
    /// A namespace without resources.
    pub fn new() -> (resources: NamespaceResources)
        ensures
            resources@ == NamespaceResourcesView::empty(),
    {
        NamespaceResources {
            models: FeltSet::new(),
            events: FeltSet::new(),
            contracts: FeltSet::new(),
        }
    }

    /// Adds a resource of a kind.
    pub fn add(&mut self, kind: ResourceType, selector: Felt)
        ensures
            final(self)@ == old(self)@.with(kind, selector),
    {
        match kind {
            ResourceType::Namespace => {},
            ResourceType::Contract => {
                self.contracts.insert(selector);
            },
            ResourceType::Model => {
                self.models.insert(selector);
            },
            ResourceType::Event => {
                self.events.insert(selector);
            },
        }
    }
}

/// The names as texts.
pub open spec fn texts(names: Seq<String>) -> Seq<Seq<char>> {
    names.map_values(|name: String| name@)
}

/// For each namespace that has resources, their selectors by kind. No
/// namespace occurs twice.
#[derive(Debug)]
pub struct NamespaceIndex {
    names: Vec<String>,
    resources: Vec<NamespaceResources>,
}

impl View for NamespaceIndex {
    type V = Map<Seq<char>, NamespaceResourcesView>;

    open spec fn view(&self) -> Map<Seq<char>, NamespaceResourcesView> {
        views_of(entries_map(self.names(), self.resources()))
    }
}

impl NamespaceIndex {
    #[verifier::type_invariant]
    spec fn well_formed(self) -> bool {
        texts(self.names@).no_duplicates() && self.names@.len() == self.resources@.len()
    }

    /// The namespaces in the order in which they came.
    pub closed spec fn names(&self) -> Seq<Seq<char>> {
        texts(self.names@)
    }

    /// The resources, each at the position of its namespace.
    pub closed spec fn resources(&self) -> Seq<NamespaceResources> {
        self.resources@
    }

    /// The resources of a namespace; none where the index does not have it.
    pub open spec fn resources_of(index: Map<Seq<char>, NamespaceResourcesView>, namespace: Seq<char>)
        -> NamespaceResourcesView {
        if index.contains_key(namespace) {
            index[namespace]
        } else {
            NamespaceResourcesView::empty()
        }
    }

    /// The empty index.
    pub fn new() -> (index: NamespaceIndex)
        ensures
            index@ == Map::<Seq<char>, NamespaceResourcesView>::empty(),
    {
        let index = NamespaceIndex { names: Vec::new(), resources: Vec::new() };
        assert(index@ =~= Map::<Seq<char>, NamespaceResourcesView>::empty());
        index
    }

    /// The position of a namespace, if the index has it.
    fn position(&self, namespace: &String) -> (position: Option<usize>)
        ensures
            match position {
                Some(at) => at < self.names().len() && self.names()[at as int] == namespace@,
                None => !self.names().contains(namespace@),
            },
    {
        let mut at: usize = 0;
        while at < self.names.len()
            invariant
                at <= self.names.len(),
                forall|i: int| 0 <= i < at ==> texts(self.names@)[i] != namespace@,
            decreases self.names.len() - at,
        {
            if self.names[at] == *namespace {
                return Some(at);
            }
            at += 1;
        }
        None
    }

    /// The resources of a namespace, if the index has it.
    pub fn get(&self, namespace: &str) -> (resources: Option<&NamespaceResources>)
        ensures
            match resources {
                Some(resources) => self@.contains_key(namespace@) && self@[namespace@]
                    == resources@,
                None => !self@.contains_key(namespace@),
            },
    {
        proof {
            use_type_invariant(self);
        }
        let owned = namespace.to_owned();
        match self.position(&owned) {
            Some(at) => {
                proof {
                    lemma_index_of_distinct(self.names(), at as int);
                }
                Some(&self.resources[at])
            },
            None => None,
        }
    }

    /// Records a resource of a kind under its namespace.
    pub fn add(&mut self, namespace: String, kind: ResourceType, selector: Felt)
        ensures
            final(self)@ == old(self)@.insert(
                namespace@,
                Self::resources_of(old(self)@, namespace@).with(kind, selector),
            ),
    {
        proof {
            use_type_invariant(&*self);
        }
        let position = self.position(&namespace);
        let mut taken = NamespaceIndex { names: Vec::new(), resources: Vec::new() };
        std::mem::swap(self, &mut taken);
        let NamespaceIndex { mut names, mut resources } = taken;
        let ghost old_names = texts(names@);
        let ghost old_resources = resources@;
        match position {
            Some(at) => {
                let mut entry = resources.remove(at);
                entry.add(kind, selector);
                proof {
                    lemma_index_of_distinct(old_names, at as int);
                    lemma_entries_update(old_names, old_resources, at as int, entry);
                    lemma_views_insert(entries_map(old_names, old_resources), namespace@, entry);
                    assert(old_resources.remove(at as int).insert(at as int, entry)
                        =~= old_resources.update(at as int, entry));
                }
                resources.insert(at, entry);
            },
            None => {
                let mut entry = NamespaceResources::new();
                entry.add(kind, selector);
                proof {
                    lemma_entries_push(old_names, old_resources, namespace@, entry);
                    lemma_views_insert(entries_map(old_names, old_resources), namespace@, entry);
                    assert(texts(names@.push(namespace)) =~= old_names.push(namespace@));
                }
                names.push(namespace);
                resources.push(entry);
            },
        }
        *self = NamespaceIndex { names, resources };
    }
}

} // verus!
