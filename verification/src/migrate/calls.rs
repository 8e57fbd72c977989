//! What a migration asks of the world: the calls, the class declarations,
//! and the accumulators that collect them before they are submitted.

use crate::felt::Felt;
use crate::remote::copy_felts;
use crate::selector_map::SelectorMap;
use vstd::prelude::*;

verus! {

/// A state-changing call on the world contract.
#[derive(Debug, PartialEq, Eq)]
pub enum WorldCall {
    RegisterNamespace { namespace: String },
    RegisterContract { salt: Felt, namespace: String, class_hash: Felt },
    UpgradeContract { namespace: String, class_hash: Felt },
    RegisterModel { namespace: String, class_hash: Felt },
    UpgradeModel { namespace: String, class_hash: Felt },
    RegisterEvent { namespace: String, class_hash: Felt },
    UpgradeEvent { namespace: String, class_hash: Felt },
    GrantWriter { resource: Felt, contract: Felt },
    GrantOwner { resource: Felt, contract: Felt },
    InitContract { selector: Felt, init_calldata: Vec<Felt> },
    Upgrade { class_hash: Felt },
}

/// The mathematical value of [`WorldCall`].
pub enum WorldCallView {
    RegisterNamespace { namespace: Seq<char> },
    RegisterContract { salt: Felt, namespace: Seq<char>, class_hash: Felt },
    UpgradeContract { namespace: Seq<char>, class_hash: Felt },
    RegisterModel { namespace: Seq<char>, class_hash: Felt },
    UpgradeModel { namespace: Seq<char>, class_hash: Felt },
    RegisterEvent { namespace: Seq<char>, class_hash: Felt },
    UpgradeEvent { namespace: Seq<char>, class_hash: Felt },
    GrantWriter { resource: Felt, contract: Felt },
    GrantOwner { resource: Felt, contract: Felt },
    InitContract { selector: Felt, init_calldata: Seq<Felt> },
    Upgrade { class_hash: Felt },
}

impl View for WorldCall {
    type V = WorldCallView;

    open spec fn view(&self) -> WorldCallView {
        match self {
            WorldCall::RegisterNamespace { namespace } => WorldCallView::RegisterNamespace {
                namespace: namespace@,
            },
            WorldCall::RegisterContract {
                salt,
                namespace,
                class_hash,
            } => WorldCallView::RegisterContract {
                salt: *salt,
                namespace: namespace@,
                class_hash: *class_hash,
            },
            WorldCall::UpgradeContract { namespace, class_hash } => WorldCallView::UpgradeContract {
                namespace: namespace@,
                class_hash: *class_hash,
            },
            WorldCall::RegisterModel { namespace, class_hash } => WorldCallView::RegisterModel {
                namespace: namespace@,
                class_hash: *class_hash,
            },
            WorldCall::UpgradeModel { namespace, class_hash } => WorldCallView::UpgradeModel {
                namespace: namespace@,
                class_hash: *class_hash,
            },
            WorldCall::RegisterEvent { namespace, class_hash } => WorldCallView::RegisterEvent {
                namespace: namespace@,
                class_hash: *class_hash,
            },
            WorldCall::UpgradeEvent { namespace, class_hash } => WorldCallView::UpgradeEvent {
                namespace: namespace@,
                class_hash: *class_hash,
            },
            WorldCall::GrantWriter { resource, contract } => WorldCallView::GrantWriter {
                resource: *resource,
                contract: *contract,
            },
            WorldCall::GrantOwner { resource, contract } => WorldCallView::GrantOwner {
                resource: *resource,
                contract: *contract,
            },
            WorldCall::InitContract { selector, init_calldata } => WorldCallView::InitContract {
                selector: *selector,
                init_calldata: init_calldata@,
            },
            WorldCall::Upgrade { class_hash } => WorldCallView::Upgrade { class_hash: *class_hash },
        }
    }
}

impl Clone for WorldCall {
    fn clone(&self) -> (copy: WorldCall)
        ensures
            copy@ == self@,
    {
        match self {
            WorldCall::RegisterNamespace { namespace } => WorldCall::RegisterNamespace {
                namespace: namespace.clone(),
            },
            WorldCall::RegisterContract { salt, namespace, class_hash } => WorldCall::RegisterContract {
                salt: *salt,
                namespace: namespace.clone(),
                class_hash: *class_hash,
            },
            WorldCall::UpgradeContract { namespace, class_hash } => WorldCall::UpgradeContract {
                namespace: namespace.clone(),
                class_hash: *class_hash,
            },
            WorldCall::RegisterModel { namespace, class_hash } => WorldCall::RegisterModel {
                namespace: namespace.clone(),
                class_hash: *class_hash,
            },
            WorldCall::UpgradeModel { namespace, class_hash } => WorldCall::UpgradeModel {
                namespace: namespace.clone(),
                class_hash: *class_hash,
            },
            WorldCall::RegisterEvent { namespace, class_hash } => WorldCall::RegisterEvent {
                namespace: namespace.clone(),
                class_hash: *class_hash,
            },
            WorldCall::UpgradeEvent { namespace, class_hash } => WorldCall::UpgradeEvent {
                namespace: namespace.clone(),
                class_hash: *class_hash,
            },
            WorldCall::GrantWriter { resource, contract } => WorldCall::GrantWriter {
                resource: *resource,
                contract: *contract,
            },
            WorldCall::GrantOwner { resource, contract } => WorldCall::GrantOwner {
                resource: *resource,
                contract: *contract,
            },
            WorldCall::InitContract { selector, init_calldata } => WorldCall::InitContract {
                selector: *selector,
                init_calldata: copy_felts(init_calldata),
            },
            WorldCall::Upgrade { class_hash } => WorldCall::Upgrade { class_hash: *class_hash },
        }
    }
}

/// The values of a list of calls.
pub open spec fn call_views(calls: Seq<WorldCall>) -> Seq<WorldCallView> {
    calls.map_values(|call: WorldCall| call@)
}

/// Collects the calls of one submission, in the order in which they were
/// added.
#[derive(Debug)]
pub struct Invoker {
    pub calls: Vec<WorldCall>,
}

impl View for Invoker {
    type V = Seq<WorldCallView>;

    open spec fn view(&self) -> Seq<WorldCallView> {
        call_views(self.calls@)
    }
}

impl Invoker {
    /// An invoker without calls.
    pub fn new() -> (invoker: Invoker)
        ensures
            invoker@ == Seq::<WorldCallView>::empty(),
    {
        let invoker = Invoker { calls: Vec::new() };
        assert(invoker@ =~= Seq::<WorldCallView>::empty());
        invoker
    }

    /// Adds a call after those that are there.
    pub fn add_call(&mut self, call: WorldCall)
        ensures
            final(self)@ == old(self)@.push(call@),
    {
        self.calls.push(call);
        assert(self@ =~= old(self)@.push(call@));
    }

    /// Whether nothing was added.
    pub fn is_empty(&self) -> (empty: bool)
        ensures
            empty == (self@.len() == 0),
    {
        self.calls.len() == 0
    }
}

/// A class to declare: the artifact compiled to `casm_class_hash`, which
/// the world runs as `class_hash`.
#[derive(Clone, Copy, Debug, PartialEq, Eq, Structural)]
pub struct ClassDeclaration {
    pub casm_class_hash: Felt,
    pub class_hash: Felt,
}

/// The classes that a declarer has collected: the compiled class hashes
/// in the order in which they first came, and for each the class hash
/// that came with it last.
pub struct DeclarerView {
    pub casm_class_hashes: Seq<Felt>,
    pub class_hashes: Seq<Felt>,
}

impl DeclarerView {
    /// No class.
    pub open spec fn empty() -> DeclarerView {
        DeclarerView { casm_class_hashes: Seq::empty(), class_hashes: Seq::empty() }
    }

    /// With one more class. A compiled class hash that is already there
    /// keeps its place and is not declared twice.
    pub open spec fn add_class(self, class: ClassDeclaration) -> DeclarerView {
        if self.casm_class_hashes.contains(class.casm_class_hash) {
            DeclarerView {
                casm_class_hashes: self.casm_class_hashes,
                class_hashes: self.class_hashes.update(
                    self.casm_class_hashes.index_of(class.casm_class_hash),
                    class.class_hash,
                ),
            }
        } else {
            DeclarerView {
                casm_class_hashes: self.casm_class_hashes.push(class.casm_class_hash),
                class_hashes: self.class_hashes.push(class.class_hash),
            }
        }
    }

    /// The classes as a list of declarations.
    pub open spec fn declarations(self) -> Seq<ClassDeclaration> {
        Seq::new(
            self.casm_class_hashes.len(),
            |i: int|
                ClassDeclaration {
                    casm_class_hash: self.casm_class_hashes[i],
                    class_hash: self.class_hashes[i],
                },
        )
    }
}

/// Collects the classes to declare before the calls that name them, each
/// compiled class once.
#[derive(Debug)]
pub struct Declarer {
    pub classes: SelectorMap<Felt>,
}

impl View for Declarer {
    type V = DeclarerView;

    open spec fn view(&self) -> DeclarerView {
        DeclarerView {
            casm_class_hashes: self.classes.keys(),
            class_hashes: self.classes.values(),
        }
    }
}

impl Declarer {
    /// A declarer without classes.
    pub fn new() -> (declarer: Declarer)
        ensures
            declarer@ == DeclarerView::empty(),
    {
        Declarer { classes: SelectorMap::new() }
    }

    /// Adds a class, unless its compiled class hash is there already.
    pub fn add_class(&mut self, class: ClassDeclaration)
        ensures
            final(self)@ == old(self)@.add_class(class),
    {
        self.classes.insert(class.casm_class_hash, class.class_hash);
    }

    /// The classes to declare, in the order in which they first came.
    pub fn declarations(&self) -> (declarations: Vec<ClassDeclaration>)
        ensures
            declarations@ == self@.declarations(),
            self@.casm_class_hashes.no_duplicates(),
    {
        let count = self.classes.len();
        let mut declarations: Vec<ClassDeclaration> = Vec::new();
        let mut index: usize = 0;
        while index < count
            invariant
                index <= count,
                count == self.classes.keys().len(),
                count == self.classes.values().len(),
                declarations@.len() == index,
                forall|i: int|
                    0 <= i < index ==> declarations@[i] == (ClassDeclaration {
                        casm_class_hash: self.classes.keys()[i],
                        class_hash: self.classes.values()[i],
                    }),
            decreases count - index,
        {
            let casm_class_hash = self.classes.key_at(index);
            let class_hash = *self.classes.value_at(index);
            declarations.push(ClassDeclaration { casm_class_hash, class_hash });
            index += 1;
        }
        assert(declarations@ =~= self@.declarations());
        declarations
    }
}

} // verus!
