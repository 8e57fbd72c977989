//! A finite set of field elements that remembers the order of insertion.

use crate::felt::Felt;
use vstd::prelude::*;

verus! {

/// A set of field elements. Nothing occurs twice; an element that is
/// inserted comes after those that are already there.
#[derive(Debug)]
pub struct FeltSet {
    elems: Vec<Felt>,
}

impl View for FeltSet {
    type V = Set<Felt>;

    open spec fn view(&self) -> Set<Felt> {
        self.elements().to_set()
    }
}

impl FeltSet {
    #[verifier::type_invariant]
    spec fn distinct(self) -> bool {
        self.elems@.no_duplicates()
    }

    /// The elements in the order in which they were inserted.
    pub closed spec fn elements(&self) -> Seq<Felt> {
        self.elems@
    }

    /// The empty set.
    pub fn new() -> (set: FeltSet)
        ensures
            set.elements() == Seq::<Felt>::empty(),
            set@ == Set::<Felt>::empty(),
    {
        let set = FeltSet { elems: Vec::new() };
        assert(set.elements().to_set() =~= Set::<Felt>::empty());
        set
    }

    /// The number of elements.
    pub fn len(&self) -> (len: usize)
        ensures
            len == self.elements().len(),
            self.elements().no_duplicates(),
    {
        proof {
            use_type_invariant(self);
        }
        self.elems.len()
    }

    /// Whether the set has no element.
    pub fn is_empty(&self) -> (empty: bool)
        ensures
            empty == (self.elements().len() == 0),
            empty == (self@ == Set::<Felt>::empty()),
    {
        let empty = self.elems.len() == 0;
        proof {
            if empty {
                assert(self.elements().to_set() =~= Set::<Felt>::empty());
            } else {
                assert(self.elements().to_set().contains(self.elements()[0]));
            }
        }
        empty
    }

    /// The element at a position of the insertion order.
    pub fn get(&self, index: usize) -> (felt: Felt)
        requires
            index < self.elements().len(),
        ensures
            felt == self.elements()[index as int],
            self@.contains(felt),
    {
        self.elems[index]
    }

    /// Takes the elements out and leaves the set empty.
    fn take(&mut self) -> (elems: Vec<Felt>)
        ensures
            elems@ == old(self).elements(),
            elems@.no_duplicates(),
            final(self).elements() == Seq::<Felt>::empty(),
    {
        proof {
            use_type_invariant(&*self);
        }
        let mut taken = FeltSet { elems: Vec::new() };
        std::mem::swap(self, &mut taken);
        taken.elems
    }

    /// The position of an element, if it is in the set.
    fn position(&self, felt: &Felt) -> (position: Option<usize>)
        ensures
            match position {
                Some(index) => index < self.elements().len() && self.elements()[index as int]
                    == *felt,
                None => !self.elements().contains(*felt),
            },
    {
        let mut index: usize = 0;
        while index < self.elems.len()
            invariant
                index <= self.elems.len(),
                forall|i: int| 0 <= i < index ==> self.elems@[i] != *felt,
            decreases self.elems.len() - index,
        {
            if self.elems[index] == *felt {
                return Some(index);
            }
            index += 1;
        }
        None
    }

    /// Whether an element is in the set.
    pub fn contains(&self, felt: &Felt) -> (found: bool)
        ensures
            found == self@.contains(*felt),
    {
        self.position(felt).is_some()
    }

    /// Adds an element. Returns whether it was new; inserting an element
    /// that is already there changes nothing.
    pub fn insert(&mut self, felt: Felt) -> (added: bool)
        ensures
            added == !old(self)@.contains(felt),
            final(self)@ == old(self)@.insert(felt),
            final(self).elements() == if added {
                old(self).elements().push(felt)
            } else {
                old(self).elements()
            },
    {
        proof {
            use_type_invariant(&*self);
        }
        match self.position(&felt) {
            Some(_) => {
                assert(self@ =~= self@.insert(felt));
                false
            },
            None => {
                let ghost before = self.elems@;
                let mut elems = self.take();
                elems.push(felt);
                *self = FeltSet { elems };
                assert(before.push(felt).to_set() =~= before.to_set().insert(felt)) by {
                    assert forall|x: Felt| before.push(felt).contains(x) <==> (before.contains(x) || x == felt) by {
                        if before.contains(x) {
                            let i = choose|i: int| 0 <= i < before.len() && before[i] == x;
                            assert(before.push(felt)[i] == x);
                        }
                        if x == felt {
                            assert(before.push(felt)[before.len() as int] == x);
                        }
                    }
                }
                true
            },
        }
    }

    /// Removes an element. Returns whether it was there; removing an
    /// element that is absent changes nothing.
    pub fn remove(&mut self, felt: &Felt) -> (removed: bool)
        ensures
            removed == old(self)@.contains(*felt),
            final(self)@ == old(self)@.remove(*felt),
            final(self).elements() == without(old(self).elements(), *felt),
    {
        proof {
            use_type_invariant(&*self);
        }
        let ghost before = self.elems@;
        match self.position(felt) {
            Some(index) => {
                proof {
                    lemma_remove_distinct(before, index as int);
                }
                let mut elems = self.take();
                elems.remove(index);
                *self = FeltSet { elems };
                true
            },
            None => {
                proof {
                    lemma_without_absent(before, *felt);
                    assert(before.to_set() =~= before.to_set().remove(*felt));
                }
                false
            },
        }
    }

    /// Makes an element a member or a non-member. Granting membership to
    /// a member and revoking it from a non-member change nothing.
    pub fn set_membership(&mut self, felt: Felt, member: bool)
        ensures
            final(self)@ == with_membership(old(self)@, felt, member),
            final(self).elements() == with_ordered_membership(old(self).elements(), felt, member),
    {
        if member {
            self.insert(felt);
        } else {
            self.remove(&felt);
        }
    }

    /// The elements that are not in another set, in their order.
    pub fn difference(&self, other: &FeltSet) -> (rest: FeltSet)
        ensures
            rest.elements() == minus(self.elements(), other@),
            rest@ == self@.difference(other@),
    {
        proof {
            use_type_invariant(self);
        }
        let mut elems: Vec<Felt> = Vec::new();
        let mut index: usize = 0;
        while index < self.elems.len()
            invariant
                index <= self.elems.len(),
                elems@ == minus(self.elems@.subrange(0, index as int), other@),
            decreases self.elems.len() - index,
        {
            let felt = self.elems[index];
            proof {
                lemma_minus_push(self.elems@.subrange(0, index as int), felt, other@);
                assert(self.elems@.subrange(0, index + 1) =~= self.elems@.subrange(
                    0,
                    index as int,
                ).push(felt));
            }
            if !other.contains(&felt) {
                elems.push(felt);
            }
            index += 1;
        }
        proof {
            assert(self.elems@.subrange(0, index as int) =~= self.elems@);
            lemma_minus_distinct(self.elems@, other@);
        }
        FeltSet { elems }
    }

    /// The elements in the order of insertion.
    pub fn to_vec(&self) -> (elems: Vec<Felt>)
        ensures
            elems@ == self.elements(),
    {
        let mut elems: Vec<Felt> = Vec::new();
        let mut index: usize = 0;
        while index < self.elems.len()
            invariant
                index <= self.elems.len(),
                elems@ == self.elems@.subrange(0, index as int),
            decreases self.elems.len() - index,
        {
            elems.push(self.elems[index]);
            assert(self.elems@.subrange(0, index + 1) =~= self.elems@.subrange(0, index as int).push(
                self.elems@[index as int],
            ));
            index += 1;
        }
        assert(self.elems@.subrange(0, index as int) =~= self.elems@);
        elems
    }
}

impl Clone for FeltSet {
    fn clone(&self) -> (copy: FeltSet)
        ensures
            copy.elements() == self.elements(),
            copy@ == self@,
    {
        proof {
            use_type_invariant(self);
        }
        FeltSet { elems: self.to_vec() }
    }
}

/// A set after a grant (`member` true) or a revocation (`member` false)
/// of one element.
pub open spec fn with_membership(set: Set<Felt>, felt: Felt, member: bool) -> Set<Felt> {
    if member {
        set.insert(felt)
    } else {
        set.remove(felt)
    }
}

/// A list without duplicates after a grant (`member` true), which puts
/// a new element last, or a revocation (`member` false) of one element.
pub open spec fn with_ordered_membership(elements: Seq<Felt>, felt: Felt, member: bool) -> Seq<
    Felt,
> {
    if member {
        if elements.contains(felt) {
            elements
        } else {
            elements.push(felt)
        }
    } else {
        without(elements, felt)
    }
}

/// The elements of a sequence that are not in a set, in their order.
pub open spec fn minus(s: Seq<Felt>, other: Set<Felt>) -> Seq<Felt> {
    s.filter(|x: Felt| !other.contains(x))
}

/// What `minus` keeps of a sequence with one more element.
pub proof fn lemma_minus_push(s: Seq<Felt>, last: Felt, other: Set<Felt>)
    ensures
        minus(s.push(last), other) == if other.contains(last) {
            minus(s, other)
        } else {
            minus(s, other).push(last)
        },
{
    reveal(Seq::filter);
    assert(s.push(last).drop_last() =~= s);
}

/// `minus` keeps exactly the elements outside the set, and keeps them distinct.
pub proof fn lemma_minus_distinct(s: Seq<Felt>, other: Set<Felt>)
    ensures
        minus(s, other).to_set() == s.to_set().difference(other),
        s.no_duplicates() ==> minus(s, other).no_duplicates(),
    decreases s.len(),
{
    reveal(Seq::filter);
    if s.len() == 0 {
        assert(minus(s, other).to_set() =~= s.to_set().difference(other));
    } else {
        let front = s.drop_last();
        let last = s.last();
        lemma_minus_distinct(front, other);
        assert(front.push(last) =~= s);
        lemma_minus_push(front, last, other);
        let kept = minus(front, other);
        assert forall|x: Felt| minus(s, other).contains(x) <==> (s.contains(x) && !other.contains(
            x,
        )) by {
            assert(kept.to_set().contains(x) <==> front.to_set().difference(other).contains(x));
            if minus(s, other).contains(x) {
                let i = choose|i: int| 0 <= i < minus(s, other).len() && minus(s, other)[i] == x;
                if !other.contains(last) && i == kept.len() {
                    assert(s[s.len() - 1] == x);
                } else {
                    assert(kept[i] == x);
                    assert(kept.contains(x));
                    let j = choose|j: int| 0 <= j < front.len() && front[j] == x;
                    assert(s[j] == x);
                }
            }
            if s.contains(x) && !other.contains(x) {
                let j = choose|j: int| 0 <= j < s.len() && s[j] == x;
                if j == s.len() - 1 {
                    assert(minus(s, other)[kept.len() as int] == x);
                } else {
                    assert(front[j] == x);
                    assert(front.contains(x));
                    let i = choose|i: int| 0 <= i < kept.len() && kept[i] == x;
                    assert(minus(s, other)[i] == x);
                }
            }
        }
        assert(minus(s, other).to_set() =~= s.to_set().difference(other));
        if s.no_duplicates() {
            assert(front.no_duplicates());
            if !other.contains(last) {
                assert(!kept.contains(last)) by {
                    if kept.contains(last) {
                        assert(kept.to_set().contains(last));
                        assert(front.contains(last));
                        let j = choose|j: int| 0 <= j < front.len() && front[j] == last;
                        assert(s[j] == s[s.len() - 1]);
                    }
                }
                assert forall|i: int, j: int|
                    0 <= i < kept.push(last).len() && 0 <= j < kept.push(last).len() && i
                        != j implies kept.push(last)[i] != kept.push(last)[j] by {
                    if i < kept.len() {
                        assert(kept.contains(kept[i]));
                    }
                    if j < kept.len() {
                        assert(kept.contains(kept[j]));
                    }
                }
            }
        }
    }
}

/// A sequence without the occurrences of one value.
pub open spec fn without<A>(s: Seq<A>, gone: A) -> Seq<A> {
    s.filter(|x: A| x != gone)
}

/// A sequence that does not hold a value is itself without it.
pub proof fn lemma_without_absent<A>(s: Seq<A>, gone: A)
    requires
        !s.contains(gone),
    ensures
        without(s, gone) == s,
{
    lemma_filter_all(s, |x: A| x != gone);
}

/// Filtering a sequence by what all its elements satisfy leaves it unchanged.
pub proof fn lemma_filter_all<A>(s: Seq<A>, keep: spec_fn(A) -> bool)
    requires
        forall|i: int| 0 <= i < s.len() ==> keep(s[i]),
    ensures
        s.filter(keep) == s,
    decreases s.len(),
{
    reveal(Seq::filter);
    if s.len() > 0 {
        lemma_filter_all(s.drop_last(), keep);
        assert(s.drop_last().push(s.last()) =~= s);
    }
}

/// Filtering a sequence by what none of its elements satisfies leaves nothing.
pub proof fn lemma_filter_none<A>(s: Seq<A>, keep: spec_fn(A) -> bool)
    requires
        forall|i: int| 0 <= i < s.len() ==> !keep(s[i]),
    ensures
        s.filter(keep) == Seq::<A>::empty(),
    decreases s.len(),
{
    reveal(Seq::filter);
    if s.len() > 0 {
        lemma_filter_none(s.drop_last(), keep);
    }
}

/// Taking one element out of a sequence without duplicates is filtering
/// by inequality with it, leaves no duplicates, and removes it from the
/// set of elements.
pub proof fn lemma_remove_distinct<A>(s: Seq<A>, index: int)
    requires
        s.no_duplicates(),
        0 <= index < s.len(),
    ensures
        s.remove(index) == without(s, s[index]),
        s.remove(index).no_duplicates(),
        s.remove(index).to_set() == s.to_set().remove(s[index]),
{
    let gone = s[index];
    let keep = |x: A| x != gone;
    let head = s.subrange(0, index);
    let tail = s.subrange(index + 1, s.len() as int);
    assert(s =~= head + seq![gone] + tail);
    assert(s.remove(index) =~= head + tail);
    lemma_filter_all(head, keep);
    lemma_filter_all(tail, keep);
    lemma_filter_none(seq![gone], keep);
    Seq::filter_distributes_over_add(head + seq![gone], tail, keep);
    Seq::filter_distributes_over_add(head, seq![gone], keep);
    assert((head + seq![gone] + tail).filter(keep) =~= head + tail);
    assert(s.remove(index).no_duplicates()) by {
        assert forall|i: int, j: int|
            0 <= i < s.remove(index).len() && 0 <= j < s.remove(index).len() && i != j implies s.remove(
            index,
        )[i] != s.remove(index)[j] by {
            let si = if i < index { i } else { i + 1 };
            let sj = if j < index { j } else { j + 1 };
            assert(s.remove(index)[i] == s[si]);
            assert(s.remove(index)[j] == s[sj]);
        }
    }
    assert(s.remove(index).to_set() =~= s.to_set().remove(gone)) by {
        assert forall|x: A| s.remove(index).contains(x) <==> (s.contains(x) && x != gone) by {
            if s.remove(index).contains(x) {
                let i = choose|i: int| 0 <= i < s.remove(index).len() && s.remove(index)[i] == x;
                if i < index {
                    assert(s[i] == x);
                } else {
                    assert(s[i + 1] == x);
                }
            }
            if s.contains(x) && x != gone {
                let i = choose|i: int| 0 <= i < s.len() && s[i] == x;
                if i < index {
                    assert(s.remove(index)[i] == x);
                } else {
                    assert(s.remove(index)[i - 1] == x);
                }
            }
        }
    }
}

} // verus!
