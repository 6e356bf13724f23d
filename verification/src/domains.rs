//! The result set: distinct host names, kept both in the order in which
//! they arrived and in a hash index for constant-time membership tests.

use crate::text::string_views;
use vstd::hash_set::StringHashSet;
use vstd::prelude::*;

verus! {

/// A set of host names. Its view is the mathematical set of its members.
pub struct DomainSet {
    names: Vec<String>,
    index: StringHashSet,
}

impl View for DomainSet {
    type V = Set<Seq<char>>;

    closed spec fn view(&self) -> Set<Seq<char>> {
        string_views(self.names@).to_set()
    }
}

/// An empty list of names holds nothing.
proof fn lemma_nothing_listed(names: Seq<String>)
    requires
        names.len() == 0,
    ensures
        string_views(names) == Seq::<Seq<char>>::empty(),
        string_views(names).no_duplicates(),
        string_views(names).to_set() == Set::<Seq<char>>::empty(),
{
}

/// A sequence without repeats keeps that property when an item that it does
/// not hold is put at its end.
proof fn lemma_push_keeps_distinct(items: Seq<Seq<char>>, added: Seq<char>)
    requires
        items.no_duplicates(),
        !items.to_set().contains(added),
    ensures
        items.push(added).no_duplicates(),
{
}

impl DomainSet {
    /// Every member is listed once, and the index holds exactly the listed
    /// members.
    #[verifier::type_invariant]
    spec fn well_formed(&self) -> bool {
        &&& string_views(self.names@).no_duplicates()
        &&& self.index@ == string_views(self.names@).to_set()
    }

    /// The members in the order of their first insertion.
    pub closed spec fn listing(&self) -> Seq<Seq<char>> {
        string_views(self.names@)
    }

    /// The empty set.
    pub fn new() -> (set: Self)
        ensures
            set@ == Set::<Seq<char>>::empty(),
            set.listing() == Seq::<Seq<char>>::empty(),
    {
        let names: Vec<String> = Vec::new();
        let index = StringHashSet::new();
        proof {
            lemma_nothing_listed(names@);
        }
        DomainSet { names, index }
    }

    /// The empty set, with room for `capacity` members. The capacity is a
    /// hint to the allocator only: it makes no member and shows in no result.
    pub fn with_capacity(capacity: usize) -> (set: Self)
        ensures
            set@ == Set::<Seq<char>>::empty(),
            set.listing() == Seq::<Seq<char>>::empty(),
    {
        let names: Vec<String> = Vec::with_capacity(capacity);
        let index = StringHashSet::with_capacity(capacity);
        proof {
            lemma_nothing_listed(names@);
        }
        DomainSet { names, index }
    }

    /// The set holds exactly what its listing holds, so it is finite.
    pub proof fn lemma_view_of_listing(&self)
        ensures
            self@ == self.listing().to_set(),
            self@.finite(),
    {
        vstd::seq_lib::seq_to_set_is_finite(self.listing());
    }

    /// Whether `name` is a member.
    pub fn contains(&self, name: &str) -> (found: bool)
        ensures
            found == self@.contains(name@),
    {
        proof {
            use_type_invariant(self);
        }
        self.index.contains(name)
    }

    /// The number of members.
    pub fn len(&self) -> (count: usize)
        ensures
            self@.finite(),
            count == self@.len(),
    {
        proof {
            use_type_invariant(self);
            self.lemma_view_of_listing();
            self.listing().unique_seq_to_set();
        }
        self.names.len()
    }

    /// Whether the set has no member.
    pub fn is_empty(&self) -> (empty: bool)
        ensures
            empty == (self@ == Set::<Seq<char>>::empty()),
    {
        proof {
            use_type_invariant(self);
            self.listing().unique_seq_to_set();
            if self.names.len() == 0 {
                assert(self@ =~= Set::<Seq<char>>::empty());
            }
        }
        self.names.len() == 0
    }

    /// Adds `name`. Returns whether it was new; a name that is already a
    /// member leaves the set as it was.
    pub fn insert(&mut self, name: String) -> (fresh: bool)
        ensures
            final(self)@ == old(self)@.insert(name@),
            fresh == !old(self)@.contains(name@),
            final(self).listing() == if fresh {
                old(self).listing().push(name@)
            } else {
                old(self).listing()
            },
    {
        proof {
            use_type_invariant(&*self);
        }
        if self.index.contains(name.as_str()) {
            false
        } else {
            let ghost before = string_views(self.names@);
            // The parts leave the set together while they change, so that
            // it is never seen with one of them ahead of the other.
            let mut taken = DomainSet::new();
            core::mem::swap(self, &mut taken);
            let DomainSet { mut names, mut index } = taken;
            index.insert(name.clone());
            names.push(name);
            proof {
                assert(string_views(names@) == before.push(name@));
                before.lemma_push_to_set_commute(name@);
                lemma_push_keeps_distinct(before, name@);
            }
            *self = DomainSet { names, index };
            true
        }
    }

    /// The members, each once, in the order of their first insertion.
    pub fn names(&self) -> (members: &Vec<String>)
        ensures
            string_views(members@) == self.listing(),
            string_views(members@).no_duplicates(),
            string_views(members@).to_set() == self@,
    {
        proof {
            use_type_invariant(self);
        }
        &self.names
    }

    /// Gives up the set for the plain list of its members.
    pub fn into_names(self) -> (members: Vec<String>)
        ensures
            string_views(members@) == self.listing(),
            string_views(members@).no_duplicates(),
            string_views(members@).to_set() == self@,
    {
        proof {
            use_type_invariant(&self);
        }
        self.names
    }
}

} // verus!
