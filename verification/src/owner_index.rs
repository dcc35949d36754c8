//! Listing identifiers by owner, each owner's in the order in which they
//! were entered.

use vstd::prelude::*;
use crate::identity::Identity;

verus! {

/// The listings of one owner.
#[derive(Debug)]
pub struct OwnerListings {
    pub owner: Identity,
    pub listings: Vec<String>,
}

/// The identifiers that a list of strings spells.
pub open spec fn names(listings: Seq<String>) -> Seq<Seq<char>> {
    listings.map_values(|s: String| s@)
}

/// Whether `owner` has an entry.
pub open spec fn has_owner(entries: Seq<OwnerListings>, owner: Identity) -> bool {
    exists|i: int| 0 <= i < entries.len() && (#[trigger] entries[i]).owner == owner
}

/// The place of the entry of `owner`, if there is one.
pub open spec fn owner_slot(entries: Seq<OwnerListings>, owner: Identity) -> int {
    choose|i: int| 0 <= i < entries.len() && (#[trigger] entries[i]).owner == owner
}

/// No owner has two entries.
pub open spec fn owners_distinct(entries: Seq<OwnerListings>) -> bool {
    forall|i: int, j: int|
        0 <= i < j < entries.len() ==> (#[trigger] entries[i]).owner != (#[trigger] entries[j]).owner
}

/// The identifiers entered for `owner`: none without an entry.
pub open spec fn listings_of(entries: Seq<OwnerListings>, owner: Identity) -> Seq<Seq<char>> {
    if has_owner(entries, owner) {
        names(entries[owner_slot(entries, owner)].listings@)
    } else {
        Seq::empty()
    }
}

/// Among distinct owners, the entry of an owner is where one finds it.
pub proof fn lemma_owner_slot_unique(entries: Seq<OwnerListings>, owner: Identity, i: int)
    requires
        owners_distinct(entries),
        0 <= i < entries.len(),
        entries[i].owner == owner,
    ensures
        has_owner(entries, owner),
        owner_slot(entries, owner) == i,
{
    let at = owner_slot(entries, owner);
    assert(0 <= at < entries.len() && entries[at].owner == owner);
    if at < i {
        assert(entries[at].owner != entries[i].owner);
    } else if i < at {
        assert(entries[i].owner != entries[at].owner);
    }
}

/// An index from owners to the identifiers of their listings.
#[derive(Debug)]
pub struct OwnerIndex {
    pub entries: Vec<OwnerListings>,
}

impl View for OwnerIndex {
    type V = Map<Identity, Seq<Seq<char>>>;

    /// Every owner's identifiers; an owner without listings has none.
    open spec fn view(&self) -> Map<Identity, Seq<Seq<char>>> {
        Map::total(|owner: Identity| listings_of(self.entries@, owner))
    }
}

impl OwnerIndex {
    /// No owner has two entries.
    pub open spec fn wf(self) -> bool {
        owners_distinct(self.entries@)
    }

    /// An index without entries.
    pub fn new() -> (index: OwnerIndex)
        ensures
            index.entries@ == Seq::<OwnerListings>::empty(),
            index.wf(),
            index@ == Map::total(|owner: Identity| Seq::<Seq<char>>::empty()),
    {
        let index = OwnerIndex { entries: Vec::new() };
        assert(index@ =~= Map::total(|owner: Identity| Seq::<Seq<char>>::empty()));
        index
    }

    /// Tells whether no owner has two entries.
    pub fn is_distinct(&self) -> (ok: bool)
        ensures
            ok == self.wf(),
    {
        let mut j: usize = 0;
        while j < self.entries.len()
            invariant
                j <= self.entries.len(),
                forall|a: int, b: int|
                    0 <= a < b < j ==> (#[trigger] self.entries@[a]).owner != (
                    #[trigger] self.entries@[b]).owner,
            decreases self.entries.len() - j,
        {
            let mut i: usize = 0;
            while i < j
                invariant
                    i <= j < self.entries.len(),
                    forall|a: int|
                        0 <= a < i ==> (#[trigger] self.entries@[a]).owner != self.entries@[j as int].owner,
                decreases j - i,
            {
                if self.entries[i].owner == self.entries[j].owner {
                    return false;
                }
                i = i + 1;
            }
            j = j + 1;
        }
        true
    }

    /// The place of the entry of `owner`.
    pub fn find(&self, owner: &Identity) -> (at: Option<usize>)
        requires
            self.wf(),
        ensures
            at is Some <==> has_owner(self.entries@, *owner),
            at is Some ==> at->0 == owner_slot(self.entries@, *owner),
    {
        let mut i: usize = 0;
        while i < self.entries.len()
            invariant
                i <= self.entries.len(),
                self.wf(),
                forall|j: int| 0 <= j < i ==> (#[trigger] self.entries@[j]).owner != *owner,
            decreases self.entries.len() - i,
        {
            if self.entries[i].owner == *owner {
                proof {
                    lemma_owner_slot_unique(self.entries@, *owner, i as int);
                }
                return Some(i);
            }
            i = i + 1;
        }
        None
    }

    /// The identifiers entered for `owner`, oldest first.
    pub fn listings(&self, owner: &Identity) -> (list: Vec<String>)
        requires
            self.wf(),
        ensures
            names(list@) == self@[*owner],
    {
        let mut list: Vec<String> = Vec::new();
        match self.find(owner) {
            Some(at) => {
                let source = &self.entries[at].listings;
                let mut i: usize = 0;
                while i < source.len()
                    invariant
                        i <= source.len(),
                        list.len() == i,
                        forall|j: int| 0 <= j < i ==> (#[trigger] list@[j])@ == source@[j]@,
                    decreases source.len() - i,
                {
                    list.push(source[i].clone());
                    i = i + 1;
                }
                assert(names(list@) =~= names(source@));
            },
            None => {
                assert(names(list@) =~= Seq::<Seq<char>>::empty());
            },
        }
        list
    }

    /// Enters `id` as the newest listing of `owner`.
    pub fn add(&mut self, owner: Identity, id: String)
        requires
            old(self).wf(),
        ensures
            final(self).wf(),
            final(self)@ == old(self)@.insert(owner, old(self)@[owner].push(id@)),
    {
        let ghost before = self.entries@;
        match self.find(&owner) {
            Some(at) => {
                self.entries[at].listings.push(id);
                proof {
                    let after = self.entries@;
                    lemma_same_owners(before, after);
                    lemma_owner_slot_unique(after, owner, at as int);
                    assert(names(after[at as int].listings@) =~= names(before[at as int].listings@).push(
                        id@,
                    ));
                    assert forall|other: Identity| other != owner implies listings_of(after, other)
                        == listings_of(before, other) by {
                        if has_owner(before, other) {
                            let k = owner_slot(before, other);
                            lemma_owner_slot_unique(after, other, k);
                        }
                    }
                }
            },
            None => {
                let mut listings: Vec<String> = Vec::new();
                listings.push(id);
                self.entries.push(OwnerListings { owner, listings });
                proof {
                    let after = self.entries@;
                    let last = before.len() as int;
                    assert forall|i: int, j: int| 0 <= i < j < after.len() implies (
                    #[trigger] after[i]).owner != (#[trigger] after[j]).owner by {
                        if j == last {
                            assert(after[i] == before[i]);
                        } else {
                            assert(after[i] == before[i] && after[j] == before[j]);
                        }
                    }
                    lemma_owner_slot_unique(after, owner, last);
                    assert(names(after[last].listings@) =~= Seq::<Seq<char>>::empty().push(id@));
                    assert forall|other: Identity| other != owner implies listings_of(after, other)
                        == listings_of(before, other) by {
                        if has_owner(before, other) {
                            let k = owner_slot(before, other);
                            assert(after[k] == before[k]);
                            lemma_owner_slot_unique(after, other, k);
                        }
                        if has_owner(after, other) {
                            let k = owner_slot(after, other);
                            assert(k < last);
                            assert(before[k] == after[k]);
                        }
                    }
                }
            },
        }
        assert(self@ =~= old(self)@.insert(owner, old(self)@[owner].push(id@)));
    }

    /// Takes the oldest entry of `id` out of the listings of `owner` and
    /// tells whether there was one.
    pub fn remove(&mut self, owner: &Identity, id: &String) -> (found: bool)
        requires
            old(self).wf(),
        ensures
            final(self).wf(),
            found == old(self)@[*owner].contains(id@),
            final(self)@ == old(self)@.insert(*owner, old(self)@[*owner].remove_value(id@)),
    {
        let ghost before = self.entries@;
        let ghost held = self@[*owner];
        proof {
            held.index_of_first_ensures(id@);
        }
        let at = match self.find(owner) {
            Some(at) => at,
            None => {
                assert(self@ =~= old(self)@.insert(*owner, old(self)@[*owner].remove_value(id@)));
                return false;
            },
        };
        let mut i: usize = 0;
        while i < self.entries[at].listings.len()
            invariant
                at < self.entries.len(),
                self.entries@ == before,
                before == old(self).entries@,
                owners_distinct(before),
                has_owner(before, *owner),
                at == owner_slot(before, *owner),
                held == old(self)@[*owner],
                i <= self.entries[at as int].listings.len(),
                held == names(before[at as int].listings@),
                forall|j: int| 0 <= j < i ==> (#[trigger] held[j]) != id@,
            decreases self.entries[at as int].listings.len() - i,
        {
            if self.entries[at].listings[i] == *id {
                assert(held[i as int] == id@);
                self.entries[at].listings.remove(i);
                proof {
                    let after = self.entries@;
                    assert(held.index_of_first(id@) == Some(i as int)) by {
                        held.index_of_first_ensures(id@);
                        assert(held.contains(id@));
                        let first = held.index_of_first(id@)->0;
                        if first < i {
                            assert(held[first] != id@);
                        } else if i < first {
                            assert(held[i as int] != id@);
                        }
                    }
                    lemma_same_owners(before, after);
                    lemma_owner_slot_unique(after, *owner, at as int);
                    assert(names(after[at as int].listings@) =~= held.remove(i as int));
                    assert forall|other: Identity| other != *owner implies listings_of(after, other)
                        == listings_of(before, other) by {
                        if has_owner(before, other) {
                            let k = owner_slot(before, other);
                            lemma_owner_slot_unique(after, other, k);
                        }
                    }
                    assert(self@ =~= old(self)@.insert(*owner, old(self)@[*owner].remove_value(id@)));
                }
                return true;
            }
            i = i + 1;
        }
        proof {
            held.index_of_first_ensures(id@);
            if held.contains(id@) {
                let k = held.index_of(id@);
                assert(held[k] != id@);
            }
            assert(self@ =~= old(self)@.insert(*owner, old(self)@[*owner].remove_value(id@)));
        }
        false
    }
}

/// Two lists of entries with the same owners at the same places have entries
/// for the same owners, and one is without doubles if the other is.
pub proof fn lemma_same_owners(before: Seq<OwnerListings>, after: Seq<OwnerListings>)
    requires
        before.len() == after.len(),
        forall|i: int| 0 <= i < before.len() ==> (#[trigger] after[i]).owner == before[i].owner,
    ensures
        owners_distinct(before) ==> owners_distinct(after),
        forall|who: Identity| has_owner(after, who) == has_owner(before, who),
{
    if owners_distinct(before) {
        assert forall|i: int, j: int| 0 <= i < j < after.len() implies (#[trigger] after[i]).owner != (
        #[trigger] after[j]).owner by {
            assert(before[i].owner != before[j].owner);
        }
    }
    assert forall|who: Identity| has_owner(after, who) == has_owner(before, who) by {
        if has_owner(before, who) {
            let k = owner_slot(before, who);
            assert(after[k].owner == who);
        }
        if has_owner(after, who) {
            let k = owner_slot(after, who);
            assert(before[k].owner == who);
        }
    }
}

} // verus!
