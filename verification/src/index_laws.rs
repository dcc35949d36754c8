//! How the two indexes go with the listings: what an owner's open and
//! settled listings name, and that every operation keeps it so.

use vstd::prelude::*;
use crate::auction::AuctionView;
use crate::identity::Identity;
use crate::registry::{lemma_with_listing, lemma_with_new, RegistryView};

verus! {

impl RegistryView {
    /// Whether `id` names a listing of `owner`.
    pub open spec fn names_listing_of(self, owner: Identity, id: Seq<char>) -> bool {
        self.has(id) && self.listing(id).owner == owner
    }

    /// Whether `id` is entered for `owner`, among the open listings or among
    /// the settled ones.
    pub open spec fn entered(self, owner: Identity, id: Seq<char>) -> bool {
        self.active[owner].contains(id) || self.past[owner].contains(id)
    }

    /// The indexes go with the listings: what is entered for an owner names a
    /// listing of that owner, and among the open listings one that is not
    /// settled; every listing is entered for its owner; and nothing is
    /// entered twice.
    pub open spec fn indexed(self) -> bool {
        &&& forall|owner: Identity, k: int|
            0 <= k < self.active[owner].len() ==> self.names_listing_of(
                owner,
                #[trigger] self.active[owner][k],
            ) && !self.listing(self.active[owner][k]).ended
        &&& forall|owner: Identity, k: int|
            0 <= k < self.past[owner].len() ==> self.names_listing_of(
                owner,
                #[trigger] self.past[owner][k],
            )
        &&& forall|i: int|
            0 <= i < self.auctions.len() ==> self.entered(
                (#[trigger] self.auctions[i]).owner,
                self.auctions[i].listing_id,
            )
        &&& forall|owner: Identity, k: int, j: int|
            0 <= k < j < self.active[owner].len() ==> (#[trigger] self.active[owner][k]) != (
            #[trigger] self.active[owner][j])
        &&& forall|owner: Identity, k: int, j: int|
            0 <= k < j < self.past[owner].len() ==> (#[trigger] self.past[owner][k]) != (
            #[trigger] self.past[owner][j])
        &&& forall|owner: Identity, k: int, j: int|
            0 <= k < self.active[owner].len() && 0 <= j < self.past[owner].len() ==> (
            #[trigger] self.active[owner][k]) != (#[trigger] self.past[owner][j])
    }
}

/// Where the indexes go with the listings, a settled listing is among its
/// owner's settled ones and not among the open ones, and what is among the
/// open ones is not settled.
pub proof fn lemma_settled_listings_are_past(registry: RegistryView, id: Seq<char>)
    requires
        registry.wf(),
        registry.indexed(),
        registry.has(id),
    ensures
        registry.entered(registry.listing(id).owner, id),
        registry.listing(id).ended ==> registry.past[registry.listing(id).owner].contains(id)
            && !registry.active[registry.listing(id).owner].contains(id),
        registry.active[registry.listing(id).owner].contains(id) ==> !registry.listing(id).ended
            && !registry.past[registry.listing(id).owner].contains(id),
{
    let owner = registry.listing(id).owner;
    let at = registry.slot(id);
    assert(registry.entered(registry.auctions[at].owner, registry.auctions[at].listing_id));
    if registry.active[owner].contains(id) {
        let k = registry.active[owner].index_of(id);
        assert(registry.active[owner][k] == id);
        if registry.past[owner].contains(id) {
            let j = registry.past[owner].index_of(id);
            assert(registry.past[owner][j] == id);
        }
    }
}

/// A registry without listings and without entries is indexed.
pub proof fn lemma_empty_is_indexed(registry: RegistryView)
    requires
        registry.auctions.len() == 0,
        forall|owner: Identity| (#[trigger] registry.active[owner]).len() == 0,
        forall|owner: Identity| (#[trigger] registry.past[owner]).len() == 0,
    ensures
        registry.indexed(),
{
}

/// Changing the terms of the registry leaves it indexed.
pub proof fn lemma_terms_keep_indexed(registry: RegistryView, next: RegistryView)
    requires
        registry.indexed(),
        next.auctions == registry.auctions,
        next.active == registry.active,
        next.past == registry.past,
    ensures
        next.indexed(),
{
    assert forall|id: Seq<char>| next.has(id) == registry.has(id) && next.listing(id) == registry.listing(
        id,
    ) by {}
}

/// Putting into a listing's place a listing with the same identifier and
/// owner that is settled only if the one before was, leaves the registry
/// indexed. This is what a bid, a withdrawal and a pause do.
pub proof fn lemma_with_listing_keeps_indexed(registry: RegistryView, id: Seq<char>, next: AuctionView)
    requires
        registry.wf(),
        registry.indexed(),
        registry.has(id),
        next.wf(),
        registry.listing(id).precedes(next),
        next.ended == registry.listing(id).ended,
    ensures
        registry.with_listing(id, next).indexed(),
{
    let after = registry.with_listing(id, next);
    lemma_with_listing(registry, id, next);
    assert forall|other: Seq<char>| registry.has(other) implies after.listing(other).owner
        == registry.listing(other).owner && after.listing(other).ended == registry.listing(other).ended
        && after.listing(other).listing_id == registry.listing(other).listing_id by {
        if other != id {
            assert(registry.slot(other) != registry.slot(id));
        }
    }
    assert forall|i: int| 0 <= i < after.auctions.len() implies after.entered(
        (#[trigger] after.auctions[i]).owner,
        after.auctions[i].listing_id,
    ) by {
        assert(registry.entered(registry.auctions[i].owner, registry.auctions[i].listing_id));
    }
}

/// Adding an open listing under a new identifier leaves the registry
/// indexed. This is what creating a listing does.
pub proof fn lemma_with_new_keeps_indexed(registry: RegistryView, fresh: AuctionView)
    requires
        registry.wf(),
        registry.indexed(),
        fresh.wf(),
        !fresh.ended,
        !registry.has(fresh.listing_id),
    ensures
        registry.with_new(fresh).indexed(),
{
    let after = registry.with_new(fresh);
    let id = fresh.listing_id;
    let owner = fresh.owner;
    let last = registry.auctions.len() as int;
    lemma_with_new(registry, fresh);
    assert forall|who: Identity, k: int| 0 <= k < after.active[who].len() implies after.names_listing_of(
        who,
        #[trigger] after.active[who][k],
    ) && !after.listing(after.active[who][k]).ended by {
        if who == owner && k == registry.active[owner].len() {
        } else {
            assert(after.active[who][k] == registry.active[who][k]);
        }
    }
    assert forall|who: Identity, k: int| 0 <= k < after.past[who].len() implies after.names_listing_of(
        who,
        #[trigger] after.past[who][k],
    ) by {
        assert(after.past[who][k] == registry.past[who][k]);
    }
    assert forall|i: int| 0 <= i < after.auctions.len() implies after.entered(
        (#[trigger] after.auctions[i]).owner,
        after.auctions[i].listing_id,
    ) by {
        if i == last {
            assert(after.active[owner][registry.active[owner].len() as int] == id);
        } else {
            let who = registry.auctions[i].owner;
            let name = registry.auctions[i].listing_id;
            assert(registry.entered(who, name));
            if registry.active[who].contains(name) {
                let k = registry.active[who].index_of(name);
                assert(after.active[who][k] == name);
            }
        }
    }
    assert forall|who: Identity, k: int, j: int| 0 <= k < j < after.active[who].len() implies (
    #[trigger] after.active[who][k]) != (#[trigger] after.active[who][j]) by {
        if who == owner && j == registry.active[owner].len() {
            assert(registry.names_listing_of(who, registry.active[who][k]));
        } else {
            assert(registry.active[who][k] != registry.active[who][j]);
        }
    }
    assert forall|who: Identity, k: int, j: int|
        0 <= k < after.active[who].len() && 0 <= j < after.past[who].len() implies (
    #[trigger] after.active[who][k]) != (#[trigger] after.past[who][j]) by {
        if who == owner && k == registry.active[owner].len() {
            assert(registry.names_listing_of(who, registry.past[who][j]));
        } else {
            assert(registry.active[who][k] != registry.past[who][j]);
        }
    }
}

/// Moving a listing from its owner's open listings to the settled ones leaves
/// the registry indexed, also where the listing has just been put into its
/// place, settled or not.
pub proof fn lemma_reclassify_keeps_indexed(registry: RegistryView, id: Seq<char>, next: AuctionView)
    requires
        registry.wf(),
        registry.indexed(),
        registry.has(id),
        next.wf(),
        registry.listing(id).precedes(next),
    ensures
        registry.with_listing(id, next).reclassified(id).indexed(),
{
    let placed = registry.with_listing(id, next);
    let after = placed.reclassified(id);
    let owner = registry.listing(id).owner;
    lemma_with_listing(registry, id, next);
    assert(placed.listing(id).owner == owner);
    assert forall|other: Seq<char>| registry.has(other) implies after.has(other) && after.listing(
        other,
    ).owner == registry.listing(other).owner && (other != id ==> after.listing(other).ended
        == registry.listing(other).ended) by {
        if other != id {
            assert(registry.slot(other) != registry.slot(id));
        }
    }
    let open = registry.active[owner];
    let closed = registry.past[owner];
    open.index_of_first_ensures(id);
    if open.contains(id) {
        let at = open.index_of_first(id)->0;
        let rest = open.remove(at);
        assert(after.active[owner] == rest);
        assert(after.past[owner] == closed.push(id));
        assert forall|k: int| 0 <= k < rest.len() implies (#[trigger] rest[k]) != id && exists|m: int|
            0 <= m < open.len() && open[m] == rest[k] by {
            if k < at {
                assert(rest[k] == open[k]);
                assert(open[k] != open[at]);
            } else {
                assert(rest[k] == open[k + 1]);
                assert(open[at] != open[k + 1]);
            }
        }
        assert forall|who: Identity, k: int| 0 <= k < after.active[who].len() implies after.names_listing_of(
            who,
            #[trigger] after.active[who][k],
        ) && !after.listing(after.active[who][k]).ended by {
            if who == owner {
                let m = choose|m: int| 0 <= m < open.len() && open[m] == rest[k];
                assert(registry.names_listing_of(who, registry.active[who][m]));
            } else {
                assert(registry.names_listing_of(who, registry.active[who][k]));
                assert(registry.listing(registry.active[who][k]).owner != owner);
            }
        }
        assert forall|who: Identity, k: int| 0 <= k < after.past[who].len() implies after.names_listing_of(
            who,
            #[trigger] after.past[who][k],
        ) by {
            if who == owner && k == closed.len() {
            } else {
                assert(registry.names_listing_of(who, registry.past[who][k]));
            }
        }
        assert forall|i: int| 0 <= i < after.auctions.len() implies after.entered(
            (#[trigger] after.auctions[i]).owner,
            after.auctions[i].listing_id,
        ) by {
            let who = registry.auctions[i].owner;
            let name = registry.auctions[i].listing_id;
            assert(registry.entered(who, name));
            assert(after.auctions[i].owner == who && after.auctions[i].listing_id == name);
            if who == owner {
                if name == id {
                    assert(after.past[owner][closed.len() as int] == id);
                } else if open.contains(name) {
                    let m = open.index_of(name);
                    if m < at {
                        assert(rest[m] == name);
                    } else {
                        assert(rest[m - 1] == name);
                    }
                } else {
                    let m = closed.index_of(name);
                    assert(after.past[owner][m] == name);
                }
            }
        }
        assert forall|who: Identity, k: int, j: int| 0 <= k < j < after.active[who].len() implies (
        #[trigger] after.active[who][k]) != (#[trigger] after.active[who][j]) by {
            if who == owner {
                let a = if k < at {
                    k
                } else {
                    k + 1
                };
                let b = if j < at {
                    j
                } else {
                    j + 1
                };
                assert(open[a] != open[b]);
            } else {
                assert(registry.active[who][k] != registry.active[who][j]);
            }
        }
        assert forall|who: Identity, k: int, j: int| 0 <= k < j < after.past[who].len() implies (
        #[trigger] after.past[who][k]) != (#[trigger] after.past[who][j]) by {
            if who == owner && j == closed.len() {
                assert(open[at] != closed[k]);
            } else {
                assert(registry.past[who][k] != registry.past[who][j]);
            }
        }
        assert forall|who: Identity, k: int, j: int|
            0 <= k < after.active[who].len() && 0 <= j < after.past[who].len() implies (
        #[trigger] after.active[who][k]) != (#[trigger] after.past[who][j]) by {
            if who == owner {
                let a = if k < at {
                    k
                } else {
                    k + 1
                };
                if j == closed.len() {
                    assert(rest[k] != id);
                } else {
                    assert(open[a] != closed[j]);
                }
            } else {
                assert(registry.active[who][k] != registry.past[who][j]);
            }
        }
    } else {
        assert(after == placed);
        assert forall|who: Identity, k: int| 0 <= k < after.active[who].len() implies after.names_listing_of(
            who,
            #[trigger] after.active[who][k],
        ) && !after.listing(after.active[who][k]).ended by {
            assert(registry.names_listing_of(who, registry.active[who][k]));
            if after.active[who][k] == id {
                assert(open.contains(id));
            }
        }
        assert forall|i: int| 0 <= i < after.auctions.len() implies after.entered(
            (#[trigger] after.auctions[i]).owner,
            after.auctions[i].listing_id,
        ) by {
            assert(registry.entered(registry.auctions[i].owner, registry.auctions[i].listing_id));
        }
    }
}

} // verus!
