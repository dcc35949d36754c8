//! The registry: every listing under its identifier, the listings of each
//! owner that are still open and those that are settled, and the terms that
//! hold for all listings.

use vstd::prelude::*;
use crate::auction::{lemma_precedes_chains, lemma_precedes_itself, AuctionDetails, AuctionView};
use crate::error::ErrorCode;
use crate::identity::Identity;
use crate::fees::FEE_DENOMINATOR;
use crate::index_laws::{lemma_empty_is_indexed, lemma_reclassify_keeps_indexed, lemma_with_new_keeps_indexed};
use crate::owner_index::OwnerIndex;

verus! {

/// The state of the auction engine.
#[derive(Debug)]
pub struct NftComAuction {
    /// The listings, in the order in which they were created; no two share an
    /// identifier.
    pub auctions: Vec<AuctionDetails>,
    /// The open listings of each owner, oldest first.
    pub active_auctions: OwnerIndex,
    /// The settled listings of each owner, in the order of their settlement.
    pub past_auctions: OwnerIndex,
    /// Who receives the fees.
    pub fee_recipient: Identity,
    /// The contract that mints for the winner.
    pub nft_contract: Identity,
    /// The buyer's fee, in thousandths of a bid.
    pub buyer_fee: u64,
    /// The seller's fee, in thousandths of the highest bid.
    pub seller_fee: u64,
    /// How long before its end a listing counts as about to end.
    pub sniping_time_window: u64,
    /// By how much a bid that comes within the window moves the end back.
    pub time_extension: u64,
}

/// The state of the auction engine as a value of mathematics.
pub ghost struct RegistryView {
    pub auctions: Seq<AuctionView>,
    pub active: Map<Identity, Seq<Seq<char>>>,
    pub past: Map<Identity, Seq<Seq<char>>>,
    pub fee_recipient: Identity,
    pub nft_contract: Identity,
    pub buyer_fee: u64,
    pub seller_fee: u64,
    pub sniping_time_window: u64,
    pub time_extension: u64,
}

impl View for NftComAuction {
    type V = RegistryView;

    open spec fn view(&self) -> RegistryView {
        RegistryView {
            auctions: self.auctions@.map_values(|a: AuctionDetails| a@),
            active: self.active_auctions@,
            past: self.past_auctions@,
            fee_recipient: self.fee_recipient,
            nft_contract: self.nft_contract,
            buyer_fee: self.buyer_fee,
            seller_fee: self.seller_fee,
            sniping_time_window: self.sniping_time_window,
            time_extension: self.time_extension,
        }
    }
}

impl RegistryView {
    /// Whether a listing has the identifier `id`.
    pub open spec fn has(self, id: Seq<char>) -> bool {
        exists|i: int| 0 <= i < self.auctions.len() && (#[trigger] self.auctions[i]).listing_id == id
    }

    /// The place of the listing `id`, if there is one.
    pub open spec fn slot(self, id: Seq<char>) -> int {
        choose|i: int| 0 <= i < self.auctions.len() && (#[trigger] self.auctions[i]).listing_id == id
    }

    /// The listing `id`, if there is one.
    pub open spec fn listing(self, id: Seq<char>) -> AuctionView {
        self.auctions[self.slot(id)]
    }

    /// No two listings share an identifier.
    pub open spec fn ids_distinct(self) -> bool {
        forall|i: int, j: int|
            0 <= i < j < self.auctions.len() ==> (#[trigger] self.auctions[i]).listing_id != (
            #[trigger] self.auctions[j]).listing_id
    }

    /// The registry is consistent: no two listings share an identifier, every
    /// listing is consistent, and neither fee rate is above a thousand
    /// thousandths.
    pub open spec fn wf(self) -> bool {
        &&& self.ids_distinct()
        &&& forall|i: int| 0 <= i < self.auctions.len() ==> (#[trigger] self.auctions[i]).wf()
        &&& self.buyer_fee <= 1000
        &&& self.seller_fee <= 1000
    }

    /// The registry with `fresh` as its newest listing, entered as the newest
    /// open listing of its owner.
    pub open spec fn with_new(self, fresh: AuctionView) -> RegistryView {
        RegistryView {
            auctions: self.auctions.push(fresh),
            active: self.active.insert(fresh.owner, self.active[fresh.owner].push(fresh.listing_id)),
            ..self
        }
    }

    /// Why a listing cannot be created at `now`, if it cannot: its identifier
    /// is taken, its minimum bid is zero, or its end is not after `now`.
    pub open spec fn creation_refused(self, id: Seq<char>, minimum_bid: u64, end_time: i64, now: i64) -> Option<
        ErrorCode,
    > {
        if self.has(id) {
            Some(ErrorCode::DuplicateListing)
        } else if minimum_bid == 0 {
            Some(ErrorCode::InvalidMinimum)
        } else if end_time <= now {
            Some(ErrorCode::InvalidEndTime)
        } else {
            None
        }
    }

    /// The registry with `next` in the place of the listing `id`.
    pub open spec fn with_listing(self, id: Seq<char>, next: AuctionView) -> RegistryView {
        RegistryView { auctions: self.auctions.update(self.slot(id), next), ..self }
    }

    /// What creating a listing at `now` does: the registry with the new
    /// listing, entered as the owner's newest open one, or why the listing
    /// is refused.
    pub open spec fn create_listing(
        self,
        id: Seq<char>,
        minimum_bid: u64,
        end_time: i64,
        owner: Identity,
        now: i64,
    ) -> Result<RegistryView, ErrorCode> {
        match self.creation_refused(id, minimum_bid, end_time, now) {
            Some(e) => Err(e),
            None => Ok(self.with_new(AuctionView::opened(id, minimum_bid, end_time, owner))),
        }
    }

    /// The registry once the listing `id` is moved from its owner's open
    /// listings to the settled ones; unchanged if it is not among the open
    /// ones.
    pub open spec fn reclassified(self, id: Seq<char>) -> RegistryView {
        let owner = self.listing(id).owner;
        if self.active[owner].contains(id) {
            RegistryView {
                active: self.active.insert(owner, self.active[owner].remove_value(id)),
                past: self.past.insert(owner, self.past[owner].push(id)),
                ..self
            }
        } else {
            self
        }
    }

    /// What may become of a registry: listings are added, never removed, and
    /// what becomes of each is what may become of a listing.
    pub open spec fn precedes(self, later: RegistryView) -> bool {
        &&& self.auctions.len() <= later.auctions.len()
        &&& forall|i: int|
            0 <= i < self.auctions.len() ==> (#[trigger] self.auctions[i]).precedes(later.auctions[i])
    }
}

/// Among distinct identifiers, a listing is where one finds it.
pub proof fn lemma_listing_slot_unique(registry: RegistryView, id: Seq<char>, i: int)
    requires
        registry.ids_distinct(),
        0 <= i < registry.auctions.len(),
        registry.auctions[i].listing_id == id,
    ensures
        registry.has(id),
        registry.slot(id) == i,
{
    let at = registry.slot(id);
    assert(0 <= at < registry.auctions.len() && registry.auctions[at].listing_id == id);
    if at < i {
        assert(registry.auctions[at].listing_id != registry.auctions[i].listing_id);
    } else if i < at {
        assert(registry.auctions[i].listing_id != registry.auctions[at].listing_id);
    }
}

/// Putting what a listing may become in its place keeps the registry
/// consistent and is what may become of the registry; the listings keep their
/// places, and every other listing stays as it is.
pub proof fn lemma_with_listing(registry: RegistryView, id: Seq<char>, next: AuctionView)
    requires
        registry.wf(),
        registry.has(id),
        next.wf(),
        registry.listing(id).precedes(next),
    ensures
        registry.with_listing(id, next).wf(),
        registry.precedes(registry.with_listing(id, next)),
        registry.with_listing(id, next).listing(id) == next,
        forall|other: Seq<char>| registry.with_listing(id, next).has(other) == registry.has(other),
        forall|other: Seq<char>|
            registry.has(other) ==> registry.with_listing(id, next).slot(other) == registry.slot(other),
        forall|other: Seq<char>|
            registry.has(other) && other != id ==> registry.with_listing(id, next).listing(other)
                == registry.listing(other),
{
    let after = registry.with_listing(id, next);
    let at = registry.slot(id);
    assert forall|i: int, j: int| 0 <= i < j < after.auctions.len() implies (
    #[trigger] after.auctions[i]).listing_id != (#[trigger] after.auctions[j]).listing_id by {
        assert(registry.auctions[i].listing_id != registry.auctions[j].listing_id);
    }
    assert forall|i: int| 0 <= i < after.auctions.len() implies (#[trigger] after.auctions[i]).wf() by {
        if i != at {
            assert(registry.auctions[i].wf());
        }
    }
    assert forall|i: int| 0 <= i < registry.auctions.len() implies (
    #[trigger] registry.auctions[i]).precedes(after.auctions[i]) by {
        if i != at {
            lemma_precedes_itself(registry.auctions[i]);
        }
    }
    assert forall|other: Seq<char>| after.has(other) == registry.has(other) && (registry.has(other)
        ==> after.slot(other) == registry.slot(other)) by {
        if registry.has(other) {
            let k = registry.slot(other);
            assert(after.auctions[k].listing_id == other);
            lemma_listing_slot_unique(after, other, k);
        }
        if after.has(other) {
            let k = after.slot(other);
            assert(registry.auctions[k].listing_id == other);
        }
    }
}

/// Adding a consistent listing under a new identifier keeps the registry
/// consistent and is what may become of the registry; the new listing is the
/// one that its identifier names, and every other listing stays as it is.
pub proof fn lemma_with_new(registry: RegistryView, fresh: AuctionView)
    requires
        registry.wf(),
        !registry.has(fresh.listing_id),
        fresh.wf(),
    ensures
        registry.with_new(fresh).wf(),
        registry.precedes(registry.with_new(fresh)),
        registry.with_new(fresh).has(fresh.listing_id),
        registry.with_new(fresh).slot(fresh.listing_id) == registry.auctions.len(),
        registry.with_new(fresh).listing(fresh.listing_id) == fresh,
        forall|other: Seq<char>|
            registry.has(other) ==> registry.with_new(fresh).has(other) && registry.with_new(fresh).slot(
                other,
            ) == registry.slot(other) && registry.with_new(fresh).listing(other) == registry.listing(
                other,
            ),
{
    let after = registry.with_new(fresh);
    let last = registry.auctions.len() as int;
    assert(after.auctions[last] == fresh);
    assert forall|i: int, j: int| 0 <= i < j < after.auctions.len() implies (
    #[trigger] after.auctions[i]).listing_id != (#[trigger] after.auctions[j]).listing_id by {
        if j == last {
            assert(registry.auctions[i].listing_id != fresh.listing_id);
        } else {
            assert(registry.auctions[i].listing_id != registry.auctions[j].listing_id);
        }
    }
    assert forall|i: int| 0 <= i < after.auctions.len() implies (#[trigger] after.auctions[i]).wf() by {
        if i < last {
            assert(registry.auctions[i].wf());
        }
    }
    assert forall|i: int| 0 <= i < registry.auctions.len() implies (
    #[trigger] registry.auctions[i]).precedes(after.auctions[i]) by {
        lemma_precedes_itself(registry.auctions[i]);
    }
    lemma_listing_slot_unique(after, fresh.listing_id, last);
    assert forall|other: Seq<char>| registry.has(other) implies after.has(other) && after.slot(other)
        == registry.slot(other) && after.listing(other) == registry.listing(other) by {
        let k = registry.slot(other);
        assert(after.auctions[k] == registry.auctions[k]);
        lemma_listing_slot_unique(after, other, k);
    }
}

/// A registry may become itself.
pub proof fn lemma_registry_precedes_itself(registry: RegistryView)
    ensures
        registry.precedes(registry),
{
    assert forall|i: int| 0 <= i < registry.auctions.len() implies (
    #[trigger] registry.auctions[i]).precedes(registry.auctions[i]) by {
        lemma_precedes_itself(registry.auctions[i]);
    }
}

/// Over any run of steps, each of which leads from a registry to one that it
/// may become, no listing disappears, no end moves back and no settled
/// listing reopens: what may become of what a registry may become, the
/// registry may become.
pub proof fn lemma_registry_precedes_chains(a: RegistryView, b: RegistryView, c: RegistryView)
    requires
        a.precedes(b),
        b.precedes(c),
    ensures
        a.precedes(c),
{
    assert forall|i: int| 0 <= i < a.auctions.len() implies (#[trigger] a.auctions[i]).precedes(
        c.auctions[i],
    ) by {
        assert(b.auctions[i].precedes(c.auctions[i]));
        lemma_precedes_chains(a.auctions[i], b.auctions[i], c.auctions[i]);
    }
}

impl NftComAuction {
    /// The registry is consistent, and so are its two indexes.
    pub open spec fn wf(self) -> bool {
        &&& self@.wf()
        &&& self.active_auctions.wf()
        &&& self.past_auctions.wf()
    }

    /// A registry without listings, under the given terms. A fee rate above a
    /// thousand thousandths is refused.
    pub fn new(
        fee_recipient: Identity,
        nft_contract: Identity,
        buyer_fee: u64,
        seller_fee: u64,
        sniping_time_window: u64,
        time_extension: u64,
    ) -> (r: Result<NftComAuction, ErrorCode>)
        ensures
            buyer_fee > 1000 || seller_fee > 1000 ==> r is Err && r->Err_0 == ErrorCode::InvalidFeeRate,
            buyer_fee <= 1000 && seller_fee <= 1000 ==> r is Ok && r->Ok_0.wf() && r->Ok_0@.indexed()
                && r->Ok_0.auctions@ == Seq::<AuctionDetails>::empty() && r->Ok_0@ == (RegistryView {
                auctions: Seq::empty(),
                active: Map::total(|owner: Identity| Seq::<Seq<char>>::empty()),
                past: Map::total(|owner: Identity| Seq::<Seq<char>>::empty()),
                fee_recipient,
                nft_contract,
                buyer_fee,
                seller_fee,
                sniping_time_window,
                time_extension,
            }),
    {
        if buyer_fee > FEE_DENOMINATOR || seller_fee > FEE_DENOMINATOR {
            return Err(ErrorCode::InvalidFeeRate);
        }
        let state = NftComAuction {
            auctions: Vec::new(),
            active_auctions: OwnerIndex::new(),
            past_auctions: OwnerIndex::new(),
            fee_recipient,
            nft_contract,
            buyer_fee,
            seller_fee,
            sniping_time_window,
            time_extension,
        };
        assert(state@.auctions =~= Seq::empty());
        proof {
            lemma_empty_is_indexed(state@);
        }
        Ok(state)
    }

    /// Tells whether the registry is consistent.
    pub fn is_consistent(&self) -> (ok: bool)
        ensures
            ok == self.wf(),
    {
        if !self.active_auctions.is_distinct() || !self.past_auctions.is_distinct() {
            return false;
        }
        if self.buyer_fee > FEE_DENOMINATOR || self.seller_fee > FEE_DENOMINATOR {
            return false;
        }
        let mut j: usize = 0;
        while j < self.auctions.len()
            invariant
                j <= self.auctions.len(),
                self@.auctions.len() == self.auctions.len(),
                forall|a: int| 0 <= a < j ==> (#[trigger] self@.auctions[a]).wf(),
                forall|a: int, b: int|
                    0 <= a < b < j ==> (#[trigger] self@.auctions[a]).listing_id != (
                    #[trigger] self@.auctions[b]).listing_id,
            decreases self.auctions.len() - j,
        {
            assert(self@.auctions[j as int] == self.auctions[j as int]@);
            if !self.auctions[j].is_consistent() {
                return false;
            }
            let mut i: usize = 0;
            while i < j
                invariant
                    i <= j < self.auctions.len(),
                    self@.auctions.len() == self.auctions.len(),
                    forall|a: int|
                        0 <= a < i ==> (#[trigger] self@.auctions[a]).listing_id
                            != self@.auctions[j as int].listing_id,
                decreases j - i,
            {
                assert(self@.auctions[i as int] == self.auctions[i as int]@);
                assert(self@.auctions[j as int] == self.auctions[j as int]@);
                if self.auctions[i].listing_id == self.auctions[j].listing_id {
                    return false;
                }
                i = i + 1;
            }
            j = j + 1;
        }
        true
    }

    /// The place of the listing `listing_id`.
    pub fn find_listing(&self, listing_id: &str) -> (at: Option<usize>)
        requires
            self.wf(),
        ensures
            at is Some <==> self@.has(listing_id@),
            at is Some ==> at->0 == self@.slot(listing_id@) && at->0 < self.auctions.len(),
    {
        let key = listing_id.to_owned();
        let mut i: usize = 0;
        while i < self.auctions.len()
            invariant
                i <= self.auctions.len(),
                self.wf(),
                key@ == listing_id@,
                forall|j: int| 0 <= j < i ==> (#[trigger] self@.auctions[j]).listing_id != listing_id@,
            decreases self.auctions.len() - i,
        {
            if self.auctions[i].listing_id == key {
                proof {
                    lemma_listing_slot_unique(self@, listing_id@, i as int);
                }
                return Some(i);
            }
            i = i + 1;
        }
        None
    }
}

/// Tells why the listing `listing_id` cannot be created at `now`, if it
/// cannot. Changes nothing.
pub(crate) fn check_new_listing(
    state: &NftComAuction,
    listing_id: &str,
    minimum_bid: u64,
    end_time: i64,
    now: i64,
) -> (r: Result<(), ErrorCode>)
    requires
        state.wf(),
    ensures
        match state@.creation_refused(listing_id@, minimum_bid, end_time, now) {
            Some(e) => r == Err::<(), ErrorCode>(e),
            None => r is Ok,
        },
{
    if state.find_listing(listing_id).is_some() {
        return Err(ErrorCode::DuplicateListing);
    }
    if minimum_bid == 0 {
        return Err(ErrorCode::InvalidMinimum);
    }
    if end_time <= now {
        return Err(ErrorCode::InvalidEndTime);
    }
    Ok(())
}

/// Adds `auction` as the newest listing and enters it as the newest open
/// listing of its owner.
pub(crate) fn insert_listing(state: &mut NftComAuction, auction: AuctionDetails)
    requires
        old(state).wf(),
        auction@.wf(),
        !auction@.ended,
        !old(state)@.has(auction@.listing_id),
    ensures
        final(state)@ == old(state)@.with_new(auction@),
        final(state).wf(),
        old(state)@.precedes(final(state)@),
        old(state)@.indexed() ==> final(state)@.indexed(),
{
    let ghost fresh = auction@;
    let owner = auction.owner;
    let name = auction.listing_id.clone();
    state.auctions.push(auction);
    state.active_auctions.add(owner, name);
    proof {
        let before = old(state)@;
        assert(state@.auctions =~= before.auctions.push(fresh));
        lemma_with_new(before, fresh);
        if before.indexed() {
            lemma_with_new_keeps_indexed(before, fresh);
        }
    }
}

/// Creates the listing `listing_id` and enters it as the newest open listing
/// of `owner`. The identifier must be new, the minimum bid positive and the
/// end after `now`; the three are tested in this order. A refused listing
/// changes nothing.
pub fn create_listing(
    state: &mut NftComAuction,
    listing_id: &str,
    minimum_bid: u64,
    end_time: i64,
    owner: Identity,
    now: i64,
) -> (r: Result<(), ErrorCode>)
    requires
        old(state).wf(),
    ensures
        match old(state)@.create_listing(listing_id@, minimum_bid, end_time, owner, now) {
            Ok(next) => r is Ok && final(state)@ == next,
            Err(e) => r == Err::<(), ErrorCode>(e) && *final(state) == *old(state),
        },
        final(state).wf(),
        old(state)@.precedes(final(state)@),
        old(state)@.indexed() ==> final(state)@.indexed(),
{
    proof {
        lemma_registry_precedes_itself(state@);
    }
    match check_new_listing(state, listing_id, minimum_bid, end_time, now) {
        Ok(()) => {},
        Err(e) => {
            return Err(e);
        },
    }
    let auction = AuctionDetails::new(listing_id.to_owned(), minimum_bid, end_time, owner);
    insert_listing(state, auction);
    Ok(())
}

/// Moves the listing `listing_id` from its owner's open listings to the
/// settled ones and tells whether it was among the open ones; a listing that
/// was moved before stays where it is.
pub fn reclassify(state: &mut NftComAuction, listing_id: &str) -> (r: Result<bool, ErrorCode>)
    requires
        old(state).wf(),
    ensures
        !old(state)@.has(listing_id@) ==> r == Err::<bool, ErrorCode>(ErrorCode::UnknownListing)
            && *final(state) == *old(state),
        old(state)@.has(listing_id@) ==> r == Ok::<bool, ErrorCode>(
            old(state)@.active[old(state)@.listing(listing_id@).owner].contains(listing_id@),
        ) && final(state)@ == old(state)@.reclassified(listing_id@),
        final(state).wf(),
        old(state)@.precedes(final(state)@),
        old(state)@.indexed() ==> final(state)@.indexed(),
{
    proof {
        lemma_registry_precedes_itself(state@);
    }
    let at = match state.find_listing(listing_id) {
        Some(at) => at,
        None => {
            return Err(ErrorCode::UnknownListing);
        },
    };
    let moved = move_to_past(state, at);
    proof {
        let before = old(state)@;
        if before.indexed() {
            let same = before.listing(listing_id@);
            lemma_precedes_itself(same);
            lemma_reclassify_keeps_indexed(before, listing_id@, same);
            assert(before.auctions.update(before.slot(listing_id@), same) =~= before.auctions);
            assert(before.with_listing(listing_id@, same) == before);
        }
    }
    Ok(moved)
}

/// Moves the listing at `at` from its owner's open listings to the settled
/// ones and tells whether it was among the open ones.
pub(crate) fn move_to_past(state: &mut NftComAuction, at: usize) -> (moved: bool)
    requires
        old(state).wf(),
        at < old(state).auctions.len(),
    ensures
        final(state).wf(),
        final(state).auctions == old(state).auctions,
        moved == old(state)@.active[old(state).auctions[at as int].owner].contains(
            old(state).auctions[at as int].listing_id@,
        ),
        final(state)@ == old(state)@.reclassified(old(state).auctions[at as int].listing_id@),
{
    let owner = state.auctions[at].owner;
    let key = state.auctions[at].listing_id.clone();
    proof {
        lemma_listing_slot_unique(state@, key@, at as int);
    }
    let moved = state.active_auctions.remove(&owner, &key);
    if moved {
        state.past_auctions.add(owner, key);
    } else {
        proof {
            let held = old(state)@.active[owner];
            held.index_of_first_ensures(key@);
            assert(state@.active =~= old(state)@.active);
        }
    }
    moved
}

} // verus!
