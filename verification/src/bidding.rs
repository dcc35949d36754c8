//! Bids: placing one on a listing, and creating a listing together with its
//! first bid.

use vstd::prelude::*;
use crate::auction::AuctionDetails;
use crate::error::ErrorCode;
use crate::events::{AuctionInitialized, BidPlaced, InitializedListing};
use crate::fees::net_of;
use crate::identity::Identity;
use crate::index_laws::lemma_with_listing_keeps_indexed;
use crate::registry::{
    check_new_listing, insert_listing, lemma_registry_precedes_itself, lemma_with_listing,
    lemma_with_new, NftComAuction, RegistryView,
};

verus! {

/// Who places the first bid on a new listing: the bidder named, or the owner
/// if none is named.
pub open spec fn seed_bidder(bidder: Option<Identity>, owner: Identity) -> Identity {
    match bidder {
        Some(named) => named,
        None => owner,
    }
}

impl RegistryView {
    /// What a bid on the listing `id` does, under the registry's buyer's fee,
    /// window and extension: the registry after it, or why the bid is
    /// refused.
    pub open spec fn place_bid(self, id: Seq<char>, bidder: Identity, caller: Identity, gross: u64, now: i64) -> Result<
        RegistryView,
        ErrorCode,
    > {
        if !self.has(id) {
            Err(ErrorCode::UnknownListing)
        } else {
            match self.listing(id).bid(
                bidder,
                caller,
                gross,
                now,
                self.buyer_fee,
                self.sniping_time_window,
                self.time_extension,
            ) {
                Ok(next) => Ok(self.with_listing(id, next)),
                Err(e) => Err(e),
            }
        }
    }

    /// What creating a listing with a first bid does, as one step: the
    /// listing is created or refused as any listing, and the first bid is
    /// placed on it. A first bid that is refused refuses the whole step, with
    /// one exception: where it is refused because the owner bids, the listing
    /// stands without bids.
    pub open spec fn initialize_auction(
        self,
        id: Seq<char>,
        minimum_bid: u64,
        end_time: i64,
        owner: Identity,
        bidder: Option<Identity>,
        caller: Identity,
        gross: u64,
        now: i64,
    ) -> Result<RegistryView, ErrorCode> {
        match self.create_listing(id, minimum_bid, end_time, owner, now) {
            Err(e) => Err(e),
            Ok(created) => match created.place_bid(id, seed_bidder(bidder, owner), caller, gross, now) {
                Ok(next) => Ok(next),
                Err(e) => if e == ErrorCode::SelfBid {
                    Ok(created)
                } else {
                    Err(e)
                },
            },
        }
    }
}

/// Places a bid of `bid_amount` on the listing `listing_id` at `now`, by
/// `caller` for `bidder`, and reports what was credited. A refused bid
/// changes nothing.
pub fn place_bid(
    state: &mut NftComAuction,
    listing_id: &str,
    bidder: Identity,
    caller: Identity,
    bid_amount: u64,
    now: i64,
) -> (r: Result<BidPlaced, ErrorCode>)
    requires
        old(state).wf(),
    ensures
        match old(state)@.place_bid(listing_id@, bidder, caller, bid_amount, now) {
            Ok(next) => r is Ok && final(state)@ == next && r->Ok_0.listing_id@ == listing_id@
                && r->Ok_0.sender == bidder && r->Ok_0.value == net_of(
                bid_amount as int,
                old(state)@.buyer_fee as int,
            ),
            Err(e) => r is Err && r->Err_0 == e && *final(state) == *old(state),
        },
        final(state).wf(),
        old(state)@.precedes(final(state)@),
        old(state)@.indexed() ==> final(state)@.indexed(),
{
    proof {
        lemma_registry_precedes_itself(state@);
    }
    let at = match state.find_listing(listing_id) {
        Some(at) => at,
        None => {
            return Err(ErrorCode::UnknownListing);
        },
    };
    let (net, end_time) = match state.auctions[at].preview_bid(
        bidder,
        caller,
        bid_amount,
        now,
        state.buyer_fee,
        state.sniping_time_window,
        state.time_extension,
    ) {
        Ok(terms) => terms,
        Err(e) => {
            return Err(e);
        },
    };
    assert(state@.auctions[at as int] == state.auctions[at as int]@);
    state.auctions[at].commit_bid(bidder, net, now, end_time);
    proof {
        let before = old(state)@;
        let next = state.auctions[at as int]@;
        assert(state@.auctions =~= before.auctions.update(at as int, next));
        lemma_with_listing(before, listing_id@, next);
        if before.indexed() {
            lemma_with_listing_keeps_indexed(before, listing_id@, next);
        }
    }
    Ok(BidPlaced { listing_id: listing_id.to_owned(), sender: bidder, value: net })
}

/// Creates the listing `listing_id` and places its first bid, of
/// `bid_amount`, by `caller` for `bidder` or, if no bidder is named, for the
/// owner, as one step. A listing that is refused, or a first bid that is
/// refused, refuses the whole step and changes nothing. The one exception is
/// the first bid that is refused because the owner bids, as bidder or as
/// caller: the listing is then created and stands without bids, and the
/// refusal is reported beside the listing's event.
pub fn initialize_auction(
    state: &mut NftComAuction,
    listing_id: &str,
    minimum: u64,
    end_time: i64,
    owner: Identity,
    bidder: Option<Identity>,
    caller: Identity,
    bid_amount: u64,
    now: i64,
) -> (r: Result<InitializedListing, ErrorCode>)
    requires
        old(state).wf(),
    ensures
        match old(state)@.initialize_auction(
            listing_id@,
            minimum,
            end_time,
            owner,
            bidder,
            caller,
            bid_amount,
            now,
        ) {
            Err(e) => r is Err && r->Err_0 == e && *final(state) == *old(state),
            Ok(next) => r is Ok && final(state)@ == next && r->Ok_0.event.listing_id@ == listing_id@
                && r->Ok_0.event.minimum == minimum && r->Ok_0.event.end_time == end_time
                && match old(state)@.create_listing(listing_id@, minimum, end_time, owner, now)->Ok_0.place_bid(
                listing_id@,
                seed_bidder(bidder, owner),
                caller,
                bid_amount,
                now,
            ) {
                Ok(_) => r->Ok_0.seed_bid is Ok && r->Ok_0.seed_bid->Ok_0.listing_id@ == listing_id@
                    && r->Ok_0.seed_bid->Ok_0.sender == seed_bidder(bidder, owner)
                    && r->Ok_0.seed_bid->Ok_0.value == net_of(
                    bid_amount as int,
                    old(state)@.buyer_fee as int,
                ),
                Err(_) => r->Ok_0.seed_bid is Err && r->Ok_0.seed_bid->Err_0 == ErrorCode::SelfBid,
            },
        },
        final(state).wf(),
        old(state)@.precedes(final(state)@),
        old(state)@.indexed() ==> final(state)@.indexed(),
{
    proof {
        lemma_registry_precedes_itself(state@);
    }
    match check_new_listing(state, listing_id, minimum, end_time, now) {
        Ok(()) => {},
        Err(e) => {
            return Err(e);
        },
    }
    let first = match bidder {
        Some(named) => named,
        None => owner,
    };
    let mut auction = AuctionDetails::new(listing_id.to_owned(), minimum, end_time, owner);
    let ghost opened = auction@;
    let ghost before = state@;
    let ghost created = before.with_new(opened);
    proof {
        lemma_with_new(before, opened);
    }
    let seed_bid = match auction.preview_bid(
        first,
        caller,
        bid_amount,
        now,
        state.buyer_fee,
        state.sniping_time_window,
        state.time_extension,
    ) {
        Ok((net, bid_end)) => {
            auction.commit_bid(first, net, now, bid_end);
            proof {
                assert(created.auctions.update(before.auctions.len() as int, auction@)
                    =~= before.auctions.push(auction@));
                assert(created.with_listing(listing_id@, auction@) == before.with_new(auction@));
            }
            Ok(BidPlaced { listing_id: listing_id.to_owned(), sender: first, value: net })
        },
        Err(e) => {
            match e {
                ErrorCode::SelfBid => {},
                _ => {
                    return Err(e);
                },
            }
            Err(e)
        },
    };
    insert_listing(state, auction);
    Ok(
        InitializedListing {
            event: AuctionInitialized { listing_id: listing_id.to_owned(), minimum, end_time },
            seed_bid,
        },
    )
}

} // verus!
