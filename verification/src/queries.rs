//! Read-only questions about the registry and its listings.

use vstd::prelude::*;
use crate::auction::{AuctionDetails, AuctionView, Bid};
use crate::error::ErrorCode;
use crate::identity::Identity;
use crate::ledger::{balance, holds, last_bid_time};
use crate::registry::NftComAuction;

verus! {

/// What a listing shows of itself.
#[derive(Debug)]
pub struct AuctionDetailsResponse {
    pub listing_id: String,
    pub highest_bid: u64,
    pub highest_bidder: Identity,
    pub minimum_bid: u64,
    pub ended: bool,
    pub owner: Identity,
    pub end_time: i64,
    pub total_amount: u64,
    /// Every bid, oldest first.
    pub bidders: Vec<Bid>,
    /// The number of bids.
    pub num_bidders: u64,
}

/// What a listing shows of itself, as a value of mathematics.
pub ghost struct AuctionSummary {
    pub listing_id: Seq<char>,
    pub highest_bid: u64,
    pub highest_bidder: Identity,
    pub minimum_bid: u64,
    pub ended: bool,
    pub owner: Identity,
    pub end_time: i64,
    pub total_amount: u64,
    pub bidders: Seq<Bid>,
    pub num_bidders: nat,
}

impl View for AuctionDetailsResponse {
    type V = AuctionSummary;

    open spec fn view(&self) -> AuctionSummary {
        AuctionSummary {
            listing_id: self.listing_id@,
            highest_bid: self.highest_bid,
            highest_bidder: self.highest_bidder,
            minimum_bid: self.minimum_bid,
            ended: self.ended,
            owner: self.owner,
            end_time: self.end_time,
            total_amount: self.total_amount,
            bidders: self.bidders@,
            num_bidders: self.num_bidders as nat,
        }
    }
}

/// The bids of one bidder over all listings: for each listing on which the
/// bidder has a position, in the order of the listings, its identifier, what
/// the bidder holds there and when the bidder last bid there.
pub open spec fn positions_of(auctions: Seq<AuctionView>, bidder: Identity) -> Seq<(Seq<char>, u64, i64)>
    decreases auctions.len(),
{
    if auctions.len() == 0 {
        Seq::empty()
    } else {
        let earlier = positions_of(auctions.drop_last(), bidder);
        let listing = auctions.last();
        if holds(listing.ledger, bidder) {
            earlier.push(
                (listing.listing_id, balance(listing.ledger, bidder), last_bid_time(listing.ledger, bidder)),
            )
        } else {
            earlier
        }
    }
}

impl AuctionView {
    /// What the listing shows of itself.
    pub open spec fn summary(self) -> AuctionSummary {
        AuctionSummary {
            listing_id: self.listing_id,
            highest_bid: self.highest_bid,
            highest_bidder: self.highest_bidder,
            minimum_bid: self.minimum_bid,
            ended: self.ended,
            owner: self.owner,
            end_time: self.end_time,
            total_amount: self.total_amount,
            bidders: self.history,
            num_bidders: self.history.len(),
        }
    }

    /// What `who` could withdraw now: nothing where a withdrawal would be
    /// refused.
    pub open spec fn pending_withdrawal(self, who: Identity) -> u64 {
        match self.withdrawal(who) {
            Ok((_, released)) => released,
            Err(_) => 0,
        }
    }

    /// How long the listing still runs at `now`: nothing once it has run out.
    pub open spec fn remaining_time(self, now: i64) -> int {
        if now < self.end_time {
            self.end_time - now
        } else {
            0
        }
    }

    /// The position of `user`: the user, what the user holds and when the
    /// user last bid; nobody, nothing and zero for a user without a position.
    pub open spec fn user_bid(self, user: Identity) -> (Identity, u64, i64) {
        if holds(self.ledger, user) {
            (user, balance(self.ledger, user), last_bid_time(self.ledger, user))
        } else {
            (Identity::zero(), 0u64, 0i64)
        }
    }

    /// How many of the latest bids a request for `n` gets.
    pub open spec fn latest_count(self, n: u64) -> int {
        if n <= self.history.len() {
            n as int
        } else {
            self.history.len() as int
        }
    }

    /// The `k`-th latest bid, counted from zero.
    pub open spec fn latest(self, k: int) -> Bid {
        self.history[self.history.len() - 1 - k]
    }
}

/// The listing `listing_id`.
fn lookup<'a>(state: &'a NftComAuction, listing_id: &str) -> (r: Result<&'a AuctionDetails, ErrorCode>)
    requires
        state.wf(),
    ensures
        !state@.has(listing_id@) ==> r is Err && r->Err_0 == ErrorCode::UnknownListing,
        state@.has(listing_id@) ==> r is Ok && r->Ok_0@ == state@.listing(listing_id@) && r->Ok_0@.wf(),
{
    match state.find_listing(listing_id) {
        Some(at) => {
            assert(state@.auctions[at as int] == state.auctions[at as int]@);
            Ok(&state.auctions[at])
        },
        None => Err(ErrorCode::UnknownListing),
    }
}

/// The leader of the listing `listing_id`: nobody while no bid leads.
pub fn get_highest_bidder(state: &NftComAuction, listing_id: &str) -> (r: Result<Identity, ErrorCode>)
    requires
        state.wf(),
    ensures
        !state@.has(listing_id@) ==> r == Err::<Identity, ErrorCode>(ErrorCode::UnknownListing),
        state@.has(listing_id@) ==> r == Ok::<Identity, ErrorCode>(
            state@.listing(listing_id@).highest_bidder,
        ),
{
    match lookup(state, listing_id) {
        Ok(auction) => Ok(auction.highest_bidder),
        Err(e) => Err(e),
    }
}

/// When the listing `listing_id` ends.
pub fn get_auction_end_time(state: &NftComAuction, listing_id: &str) -> (r: Result<i64, ErrorCode>)
    requires
        state.wf(),
    ensures
        !state@.has(listing_id@) ==> r == Err::<i64, ErrorCode>(ErrorCode::UnknownListing),
        state@.has(listing_id@) ==> r == Ok::<i64, ErrorCode>(state@.listing(listing_id@).end_time),
{
    match lookup(state, listing_id) {
        Ok(auction) => Ok(auction.end_time),
        Err(e) => Err(e),
    }
}

/// Whether the listing `listing_id` has been settled.
pub fn has_auction_ended(state: &NftComAuction, listing_id: &str) -> (r: Result<bool, ErrorCode>)
    requires
        state.wf(),
    ensures
        !state@.has(listing_id@) ==> r == Err::<bool, ErrorCode>(ErrorCode::UnknownListing),
        state@.has(listing_id@) ==> r == Ok::<bool, ErrorCode>(state@.listing(listing_id@).ended),
{
    match lookup(state, listing_id) {
        Ok(auction) => Ok(auction.ended),
        Err(e) => Err(e),
    }
}

/// The open listings of `owner`, oldest first.
pub fn get_active_auctions_of(state: &NftComAuction, owner: Identity) -> (list: Vec<String>)
    requires
        state.wf(),
    ensures
        crate::owner_index::names(list@) == state@.active[owner],
{
    state.active_auctions.listings(&owner)
}

/// The settled listings of `owner`, in the order of their settlement.
pub fn get_past_auctions_of(state: &NftComAuction, owner: Identity) -> (list: Vec<String>)
    requires
        state.wf(),
    ensures
        crate::owner_index::names(list@) == state@.past[owner],
{
    state.past_auctions.listings(&owner)
}

/// What `address` could withdraw from `auction` now.
pub fn get_pending_withdrawal_amount(auction: &AuctionDetails, address: Identity) -> (amount: u64)
    requires
        auction@.wf(),
    ensures
        amount == auction@.pending_withdrawal(address),
{
    match auction.preview_withdrawal(address) {
        Ok(released) => released,
        Err(_) => 0,
    }
}

/// What `address` could withdraw from the listing `listing_id` now.
pub fn get_pending_withdrawals(state: &NftComAuction, listing_id: &str, address: Identity) -> (r: Result<
    u64,
    ErrorCode,
>)
    requires
        state.wf(),
    ensures
        !state@.has(listing_id@) ==> r == Err::<u64, ErrorCode>(ErrorCode::UnknownListing),
        state@.has(listing_id@) ==> r == Ok::<u64, ErrorCode>(
            state@.listing(listing_id@).pending_withdrawal(address),
        ),
{
    match lookup(state, listing_id) {
        Ok(auction) => Ok(get_pending_withdrawal_amount(auction, address)),
        Err(e) => Err(e),
    }
}

/// What `bidder` holds in escrow on the listing `listing_id`: nothing for a
/// bidder without a position.
pub fn get_bid_amount(state: &NftComAuction, listing_id: &str, bidder: Identity) -> (r: Result<
    u64,
    ErrorCode,
>)
    requires
        state.wf(),
    ensures
        !state@.has(listing_id@) ==> r == Err::<u64, ErrorCode>(ErrorCode::UnknownListing),
        state@.has(listing_id@) ==> r == Ok::<u64, ErrorCode>(
            balance(state@.listing(listing_id@).ledger, bidder),
        ),
{
    match lookup(state, listing_id) {
        Ok(auction) => Ok(auction.bids.get(&bidder)),
        Err(e) => Err(e),
    }
}

/// The position of `user` on the listing `listing_id`: the user, what the
/// user holds and when the user last bid; nobody, nothing and zero for a
/// user without a position.
pub fn get_user_bid(state: &NftComAuction, listing_id: &str, user: Identity) -> (r: Result<
    (Identity, u64, i64),
    ErrorCode,
>)
    requires
        state.wf(),
    ensures
        !state@.has(listing_id@) ==> r == Err::<(Identity, u64, i64), ErrorCode>(
            ErrorCode::UnknownListing,
        ),
        state@.has(listing_id@) ==> r == Ok::<(Identity, u64, i64), ErrorCode>(
            state@.listing(listing_id@).user_bid(user),
        ),
{
    match lookup(state, listing_id) {
        Ok(auction) => match auction.bids.find(&user) {
            Some(at) => Ok((user, auction.bids.entries[at].escrowed_amount, auction.bids.entries[at].time)),
            None => Ok((Identity::none(), 0, 0)),
        },
        Err(e) => Err(e),
    }
}

/// The positions of `bidder` over all listings, in the order of the
/// listings: the identifiers, what the bidder holds on each, and when the
/// bidder last bid on each.
pub fn get_all_bids_of_user(state: &NftComAuction, bidder: Identity) -> (r: (Vec<String>, Vec<u64>, Vec<i64>))
    requires
        state.wf(),
    ensures
        r.0.len() == positions_of(state@.auctions, bidder).len(),
        r.1.len() == r.0.len(),
        r.2.len() == r.0.len(),
        forall|k: int|
            0 <= k < r.0.len() ==> (#[trigger] r.0[k])@ == positions_of(state@.auctions, bidder)[k].0,
        forall|k: int|
            0 <= k < r.0.len() ==> (#[trigger] r.1[k]) == positions_of(state@.auctions, bidder)[k].1,
        forall|k: int|
            0 <= k < r.0.len() ==> (#[trigger] r.2[k]) == positions_of(state@.auctions, bidder)[k].2,
{
    let mut ids: Vec<String> = Vec::new();
    let mut amounts: Vec<u64> = Vec::new();
    let mut times: Vec<i64> = Vec::new();
    let mut i: usize = 0;
    assert(state@.auctions.take(0) =~= Seq::<AuctionView>::empty());
    while i < state.auctions.len()
        invariant
            i <= state.auctions.len(),
            state.wf(),
            state@.auctions.len() == state.auctions.len(),
            ids.len() == positions_of(state@.auctions.take(i as int), bidder).len(),
            amounts.len() == ids.len(),
            times.len() == ids.len(),
            forall|k: int|
                0 <= k < ids.len() ==> (#[trigger] ids[k])@ == positions_of(
                    state@.auctions.take(i as int),
                    bidder,
                )[k].0,
            forall|k: int|
                0 <= k < ids.len() ==> (#[trigger] amounts[k]) == positions_of(
                    state@.auctions.take(i as int),
                    bidder,
                )[k].1,
            forall|k: int|
                0 <= k < ids.len() ==> (#[trigger] times[k]) == positions_of(
                    state@.auctions.take(i as int),
                    bidder,
                )[k].2,
        decreases state.auctions.len() - i,
    {
        let auction = &state.auctions[i];
        proof {
            assert(state@.auctions[i as int] == auction@);
            assert(auction@.wf());
            assert(state@.auctions.take(i + 1).drop_last() =~= state@.auctions.take(i as int));
            assert(state@.auctions.take(i + 1).last() == auction@);
        }
        match auction.bids.find(&bidder) {
            Some(at) => {
                ids.push(auction.listing_id.clone());
                amounts.push(auction.bids.entries[at].escrowed_amount);
                times.push(auction.bids.entries[at].time);
            },
            None => {},
        }
        i = i + 1;
    }
    assert(state@.auctions.take(i as int) =~= state@.auctions);
    (ids, amounts, times)
}

/// The latest bids on the listing `listing_id`, newest first: `n` of them,
/// or all if there are fewer. Returns the bidders, the amounts credited and
/// the times.
pub fn get_latest_bids(state: &NftComAuction, listing_id: &str, n: u64) -> (r: Result<
    (Vec<Identity>, Vec<u64>, Vec<i64>),
    ErrorCode,
>)
    requires
        state.wf(),
    ensures
        !state@.has(listing_id@) ==> r is Err && r->Err_0 == ErrorCode::UnknownListing,
        state@.has(listing_id@) ==> r is Ok && {
            let listing = state@.listing(listing_id@);
            let (bidders, amounts, times) = r->Ok_0;
            &&& bidders.len() == listing.latest_count(n)
            &&& amounts.len() == listing.latest_count(n)
            &&& times.len() == listing.latest_count(n)
            &&& forall|k: int|
                0 <= k < listing.latest_count(n) ==> (#[trigger] bidders[k]) == listing.latest(k).bidder
            &&& forall|k: int|
                0 <= k < listing.latest_count(n) ==> (#[trigger] amounts[k]) == listing.latest(k).amount
            &&& forall|k: int|
                0 <= k < listing.latest_count(n) ==> (#[trigger] times[k]) == listing.latest(k).time
        },
{
    let auction = match lookup(state, listing_id) {
        Ok(auction) => auction,
        Err(e) => {
            return Err(e);
        },
    };
    let length: usize = auction.bidders.len();
    let count: usize = if n <= length as u64 {
        n as usize
    } else {
        length
    };
    let mut bidders: Vec<Identity> = Vec::new();
    let mut amounts: Vec<u64> = Vec::new();
    let mut times: Vec<i64> = Vec::new();
    let mut i: usize = 0;
    while i < count
        invariant
            i <= count <= length,
            length == auction.bidders.len(),
            bidders.len() == i,
            amounts.len() == i,
            times.len() == i,
            forall|k: int| 0 <= k < i ==> (#[trigger] bidders[k]) == auction@.latest(k).bidder,
            forall|k: int| 0 <= k < i ==> (#[trigger] amounts[k]) == auction@.latest(k).amount,
            forall|k: int| 0 <= k < i ==> (#[trigger] times[k]) == auction@.latest(k).time,
        decreases count - i,
    {
        let bid = auction.bidders[length - 1 - i];
        bidders.push(bid.bidder);
        amounts.push(bid.amount);
        times.push(bid.time);
        i = i + 1;
    }
    Ok((bidders, amounts, times))
}

/// What the listing `listing_id` shows of itself.
pub fn get_auction_details(state: &NftComAuction, listing_id: &str) -> (r: Result<
    AuctionDetailsResponse,
    ErrorCode,
>)
    requires
        state.wf(),
    ensures
        !state@.has(listing_id@) ==> r is Err && r->Err_0 == ErrorCode::UnknownListing,
        state@.has(listing_id@) ==> r is Ok && r->Ok_0@ == state@.listing(listing_id@).summary(),
{
    let auction = match lookup(state, listing_id) {
        Ok(auction) => auction,
        Err(e) => {
            return Err(e);
        },
    };
    let mut bidders: Vec<Bid> = Vec::new();
    let mut i: usize = 0;
    while i < auction.bidders.len()
        invariant
            i <= auction.bidders.len(),
            bidders@ == auction.bidders@.take(i as int),
        decreases auction.bidders.len() - i,
    {
        bidders.push(auction.bidders[i]);
        assert(bidders@ =~= auction.bidders@.take(i + 1));
        i = i + 1;
    }
    assert(bidders@ =~= auction.bidders@);
    Ok(
        AuctionDetailsResponse {
            listing_id: auction.listing_id.clone(),
            highest_bid: auction.highest_bid,
            highest_bidder: auction.highest_bidder,
            minimum_bid: auction.minimum_bid,
            ended: auction.ended,
            owner: auction.owner,
            end_time: auction.end_time,
            total_amount: auction.total_amount,
            bidders,
            num_bidders: auction.bidders.len() as u64,
        },
    )
}

/// The leader of the listing `listing_id`, the highest bid, the end, and how
/// long the listing still runs at `now`.
pub fn get_highest_bid_and_end_time(state: &NftComAuction, listing_id: &str, now: i64) -> (r: Result<
    (Identity, u64, i64, u64),
    ErrorCode,
>)
    requires
        state.wf(),
    ensures
        !state@.has(listing_id@) ==> r == Err::<(Identity, u64, i64, u64), ErrorCode>(
            ErrorCode::UnknownListing,
        ),
        state@.has(listing_id@) ==> {
            let listing = state@.listing(listing_id@);
            r == Ok::<(Identity, u64, i64, u64), ErrorCode>(
                (
                    listing.highest_bidder,
                    listing.highest_bid,
                    listing.end_time,
                    listing.remaining_time(now) as u64,
                ),
            )
        },
        state@.has(listing_id@) ==> state@.listing(listing_id@).remaining_time(now) <= u64::MAX,
{
    match lookup(state, listing_id) {
        Ok(auction) => {
            let remaining: u64 = if now < auction.end_time {
                (auction.end_time as i128 - now as i128) as u64
            } else {
                0
            };
            Ok((auction.highest_bidder, auction.highest_bid, auction.end_time, remaining))
        },
        Err(e) => Err(e),
    }
}

/// The winner of the listing `listing_id`, once it is settled.
pub fn get_winner(state: &NftComAuction, listing_id: &str) -> (r: Result<Identity, ErrorCode>)
    requires
        state.wf(),
    ensures
        !state@.has(listing_id@) ==> r == Err::<Identity, ErrorCode>(ErrorCode::UnknownListing),
        state@.has(listing_id@) && !state@.listing(listing_id@).ended ==> r == Err::<
            Identity,
            ErrorCode,
        >(ErrorCode::AuctionNotYetExpired),
        state@.has(listing_id@) && state@.listing(listing_id@).ended ==> r == Ok::<Identity, ErrorCode>(
            state@.listing(listing_id@).highest_bidder,
        ),
{
    match lookup(state, listing_id) {
        Ok(auction) => if auction.ended {
            Ok(auction.highest_bidder)
        } else {
            Err(ErrorCode::AuctionNotYetExpired)
        },
        Err(e) => Err(e),
    }
}

} // verus!
