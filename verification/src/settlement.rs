//! Settlement: ending a listing that has run out, paying the owner and the
//! fee recipient, and moving the listing to its owner's settled ones.

use vstd::prelude::*;
use crate::auction::Payout;
use crate::error::ErrorCode;
use crate::events::{AuctionEnded, MintRequest, Settlement, Transfer};
use crate::identity::Identity;
use crate::index_laws::lemma_reclassify_keeps_indexed;
use crate::ledger::last_bid_time;
use crate::registry::{lemma_registry_precedes_chains, lemma_registry_precedes_itself, lemma_with_listing, move_to_past, NftComAuction, RegistryView};
use crate::utils::{generate_metadata, metadata_text};

verus! {

impl RegistryView {
    /// Whether the listing `id` can be settled at `now`, and what the
    /// settlement then pays. Beyond what the listing itself asks, its owner
    /// and the settlement contract must each be somebody.
    pub open spec fn settlement_plan(self, id: Seq<char>, now: i64, settlement_contract: Identity) -> Result<
        Payout,
        ErrorCode,
    > {
        if !self.has(id) {
            Err(ErrorCode::UnknownListing)
        } else {
            match self.listing(id).settlement(now, self.seller_fee) {
                Err(e) => Err(e),
                Ok(payout) => if self.listing(id).owner.is_none() {
                    Err(ErrorCode::InvalidSeller)
                } else if settlement_contract.is_none() {
                    Err(ErrorCode::InvalidPaymentContract)
                } else {
                    Ok(payout)
                },
            }
        }
    }

    /// The settlement record of the listing `id`: its identifier, the highest
    /// bid, when the leader last bid, the owner and the settlement contract.
    pub open spec fn settlement_record(self, id: Seq<char>, settlement_contract: Identity) -> Seq<char> {
        let listing = self.listing(id);
        metadata_text(
            id,
            listing.highest_bid,
            last_bid_time(listing.ledger, listing.highest_bidder),
            listing.owner.text(),
            settlement_contract.text(),
        )
    }

    /// What ending the listing `id` at `now` does once the mint has answered:
    /// the registry after it and what is paid, or why the listing is not
    /// ended. A mint that failed ends nothing.
    pub open spec fn end_auction(
        self,
        id: Seq<char>,
        now: i64,
        settlement_contract: Identity,
        minted: bool,
    ) -> Result<(RegistryView, Payout), ErrorCode> {
        match self.settlement_plan(id, now, settlement_contract) {
            Err(e) => Err(e),
            Ok(payout) => if !minted {
                Err(ErrorCode::MintingFailed)
            } else {
                Ok((self.with_listing(id, self.listing(id).settled()).reclassified(id), payout))
            },
        }
    }
}

/// Tells whether the listing `listing_id` can be settled at `now` and, if
/// so, what the host has to ask of the mint first. Changes nothing.
pub fn prepare_settlement(
    state: &NftComAuction,
    listing_id: &str,
    now: i64,
    settlement_contract: Identity,
    hook: Identity,
) -> (r: Result<MintRequest, ErrorCode>)
    requires
        state.wf(),
    ensures
        match state@.settlement_plan(listing_id@, now, settlement_contract) {
            Err(e) => r is Err && r->Err_0 == e,
            Ok(_) => r is Ok && r->Ok_0.winner == state@.listing(listing_id@).highest_bidder
                && r->Ok_0.listing_id@ == listing_id@ && r->Ok_0.metadata@ == state@.settlement_record(
                listing_id@,
                settlement_contract,
            ) && r->Ok_0.owner == state@.listing(listing_id@).owner && r->Ok_0.amount == state@.listing(
                listing_id@,
            ).highest_bid && r->Ok_0.hook == hook,
        },
{
    let at = match state.find_listing(listing_id) {
        Some(at) => at,
        None => {
            return Err(ErrorCode::UnknownListing);
        },
    };
    let auction = &state.auctions[at];
    assert(state@.auctions[at as int] == auction@);
    assert(auction@.wf());
    match auction.check_settlement(now, state.seller_fee) {
        Ok(_) => {},
        Err(e) => {
            return Err(e);
        },
    }
    let win_time = auction.bids.time_of(&auction.highest_bidder);
    let metadata = match generate_metadata(
        listing_id,
        auction.highest_bid,
        win_time,
        auction.owner,
        settlement_contract,
    ) {
        Ok(metadata) => metadata,
        Err(e) => {
            return Err(e);
        },
    };
    Ok(
        MintRequest {
            winner: auction.highest_bidder,
            listing_id: listing_id.to_owned(),
            metadata,
            owner: auction.owner,
            amount: auction.highest_bid,
            hook,
        },
    )
}

/// Ends the listing `listing_id` at `now`, given whether the mint that
/// `prepare_settlement` asked for has succeeded. The listing must have run
/// out, must not have been ended before and must have a leader; the fees
/// must fit; the owner and the settlement contract must each be somebody;
/// and the mint must have succeeded. The tests are made in this order, and
/// a listing that is not ended is left as it was, so that it can be ended
/// later. Otherwise the listing is ended, the escrow that is paid out is
/// closed, the listing moves from its owner's open listings to the settled
/// ones, and the two transfers that the host has to make are returned: the
/// earnings to the owner, the fee to the fee recipient.
pub fn end_auction(
    state: &mut NftComAuction,
    listing_id: &str,
    now: i64,
    settlement_contract: Identity,
    minted: bool,
) -> (r: Result<Settlement, ErrorCode>)
    requires
        old(state).wf(),
    ensures
        match old(state)@.end_auction(listing_id@, now, settlement_contract, minted) {
            Err(e) => r is Err && r->Err_0 == e && *final(state) == *old(state),
            Ok((next, payout)) => r is Ok && final(state)@ == next && r->Ok_0.owner_payment == (Transfer {
                to: old(state)@.listing(listing_id@).owner,
                amount: payout.owner_earnings,
            }) && r->Ok_0.fee_payment == (Transfer {
                to: old(state)@.fee_recipient,
                amount: payout.fee,
            }) && r->Ok_0.event.listing_id@ == listing_id@ && r->Ok_0.event.winner == old(
                state,
            )@.listing(listing_id@).highest_bidder && r->Ok_0.event.amount == old(state)@.listing(
                listing_id@,
            ).highest_bid,
        },
        final(state).wf(),
        old(state)@.precedes(final(state)@),
        old(state)@.indexed() ==> final(state)@.indexed(),
{
    proof {
        lemma_registry_precedes_itself(state@);
    }
    let at = match state.find_listing(listing_id) {
        Some(at) => at,
        None => {
            return Err(ErrorCode::UnknownListing);
        },
    };
    assert(state@.auctions[at as int] == state.auctions[at as int]@);
    let payout = match state.auctions[at].check_settlement(now, state.seller_fee) {
        Ok(payout) => payout,
        Err(e) => {
            return Err(e);
        },
    };
    let owner = state.auctions[at].owner;
    let winner = state.auctions[at].highest_bidder;
    let amount = state.auctions[at].highest_bid;
    if owner.is_zero() {
        return Err(ErrorCode::InvalidSeller);
    }
    if settlement_contract.is_zero() {
        return Err(ErrorCode::InvalidPaymentContract);
    }
    if !minted {
        return Err(ErrorCode::MintingFailed);
    }
    state.auctions[at].settle();
    let ghost ended = state@;
    proof {
        let before = old(state)@;
        let next = state.auctions[at as int]@;
        assert(ended.auctions =~= before.auctions.update(at as int, next));
        lemma_with_listing(before, listing_id@, next);
        assert(ended == before.with_listing(listing_id@, next));
        if before.indexed() {
            lemma_reclassify_keeps_indexed(before, listing_id@, next);
        }
    }
    move_to_past(state, at);
    proof {
        assert(state@.auctions == ended.auctions);
        lemma_registry_precedes_itself(ended);
        lemma_registry_precedes_chains(old(state)@, ended, state@);
    }
    Ok(
        Settlement {
            owner_payment: Transfer { to: owner, amount: payout.owner_earnings },
            fee_payment: Transfer { to: state.fee_recipient, amount: payout.fee },
            event: AuctionEnded { listing_id: listing_id.to_owned(), winner, amount },
        },
    )
}

} // verus!
