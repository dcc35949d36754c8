//! The terms of the registry, which its authority may change. That the
//! caller is the authority is for the host to establish before it calls.

use vstd::prelude::*;
use crate::auction::AuctionView;
use crate::error::ErrorCode;
use crate::fees::FEE_DENOMINATOR;
use crate::identity::Identity;
use crate::index_laws::{lemma_terms_keep_indexed, lemma_with_listing_keeps_indexed};
use crate::registry::{lemma_registry_precedes_itself, lemma_with_listing, NftComAuction, RegistryView};

verus! {

impl RegistryView {
    /// What setting the fees does: both rates are taken, or both refused if
    /// either is above a thousand thousandths.
    pub open spec fn set_fees(self, buyer_fee: u64, seller_fee: u64) -> Result<RegistryView, ErrorCode> {
        if buyer_fee > 1000 || seller_fee > 1000 {
            Err(ErrorCode::InvalidFeeRate)
        } else {
            Ok(RegistryView { buyer_fee, seller_fee, ..self })
        }
    }

    /// What pausing or resuming the listing `id` does: a listing that is
    /// settled is not touched any more.
    pub open spec fn pause(self, id: Seq<char>, status: bool) -> Result<RegistryView, ErrorCode> {
        if !self.has(id) {
            Err(ErrorCode::UnknownListing)
        } else if self.listing(id).ended {
            Err(ErrorCode::AuctionClosed)
        } else {
            Ok(self.with_listing(id, AuctionView { paused: status, ..self.listing(id) }))
        }
    }
}

/// Names a new recipient of the fees.
pub fn change_fee_recipient(state: &mut NftComAuction, new_fee_recipient: Identity)
    ensures
        final(state)@ == (RegistryView { fee_recipient: new_fee_recipient, ..old(state)@ }),
        old(state).wf() ==> final(state).wf(),
        old(state)@.precedes(final(state)@),
        old(state)@.indexed() ==> final(state)@.indexed(),
{
    proof {
        lemma_registry_precedes_itself(state@);
    }
    state.fee_recipient = new_fee_recipient;
    proof {
        if old(state)@.indexed() {
            lemma_terms_keep_indexed(old(state)@, state@);
        }
    }
}

/// Names a new minting contract.
pub fn change_nft_contract(state: &mut NftComAuction, new_nft_contract: Identity)
    ensures
        final(state)@ == (RegistryView { nft_contract: new_nft_contract, ..old(state)@ }),
        old(state).wf() ==> final(state).wf(),
        old(state)@.precedes(final(state)@),
        old(state)@.indexed() ==> final(state)@.indexed(),
{
    proof {
        lemma_registry_precedes_itself(state@);
    }
    state.nft_contract = new_nft_contract;
    proof {
        if old(state)@.indexed() {
            lemma_terms_keep_indexed(old(state)@, state@);
        }
    }
}

/// Sets the buyer's and the seller's fee, in thousandths. A rate above a
/// thousand is refused, and then neither rate changes.
pub fn set_fees(state: &mut NftComAuction, buyer_fee: u64, seller_fee: u64) -> (r: Result<(), ErrorCode>)
    ensures
        match old(state)@.set_fees(buyer_fee, seller_fee) {
            Ok(next) => r is Ok && final(state)@ == next,
            Err(e) => r == Err::<(), ErrorCode>(e) && *final(state) == *old(state),
        },
        old(state).wf() ==> final(state).wf(),
        old(state)@.precedes(final(state)@),
        old(state)@.indexed() ==> final(state)@.indexed(),
{
    proof {
        lemma_registry_precedes_itself(state@);
    }
    if buyer_fee > FEE_DENOMINATOR || seller_fee > FEE_DENOMINATOR {
        return Err(ErrorCode::InvalidFeeRate);
    }
    state.buyer_fee = buyer_fee;
    state.seller_fee = seller_fee;
    proof {
        if old(state)@.indexed() {
            lemma_terms_keep_indexed(old(state)@, state@);
        }
    }
    Ok(())
}

/// Pauses the listing `listing_id`, or resumes it. A paused listing takes no
/// bids. A settled listing is not touched.
pub fn emergency_pause_auction(state: &mut NftComAuction, listing_id: &str, status: bool) -> (r: Result<
    (),
    ErrorCode,
>)
    requires
        old(state).wf(),
    ensures
        match old(state)@.pause(listing_id@, status) {
            Ok(next) => r is Ok && final(state)@ == next,
            Err(e) => r == Err::<(), ErrorCode>(e) && *final(state) == *old(state),
        },
        final(state).wf(),
        old(state)@.precedes(final(state)@),
        old(state)@.indexed() ==> final(state)@.indexed(),
{
    proof {
        lemma_registry_precedes_itself(state@);
    }
    let at = match state.find_listing(listing_id) {
        Some(at) => at,
        None => {
            return Err(ErrorCode::UnknownListing);
        },
    };
    assert(state@.auctions[at as int] == state.auctions[at as int]@);
    if state.auctions[at].ended {
        return Err(ErrorCode::AuctionClosed);
    }
    state.auctions[at].paused = status;
    proof {
        let before = old(state)@;
        let next = state.auctions[at as int]@;
        assert(next == (AuctionView { paused: status, ..before.listing(listing_id@) }));
        assert(state@.auctions =~= before.auctions.update(at as int, next));
        assert(before.listing(listing_id@).history.is_prefix_of(next.history));
        lemma_with_listing(before, listing_id@, next);
        if before.indexed() {
            lemma_with_listing_keeps_indexed(before, listing_id@, next);
        }
    }
    Ok(())
}

} // verus!
