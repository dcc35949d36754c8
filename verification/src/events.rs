//! What the engine hands back for the host to carry out or to publish.

use vstd::prelude::*;
use crate::error::ErrorCode;
use crate::identity::Identity;

verus! {

/// A listing was created.
#[derive(Debug)]
pub struct AuctionInitialized {
    pub listing_id: String,
    pub minimum: u64,
    pub end_time: i64,
}

/// A bid was credited.
#[derive(Debug)]
pub struct BidPlaced {
    pub listing_id: String,
    pub sender: Identity,
    /// What was credited: the bid less the buyer's fee.
    pub value: u64,
}

/// A listing was settled.
#[derive(Debug)]
pub struct AuctionEnded {
    pub listing_id: String,
    pub winner: Identity,
    pub amount: u64,
}

/// Funds that the host has to move out of escrow.
#[derive(Clone, Copy, Debug)]
pub struct Transfer {
    pub to: Identity,
    pub amount: u64,
}

/// What the host has to ask of the mint before a listing is settled.
#[derive(Debug)]
pub struct MintRequest {
    pub winner: Identity,
    pub listing_id: String,
    /// The settlement record.
    pub metadata: String,
    pub owner: Identity,
    pub amount: u64,
    pub hook: Identity,
}

/// What the host has to do once a listing is settled.
#[derive(Debug)]
pub struct Settlement {
    /// The owner's earnings.
    pub owner_payment: Transfer,
    /// The fee recipient's fee.
    pub fee_payment: Transfer,
    pub event: AuctionEnded,
}

/// What creating a listing with a first bid has done.
#[derive(Debug)]
pub struct InitializedListing {
    pub event: AuctionInitialized,
    /// What became of the first bid: it was placed, or it was refused because
    /// the owner bids, and the listing then stands without bids.
    pub seed_bid: Result<BidPlaced, ErrorCode>,
}

} // verus!
