//! An English-auction engine for single-item listings.
//!
//! The registry holds the listings, escrows every bid, extends a listing's
//! end when a bid arrives late, lets outbid participants take their funds
//! back and settles a listing once it has run out. Every operation either
//! applies all of its changes or none, and hands the effects that the host
//! has to carry out (transfers, events, the mint request) back as values.

pub mod auction;
pub mod bidding;
pub mod error;
pub mod events;
pub mod fees;
pub mod governance;
pub mod identity;
pub mod index_laws;
pub mod laws;
pub mod ledger;
pub mod owner_index;
pub mod queries;
pub mod registry;
pub mod settlement;
pub mod utils;
pub mod withdrawal;

pub use auction::{AuctionDetails, AuctionView, Bid, Payout};
pub use bidding::{initialize_auction, place_bid};
pub use events::{
    AuctionEnded, AuctionInitialized, BidPlaced, InitializedListing, MintRequest, Settlement, Transfer,
};
pub use error::{ErrorCode, ErrorKind};
pub use identity::Identity;
pub use ledger::{BalanceEntry, Ledger};
pub use owner_index::{OwnerIndex, OwnerListings};
pub use settlement::{end_auction, prepare_settlement};
pub use withdrawal::{conclude_withdrawal, withdraw};
pub use queries::{
    get_active_auctions_of, get_all_bids_of_user, get_auction_details, get_auction_end_time,
    get_bid_amount, get_highest_bid_and_end_time, get_highest_bidder, get_latest_bids,
    get_past_auctions_of, get_pending_withdrawal_amount, get_pending_withdrawals, get_user_bid,
    get_winner, has_auction_ended, AuctionDetailsResponse, AuctionSummary,
};
pub use governance::{change_fee_recipient, change_nft_contract, emergency_pause_auction, set_fees};
pub use registry::{create_listing, reclassify, NftComAuction, RegistryView};
pub use utils::{format_metadata, generate_metadata, uint_to_string};
