//! The errors that the engine reports, and the families they fall into.

use vstd::prelude::*;

verus! {

/// Why an operation was refused. A refused operation changes nothing.
#[derive(Clone, Copy, Debug, PartialEq, Eq, Structural)]
pub enum ErrorCode {
    /// No listing has the identifier.
    UnknownListing,
    /// A listing with the identifier exists already.
    DuplicateListing,
    /// The minimum bid of a new listing is zero.
    InvalidMinimum,
    /// The end of a new listing is not after the present.
    InvalidEndTime,
    /// A fee rate is above the whole.
    InvalidFeeRate,
    /// The seller of a settlement record is nobody.
    InvalidSeller,
    /// The settlement contract of a settlement record is nobody.
    InvalidPaymentContract,
    /// The owner of a listing bids on it.
    SelfBid,
    /// The listing has been settled.
    AuctionClosed,
    /// The listing is paused.
    AuctionPaused,
    /// The listing has run out.
    AuctionExpired,
    /// The listing has not run out yet.
    AuctionNotYetExpired,
    /// The listing was settled before.
    AlreadyEnded,
    /// Nobody leads the listing.
    NoBids,
    /// The leader's escrow stays locked.
    CannotWithdrawWhileLeading,
    /// A pooled listing pays nothing back to single bidders.
    AlienAuctionWithdrawalForbidden,
    /// The bidder holds no escrow on the listing.
    NoFundsToWithdraw,
    /// A fee is larger than the amount it is taken from.
    ArithmeticUnderflow,
    /// An amount or a time does not fit its type.
    ArithmeticOverflow,
    /// The host could not move the funds.
    TransferFailed,
    /// The host could not mint the token.
    MintingFailed,
}

/// The families of errors.
#[derive(Clone, Copy, Debug, PartialEq, Eq, Structural)]
pub enum ErrorKind {
    NotFound,
    PreconditionViolation,
    ValidationError,
    ArithmeticError,
    ExternalFailure,
}

impl ErrorCode {
    /// The family of this error.
    pub open spec fn family(self) -> ErrorKind {
        match self {
            ErrorCode::UnknownListing => ErrorKind::NotFound,
            ErrorCode::DuplicateListing
            | ErrorCode::InvalidMinimum
            | ErrorCode::InvalidEndTime
            | ErrorCode::InvalidFeeRate
            | ErrorCode::InvalidSeller
            | ErrorCode::InvalidPaymentContract => ErrorKind::ValidationError,
            ErrorCode::SelfBid
            | ErrorCode::AuctionClosed
            | ErrorCode::AuctionPaused
            | ErrorCode::AuctionExpired
            | ErrorCode::AuctionNotYetExpired
            | ErrorCode::AlreadyEnded
            | ErrorCode::NoBids
            | ErrorCode::CannotWithdrawWhileLeading
            | ErrorCode::AlienAuctionWithdrawalForbidden
            | ErrorCode::NoFundsToWithdraw => ErrorKind::PreconditionViolation,
            ErrorCode::ArithmeticUnderflow | ErrorCode::ArithmeticOverflow => ErrorKind::ArithmeticError,
            ErrorCode::TransferFailed | ErrorCode::MintingFailed => ErrorKind::ExternalFailure,
        }
    }

    /// The sentence that describes this error.
    pub open spec fn sentence(self) -> Seq<char> {
        match self {
            ErrorCode::UnknownListing => "Invalid listing ID."@,
            ErrorCode::DuplicateListing => "The listing ID is taken."@,
            ErrorCode::InvalidMinimum => "The bid must be greater than zero."@,
            ErrorCode::InvalidEndTime => "End time must be in the future."@,
            ErrorCode::InvalidFeeRate => "A fee rate cannot exceed 1000."@,
            ErrorCode::InvalidSeller => "Invalid seller address."@,
            ErrorCode::InvalidPaymentContract => "Invalid payment contract address."@,
            ErrorCode::SelfBid => "The owner cannot bid on the listing."@,
            ErrorCode::AuctionClosed => "Auction has ended."@,
            ErrorCode::AuctionPaused => "Auction is paused."@,
            ErrorCode::AuctionExpired => "Auction has expired."@,
            ErrorCode::AuctionNotYetExpired => "Auction has not ended yet."@,
            ErrorCode::AlreadyEnded => "Auction has already ended."@,
            ErrorCode::NoBids => "Nothing to settle."@,
            ErrorCode::CannotWithdrawWhileLeading => "The highest bidder cannot withdraw."@,
            ErrorCode::AlienAuctionWithdrawalForbidden => "Pooled auctions pay no refunds."@,
            ErrorCode::NoFundsToWithdraw => "No funds to withdraw."@,
            ErrorCode::ArithmeticUnderflow => "A fee exceeds its amount."@,
            ErrorCode::ArithmeticOverflow => "An amount is out of range."@,
            ErrorCode::TransferFailed => "Transfer failed."@,
            ErrorCode::MintingFailed => "Minting failed."@,
        }
    }

    /// The family of this error.
    pub fn kind(&self) -> (k: ErrorKind)
        ensures
            k == self.family(),
    {
        match self {
            ErrorCode::UnknownListing => ErrorKind::NotFound,
            ErrorCode::DuplicateListing
            | ErrorCode::InvalidMinimum
            | ErrorCode::InvalidEndTime
            | ErrorCode::InvalidFeeRate
            | ErrorCode::InvalidSeller
            | ErrorCode::InvalidPaymentContract => ErrorKind::ValidationError,
            ErrorCode::ArithmeticUnderflow | ErrorCode::ArithmeticOverflow => ErrorKind::ArithmeticError,
            ErrorCode::TransferFailed | ErrorCode::MintingFailed => ErrorKind::ExternalFailure,
            _ => ErrorKind::PreconditionViolation,
        }
    }

    /// The sentence that describes this error.
    pub fn message(&self) -> (text: String)
        ensures
            text@ == self.sentence(),
    {
        let text: &str = match self {
            ErrorCode::UnknownListing => "Invalid listing ID.",
            ErrorCode::DuplicateListing => "The listing ID is taken.",
            ErrorCode::InvalidMinimum => "The bid must be greater than zero.",
            ErrorCode::InvalidEndTime => "End time must be in the future.",
            ErrorCode::InvalidFeeRate => "A fee rate cannot exceed 1000.",
            ErrorCode::InvalidSeller => "Invalid seller address.",
            ErrorCode::InvalidPaymentContract => "Invalid payment contract address.",
            ErrorCode::SelfBid => "The owner cannot bid on the listing.",
            ErrorCode::AuctionClosed => "Auction has ended.",
            ErrorCode::AuctionPaused => "Auction is paused.",
            ErrorCode::AuctionExpired => "Auction has expired.",
            ErrorCode::AuctionNotYetExpired => "Auction has not ended yet.",
            ErrorCode::AlreadyEnded => "Auction has already ended.",
            ErrorCode::NoBids => "Nothing to settle.",
            ErrorCode::CannotWithdrawWhileLeading => "The highest bidder cannot withdraw.",
            ErrorCode::AlienAuctionWithdrawalForbidden => "Pooled auctions pay no refunds.",
            ErrorCode::NoFundsToWithdraw => "No funds to withdraw.",
            ErrorCode::ArithmeticUnderflow => "A fee exceeds its amount.",
            ErrorCode::ArithmeticOverflow => "An amount is out of range.",
            ErrorCode::TransferFailed => "Transfer failed.",
            ErrorCode::MintingFailed => "Minting failed.",
        };
        text.to_owned()
    }
}

} // verus!
