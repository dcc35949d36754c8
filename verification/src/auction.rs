//! One listing: its terms, its leader, its ledger and its history, and the
//! rules by which a bid, a withdrawal and the settlement change them.

use vstd::prelude::*;
use crate::error::ErrorCode;
use crate::fees::{fee_on, net_of, split_fee};
use crate::identity::Identity;
use crate::ledger::{
    all_closed, balance, closed, credited, distinct, holds, last_bid_time, lemma_closed,
    lemma_credited, lemma_peak_bounds, lemma_total_all_closed, lemma_total_bounds,
    peak, slot_of, total, with_balance,
    BalanceEntry, Ledger,
};

verus! {

/// One bid as the history keeps it: who bid, what was credited, and when.
#[derive(Clone, Copy, Debug)]
pub struct Bid {
    pub bidder: Identity,
    pub amount: u64,
    pub time: i64,
}

/// What a settlement pays: the owner's earnings and the fee recipient's fee.
#[derive(Clone, Copy, Debug)]
pub struct Payout {
    pub owner_earnings: u64,
    pub fee: u64,
}

/// A listing.
#[derive(Debug)]
pub struct AuctionDetails {
    pub listing_id: String,
    pub owner: Identity,
    pub minimum_bid: u64,
    pub highest_bid: u64,
    /// The leader; nobody while no bid leads.
    pub highest_bidder: Identity,
    pub end_time: i64,
    /// Fees set aside for the fee recipient beside the seller's fee.
    pub fees: u64,
    /// Everything that bids have credited to the ledger.
    pub total_amount: u64,
    pub ended: bool,
    pub paused: bool,
    /// Whether the settlement pays the whole pool to the owner.
    pub is_alien: bool,
    /// What each bidder holds in escrow.
    pub bids: Ledger,
    /// Every bid, oldest first.
    pub bidders: Vec<Bid>,
    /// The escrow that the settlement has released.
    pub amount_paid_out: u64,
    /// The escrow that withdrawals have released.
    pub amount_refunded: u64,
}

/// A listing as a value of mathematics.
pub ghost struct AuctionView {
    pub listing_id: Seq<char>,
    pub owner: Identity,
    pub minimum_bid: u64,
    pub highest_bid: u64,
    pub highest_bidder: Identity,
    pub end_time: i64,
    pub fees: u64,
    pub total_amount: u64,
    pub ended: bool,
    pub paused: bool,
    pub is_alien: bool,
    pub ledger: Seq<BalanceEntry>,
    pub history: Seq<Bid>,
    pub amount_paid_out: u64,
    pub amount_refunded: u64,
}

impl View for AuctionDetails {
    type V = AuctionView;

    open spec fn view(&self) -> AuctionView {
        AuctionView {
            listing_id: self.listing_id@,
            owner: self.owner,
            minimum_bid: self.minimum_bid,
            highest_bid: self.highest_bid,
            highest_bidder: self.highest_bidder,
            end_time: self.end_time,
            fees: self.fees,
            total_amount: self.total_amount,
            ended: self.ended,
            paused: self.paused,
            is_alien: self.is_alien,
            ledger: self.bids@,
            history: self.bidders@,
            amount_paid_out: self.amount_paid_out,
            amount_refunded: self.amount_refunded,
        }
    }
}

/// What the bids of a history have credited in all.
pub open spec fn credited_sum(history: Seq<Bid>) -> int
    decreases history.len(),
{
    if history.len() == 0 {
        0
    } else {
        credited_sum(history.drop_last()) + history.last().amount
    }
}

/// When a listing ends after a bid at `now`: later by `extension` if the bid
/// comes within `window` of the end, unchanged otherwise.
pub open spec fn end_after_bid(end_time: i64, now: i64, window: u64, extension: u64) -> int {
    if now >= end_time - window {
        end_time + extension
    } else {
        end_time as int
    }
}

impl AuctionView {
    /// The balance that no open position exceeds: the highest bid, or the
    /// minimum bid while nobody leads.
    pub open spec fn ceiling(self) -> u64 {
        if self.highest_bid > 0 {
            self.highest_bid
        } else {
            self.minimum_bid
        }
    }

    /// The listing is consistent: the ledger names no bidder twice; the
    /// total is what the bids of the history have credited; what the ledger
    /// holds and what has left it add up to that total; a leader exceeds the
    /// minimum bid; until the settlement the leader holds the highest bid
    /// and nobody holds more; and the settlement has released the highest
    /// bid, or the whole pool if the listing is pooled.
    pub open spec fn wf(self) -> bool {
        &&& distinct(self.ledger)
        &&& credited_sum(self.history) == self.total_amount
        &&& total(self.ledger) + self.amount_paid_out + self.amount_refunded == self.total_amount
        &&& self.highest_bid > 0 ==> self.highest_bid > self.minimum_bid
        &&& self.highest_bid == 0 ==> self.highest_bidder == Identity::zero()
        &&& self.ended ==> self.highest_bid > 0
        &&& self.ended && !self.is_alien ==> self.amount_paid_out == self.highest_bid
        &&& self.ended && !self.is_alien ==> balance(self.ledger, self.highest_bidder) == 0
        &&& self.ended && self.is_alien ==> total(self.ledger) == 0
        &&& !self.ended ==> {
            &&& self.amount_paid_out == 0
            &&& self.highest_bid > 0 ==> holds(self.ledger, self.highest_bidder)
            &&& self.highest_bid > 0 ==> balance(self.ledger, self.highest_bidder) == self.highest_bid
            &&& forall|i: int|
                0 <= i < self.ledger.len() ==> (#[trigger] self.ledger[i]).escrowed_amount
                    <= self.ceiling()
        }
    }

    /// A listing that has just been opened.
    pub open spec fn opened(listing_id: Seq<char>, minimum_bid: u64, end_time: i64, owner: Identity) -> AuctionView {
        AuctionView {
            listing_id,
            owner,
            minimum_bid,
            highest_bid: 0,
            highest_bidder: Identity::zero(),
            end_time,
            fees: 0,
            total_amount: 0,
            ended: false,
            paused: false,
            is_alien: false,
            ledger: Seq::empty(),
            history: Seq::empty(),
            amount_paid_out: 0,
            amount_refunded: 0,
        }
    }

    /// Whether a position of `position` takes the lead: it must exceed the
    /// highest bid and, while nobody leads, the minimum bid.
    pub open spec fn takes_lead(self, position: int) -> bool {
        position > self.highest_bid && (self.highest_bid > 0 || position > self.minimum_bid)
    }

    /// The listing once `net` is credited to `bidder` at `now` and the end is
    /// `end_time`.
    pub open spec fn with_bid(self, bidder: Identity, net: u64, now: i64, end_time: i64) -> AuctionView {
        let position = balance(self.ledger, bidder) + net;
        AuctionView {
            end_time,
            total_amount: (self.total_amount + net) as u64,
            ledger: credited(self.ledger, bidder, net, now),
            history: self.history.push(Bid { bidder, amount: net, time: now }),
            highest_bid: if self.takes_lead(position) {
                position as u64
            } else {
                self.highest_bid
            },
            highest_bidder: if self.takes_lead(position) {
                bidder
            } else {
                self.highest_bidder
            },
            ..self
        }
    }

    /// What a bid of `gross` does, placed at `now` by `caller` for `bidder`
    /// under a buyer's fee of `buyer_fee` thousandths: the listing after it,
    /// or why the bid is refused.
    pub open spec fn bid(
        self,
        bidder: Identity,
        caller: Identity,
        gross: u64,
        now: i64,
        buyer_fee: u64,
        window: u64,
        extension: u64,
    ) -> Result<AuctionView, ErrorCode> {
        if bidder == self.owner || caller == self.owner {
            Err(ErrorCode::SelfBid)
        } else if self.ended {
            Err(ErrorCode::AuctionClosed)
        } else if self.paused {
            Err(ErrorCode::AuctionPaused)
        } else if now > self.end_time {
            Err(ErrorCode::AuctionExpired)
        } else if fee_on(gross as int, buyer_fee as int) > gross {
            Err(ErrorCode::ArithmeticUnderflow)
        } else if end_after_bid(self.end_time, now, window, extension) > i64::MAX {
            Err(ErrorCode::ArithmeticOverflow)
        } else if self.total_amount + net_of(gross as int, buyer_fee as int) > u64::MAX {
            Err(ErrorCode::ArithmeticOverflow)
        } else {
            Ok(
                self.with_bid(
                    bidder,
                    net_of(gross as int, buyer_fee as int) as u64,
                    now,
                    end_after_bid(self.end_time, now, window, extension) as i64,
                ),
            )
        }
    }

    /// What a withdrawal by `bidder` does: the listing after it and the
    /// amount released, or why the withdrawal is refused.
    pub open spec fn withdrawal(self, bidder: Identity) -> Result<(AuctionView, u64), ErrorCode> {
        if self.is_alien {
            Err(ErrorCode::AlienAuctionWithdrawalForbidden)
        } else if bidder == self.highest_bidder {
            Err(ErrorCode::CannotWithdrawWhileLeading)
        } else if balance(self.ledger, bidder) == 0 {
            Err(ErrorCode::NoFundsToWithdraw)
        } else {
            Ok(
                (
                    AuctionView {
                        ledger: closed(self.ledger, bidder),
                        amount_refunded: (self.amount_refunded + balance(self.ledger, bidder)) as u64,
                        ..self
                    },
                    balance(self.ledger, bidder),
                ),
            )
        }
    }

    /// Whether a refund of `amount` to `bidder` can be taken back: the
    /// bidder's balance has been released and is zero, the refunds so far
    /// hold the amount, and the bidder, who does not lead, would with the
    /// amount not hold more than a bidder may.
    pub open spec fn refund_pending(self, bidder: Identity, amount: u64) -> bool {
        &&& !self.is_alien
        &&& bidder != self.highest_bidder
        &&& holds(self.ledger, bidder)
        &&& balance(self.ledger, bidder) == 0
        &&& 0 < amount <= self.amount_refunded
        &&& !self.ended ==> amount <= self.ceiling()
    }

    /// The listing once a refund of `amount` to `bidder` is taken back: the
    /// bidder holds the amount again and the refunds are less by it.
    pub open spec fn refund_undone(self, bidder: Identity, amount: u64) -> AuctionView {
        AuctionView {
            ledger: with_balance(self.ledger, bidder, amount, last_bid_time(self.ledger, bidder)),
            amount_refunded: (self.amount_refunded - amount) as u64,
            ..self
        }
    }

    /// What the settlement pays under a seller's fee of `seller_fee`
    /// thousandths. The seller's fee is taken from the highest bid and goes,
    /// with the fees set aside, to the fee recipient; the rest goes to the
    /// owner. A pooled listing adds the pool to both: its fee to the
    /// recipient, the rest of it to the owner.
    pub open spec fn payout(self, seller_fee: u64) -> Result<Payout, ErrorCode> {
        let cut = fee_on(self.highest_bid as int, seller_fee as int);
        let pool_cut = fee_on(self.total_amount as int, seller_fee as int);
        if cut > self.highest_bid {
            Err(ErrorCode::ArithmeticUnderflow)
        } else if cut + self.fees > u64::MAX {
            Err(ErrorCode::ArithmeticOverflow)
        } else if !self.is_alien {
            Ok(Payout { owner_earnings: (self.highest_bid - cut) as u64, fee: (cut + self.fees) as u64 })
        } else if pool_cut > self.total_amount {
            Err(ErrorCode::ArithmeticUnderflow)
        } else if cut + self.fees + pool_cut > u64::MAX {
            Err(ErrorCode::ArithmeticOverflow)
        } else if self.highest_bid - cut + self.total_amount - pool_cut > u64::MAX {
            Err(ErrorCode::ArithmeticOverflow)
        } else {
            Ok(
                Payout {
                    owner_earnings: (self.highest_bid - cut + self.total_amount - pool_cut) as u64,
                    fee: (cut + self.fees + pool_cut) as u64,
                },
            )
        }
    }

    /// Whether the listing can be settled at `now`, and what the settlement
    /// then pays.
    pub open spec fn settlement(self, now: i64, seller_fee: u64) -> Result<Payout, ErrorCode> {
        if now < self.end_time {
            Err(ErrorCode::AuctionNotYetExpired)
        } else if self.ended {
            Err(ErrorCode::AlreadyEnded)
        } else if self.highest_bid == 0 {
            Err(ErrorCode::NoBids)
        } else {
            self.payout(seller_fee)
        }
    }

    /// The listing once it is settled: ended, with the escrow that the
    /// settlement pays out closed (the leader's, or every bidder's if the
    /// listing is pooled).
    pub open spec fn settled(self) -> AuctionView {
        if self.is_alien {
            AuctionView {
                ended: true,
                ledger: all_closed(self.ledger),
                amount_paid_out: total(self.ledger) as u64,
                ..self
            }
        } else {
            AuctionView {
                ended: true,
                ledger: closed(self.ledger, self.highest_bidder),
                amount_paid_out: self.highest_bid,
                ..self
            }
        }
    }

    /// What may become of a listing: its identifier, owner and minimum bid
    /// stay; its end never moves back; its history and its total only grow;
    /// once ended it stays ended, and then only balances that are withdrawn
    /// still change.
    pub open spec fn precedes(self, later: AuctionView) -> bool {
        &&& later.listing_id == self.listing_id
        &&& later.owner == self.owner
        &&& later.minimum_bid == self.minimum_bid
        &&& later.is_alien == self.is_alien
        &&& later.end_time >= self.end_time
        &&& later.total_amount >= self.total_amount
        &&& self.history.is_prefix_of(later.history)
        &&& self.ended ==> {
            &&& later.ended
            &&& later.highest_bid == self.highest_bid
            &&& later.highest_bidder == self.highest_bidder
            &&& later.end_time == self.end_time
            &&& later.total_amount == self.total_amount
            &&& later.fees == self.fees
            &&& later.paused == self.paused
            &&& later.history == self.history
            &&& later.amount_paid_out == self.amount_paid_out
        }
    }
}

impl AuctionDetails {
    /// Opens a listing without bids.
    pub fn new(listing_id: String, minimum_bid: u64, end_time: i64, owner: Identity) -> (auction:
        AuctionDetails)
        ensures
            auction@ == AuctionView::opened(listing_id@, minimum_bid, end_time, owner),
            auction@.wf(),
    {
        AuctionDetails {
            listing_id,
            owner,
            minimum_bid,
            highest_bid: 0,
            highest_bidder: Identity::none(),
            end_time,
            fees: 0,
            total_amount: 0,
            ended: false,
            paused: false,
            is_alien: false,
            bids: Ledger::new(),
            bidders: Vec::new(),
            amount_paid_out: 0,
            amount_refunded: 0,
        }
    }

    /// Tells whether the listing is consistent.
    pub fn is_consistent(&self) -> (ok: bool)
        ensures
            ok == self@.wf(),
    {
        if !self.bids.is_distinct() {
            return false;
        }
        if self.history_sum() != self.total_amount as u128 {
            return false;
        }
        let held: u128 = self.bids.sum();
        if held > self.total_amount as u128 {
            return false;
        }
        if held + self.amount_paid_out as u128 + self.amount_refunded as u128 != self.total_amount as u128 {
            return false;
        }
        if self.highest_bid > 0 && self.highest_bid <= self.minimum_bid {
            return false;
        }
        if self.highest_bid == 0 && !self.highest_bidder.is_zero() {
            return false;
        }
        if self.ended {
            if self.highest_bid == 0 {
                return false;
            }
            if self.is_alien {
                return held == 0;
            }
            return self.amount_paid_out == self.highest_bid && self.bids.get(&self.highest_bidder) == 0;
        }
        if self.amount_paid_out != 0 {
            return false;
        }
        if self.highest_bid > 0 {
            match self.bids.find(&self.highest_bidder) {
                Some(at) => {
                    if self.bids.entries[at].escrowed_amount != self.highest_bid {
                        return false;
                    }
                },
                None => {
                    return false;
                },
            }
        }
        let ceiling: u64 = if self.highest_bid > 0 {
            self.highest_bid
        } else {
            self.minimum_bid
        };
        let largest: u64 = self.bids.largest();
        proof {
            lemma_peak_bounds(self@.ledger);
            if largest > ceiling {
                let i = choose|i: int|
                    0 <= i < self@.ledger.len() && (#[trigger] self@.ledger[i]).escrowed_amount == peak(
                        self@.ledger,
                    );
                assert(self@.ledger[i].escrowed_amount > self@.ceiling());
            }
        }
        largest <= ceiling
    }

    /// What the bids of the history have credited in all.
    pub fn history_sum(&self) -> (sum: u128)
        ensures
            sum == credited_sum(self@.history),
    {
        let mut sum: u128 = 0;
        let mut i: usize = 0;
        assert(self.bidders@.take(0) =~= Seq::<Bid>::empty());
        while i < self.bidders.len()
            invariant
                i <= self.bidders.len(),
                sum == credited_sum(self.bidders@.take(i as int)),
                sum <= i * 0xFFFF_FFFF_FFFF_FFFF,
            decreases self.bidders.len() - i,
        {
            assert(self.bidders@.take(i + 1).drop_last() =~= self.bidders@.take(i as int));
            assert(i * 0xFFFF_FFFF_FFFF_FFFF + 0xFFFF_FFFF_FFFF_FFFF <= 0xFFFF_FFFF_FFFF_FFFF
                * 0xFFFF_FFFF_FFFF_FFFF + 0xFFFF_FFFF_FFFF_FFFF) by (nonlinear_arith)
                requires
                    0 <= i <= 0xFFFF_FFFF_FFFF_FFFF,
            ;
            sum = sum + self.bidders[i].amount as u128;
            i = i + 1;
        }
        assert(self.bidders@.take(i as int) =~= self.bidders@);
        sum
    }

    /// Tells what a bid of `gross` would do, placed at `now` by `caller` for
    /// `bidder`: what it would credit and when the listing would then end,
    /// or why it would be refused. The owner may not bid, neither as bidder
    /// nor as caller; the listing must be neither settled nor paused nor run
    /// out; the fee of `buyer_fee` thousandths must not exceed the bid; and
    /// the new end and the new total must fit. The tests are made in this
    /// order.
    pub fn preview_bid(
        &self,
        bidder: Identity,
        caller: Identity,
        gross: u64,
        now: i64,
        buyer_fee: u64,
        window: u64,
        extension: u64,
    ) -> (r: Result<(u64, i64), ErrorCode>)
        ensures
            match self@.bid(bidder, caller, gross, now, buyer_fee, window, extension) {
                Ok(_) => r == Ok::<(u64, i64), ErrorCode>(
                    (
                        net_of(gross as int, buyer_fee as int) as u64,
                        end_after_bid(self.end_time, now, window, extension) as i64,
                    ),
                ),
                Err(e) => r == Err::<(u64, i64), ErrorCode>(e),
            },
    {
        if bidder == self.owner || caller == self.owner {
            return Err(ErrorCode::SelfBid);
        }
        if self.ended {
            return Err(ErrorCode::AuctionClosed);
        }
        if self.paused {
            return Err(ErrorCode::AuctionPaused);
        }
        if now > self.end_time {
            return Err(ErrorCode::AuctionExpired);
        }
        let net: u64 = match split_fee(gross, buyer_fee) {
            Ok((_, net)) => net,
            Err(e) => {
                return Err(e);
            },
        };
        let mut end_time: i64 = self.end_time;
        if now as i128 >= self.end_time as i128 - window as i128 {
            let extended: i128 = self.end_time as i128 + extension as i128;
            if extended > i64::MAX as i128 {
                return Err(ErrorCode::ArithmeticOverflow);
            }
            end_time = extended as i64;
        }
        if net > u64::MAX - self.total_amount {
            return Err(ErrorCode::ArithmeticOverflow);
        }
        Ok((net, end_time))
    }

    /// Credits `net` to the escrow of `bidder` at `now`, sets the end to
    /// `end_time`, makes the bidder the leader if the new position exceeds
    /// the highest bid (and, while nobody leads, the minimum bid), and adds
    /// the bid to the history. A position that only equals the highest bid
    /// leaves the leader in place.
    pub(crate) fn commit_bid(&mut self, bidder: Identity, net: u64, now: i64, end_time: i64)
        requires
            old(self)@.wf(),
            !old(self)@.ended,
            end_time >= old(self)@.end_time,
            old(self)@.total_amount + net <= u64::MAX,
        ensures
            final(self)@ == old(self)@.with_bid(bidder, net, now, end_time),
            final(self)@.wf(),
            old(self)@.precedes(final(self)@),
    {
        proof {
            lemma_bid_keeps_wf(self@, bidder, net, now, end_time);
        }
        let position: u64 = self.bids.get(&bidder) + net;
        if position > self.highest_bid && (self.highest_bid > 0 || position > self.minimum_bid) {
            self.highest_bid = position;
            self.highest_bidder = bidder;
        }
        self.end_time = end_time;
        self.total_amount = self.total_amount + net;
        self.bids.add(bidder, net, now);
        self.bidders.push(Bid { bidder, amount: net, time: now });
    }

    /// Places a bid of `gross` at `now`, by `caller` for `bidder`. The fee of
    /// `buyer_fee` thousandths is taken off and the rest is credited to the
    /// bidder's escrow; a bid within `window` of the end moves the end back by
    /// `extension`, whether or not it takes the lead. Returns what was
    /// credited. A refused bid changes nothing.
    pub fn apply_bid(
        &mut self,
        bidder: Identity,
        caller: Identity,
        gross: u64,
        now: i64,
        buyer_fee: u64,
        window: u64,
        extension: u64,
    ) -> (r: Result<u64, ErrorCode>)
        requires
            old(self)@.wf(),
        ensures
            match old(self)@.bid(bidder, caller, gross, now, buyer_fee, window, extension) {
                Ok(next) => r == Ok::<u64, ErrorCode>(net_of(gross as int, buyer_fee as int) as u64)
                    && final(self)@ == next,
                Err(e) => r == Err::<u64, ErrorCode>(e) && *final(self) == *old(self),
            },
            final(self)@.wf(),
            old(self)@.precedes(final(self)@),
    {
        proof {
            lemma_precedes_itself(self@);
        }
        match self.preview_bid(bidder, caller, gross, now, buyer_fee, window, extension) {
            Ok((net, end_time)) => {
                self.commit_bid(bidder, net, now, end_time);
                Ok(net)
            },
            Err(e) => Err(e),
        }
    }

    /// Tells what a withdrawal by `bidder` would release, or why it would be
    /// refused: a pooled listing releases nothing to a single bidder, the
    /// leader's escrow stays locked, and a bidder who holds nothing gets
    /// nothing. The tests are made in this order.
    pub fn preview_withdrawal(&self, bidder: Identity) -> (r: Result<u64, ErrorCode>)
        requires
            self@.wf(),
        ensures
            match self@.withdrawal(bidder) {
                Ok((_, released)) => r == Ok::<u64, ErrorCode>(released),
                Err(e) => r == Err::<u64, ErrorCode>(e),
            },
    {
        if self.is_alien {
            return Err(ErrorCode::AlienAuctionWithdrawalForbidden);
        }
        if bidder == self.highest_bidder {
            return Err(ErrorCode::CannotWithdrawWhileLeading);
        }
        let held: u64 = self.bids.get(&bidder);
        if held == 0 {
            return Err(ErrorCode::NoFundsToWithdraw);
        }
        Ok(held)
    }

    /// Releases what `bidder` holds in escrow and returns it. The leader's
    /// escrow stays locked, a pooled listing releases nothing to a single
    /// bidder, and a bidder who holds nothing gets nothing. A refused
    /// withdrawal changes nothing.
    pub fn apply_withdrawal(&mut self, bidder: Identity) -> (r: Result<u64, ErrorCode>)
        requires
            old(self)@.wf(),
        ensures
            match old(self)@.withdrawal(bidder) {
                Ok((next, released)) => r == Ok::<u64, ErrorCode>(released) && final(self)@ == next,
                Err(e) => r == Err::<u64, ErrorCode>(e) && *final(self) == *old(self),
            },
            final(self)@.wf(),
            old(self)@.precedes(final(self)@),
    {
        proof {
            lemma_precedes_itself(self@);
        }
        match self.preview_withdrawal(bidder) {
            Ok(_) => {
                proof {
                    lemma_withdrawal_keeps_wf(self@, bidder);
                }
                let released: u64 = self.bids.zero(&bidder);
                self.amount_refunded = self.amount_refunded + released;
                Ok(released)
            },
            Err(e) => Err(e),
        }
    }

    /// Tells whether a refund of `amount` to `bidder` can be taken back.
    pub fn refund_is_pending(&self, bidder: Identity, amount: u64) -> (pending: bool)
        requires
            self@.wf(),
        ensures
            pending == self@.refund_pending(bidder, amount),
    {
        if self.is_alien || bidder == self.highest_bidder {
            return false;
        }
        match self.bids.find(&bidder) {
            Some(at) => {
                if self.bids.entries[at].escrowed_amount != 0 {
                    return false;
                }
            },
            None => {
                return false;
            },
        }
        if amount == 0 || amount > self.amount_refunded {
            return false;
        }
        if self.ended {
            return true;
        }
        let ceiling: u64 = if self.highest_bid > 0 {
            self.highest_bid
        } else {
            self.minimum_bid
        };
        amount <= ceiling
    }

    /// Takes a refund of `amount` to `bidder` back, where it can be taken
    /// back, and tells whether it did: the bidder then holds the amount
    /// again, as before the withdrawal. Otherwise nothing changes.
    pub fn undo_withdrawal(&mut self, bidder: Identity, amount: u64) -> (undone: bool)
        requires
            old(self)@.wf(),
        ensures
            undone == old(self)@.refund_pending(bidder, amount),
            undone ==> final(self)@ == old(self)@.refund_undone(bidder, amount),
            !undone ==> *final(self) == *old(self),
            final(self)@.wf(),
            old(self)@.precedes(final(self)@),
    {
        proof {
            lemma_precedes_itself(self@);
        }
        if !self.refund_is_pending(bidder, amount) {
            return false;
        }
        proof {
            lemma_undo_keeps_wf(self@, bidder, amount);
        }
        let time: i64 = self.bids.time_of(&bidder);
        self.bids.set(bidder, amount, time);
        self.amount_refunded = self.amount_refunded - amount;
        true
    }

    /// What the settlement pays under a seller's fee of `seller_fee`
    /// thousandths.
    pub fn compute_payout(&self, seller_fee: u64) -> (r: Result<Payout, ErrorCode>)
        ensures
            r == self@.payout(seller_fee),
    {
        let (cut, rest) = match split_fee(self.highest_bid, seller_fee) {
            Ok(parts) => parts,
            Err(e) => {
                return Err(e);
            },
        };
        let fee: u64 = match cut.checked_add(self.fees) {
            Some(sum) => sum,
            None => {
                return Err(ErrorCode::ArithmeticOverflow);
            },
        };
        if !self.is_alien {
            return Ok(Payout { owner_earnings: rest, fee });
        }
        let (pool_cut, pool_rest) = match split_fee(self.total_amount, seller_fee) {
            Ok(parts) => parts,
            Err(e) => {
                return Err(e);
            },
        };
        let fee: u64 = match fee.checked_add(pool_cut) {
            Some(sum) => sum,
            None => {
                return Err(ErrorCode::ArithmeticOverflow);
            },
        };
        let owner_earnings: u64 = match rest.checked_add(pool_rest) {
            Some(sum) => sum,
            None => {
                return Err(ErrorCode::ArithmeticOverflow);
            },
        };
        Ok(Payout { owner_earnings, fee })
    }

    /// Tells whether the listing can be settled at `now`, and what the
    /// settlement then pays: the listing must have run out, must not have
    /// been settled before, and somebody must lead it.
    pub fn check_settlement(&self, now: i64, seller_fee: u64) -> (r: Result<Payout, ErrorCode>)
        ensures
            r == self@.settlement(now, seller_fee),
    {
        if now < self.end_time {
            return Err(ErrorCode::AuctionNotYetExpired);
        }
        if self.ended {
            return Err(ErrorCode::AlreadyEnded);
        }
        if self.highest_bid == 0 {
            return Err(ErrorCode::NoBids);
        }
        self.compute_payout(seller_fee)
    }

    /// Settles the listing at `now` under a seller's fee of `seller_fee`
    /// thousandths and returns what is to be paid. A listing that cannot be
    /// settled is left as it was.
    pub fn apply_settlement(&mut self, now: i64, seller_fee: u64) -> (r: Result<Payout, ErrorCode>)
        requires
            old(self)@.wf(),
        ensures
            match old(self)@.settlement(now, seller_fee) {
                Ok(payout) => r == Ok::<Payout, ErrorCode>(payout) && final(self)@ == old(self)@.settled(),
                Err(e) => r == Err::<Payout, ErrorCode>(e) && *final(self) == *old(self),
            },
            final(self)@.wf(),
            old(self)@.precedes(final(self)@),
    {
        proof {
            lemma_precedes_itself(self@);
        }
        match self.check_settlement(now, seller_fee) {
            Ok(payout) => {
                self.settle();
                Ok(payout)
            },
            Err(e) => Err(e),
        }
    }

    /// Ends the listing and closes the escrow that the settlement pays out:
    /// the leader's, or every bidder's if the listing is pooled.
    pub(crate) fn settle(&mut self)
        requires
            old(self)@.wf(),
            !old(self)@.ended,
            old(self)@.highest_bid > 0,
        ensures
            final(self)@ == old(self)@.settled(),
            final(self)@.wf(),
            old(self)@.precedes(final(self)@),
    {
        proof {
            lemma_settlement_keeps_wf(self@);
        }
        if self.is_alien {
            self.amount_paid_out = self.total_amount - self.amount_refunded;
            self.bids.zero_all();
        } else {
            let leader = self.highest_bidder;
            let released: u64 = self.bids.zero(&leader);
            self.amount_paid_out = released;
        }
        self.ended = true;
    }
}

/// A bid leaves a consistent listing consistent, and the listing before it
/// precedes the listing after it.
pub proof fn lemma_bid_keeps_wf(a: AuctionView, bidder: Identity, net: u64, now: i64, end_time: i64)
    requires
        a.wf(),
        !a.ended,
        end_time >= a.end_time,
        a.total_amount + net <= u64::MAX,
    ensures
        balance(a.ledger, bidder) + net <= u64::MAX,
        a.with_bid(bidder, net, now, end_time).wf(),
        a.precedes(a.with_bid(bidder, net, now, end_time)),
{
    let next = a.with_bid(bidder, net, now, end_time);
    let position = balance(a.ledger, bidder) + net;
    lemma_total_bounds(a.ledger);
    if holds(a.ledger, bidder) {
        assert(a.ledger[slot_of(a.ledger, bidder)].escrowed_amount <= total(a.ledger));
    }
    lemma_credited(a.ledger, bidder, net, now);
    if holds(a.ledger, bidder) {
        assert(a.ledger[slot_of(a.ledger, bidder)].escrowed_amount <= a.ceiling());
    }
    assert forall|i: int| 0 <= i < next.ledger.len() implies (#[trigger] next.ledger[i]).escrowed_amount
        <= next.ceiling() by {
        let entry = next.ledger[i];
        if i < a.ledger.len() && entry == a.ledger[i] {
            assert(a.ledger[i].escrowed_amount <= a.ceiling());
        }
    }
    assert(a.history.is_prefix_of(next.history));
    assert(next.history.drop_last() =~= a.history);
}

/// A withdrawal leaves a consistent listing consistent, and the listing
/// before it precedes the listing after it.
pub proof fn lemma_withdrawal_keeps_wf(a: AuctionView, bidder: Identity)
    requires
        a.wf(),
        a.withdrawal(bidder) is Ok,
    ensures
        a.amount_refunded + balance(a.ledger, bidder) <= u64::MAX,
        a.withdrawal(bidder)->Ok_0.0.wf(),
        a.precedes(a.withdrawal(bidder)->Ok_0.0),
{
    let next = a.withdrawal(bidder)->Ok_0.0;
    lemma_total_bounds(a.ledger);
    assert(a.ledger[slot_of(a.ledger, bidder)].escrowed_amount <= total(a.ledger));
    lemma_closed(a.ledger, bidder);
    if !a.ended {
        assert forall|i: int| 0 <= i < next.ledger.len() implies (#[trigger] next.ledger[i]).escrowed_amount
            <= next.ceiling() by {
            assert(a.ledger[i].escrowed_amount <= a.ceiling());
        }
    }
}

/// Taking a refund back leaves a consistent listing consistent, and the
/// listing before it precedes the listing after it.
pub proof fn lemma_undo_keeps_wf(a: AuctionView, bidder: Identity, amount: u64)
    requires
        a.wf(),
        a.refund_pending(bidder, amount),
    ensures
        a.refund_undone(bidder, amount).wf(),
        a.precedes(a.refund_undone(bidder, amount)),
{
    let next = a.refund_undone(bidder, amount);
    let at = slot_of(a.ledger, bidder);
    let entry = BalanceEntry { bidder, escrowed_amount: amount, time: last_bid_time(a.ledger, bidder) };
    assert(next.ledger == a.ledger.update(at, entry));
    crate::ledger::lemma_total_update(a.ledger, at, entry);
    crate::ledger::lemma_same_bidders(a.ledger, next.ledger);
    assert forall|other: Identity| other != bidder implies balance(next.ledger, other) == balance(
        a.ledger,
        other,
    ) by {
        if holds(a.ledger, other) {
            let k = slot_of(a.ledger, other);
            assert(next.ledger[k] == a.ledger[k]);
            crate::ledger::lemma_slot_unique(next.ledger, other, k);
        }
    }
    if !a.ended {
        assert forall|i: int| 0 <= i < next.ledger.len() implies (#[trigger] next.ledger[i]).escrowed_amount
            <= next.ceiling() by {
            if i != at {
                assert(a.ledger[i].escrowed_amount <= a.ceiling());
            }
        }
    }
    assert(a.history.is_prefix_of(next.history));
}

/// A withdrawal can be taken back, and taking it back gives the listing as
/// it was before the withdrawal.
pub proof fn lemma_undo_restores(a: AuctionView, bidder: Identity)
    requires
        a.wf(),
        a.withdrawal(bidder) is Ok,
    ensures
        a.withdrawal(bidder)->Ok_0.0.refund_pending(bidder, a.withdrawal(bidder)->Ok_0.1),
        a.withdrawal(bidder)->Ok_0.0.refund_undone(bidder, a.withdrawal(bidder)->Ok_0.1) == a,
{
    let next = a.withdrawal(bidder)->Ok_0.0;
    let amount = a.withdrawal(bidder)->Ok_0.1;
    let at = slot_of(a.ledger, bidder);
    lemma_withdrawal_keeps_wf(a, bidder);
    lemma_closed(a.ledger, bidder);
    crate::ledger::lemma_slot_unique(next.ledger, bidder, at);
    assert(a.ledger[at].escrowed_amount <= a.ceiling() || a.ended);
    assert(next.refund_undone(bidder, amount).ledger =~= a.ledger);
}

/// The settlement leaves a consistent listing consistent, and the listing
/// before it precedes the listing after it.
pub proof fn lemma_settlement_keeps_wf(a: AuctionView)
    requires
        a.wf(),
        !a.ended,
        a.highest_bid > 0,
    ensures
        0 <= total(a.ledger) == a.total_amount - a.amount_refunded,
        a.settled().wf(),
        a.precedes(a.settled()),
{
    lemma_total_bounds(a.ledger);
    lemma_closed(a.ledger, a.highest_bidder);
    lemma_total_all_closed(a.ledger);
    crate::ledger::lemma_same_bidders(a.ledger, all_closed(a.ledger));
}

/// A listing may become itself.
pub proof fn lemma_precedes_itself(a: AuctionView)
    ensures
        a.precedes(a),
{
    assert(a.history.is_prefix_of(a.history));
}

/// What may become of what a listing may become, the listing may become.
pub proof fn lemma_precedes_chains(a: AuctionView, b: AuctionView, c: AuctionView)
    requires
        a.precedes(b),
        b.precedes(c),
    ensures
        a.precedes(c),
{
    assert(a.history.is_prefix_of(c.history));
}

} // verus!
