//! What holds of every listing and of every registry, whatever was done to
//! them.

use vstd::prelude::*;
use crate::auction::{end_after_bid, AuctionView, Bid};
use crate::error::ErrorCode;
use crate::fees::{fee_on, lemma_fee_within_amount, net_of};
use crate::identity::Identity;
use crate::ledger::{balance, lemma_closed, lemma_peak_is, peak, slot_of, total};
use crate::registry::{lemma_with_listing, RegistryView};

verus! {

/// While a listing is open, the highest bid is the largest balance in
/// escrow, and zero if nothing is in escrow. Left out are the listings that
/// nobody leads although somebody holds a position: such a position has not
/// exceeded the minimum bid, and the highest bid is then zero while the
/// largest balance is not.
pub proof fn lemma_highest_bid_is_largest_escrow(a: AuctionView)
    requires
        a.wf(),
        !a.ended,
        a.highest_bid == 0 ==> forall|i: int|
            0 <= i < a.ledger.len() ==> (#[trigger] a.ledger[i]).escrowed_amount == 0,
    ensures
        a.highest_bid == peak(a.ledger),
{
    if a.highest_bid > 0 {
        let at = slot_of(a.ledger, a.highest_bidder);
        assert(a.ledger[at].escrowed_amount == a.highest_bid);
    }
    lemma_peak_is(a.ledger, a.highest_bid as int);
}

/// While a listing is open, nobody holds more than the highest bid or, while
/// nobody leads, more than the minimum bid; and a leader holds exactly the
/// highest bid, which exceeds the minimum bid.
pub proof fn lemma_no_balance_above_the_lead(a: AuctionView, bidder: Identity)
    requires
        a.wf(),
        !a.ended,
    ensures
        balance(a.ledger, bidder) <= a.ceiling(),
        a.highest_bid > 0 ==> balance(a.ledger, a.highest_bidder) == a.highest_bid && a.highest_bid
            > a.minimum_bid,
        peak(a.ledger) <= a.ceiling(),
{
    if crate::ledger::holds(a.ledger, bidder) {
        assert(a.ledger[slot_of(a.ledger, bidder)].escrowed_amount <= a.ceiling());
    }
    crate::ledger::lemma_peak_bounds(a.ledger);
    if peak(a.ledger) > 0 {
        let i = choose|i: int|
            0 <= i < a.ledger.len() && (#[trigger] a.ledger[i]).escrowed_amount == peak(a.ledger);
        assert(a.ledger[i].escrowed_amount <= a.ceiling());
    }
}

/// In a consistent registry every listing is consistent: for each open
/// listing that somebody leads, the highest bid is the largest balance in
/// escrow and the leader holds it; and for each listing, open or settled, what
/// is in escrow and what has left it add up to what bids have brought.
pub proof fn lemma_every_listing_keeps_its_books(registry: RegistryView, id: Seq<char>)
    requires
        registry.wf(),
        registry.has(id),
    ensures
        registry.listing(id).wf(),
        registry.listing(id).listing_id == id,
        !registry.listing(id).ended && registry.listing(id).highest_bid > 0 ==> registry.listing(
            id,
        ).highest_bid == peak(registry.listing(id).ledger) && balance(
            registry.listing(id).ledger,
            registry.listing(id).highest_bidder,
        ) == registry.listing(id).highest_bid,
        !registry.listing(id).ended ==> peak(registry.listing(id).ledger) <= registry.listing(
            id,
        ).ceiling(),
        total(registry.listing(id).ledger) + registry.listing(id).amount_paid_out + registry.listing(
            id,
        ).amount_refunded == registry.listing(id).total_amount,
{
    let a = registry.listing(id);
    assert(registry.auctions[registry.slot(id)].wf());
    if !a.ended {
        lemma_no_balance_above_the_lead(a, a.highest_bidder);
        if a.highest_bid > 0 {
            lemma_highest_bid_is_largest_escrow(a);
        }
    }
}

/// No value is made or lost: what is in escrow, what the settlement has
/// released and what withdrawals have released add up to what bids have
/// brought. Before the settlement nothing is paid out; the settlement of a
/// listing that is not pooled releases the highest bid.
pub proof fn lemma_escrow_is_conserved(a: AuctionView)
    requires
        a.wf(),
    ensures
        total(a.ledger) + a.amount_paid_out + a.amount_refunded == a.total_amount,
        a.amount_refunded == 0 ==> total(a.ledger) + a.amount_paid_out == a.total_amount,
        !a.ended ==> a.amount_paid_out == 0,
        a.ended && !a.is_alien ==> a.amount_paid_out == a.highest_bid,
        crate::auction::credited_sum(a.history) == a.total_amount,
{
}

/// What the settlement of a listing that is not pooled pays, to the owner
/// and as the seller's fee, is the highest bid, and it is the escrow that
/// the settlement releases.
pub proof fn lemma_settlement_pays_the_highest_bid(a: AuctionView, now: i64, seller_fee: u64)
    requires
        a.wf(),
        !a.is_alien,
        a.settlement(now, seller_fee) is Ok,
    ensures
        a.settlement(now, seller_fee)->Ok_0.owner_earnings + fee_on(
            a.highest_bid as int,
            seller_fee as int,
        ) == a.highest_bid,
        a.settlement(now, seller_fee)->Ok_0.fee == fee_on(a.highest_bid as int, seller_fee as int)
            + a.fees,
        a.settled().amount_paid_out == a.highest_bid,
        total(a.settled().ledger) == total(a.ledger) - a.highest_bid,
{
    lemma_closed(a.ledger, a.highest_bidder);
}

/// Under fee rates of no more than a thousand thousandths no fee exceeds its
/// amount: no bid and no settlement is refused for an underflow.
pub proof fn lemma_valid_rates_never_underflow(
    a: AuctionView,
    bidder: Identity,
    caller: Identity,
    gross: u64,
    now: i64,
    buyer_fee: u64,
    seller_fee: u64,
    window: u64,
    extension: u64,
)
    requires
        buyer_fee <= 1000,
        seller_fee <= 1000,
    ensures
        a.bid(bidder, caller, gross, now, buyer_fee, window, extension) != Err::<AuctionView, ErrorCode>(
            ErrorCode::ArithmeticUnderflow,
        ),
        a.settlement(now, seller_fee) != Err::<crate::auction::Payout, ErrorCode>(
            ErrorCode::ArithmeticUnderflow,
        ),
{
    lemma_fee_within_amount(gross as int, buyer_fee as int);
    lemma_fee_within_amount(a.highest_bid as int, seller_fee as int);
    lemma_fee_within_amount(a.total_amount as int, seller_fee as int);
}

/// In a consistent registry neither fee rate is above a thousand
/// thousandths, so that no bid and no settlement is refused because a fee
/// exceeds its amount.
pub proof fn lemma_consistent_registry_never_underflows(
    registry: RegistryView,
    id: Seq<char>,
    bidder: Identity,
    caller: Identity,
    gross: u64,
    now: i64,
    settlement_contract: Identity,
    minted: bool,
)
    requires
        registry.wf(),
    ensures
        registry.buyer_fee <= 1000 && registry.seller_fee <= 1000,
        registry.place_bid(id, bidder, caller, gross, now) != Err::<RegistryView, ErrorCode>(
            ErrorCode::ArithmeticUnderflow,
        ),
        registry.end_auction(id, now, settlement_contract, minted) != Err::<
            (RegistryView, crate::auction::Payout),
            ErrorCode,
        >(ErrorCode::ArithmeticUnderflow),
{
    if registry.has(id) {
        lemma_valid_rates_never_underflow(
            registry.listing(id),
            bidder,
            caller,
            gross,
            now,
            registry.buyer_fee,
            registry.seller_fee,
            registry.sniping_time_window,
            registry.time_extension,
        );
    }
}

/// A listing is settled once: after its settlement, every further attempt
/// is refused, and it stays ended.
pub proof fn lemma_settled_once(a: AuctionView, now: i64, seller_fee: u64, later: i64, later_fee: u64)
    requires
        a.settlement(now, seller_fee) is Ok,
    ensures
        !a.ended,
        a.settled().ended,
        a.settled().settlement(later, later_fee) is Err,
        later >= a.end_time ==> a.settled().settlement(later, later_fee) == Err::<
            crate::auction::Payout,
            ErrorCode,
        >(ErrorCode::AlreadyEnded),
        later < a.end_time ==> a.settled().settlement(later, later_fee) == Err::<
            crate::auction::Payout,
            ErrorCode,
        >(ErrorCode::AuctionNotYetExpired),
{
}

/// A bidder withdraws once: right after a withdrawal, a second one finds
/// nothing.
pub proof fn lemma_withdrawn_once(a: AuctionView, bidder: Identity)
    requires
        a.wf(),
        a.withdrawal(bidder) is Ok,
    ensures
        a.withdrawal(bidder)->Ok_0.1 == balance(a.ledger, bidder),
        a.withdrawal(bidder)->Ok_0.1 > 0,
        balance(a.withdrawal(bidder)->Ok_0.0.ledger, bidder) == 0,
        a.withdrawal(bidder)->Ok_0.0.withdrawal(bidder) == Err::<(AuctionView, u64), ErrorCode>(
            ErrorCode::NoFundsToWithdraw,
        ),
{
    lemma_closed(a.ledger, bidder);
}

/// A bid that is accepted at the moment that lies exactly the window before
/// the end moves the end back by the extension; one that is accepted one
/// unit earlier leaves the end alone. Whether the bid takes the lead plays
/// no part.
pub proof fn lemma_extension_at_the_window_edge(
    a: AuctionView,
    bidder: Identity,
    caller: Identity,
    gross: u64,
    now: i64,
    buyer_fee: u64,
    window: u64,
    extension: u64,
)
    requires
        a.bid(bidder, caller, gross, now, buyer_fee, window, extension) is Ok,
    ensures
        now == a.end_time - window ==> a.bid(
            bidder,
            caller,
            gross,
            now,
            buyer_fee,
            window,
            extension,
        )->Ok_0.end_time == a.end_time + extension,
        now == a.end_time - window - 1 ==> a.bid(
            bidder,
            caller,
            gross,
            now,
            buyer_fee,
            window,
            extension,
        )->Ok_0.end_time == a.end_time,
        a.bid(bidder, caller, gross, now, buyer_fee, window, extension)->Ok_0.end_time == end_after_bid(
            a.end_time,
            now,
            window,
            extension,
        ),
        a.bid(bidder, caller, gross, now, buyer_fee, window, extension)->Ok_0.end_time >= a.end_time,
{
}

/// An operation on one listing leaves every other listing as it is: a bid, a
/// withdrawal, a pause and a settlement change the listing that they name
/// and no other.
pub proof fn lemma_other_listings_are_untouched(
    registry: RegistryView,
    id: Seq<char>,
    other: Seq<char>,
    bidder: Identity,
    caller: Identity,
    gross: u64,
    now: i64,
    status: bool,
    settlement_contract: Identity,
    minted: bool,
)
    requires
        registry.wf(),
        registry.has(other),
        other != id,
    ensures
        registry.place_bid(id, bidder, caller, gross, now) is Ok ==> registry.place_bid(
            id,
            bidder,
            caller,
            gross,
            now,
        )->Ok_0.listing(other) == registry.listing(other),
        registry.withdraw(id, bidder) is Ok ==> registry.withdraw(id, bidder)->Ok_0.0.listing(other)
            == registry.listing(other),
        registry.pause(id, status) is Ok ==> registry.pause(id, status)->Ok_0.listing(other)
            == registry.listing(other),
        registry.end_auction(id, now, settlement_contract, minted) is Ok ==> registry.end_auction(
            id,
            now,
            settlement_contract,
            minted,
        )->Ok_0.0.listing(other) == registry.listing(other),
{
    if registry.has(id) {
        let a = registry.listing(id);
        assert(a.wf());
        if registry.place_bid(id, bidder, caller, gross, now) is Ok {
            let net = net_of(gross as int, registry.buyer_fee as int) as u64;
            let end_time = end_after_bid(
                a.end_time,
                now,
                registry.sniping_time_window,
                registry.time_extension,
            ) as i64;
            assert(0 <= fee_on(gross as int, registry.buyer_fee as int)) by (nonlinear_arith)
                requires
                    0 <= gross,
                    0 <= registry.buyer_fee,
                    fee_on(gross as int, registry.buyer_fee as int) == (gross * registry.buyer_fee)
                        / 1000,
            ;
            crate::auction::lemma_bid_keeps_wf(a, bidder, net, now, end_time);
            lemma_with_listing(registry, id, a.with_bid(bidder, net, now, end_time));
        }
        if registry.withdraw(id, bidder) is Ok {
            crate::auction::lemma_withdrawal_keeps_wf(a, bidder);
            lemma_with_listing(registry, id, a.withdrawal(bidder)->Ok_0.0);
        }
        if registry.pause(id, status) is Ok {
            let paused = AuctionView { paused: status, ..a };
            assert(a.history.is_prefix_of(paused.history));
            lemma_with_listing(registry, id, paused);
        }
        if registry.end_auction(id, now, settlement_contract, minted) is Ok {
            crate::auction::lemma_settlement_keeps_wf(a);
            lemma_with_listing(registry, id, a.settled());
            let placed = registry.with_listing(id, a.settled());
            assert(placed.reclassified(id).auctions == placed.auctions);
            assert(placed.reclassified(id).listing(other) == placed.listing(other));
        }
    }
}

/// What a listing shows of itself right after a bid is exactly what the bid
/// has done: the total has grown by what was credited, the history by the
/// one bid, and the leader and the highest bid are the bidder and the
/// bidder's position if that position takes the lead, and are unchanged
/// otherwise.
pub proof fn lemma_details_reflect_the_bid(
    registry: RegistryView,
    id: Seq<char>,
    bidder: Identity,
    caller: Identity,
    gross: u64,
    now: i64,
)
    requires
        registry.wf(),
        registry.place_bid(id, bidder, caller, gross, now) is Ok,
    ensures
        ({
            let before = registry.listing(id);
            let after = registry.place_bid(id, bidder, caller, gross, now)->Ok_0.listing(id).summary();
            let net = net_of(gross as int, registry.buyer_fee as int);
            let position = balance(before.ledger, bidder) + net;
            &&& registry.place_bid(id, bidder, caller, gross, now)->Ok_0.has(id)
            &&& 0 <= net <= gross
            &&& after.total_amount == before.total_amount + net
            &&& after.num_bidders == before.history.len() + 1
            &&& after.bidders == before.history.push(Bid { bidder, amount: net as u64, time: now })
            &&& after.highest_bid == if before.takes_lead(position) {
                position
            } else {
                before.highest_bid as int
            }
            &&& after.highest_bidder == if before.takes_lead(position) {
                bidder
            } else {
                before.highest_bidder
            }
            &&& after.end_time == end_after_bid(
                before.end_time,
                now,
                registry.sniping_time_window,
                registry.time_extension,
            )
            &&& after.listing_id == before.listing_id
            &&& after.owner == before.owner
            &&& after.minimum_bid == before.minimum_bid
            &&& after.ended == before.ended
        }),
{
    let before = registry.listing(id);
    let next = before.bid(
        bidder,
        caller,
        gross,
        now,
        registry.buyer_fee,
        registry.sniping_time_window,
        registry.time_extension,
    )->Ok_0;
    let net = net_of(gross as int, registry.buyer_fee as int) as u64;
    let end_time = end_after_bid(
        before.end_time,
        now,
        registry.sniping_time_window,
        registry.time_extension,
    ) as i64;
    assert(before.wf());
    assert(0 <= fee_on(gross as int, registry.buyer_fee as int)) by (nonlinear_arith)
        requires
            0 <= gross,
            0 <= registry.buyer_fee,
            fee_on(gross as int, registry.buyer_fee as int) == (gross * registry.buyer_fee) / 1000,
    ;
    crate::auction::lemma_bid_keeps_wf(before, bidder, net, now, end_time);
    lemma_with_listing(registry, id, next);
}

} // verus!
