use auction_contract::{AuctionDetails, ErrorCode, Identity, Ledger, Payout};

fn who(tag: u8) -> Identity {
    let mut bytes = [0u8; 32];
    bytes[7] = tag;
    Identity::new(bytes)
}

fn listing() -> AuctionDetails {
    AuctionDetails::new("lot".to_string(), 100, 5_000, who(1))
}

#[test]
fn previewed_bid_changes_nothing() {
    let a = listing();
    assert_eq!(a.preview_bid(who(2), who(2), 1000, 4_000, 20, 500, 60), Ok((980, 5_000)));
    assert_eq!(a.preview_bid(who(2), who(2), 1000, 4_500, 20, 500, 60), Ok((980, 5_060)));
    assert_eq!(a.preview_bid(who(2), who(2), 1000, 4_499, 20, 500, 60), Ok((980, 5_000)));
    assert_eq!(a.preview_bid(who(1), who(2), 1000, 4_000, 20, 500, 60), Err(ErrorCode::SelfBid));
    assert_eq!(a.preview_bid(who(2), who(2), 1000, 5_001, 20, 500, 60), Err(ErrorCode::AuctionExpired));
    assert_eq!(
        a.preview_bid(who(2), who(2), 1000, 4_000, 1001, 500, 60),
        Err(ErrorCode::ArithmeticUnderflow)
    );
    assert_eq!(
        a.preview_bid(who(2), who(2), 1000, 4_900, 20, 500, u64::MAX),
        Err(ErrorCode::ArithmeticOverflow)
    );
    assert_eq!(a.highest_bid, 0);
    assert!(a.bidders.is_empty());
    assert!(a.bids.entries.is_empty());
}

#[test]
fn window_wider_than_the_time_since_the_epoch_always_extends() {
    let a = AuctionDetails::new("lot".to_string(), 100, i64::MIN + 10, who(1));
    // the window reaches back beyond the smallest time: every bid is within it
    assert_eq!(
        a.preview_bid(who(2), who(2), 1000, i64::MIN, 0, u64::MAX, 5),
        Ok((1000, i64::MIN + 15))
    );
    let b = AuctionDetails::new("lot".to_string(), 100, i64::MAX, who(1));
    assert_eq!(b.preview_bid(who(2), who(2), 1000, i64::MIN, 0, u64::MAX - 1, 0), Ok((1000, i64::MAX)));
    assert_eq!(
        b.preview_bid(who(2), who(2), 1000, i64::MIN, 0, u64::MAX, 1),
        Err(ErrorCode::ArithmeticOverflow)
    );
}

#[test]
fn applied_bid_is_the_previewed_bid() {
    let mut a = listing();
    assert_eq!(a.apply_bid(who(2), who(2), 1000, 4_600, 20, 500, 60), Ok(980));
    assert_eq!(a.highest_bid, 980);
    assert_eq!(a.highest_bidder, who(2));
    assert_eq!(a.end_time, 5_060);
    assert_eq!(a.total_amount, 980);
    assert_eq!(a.bidders.len(), 1);
    assert_eq!(a.bids.get(&who(2)), 980);
    assert_eq!(a.bids.time_of(&who(2)), 4_600);
    assert_eq!(a.apply_bid(who(2), who(1), 1000, 4_600, 20, 500, 60), Err(ErrorCode::SelfBid));
    assert_eq!(a.bidders.len(), 1);
    assert!(a.is_consistent());
}

#[test]
fn zero_bid_is_recorded_and_leads_nothing() {
    let mut a = listing();
    assert_eq!(a.apply_bid(who(2), who(2), 0, 100, 20, 500, 60), Ok(0));
    assert_eq!(a.highest_bid, 0);
    assert!(a.highest_bidder.is_zero());
    assert_eq!(a.bidders.len(), 1);
    assert_eq!(a.bids.entries.len(), 1);
    assert!(a.is_consistent());
}

#[test]
fn nobody_may_bid_and_lead() {
    let mut a = listing();
    assert_eq!(a.apply_bid(Identity::none(), who(2), 500, 100, 0, 500, 60), Ok(500));
    assert_eq!(a.highest_bid, 500);
    assert!(a.highest_bidder.is_zero());
    assert!(a.is_consistent());
    assert_eq!(a.preview_withdrawal(Identity::none()), Err(ErrorCode::CannotWithdrawWhileLeading));
}

#[test]
fn withdrawal_is_previewed_and_applied() {
    let mut a = listing();
    a.apply_bid(who(2), who(2), 1000, 100, 20, 500, 60).unwrap();
    a.apply_bid(who(3), who(3), 2000, 100, 20, 500, 60).unwrap();
    assert_eq!(a.preview_withdrawal(who(2)), Ok(980));
    assert_eq!(a.preview_withdrawal(who(3)), Err(ErrorCode::CannotWithdrawWhileLeading));
    assert_eq!(a.preview_withdrawal(who(4)), Err(ErrorCode::NoFundsToWithdraw));
    assert_eq!(a.bids.get(&who(2)), 980);
    assert_eq!(a.apply_withdrawal(who(2)), Ok(980));
    assert_eq!(a.amount_refunded, 980);
    assert_eq!(a.apply_withdrawal(who(2)), Err(ErrorCode::NoFundsToWithdraw));
    assert_eq!(a.amount_refunded, 980);
    assert!(a.is_consistent());
}

#[test]
fn payout_of_a_standard_listing() {
    let mut a = listing();
    a.apply_bid(who(2), who(2), 1000, 100, 20, 500, 60).unwrap();
    let p: Payout = a.compute_payout(50).unwrap();
    assert_eq!((p.owner_earnings, p.fee), (931, 49));
    let p = a.compute_payout(0).unwrap();
    assert_eq!((p.owner_earnings, p.fee), (980, 0));
    let p = a.compute_payout(1000).unwrap();
    assert_eq!((p.owner_earnings, p.fee), (0, 980));
    let p = a.compute_payout(1).unwrap();
    assert_eq!((p.owner_earnings, p.fee), (980, 0));
    let p = a.compute_payout(2).unwrap();
    assert_eq!((p.owner_earnings, p.fee), (979, 1));
    assert_eq!(a.compute_payout(1002).err(), Some(ErrorCode::ArithmeticUnderflow));
}

#[test]
fn payout_of_a_pooled_listing_can_overflow() {
    let mut a = listing();
    a.apply_bid(who(2), who(2), u64::MAX - 10, 100, 0, 500, 60).unwrap();
    a.is_alien = true;
    // the owner would get the highest bid and the pool: twice the same amount
    assert_eq!(a.compute_payout(0).err(), Some(ErrorCode::ArithmeticOverflow));
    a.is_alien = false;
    let p = a.compute_payout(0).unwrap();
    assert_eq!((p.owner_earnings, p.fee), (u64::MAX - 10, 0));
}

#[test]
fn settlement_is_checked_then_applied() {
    let mut a = listing();
    assert_eq!(a.check_settlement(4_999, 50).err(), Some(ErrorCode::AuctionNotYetExpired));
    assert_eq!(a.check_settlement(5_000, 50).err(), Some(ErrorCode::NoBids));
    a.apply_bid(who(2), who(2), 1000, 100, 20, 500, 60).unwrap();
    a.apply_bid(who(3), who(3), 500, 100, 20, 500, 60).unwrap();
    let p = a.check_settlement(5_000, 50).unwrap();
    assert_eq!((p.owner_earnings, p.fee), (931, 49));
    assert!(!a.ended);
    assert_eq!(a.apply_settlement(4_999, 50).err(), Some(ErrorCode::AuctionNotYetExpired));
    assert!(!a.ended);
    let p = a.apply_settlement(5_000, 50).unwrap();
    assert_eq!((p.owner_earnings, p.fee), (931, 49));
    assert!(a.ended);
    assert_eq!(a.amount_paid_out, 980);
    assert_eq!(a.bids.get(&who(2)), 0);
    assert_eq!(a.bids.get(&who(3)), 490);
    assert_eq!(a.apply_settlement(5_000, 50).err(), Some(ErrorCode::AlreadyEnded));
    assert_eq!(a.check_settlement(4_000, 50).err(), Some(ErrorCode::AuctionNotYetExpired));
    assert!(a.is_consistent());
}

#[test]
fn ledger_sets_a_balance() {
    let mut ledger = Ledger::new();
    ledger.set(who(1), 40, 7);
    ledger.set(who(2), 50, 8);
    assert_eq!(ledger.get(&who(1)), 40);
    ledger.set(who(1), 5, 9);
    assert_eq!(ledger.entries.len(), 2);
    assert_eq!(ledger.get(&who(1)), 5);
    assert_eq!(ledger.time_of(&who(1)), 9);
    assert_eq!(ledger.get(&who(2)), 50);
    assert_eq!(ledger.sum(), 55);
    assert!(ledger.is_distinct());
}

#[test]
fn inconsistent_listings_are_recognised() {
    let mut a = listing();
    a.apply_bid(who(2), who(2), 1000, 100, 20, 500, 60).unwrap();
    assert!(a.is_consistent());
    let sound = |change: &dyn Fn(&mut AuctionDetails)| {
        let mut b = listing();
        b.apply_bid(who(2), who(2), 1000, 100, 20, 500, 60).unwrap();
        change(&mut b);
        b.is_consistent()
    };
    assert!(sound(&|_| {}));
    assert!(!sound(&|b| b.highest_bidder = who(3)));
    assert!(!sound(&|b| b.highest_bid = 0));
    assert!(!sound(&|b| b.minimum_bid = 980));
    assert!(sound(&|b| b.minimum_bid = 979));
    assert!(!sound(&|b| b.ended = true));
    assert!(!sound(&|b| b.amount_refunded = 1));
    assert!(!sound(&|b| b.bidders.clear()));
    assert!(!sound(&|b| b.bids.entries[0].escrowed_amount = 979));
    assert!(!sound(&|b| b.bids.entries.clear()));
    assert!(sound(&|b| b.paused = true));
    assert!(sound(&|b| b.fees = 9));
    assert!(sound(&|b| b.end_time = 0));
}

#[test]
fn refund_is_taken_back_only_where_it_is_pending() {
    let mut a = listing();
    a.apply_bid(who(2), who(2), 1000, 100, 20, 500, 60).unwrap();
    a.apply_bid(who(3), who(3), 2000, 110, 20, 500, 60).unwrap();
    assert!(!a.refund_is_pending(who(2), 980));
    assert!(!a.undo_withdrawal(who(2), 980));
    assert_eq!(a.apply_withdrawal(who(2)), Ok(980));
    assert!(a.refund_is_pending(who(2), 980));
    assert!(a.refund_is_pending(who(2), 1));
    assert!(!a.refund_is_pending(who(2), 0));
    assert!(!a.refund_is_pending(who(2), 981));
    assert!(!a.refund_is_pending(who(3), 980));
    assert!(!a.refund_is_pending(who(4), 980));
    assert!(!a.undo_withdrawal(who(2), 981));
    assert_eq!(a.bids.get(&who(2)), 0);
    assert!(a.undo_withdrawal(who(2), 980));
    assert_eq!(a.bids.get(&who(2)), 980);
    assert_eq!(a.bids.time_of(&who(2)), 100);
    assert_eq!(a.amount_refunded, 0);
    assert_eq!(a.highest_bid, 1960);
    assert_eq!(a.highest_bidder, who(3));
    assert!(!a.undo_withdrawal(who(2), 980));
    assert!(a.is_consistent());
    a.is_alien = true;
    assert!(!a.refund_is_pending(who(2), 980));
}
