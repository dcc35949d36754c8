use auction_contract::{
    conclude_withdrawal, create_listing, end_auction, get_active_auctions_of, get_auction_details, get_auction_end_time,
    get_bid_amount, get_highest_bidder, get_past_auctions_of, get_pending_withdrawals, get_winner,
    has_auction_ended, initialize_auction, place_bid, prepare_settlement, reclassify, withdraw,
    ErrorCode, Identity, NftComAuction,
};

const T: i64 = 1_700_000_000;

fn id(tag: u8) -> Identity {
    let mut bytes = [0u8; 32];
    bytes[0] = tag;
    bytes[31] = tag;
    Identity::new(bytes)
}

fn registry() -> NftComAuction {
    // buyer's fee 20, seller's fee 50, window 100, extension 60
    NftComAuction::new(id(200), id(201), 20, 50, 100, 60).unwrap()
}

fn opened() -> NftComAuction {
    let mut state = registry();
    let made = initialize_auction(&mut state, "L1", 100, T + 1000, id(1), None, id(1), 500, T);
    assert!(made.is_ok());
    state
}

#[test]
fn owner_seed_bid_is_refused_and_listing_stands() {
    let mut state = registry();
    let made = initialize_auction(&mut state, "L1", 100, T + 1000, id(1), None, id(1), 500, T)
        .expect("the listing is created");
    assert_eq!(made.event.listing_id, "L1");
    assert_eq!(made.event.minimum, 100);
    assert_eq!(made.event.end_time, T + 1000);
    assert_eq!(made.seed_bid.err(), Some(ErrorCode::SelfBid));
    let details = get_auction_details(&state, "L1").unwrap();
    assert_eq!(details.highest_bid, 0);
    assert!(details.highest_bidder.is_zero());
    assert_eq!(details.num_bidders, 0);
    assert_eq!(details.total_amount, 0);
    assert!(!details.ended);
    assert_eq!(get_active_auctions_of(&state, id(1)), vec!["L1".to_string()]);
}

#[test]
fn seed_bid_of_a_third_party_is_placed() {
    let mut state = registry();
    let made =
        initialize_auction(&mut state, "L1", 100, T + 1000, id(1), Some(id(2)), id(2), 1000, T).unwrap();
    let seed = made.seed_bid.expect("the first bid is accepted");
    assert_eq!(seed.listing_id, "L1");
    assert_eq!(seed.sender, id(2));
    assert_eq!(seed.value, 980);
    assert_eq!(get_highest_bidder(&state, "L1"), Ok(id(2)));
}

#[test]
fn owner_as_caller_spoils_a_named_seed_bid() {
    let mut state = registry();
    let made =
        initialize_auction(&mut state, "L1", 100, T + 1000, id(1), Some(id(2)), id(1), 1000, T).unwrap();
    assert_eq!(made.seed_bid.err(), Some(ErrorCode::SelfBid));
    assert_eq!(get_bid_amount(&state, "L1", id(2)), Ok(0));
}

#[test]
fn first_bid_takes_the_lead() {
    let mut state = opened();
    let placed = place_bid(&mut state, "L1", id(2), id(2), 1000, T + 10).unwrap();
    assert_eq!(placed.listing_id, "L1");
    assert_eq!(placed.sender, id(2));
    assert_eq!(placed.value, 980);
    let details = get_auction_details(&state, "L1").unwrap();
    assert_eq!(details.highest_bid, 980);
    assert_eq!(details.highest_bidder, id(2));
    assert_eq!(details.total_amount, 980);
    assert_eq!(details.end_time, T + 1000);
    assert_eq!(get_bid_amount(&state, "L1", id(2)), Ok(980));
}

#[test]
fn late_bid_extends_and_takes_the_lead() {
    let mut state = opened();
    place_bid(&mut state, "L1", id(2), id(2), 1000, T + 10).unwrap();
    let t2 = T + 1000 - 100 + 1;
    let placed = place_bid(&mut state, "L1", id(3), id(3), 1100, t2).unwrap();
    assert_eq!(placed.value, 1078);
    assert_eq!(get_auction_end_time(&state, "L1"), Ok(T + 1000 + 60));
    assert_eq!(get_highest_bidder(&state, "L1"), Ok(id(3)));
    let details = get_auction_details(&state, "L1").unwrap();
    assert_eq!(details.highest_bid, 1078);
    assert_eq!(details.total_amount, 980 + 1078);
    assert_eq!(details.num_bidders, 2);
}

#[test]
fn late_losing_bid_still_extends() {
    let mut state = opened();
    place_bid(&mut state, "L1", id(2), id(2), 1000, T + 10).unwrap();
    let placed = place_bid(&mut state, "L1", id(3), id(3), 500, T + 950).unwrap();
    assert_eq!(placed.value, 490);
    assert_eq!(get_auction_end_time(&state, "L1"), Ok(T + 1060));
    assert_eq!(get_highest_bidder(&state, "L1"), Ok(id(2)));
    assert_eq!(get_auction_details(&state, "L1").unwrap().highest_bid, 980);
}

#[test]
fn outbid_bidder_withdraws_once() {
    let mut state = opened();
    place_bid(&mut state, "L1", id(2), id(2), 1000, T + 10).unwrap();
    place_bid(&mut state, "L1", id(3), id(3), 1100, T + 20).unwrap();
    assert_eq!(get_pending_withdrawals(&state, "L1", id(2)), Ok(980));
    assert_eq!(get_pending_withdrawals(&state, "L1", id(3)), Ok(0));
    let refund = withdraw(&mut state, "L1", id(2), None).unwrap();
    assert_eq!(refund.to, id(2));
    assert_eq!(refund.amount, 980);
    assert_eq!(get_bid_amount(&state, "L1", id(2)), Ok(0));
    assert_eq!(get_pending_withdrawals(&state, "L1", id(2)), Ok(0));
    assert_eq!(withdraw(&mut state, "L1", id(2), None).err(), Some(ErrorCode::NoFundsToWithdraw));
    let details = get_auction_details(&state, "L1").unwrap();
    assert_eq!(details.total_amount, 980 + 1078);
    assert_eq!(details.highest_bid, 1078);
}

#[test]
fn withdrawal_goes_to_the_named_recipient() {
    let mut state = opened();
    place_bid(&mut state, "L1", id(2), id(2), 1000, T + 10).unwrap();
    place_bid(&mut state, "L1", id(3), id(3), 1100, T + 20).unwrap();
    let refund = withdraw(&mut state, "L1", id(2), Some(id(9))).unwrap();
    assert_eq!(refund.to, id(9));
    assert_eq!(refund.amount, 980);
}

#[test]
fn settlement_too_early_then_twice() {
    let mut state = opened();
    place_bid(&mut state, "L1", id(2), id(2), 1000, T + 10).unwrap();
    assert_eq!(
        end_auction(&mut state, "L1", T + 999, id(50), true).err(),
        Some(ErrorCode::AuctionNotYetExpired)
    );
    assert_eq!(has_auction_ended(&state, "L1"), Ok(false));
    assert!(end_auction(&mut state, "L1", T + 1000, id(50), true).is_ok());
    assert_eq!(has_auction_ended(&state, "L1"), Ok(true));
    assert_eq!(
        end_auction(&mut state, "L1", T + 1001, id(50), true).err(),
        Some(ErrorCode::AlreadyEnded)
    );
}

#[test]
fn settlement_pays_owner_and_fee_recipient() {
    let mut state = opened();
    place_bid(&mut state, "L1", id(2), id(2), 1000, T + 10).unwrap();
    let done = end_auction(&mut state, "L1", T + 1000, id(50), true).unwrap();
    assert_eq!(done.owner_payment.to, id(1));
    assert_eq!(done.owner_payment.amount, 931);
    assert_eq!(done.fee_payment.to, id(200));
    assert_eq!(done.fee_payment.amount, 49);
    assert_eq!(done.event.listing_id, "L1");
    assert_eq!(done.event.winner, id(2));
    assert_eq!(done.event.amount, 980);
    assert_eq!(get_winner(&state, "L1"), Ok(id(2)));
    assert!(get_active_auctions_of(&state, id(1)).is_empty());
    assert_eq!(get_past_auctions_of(&state, id(1)), vec!["L1".to_string()]);
    // the winner's escrow is paid out, the loser's would still be there
    assert_eq!(get_bid_amount(&state, "L1", id(2)), Ok(0));
    assert_eq!(state.auctions[0].amount_paid_out, 980);
}

#[test]
fn failed_mint_leaves_the_listing_to_be_ended_later() {
    let mut state = opened();
    place_bid(&mut state, "L1", id(2), id(2), 1000, T + 10).unwrap();
    assert_eq!(
        end_auction(&mut state, "L1", T + 1000, id(50), false).err(),
        Some(ErrorCode::MintingFailed)
    );
    assert_eq!(has_auction_ended(&state, "L1"), Ok(false));
    assert_eq!(get_active_auctions_of(&state, id(1)), vec!["L1".to_string()]);
    assert_eq!(get_bid_amount(&state, "L1", id(2)), Ok(980));
    assert!(end_auction(&mut state, "L1", T + 1000, id(50), true).is_ok());
}

#[test]
fn losers_withdraw_after_the_settlement() {
    let mut state = opened();
    place_bid(&mut state, "L1", id(2), id(2), 1000, T + 10).unwrap();
    place_bid(&mut state, "L1", id(3), id(3), 1100, T + 20).unwrap();
    end_auction(&mut state, "L1", T + 2000, id(50), true).unwrap();
    assert_eq!(
        withdraw(&mut state, "L1", id(3), None).err(),
        Some(ErrorCode::CannotWithdrawWhileLeading)
    );
    let refund = withdraw(&mut state, "L1", id(2), None).unwrap();
    assert_eq!(refund.amount, 980);
    let a = &state.auctions[0];
    assert_eq!(a.amount_paid_out, 1078);
    assert_eq!(a.amount_refunded, 980);
    assert_eq!(a.total_amount, 2058);
}

#[test]
fn mint_request_carries_the_settlement_record() {
    let mut state = opened();
    place_bid(&mut state, "L1", id(2), id(2), 1000, T + 10).unwrap();
    let owner = Identity::new({
        let mut b = [0u8; 32];
        b[31] = 1;
        b
    });
    let mut other = registry();
    initialize_auction(&mut other, "L9", 100, T + 1000, owner, Some(id(2)), id(2), 1000, T + 5).unwrap();
    let contract = Identity::new({
        let mut b = [0u8; 32];
        b[31] = 58;
        b
    });
    let request = prepare_settlement(&other, "L9", T + 1000, contract, id(7)).unwrap();
    assert_eq!(request.winner, id(2));
    assert_eq!(request.listing_id, "L9");
    assert_eq!(request.owner, owner);
    assert_eq!(request.amount, 980);
    assert_eq!(request.hook, id(7));
    let ones = "1".repeat(31);
    assert_eq!(
        request.metadata,
        format!(
            "listing_id:L9, amount:980, time:{}, seller:{}2, minter:{}21",
            T + 5,
            ones,
            ones
        )
    );
    // asking changes nothing
    assert_eq!(has_auction_ended(&other, "L9"), Ok(false));
    assert_eq!(
        prepare_settlement(&state, "L1", T + 999, contract, id(7)).err(),
        Some(ErrorCode::AuctionNotYetExpired)
    );
    assert_eq!(
        prepare_settlement(&state, "nope", T + 999, contract, id(7)).err(),
        Some(ErrorCode::UnknownListing)
    );
}

#[test]
fn create_listing_enters_the_owner_index() {
    let mut state = registry();
    assert_eq!(create_listing(&mut state, "A", 1, T + 1, id(1), T), Ok(()));
    assert_eq!(create_listing(&mut state, "B", 1, T + 1, id(2), T), Ok(()));
    assert_eq!(create_listing(&mut state, "C", 1, T + 1, id(1), T), Ok(()));
    assert_eq!(get_active_auctions_of(&state, id(1)), vec!["A".to_string(), "C".to_string()]);
    assert_eq!(get_active_auctions_of(&state, id(2)), vec!["B".to_string()]);
    assert!(get_active_auctions_of(&state, id(3)).is_empty());
    assert!(get_past_auctions_of(&state, id(1)).is_empty());
}

#[test]
fn reclassify_moves_once() {
    let mut state = registry();
    create_listing(&mut state, "A", 1, T + 1, id(1), T).unwrap();
    create_listing(&mut state, "C", 1, T + 1, id(1), T).unwrap();
    assert_eq!(reclassify(&mut state, "A"), Ok(true));
    assert_eq!(get_active_auctions_of(&state, id(1)), vec!["C".to_string()]);
    assert_eq!(get_past_auctions_of(&state, id(1)), vec!["A".to_string()]);
    assert_eq!(reclassify(&mut state, "A"), Ok(false));
    assert_eq!(get_active_auctions_of(&state, id(1)), vec!["C".to_string()]);
    assert_eq!(get_past_auctions_of(&state, id(1)), vec!["A".to_string()]);
    assert_eq!(reclassify(&mut state, "Z"), Err(ErrorCode::UnknownListing));
}

#[test]
fn past_listings_keep_the_order_of_settlement() {
    let mut state = registry();
    create_listing(&mut state, "A", 1, T + 10, id(1), T).unwrap();
    create_listing(&mut state, "B", 1, T + 10, id(1), T).unwrap();
    place_bid(&mut state, "A", id(2), id(2), 100, T + 1).unwrap();
    place_bid(&mut state, "B", id(2), id(2), 100, T + 1).unwrap();
    end_auction(&mut state, "B", T + 500, id(50), true).unwrap();
    end_auction(&mut state, "A", T + 500, id(50), true).unwrap();
    assert_eq!(get_past_auctions_of(&state, id(1)), vec!["B".to_string(), "A".to_string()]);
    assert!(get_active_auctions_of(&state, id(1)).is_empty());
}

#[test]
fn open_listings_never_show_a_settled_one() {
    let mut state = registry();
    create_listing(&mut state, "A", 1, T + 10, id(1), T).unwrap();
    create_listing(&mut state, "B", 1, T + 10, id(1), T).unwrap();
    create_listing(&mut state, "C", 1, T + 10, id(2), T).unwrap();
    for name in ["A", "B", "C"] {
        place_bid(&mut state, name, id(3), id(3), 100, T + 1).unwrap();
    }
    end_auction(&mut state, "A", T + 500, id(50), true).unwrap();
    let _ = end_auction(&mut state, "A", T + 500, id(50), true);
    end_auction(&mut state, "C", T + 500, id(50), true).unwrap();
    for owner in [id(1), id(2)] {
        for name in get_active_auctions_of(&state, owner) {
            assert_eq!(has_auction_ended(&state, &name), Ok(false));
        }
        for name in get_past_auctions_of(&state, owner) {
            assert_eq!(has_auction_ended(&state, &name), Ok(true));
        }
    }
    assert_eq!(get_active_auctions_of(&state, id(1)), vec!["B".to_string()]);
    assert_eq!(get_past_auctions_of(&state, id(1)), vec!["A".to_string()]);
    assert_eq!(get_past_auctions_of(&state, id(2)), vec!["C".to_string()]);
    assert!(state.is_consistent());
}

#[test]
fn refused_first_bid_of_a_third_party_creates_nothing() {
    // the extension does not fit: the first bid is refused, and with it the listing
    let mut state = NftComAuction::new(id(200), id(201), 20, 50, 300, u64::MAX).unwrap();
    let made = initialize_auction(&mut state, "L1", 100, 2000, id(1), Some(id(2)), id(2), 1000, 1800);
    assert_eq!(made.err(), Some(ErrorCode::ArithmeticOverflow));
    assert!(state.auctions.is_empty());
    assert!(get_active_auctions_of(&state, id(1)).is_empty());
    assert_eq!(get_bid_amount(&state, "L1", id(2)), Err(ErrorCode::UnknownListing));
    // the identifier is still free
    let made = initialize_auction(&mut state, "L1", 100, 2000, id(1), Some(id(2)), id(2), 1000, 1000).unwrap();
    assert_eq!(made.seed_bid.unwrap().value, 980);
    assert_eq!(get_highest_bidder(&state, "L1"), Ok(id(2)));
    assert!(state.is_consistent());
}

#[test]
fn refused_first_bid_of_the_owner_leaves_the_listing_even_where_the_bid_would_not_fit() {
    let mut state = NftComAuction::new(id(200), id(201), 20, 50, 300, u64::MAX).unwrap();
    let made = initialize_auction(&mut state, "L1", 100, 2000, id(1), None, id(1), 1000, 1800).unwrap();
    assert_eq!(made.seed_bid.err(), Some(ErrorCode::SelfBid));
    assert_eq!(state.auctions.len(), 1);
    assert_eq!(get_auction_end_time(&state, "L1"), Ok(2000));
}

#[test]
fn failed_transfer_puts_the_balance_back() {
    let mut state = opened();
    place_bid(&mut state, "L1", id(2), id(2), 1000, T + 10).unwrap();
    place_bid(&mut state, "L1", id(3), id(3), 1100, T + 20).unwrap();
    let refund = withdraw(&mut state, "L1", id(2), None).unwrap();
    assert_eq!(refund.amount, 980);
    // while the transfer runs the balance is zero: a second withdrawal finds nothing
    assert_eq!(get_bid_amount(&state, "L1", id(2)), Ok(0));
    assert_eq!(withdraw(&mut state, "L1", id(2), None).err(), Some(ErrorCode::NoFundsToWithdraw));
    assert_eq!(state.auctions[0].amount_refunded, 980);
    // the transfer fails
    assert_eq!(
        conclude_withdrawal(&mut state, "L1", id(2), refund, false),
        Err(ErrorCode::TransferFailed)
    );
    assert_eq!(get_bid_amount(&state, "L1", id(2)), Ok(980));
    assert_eq!(state.auctions[0].amount_refunded, 0);
    assert_eq!(state.auctions[0].bids.time_of(&id(2)), T + 10);
    assert_eq!(get_pending_withdrawals(&state, "L1", id(2)), Ok(980));
    assert!(state.is_consistent());
    // a second report of the same failure finds nothing to take back
    assert_eq!(
        conclude_withdrawal(&mut state, "L1", id(2), refund, false),
        Err(ErrorCode::TransferFailed)
    );
    assert_eq!(get_bid_amount(&state, "L1", id(2)), Ok(980));
    assert_eq!(state.auctions[0].amount_refunded, 0);
    // the bidder withdraws again, and this time the funds move
    let again = withdraw(&mut state, "L1", id(2), Some(id(9))).unwrap();
    assert_eq!((again.to, again.amount), (id(9), 980));
    assert_eq!(conclude_withdrawal(&mut state, "L1", id(2), again, true), Ok(()));
    assert_eq!(get_bid_amount(&state, "L1", id(2)), Ok(0));
    assert_eq!(state.auctions[0].amount_refunded, 980);
    assert!(state.is_consistent());
}

#[test]
fn failed_transfer_is_answered_where_nothing_can_be_taken_back() {
    let mut state = opened();
    place_bid(&mut state, "L1", id(2), id(2), 1000, T + 10).unwrap();
    let refund = auction_contract::Transfer { to: id(2), amount: 980 };
    // unknown listing, the leader, a stranger: nothing is released to them
    for (name, who) in [("L9", id(2)), ("L1", id(2)), ("L1", id(7))] {
        assert_eq!(
            conclude_withdrawal(&mut state, name, who, refund, false),
            Err(ErrorCode::TransferFailed)
        );
        assert_eq!(conclude_withdrawal(&mut state, name, who, refund, true), Ok(()));
    }
    assert_eq!(get_bid_amount(&state, "L1", id(2)), Ok(980));
    assert_eq!(state.auctions[0].amount_refunded, 0);
    assert!(state.is_consistent());
}

#[test]
fn failed_transfer_after_the_settlement_puts_the_balance_back() {
    let mut state = opened();
    place_bid(&mut state, "L1", id(2), id(2), 1000, T + 10).unwrap();
    place_bid(&mut state, "L1", id(3), id(3), 1100, T + 20).unwrap();
    end_auction(&mut state, "L1", T + 2000, id(50), true).unwrap();
    let refund = withdraw(&mut state, "L1", id(2), None).unwrap();
    assert_eq!(
        conclude_withdrawal(&mut state, "L1", id(2), refund, false),
        Err(ErrorCode::TransferFailed)
    );
    assert_eq!(get_bid_amount(&state, "L1", id(2)), Ok(980));
    assert_eq!(has_auction_ended(&state, "L1"), Ok(true));
    assert!(state.is_consistent());
}
