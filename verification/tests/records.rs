use auction_contract::utils::time_as_unsigned;
use auction_contract::{
    format_metadata, generate_metadata, uint_to_string, BalanceEntry, ErrorCode, Identity, Ledger,
    OwnerIndex,
};

fn last_byte(value: u8) -> Identity {
    let mut bytes = [0u8; 32];
    bytes[31] = value;
    Identity::new(bytes)
}

#[test]
fn decimal_text_of_numbers() {
    assert_eq!(uint_to_string(0), "0");
    assert_eq!(uint_to_string(7), "7");
    assert_eq!(uint_to_string(10), "10");
    assert_eq!(uint_to_string(980), "980");
    assert_eq!(uint_to_string(1234567890), "1234567890");
    assert_eq!(uint_to_string(u64::MAX), "18446744073709551615");
    for value in [1u64, 9, 99, 100, 101, 4096, 1_000_000_007, u64::MAX - 1] {
        assert_eq!(uint_to_string(value), value.to_string());
    }
}

#[test]
fn negative_time_reads_as_twos_complement() {
    assert_eq!(time_as_unsigned(0), 0);
    assert_eq!(time_as_unsigned(1_700_000_000), 1_700_000_000);
    assert_eq!(time_as_unsigned(i64::MAX), i64::MAX as u64);
    assert_eq!(time_as_unsigned(-1), u64::MAX);
    assert_eq!(time_as_unsigned(-2), u64::MAX - 1);
    assert_eq!(time_as_unsigned(i64::MIN), 1u64 << 63);
}

#[test]
fn settlement_record_is_written_in_its_fixed_form() {
    assert_eq!(
        format_metadata("L1", 980, 1_700_000_010, "seller", "minter"),
        "listing_id:L1, amount:980, time:1700000010, seller:seller, minter:minter"
    );
    assert_eq!(
        format_metadata("", 0, -1, "", ""),
        "listing_id:, amount:0, time:18446744073709551615, seller:, minter:"
    );
}

#[test]
fn settlement_record_needs_a_seller_and_a_contract() {
    let nobody = Identity::none();
    let somebody = last_byte(1);
    assert_eq!(generate_metadata("L1", 1, 1, nobody, somebody), Err(ErrorCode::InvalidSeller));
    assert_eq!(generate_metadata("L1", 1, 1, nobody, nobody), Err(ErrorCode::InvalidSeller));
    assert_eq!(generate_metadata("L1", 1, 1, somebody, nobody), Err(ErrorCode::InvalidPaymentContract));
}

#[test]
fn settlement_record_spells_addresses_in_base_58() {
    let ones = "1".repeat(31);
    assert_eq!(
        generate_metadata("L1", 980, 5, last_byte(1), last_byte(58)),
        Ok(format!("listing_id:L1, amount:980, time:5, seller:{}2, minter:{}21", ones, ones))
    );
}

#[test]
fn address_text_is_base_58() {
    assert_eq!(Identity::none().to_text(), "1".repeat(32));
    assert_eq!(last_byte(1).to_text(), format!("{}2", "1".repeat(31)));
    assert_eq!(last_byte(57).to_text(), format!("{}z", "1".repeat(31)));
    assert_eq!(last_byte(58).to_text(), format!("{}21", "1".repeat(31)));
    let bytes: [u8; 32] = [
        24, 243, 6, 223, 230, 153, 210, 8, 92, 137, 123, 67, 164, 197, 79, 196, 125, 43, 183, 85, 103,
        91, 232, 167, 73, 131, 104, 131, 0, 101, 214, 231,
    ];
    assert_eq!(Identity::new(bytes).to_text(), "2gPihUTjt3FJqf1VpidgrY5cZ6PuyMccGVwQHRfjMPZG");
}

#[test]
fn identities_compare_by_their_bytes() {
    assert_eq!(last_byte(3), last_byte(3));
    assert_ne!(last_byte(3), last_byte(4));
    let mut first = [0u8; 32];
    first[0] = 3;
    assert_ne!(Identity::new(first), last_byte(3));
    assert!(Identity::none().is_zero());
    assert!(Identity::default().is_zero());
    assert_eq!(Identity::default(), Identity::none());
    assert!(!last_byte(1).is_zero());
    assert!(!Identity::new(first).is_zero());
    assert_eq!(Identity::new(first).bytes, first);
}

#[test]
fn ledger_adds_and_closes_balances() {
    let mut ledger = Ledger::new();
    assert!(ledger.is_distinct());
    assert_eq!(ledger.get(&last_byte(1)), 0);
    assert_eq!(ledger.time_of(&last_byte(1)), 0);
    assert_eq!(ledger.find(&last_byte(1)), None);
    assert_eq!(ledger.sum(), 0);
    assert_eq!(ledger.largest(), 0);
    ledger.add(last_byte(1), 10, 100);
    ledger.add(last_byte(2), 25, 101);
    ledger.add(last_byte(1), 5, 102);
    assert_eq!(ledger.entries.len(), 2);
    assert_eq!(ledger.find(&last_byte(2)), Some(1));
    assert_eq!(ledger.get(&last_byte(1)), 15);
    assert_eq!(ledger.time_of(&last_byte(1)), 102);
    assert_eq!(ledger.get(&last_byte(2)), 25);
    assert_eq!(ledger.sum(), 40);
    assert_eq!(ledger.largest(), 25);
    assert_eq!(ledger.zero(&last_byte(2)), 25);
    assert_eq!(ledger.zero(&last_byte(2)), 0);
    assert_eq!(ledger.zero(&last_byte(9)), 0);
    assert_eq!(ledger.get(&last_byte(2)), 0);
    assert_eq!(ledger.time_of(&last_byte(2)), 101);
    assert_eq!(ledger.sum(), 15);
    assert_eq!(ledger.largest(), 15);
    ledger.add(last_byte(2), 1, 103);
    ledger.zero_all();
    assert_eq!(ledger.sum(), 0);
    assert_eq!(ledger.entries.len(), 2);
    assert_eq!(ledger.time_of(&last_byte(2)), 103);
    assert!(ledger.is_distinct());
    ledger.entries.push(BalanceEntry { bidder: last_byte(1), escrowed_amount: 1, time: 0 });
    assert!(!ledger.is_distinct());
}

#[test]
fn ledger_sums_beyond_sixty_four_bits() {
    let mut ledger = Ledger::new();
    ledger.add(last_byte(1), u64::MAX, 0);
    ledger.add(last_byte(2), u64::MAX, 0);
    assert_eq!(ledger.sum(), 2 * (u64::MAX as u128));
    assert_eq!(ledger.largest(), u64::MAX);
}

#[test]
fn owner_index_keeps_each_owners_order() {
    let mut index = OwnerIndex::new();
    assert!(index.listings(&last_byte(1)).is_empty());
    index.add(last_byte(1), "a".to_string());
    index.add(last_byte(2), "b".to_string());
    index.add(last_byte(1), "c".to_string());
    index.add(last_byte(1), "a".to_string());
    assert_eq!(index.find(&last_byte(2)), Some(1));
    assert_eq!(index.find(&last_byte(3)), None);
    assert_eq!(index.listings(&last_byte(1)), vec!["a", "c", "a"]);
    assert!(index.remove(&last_byte(1), &"a".to_string()));
    assert_eq!(index.listings(&last_byte(1)), vec!["c", "a"]);
    assert!(!index.remove(&last_byte(1), &"b".to_string()));
    assert!(!index.remove(&last_byte(3), &"a".to_string()));
    assert!(index.remove(&last_byte(2), &"b".to_string()));
    assert!(index.listings(&last_byte(2)).is_empty());
    assert!(index.is_distinct());
}
