//! The settlement record: the text that is handed to the mint when a listing
//! is settled.

use vstd::prelude::*;
use crate::error::ErrorCode;
use crate::identity::Identity;

verus! {

/// The character of one decimal digit.
pub open spec fn digit_char(digit: nat) -> char {
    if digit == 0 {
        '0'
    } else if digit == 1 {
        '1'
    } else if digit == 2 {
        '2'
    } else if digit == 3 {
        '3'
    } else if digit == 4 {
        '4'
    } else if digit == 5 {
        '5'
    } else if digit == 6 {
        '6'
    } else if digit == 7 {
        '7'
    } else if digit == 8 {
        '8'
    } else {
        '9'
    }
}

/// The decimal digits of `value`, most significant first, without leading
/// zeros.
pub open spec fn decimal(value: nat) -> Seq<char>
    decreases value,
{
    if value < 10 {
        seq![digit_char(value)]
    } else {
        decimal(value / 10).push(digit_char(value % 10))
    }
}

/// A time read as an unsigned number of 64 bits: itself if it is not
/// negative, its two's complement otherwise.
pub open spec fn unsigned(time: i64) -> u64 {
    if time >= 0 {
        time as u64
    } else {
        (time + 0x1_0000_0000_0000_0000) as u64
    }
}

/// The settlement record of a listing.
pub open spec fn metadata_text(
    listing_id: Seq<char>,
    amount: u64,
    time: i64,
    seller: Seq<char>,
    minter: Seq<char>,
) -> Seq<char> {
    "listing_id:"@ + listing_id + ", amount:"@ + decimal(amount as nat) + ", time:"@ + decimal(
        unsigned(time) as nat,
    ) + ", seller:"@ + seller + ", minter:"@ + minter
}

/// The text of one decimal digit.
fn digit_text(digit: u64) -> (text: &'static str)
    requires
        digit < 10,
    ensures
        text@ == seq![digit_char(digit as nat)],
{
    proof {
        reveal_strlit("0");
        reveal_strlit("1");
        reveal_strlit("2");
        reveal_strlit("3");
        reveal_strlit("4");
        reveal_strlit("5");
        reveal_strlit("6");
        reveal_strlit("7");
        reveal_strlit("8");
        reveal_strlit("9");
    }
    let text: &'static str = if digit == 0 {
        "0"
    } else if digit == 1 {
        "1"
    } else if digit == 2 {
        "2"
    } else if digit == 3 {
        "3"
    } else if digit == 4 {
        "4"
    } else if digit == 5 {
        "5"
    } else if digit == 6 {
        "6"
    } else if digit == 7 {
        "7"
    } else if digit == 8 {
        "8"
    } else {
        "9"
    };
    assert(text@ =~= seq![digit_char(digit as nat)]);
    text
}

/// The decimal text of `value`.
pub fn uint_to_string(value: u64) -> (text: String)
    ensures
        text@ == decimal(value as nat),
    decreases value,
{
    if value < 10 {
        digit_text(value).to_owned()
    } else {
        let mut text = uint_to_string(value / 10);
        text.append(digit_text(value % 10));
        assert(text@ =~= decimal(value as nat));
        text
    }
}

/// A time as the unsigned number that its 64 bits spell.
pub fn time_as_unsigned(time: i64) -> (r: u64)
    ensures
        r == unsigned(time),
{
    if time >= 0 {
        time as u64
    } else {
        u64::MAX - ((-(time + 1)) as u64)
    }
}

/// Writes the settlement record from the texts of the seller and the
/// settlement contract.
pub fn format_metadata(listing_id: &str, amount: u64, time: i64, seller: &str, minter: &str) -> (text:
    String)
    ensures
        text@ == metadata_text(listing_id@, amount, time, seller@, minter@),
{
    let amount_text = uint_to_string(amount);
    let time_text = uint_to_string(time_as_unsigned(time));
    let mut text = "listing_id:".to_owned();
    text.append(listing_id);
    text.append(", amount:");
    text.append(amount_text.as_str());
    text.append(", time:");
    text.append(time_text.as_str());
    text.append(", seller:");
    text.append(seller);
    text.append(", minter:");
    text.append(minter);
    text
}

/// Writes the settlement record of a listing. The seller and the settlement
/// contract must each be somebody; the seller is tested first.
pub fn generate_metadata(
    listing_id: &str,
    amount: u64,
    time: i64,
    seller_address: Identity,
    payment_contract_address: Identity,
) -> (r: Result<String, ErrorCode>)
    ensures
        seller_address.is_none() ==> r is Err && r->Err_0 == ErrorCode::InvalidSeller,
        !seller_address.is_none() && payment_contract_address.is_none() ==> r is Err && r->Err_0
            == ErrorCode::InvalidPaymentContract,
        !seller_address.is_none() && !payment_contract_address.is_none() ==> r is Ok && r->Ok_0@
            == metadata_text(
            listing_id@,
            amount,
            time,
            seller_address.text(),
            payment_contract_address.text(),
        ),
{
    if seller_address.is_zero() {
        return Err(ErrorCode::InvalidSeller);
    }
    if payment_contract_address.is_zero() {
        return Err(ErrorCode::InvalidPaymentContract);
    }
    let seller = seller_address.to_text();
    let minter = payment_contract_address.to_text();
    Ok(format_metadata(listing_id, amount, time, seller.as_str(), minter.as_str()))
}

} // verus!
