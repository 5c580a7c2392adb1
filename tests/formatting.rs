use escrow::ids::{generate_deposit_address, generate_escrow_id, generate_tx_id};
use escrow::lifecycle::{resolution_outcome, Resolution};
use escrow::text::{has_term, padded_decimal};
use escrow::types::Currency;
use escrow::utils::{format_amount, normalize_phone};

#[test]
fn escrow_ids_are_zero_padded() {
    assert_eq!(generate_escrow_id(1), "ESC-0000000001");
    assert_eq!(generate_escrow_id(1234567890), "ESC-1234567890");
    assert_eq!(generate_escrow_id(12345678901), "ESC-12345678901");
    assert_eq!(generate_escrow_id(0), "ESC-0000000000");
}

#[test]
fn tx_ids_are_zero_padded() {
    assert_eq!(generate_tx_id(7), "TX-0000000007");
    assert_eq!(generate_tx_id(u64::MAX), "TX-18446744073709551615");
}

#[test]
fn deposit_address_lowercases_btc_suffix() {
    assert_eq!(generate_deposit_address("ESC-ABC9", &Currency::BTC), "tb1qabc9");
    assert_eq!(generate_deposit_address("ESC-0000000003", &Currency::BTC), "tb1q0000000003");
    assert_eq!(generate_deposit_address("ESC-ABC9", &Currency::CkBTC), "ckbtc-ESC-ABC9");
}

#[test]
fn padded_decimal_widths() {
    assert_eq!(padded_decimal(5, 2), "05");
    assert_eq!(padded_decimal(123, 2), "123");
    assert_eq!(padded_decimal(0, 0), "0");
}

#[test]
fn term_search() {
    assert!(has_term("please release now", "release"));
    assert!(!has_term("releas", "release"));
    assert!(has_term("anything", ""));
    assert!(!has_term("", "x"));
    assert_eq!(resolution_outcome("Release"), Resolution::Refund);
    assert_eq!(resolution_outcome("do release"), Resolution::Release);
}

#[test]
fn phones_in_international_form() {
    assert_eq!(normalize_phone("0803 123-4567"), "+2348031234567");
    assert_eq!(normalize_phone("+234 803 123 4567"), "+2348031234567");
    assert_eq!(normalize_phone("234-803-1234567"), "+2348031234567");
    assert_eq!(normalize_phone("1 555 0100"), "+15550100");
    assert_eq!(normalize_phone(""), "+");
}

#[test]
fn amounts_for_display() {
    assert_eq!(format_amount(150050, "NGN"), "\u{20A6}1500.50");
    assert_eq!(format_amount(7, "USD"), "$0.07");
    assert_eq!(format_amount(100000, "USD"), "$1000.00");
    assert_eq!(format_amount(2500, "BTC"), "2500 BTC");
    assert_eq!(format_amount(0, "ckBTC"), "0 ckBTC");
}
