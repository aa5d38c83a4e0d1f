use transaction_engine::amount::parse_amount;

#[test]
fn parses_whole_amounts() {
    assert_eq!(parse_amount(b"5"), Some(50000));
    assert_eq!(parse_amount(b"0"), Some(0));
    assert_eq!(parse_amount(b"123"), Some(1230000));
}

#[test]
fn empty_amount_is_zero() {
    assert_eq!(parse_amount(b""), Some(0));
}

#[test]
fn parses_fractions() {
    assert_eq!(parse_amount(b"1.5"), Some(15000));
    assert_eq!(parse_amount(b"1.8889"), Some(18889));
    assert_eq!(parse_amount(b".5"), Some(5000));
    assert_eq!(parse_amount(b"5."), Some(50000));
    assert_eq!(parse_amount(b"0.0001"), Some(1));
}

#[test]
fn rounds_half_up_at_four_digits() {
    assert_eq!(parse_amount(b"1.88889"), Some(18889));
    assert_eq!(parse_amount(b"1.00005"), Some(10001));
    assert_eq!(parse_amount(b"1.000049999"), Some(10000));
    assert_eq!(parse_amount(b"0.99995"), Some(10000));
}

#[test]
fn rejects_what_is_not_an_amount() {
    assert_eq!(parse_amount(b"."), None);
    assert_eq!(parse_amount(b"abc"), None);
    assert_eq!(parse_amount(b"1.2.3"), None);
    assert_eq!(parse_amount(b"-1"), None);
    assert_eq!(parse_amount(b"1x"), None);
    assert_eq!(parse_amount(b"1.x"), None);
    assert_eq!(parse_amount(b" 1"), None);
}

#[test]
fn largest_amount_fits_and_one_more_does_not() {
    assert_eq!(parse_amount(b"1844674407370955.1615"), Some(u64::MAX));
    assert_eq!(parse_amount(b"1844674407370955.1616"), None);
    assert_eq!(parse_amount(b"1844674407370956"), None);
    assert_eq!(parse_amount(b"99999999999999999999999999"), None);
}

use transaction_engine::parser::Parser;
use transaction_engine::transaction::{Transaction, Type};

#[test]
fn records_become_instructions() {
    assert_eq!(
        Parser::parse_record(Type::Deposit, 2, 7, Some(b"1.25")),
        Some(Transaction::new(7, Type::Deposit, 2, 12500))
    );
    assert_eq!(
        Parser::parse_record(Type::Withdrawal, 2, 8, Some(b"")),
        Some(Transaction::new(8, Type::Withdrawal, 2, 0))
    );
    assert_eq!(
        Parser::parse_record(Type::Dispute, 2, 7, None),
        Some(Transaction::new(7, Type::Dispute, 2, 0))
    );
    assert_eq!(
        Parser::parse_record(Type::Resolve, 2, 7, Some(b"junk")),
        Some(Transaction::new(7, Type::Resolve, 2, 0))
    );
}

#[test]
fn malformed_records_are_refused() {
    assert_eq!(Parser::parse_record(Type::Deposit, 1, 1, None), None);
    assert_eq!(Parser::parse_record(Type::Withdrawal, 1, 1, Some(b"1,5")), None);
}
