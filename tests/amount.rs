use trade_size::amount::{parse_amount, AmountError};

#[test]
fn amounts_are_read_in_cents() {
    assert_eq!(parse_amount(b"50"), Ok(5_000));
    assert_eq!(parse_amount(b"10000"), Ok(1_000_000));
    assert_eq!(parse_amount(b"-1.5"), Ok(-150));
    assert_eq!(parse_amount(b"+.5"), Ok(50));
    assert_eq!(parse_amount(b"5."), Ok(500));
    assert_eq!(parse_amount(b"0007.07"), Ok(707));
}

#[test]
fn digits_past_the_cents_are_rounded() {
    assert_eq!(parse_amount(b"1.005"), Ok(101));
    assert_eq!(parse_amount(b"1.0049"), Ok(100));
    assert_eq!(parse_amount(b"-2.999"), Ok(-300));
}

#[test]
fn malformed_text_is_refused() {
    for text in [&b""[..], b".", b"-", b"+", b"1.2.3", b"abc", b"1e3", b"12a", b" 1", b"--1"] {
        assert_eq!(parse_amount(text), Err(AmountError::Malformed));
    }
}

#[test]
fn whole_part_has_a_bound() {
    assert_eq!(parse_amount(b"1000000000000000"), Ok(100_000_000_000_000_000));
    assert_eq!(parse_amount(b"-1000000000000000.99"), Ok(-100_000_000_000_000_099));
    assert_eq!(parse_amount(b"1000000000000001"), Err(AmountError::OutOfRange));
    assert_eq!(parse_amount(b"99999999999999999999999"), Err(AmountError::OutOfRange));
}
