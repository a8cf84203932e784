use trade_size::args::{parse_arguments, ArgError, Field};

fn line(words: &[&str]) -> Vec<Vec<u8>> {
    words.iter().map(|w| w.as_bytes().to_vec()).collect()
}

#[test]
fn two_arguments_give_usage() {
    let r = parse_arguments(&line(&["ts", "10000", "50"]));
    assert_eq!(r, Err(ArgError::Usage));
    assert_eq!(ArgError::Usage.message(), "Usage: ts [ACCOUNT_EQUITY] [PRICE] [STOP_LOSS]");
    assert_eq!(parse_arguments(&line(&[])), Err(ArgError::Usage));
    assert_eq!(parse_arguments(&line(&["ts", "1", "2", "3", "4"])), Err(ArgError::Usage));
}

#[test]
fn non_numeric_price_names_price() {
    let r = parse_arguments(&line(&["ts", "10000", "abc", "45"]));
    assert_eq!(r, Err(ArgError::Unparsable(Field::Price)));
    assert!(r.unwrap_err().message().contains("'price'"));
}

#[test]
fn first_bad_field_is_named() {
    let r = parse_arguments(&line(&["ts", "x", "y", "z"]));
    assert_eq!(r, Err(ArgError::Unparsable(Field::AccountEquity)));
    assert_eq!(r.unwrap_err().message(), "Error parsing 'account_equity'");
    let r = parse_arguments(&line(&["ts", "1", "2", "z"]));
    assert_eq!(r, Err(ArgError::Unparsable(Field::StopLoss)));
    assert_eq!(r.unwrap_err().message(), "Error parsing 'stop_loss'");
}

#[test]
fn good_arguments_give_a_sizing() {
    let ts = parse_arguments(&line(&["ts", "10000", "50", "45.5"])).unwrap();
    assert_eq!(ts.account_equity, 1_000_000);
    assert_eq!(ts.price, 5_000);
    assert_eq!(ts.stop_loss, 4_550);
}
