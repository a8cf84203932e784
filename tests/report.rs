use currency_rs::Currency;
use trade_size::report::{input_table, percent_text, report, risk_rows, risk_steps, risk_table};
use trade_size::sizing::{SizingError, TradeSize};

#[test]
fn percents_have_two_decimals() {
    assert_eq!(percent_text(125), "1.25");
    assert_eq!(percent_text(100), "1.00");
    assert_eq!(percent_text(5), "0.05");
    assert_eq!(percent_text(1_050), "10.50");
}

#[test]
fn sweep_has_five_steps() {
    assert_eq!(risk_steps(), vec![100, 125, 150, 175, 200]);
}

#[test]
fn outputs_have_five_rows() {
    let rows = risk_rows(&TradeSize::new(1_000_000, 5_000, 4_500)).unwrap();
    assert_eq!(rows.len(), 5);
    let firsts: Vec<&str> = rows.iter().map(|r| r[0].as_str()).collect();
    assert_eq!(firsts, vec!["1.00", "1.25", "1.50", "1.75", "2.00"]);
    assert_eq!(rows[0][1], "$100.00");
    assert_eq!(rows[0][2], "20");
    assert_eq!(rows[4][1], "$200.00");
    assert_eq!(rows[4][2], "40");
}

#[test]
fn formatted_currency_parses_back() {
    let rows = risk_rows(&TradeSize::new(123_456_789, 10_000, 9_000)).unwrap();
    let ts = TradeSize::new(123_456_789, 10_000, 9_000);
    for (row, risk) in rows.iter().zip([100u32, 125, 150, 175, 200]) {
        let back = Currency::new_string(&row[1], None).unwrap().value();
        let exact = ts.risk_equity(risk) as f64 / 100.0;
        assert!((back - exact).abs() < 0.01);
    }
    assert_eq!(rows[1][1], "$15,432.10");
}

#[test]
fn inputs_table_shows_formatted_amounts() {
    let text = input_table(&TradeSize::new(1_000_000, 5_000, 4_500));
    for cell in ["Equity", "Price", "Stop-loss", "Per-unit Risk", "$10,000.00", "$50.00", "$45.00", "$5.00"] {
        assert!(text.contains(cell), "missing {cell} in {text}");
    }
    assert!(!text.contains("1000000"));
}

#[test]
fn risk_table_reports_zero_risk() {
    let ts = TradeSize::new(500_000, 2_000, 2_000);
    assert_eq!(risk_table(&ts), Err(SizingError::DivisionByZero));
    assert_eq!(report(&ts), Err(SizingError::DivisionByZero));
}

#[test]
fn report_has_both_sections() {
    let text = report(&TradeSize::new(1_000_000, 5_000, 4_500)).unwrap();
    assert!(text.starts_with("\nInputs:\n"));
    let outputs = text.find("\nOutputs:\n").unwrap();
    assert!(text[..outputs].contains("$10,000.00"));
    assert!(text[outputs..].contains("% Risk"));
    assert!(text[outputs..].contains("$200.00"));
    assert!(text.ends_with('\n'));
}
