use vstd::prelude::*;
use vstd::string::*;
use crate::sizing::{SizingError, TradeSize};

verus! {

/// What `currency_rs` prints for an amount of `cents` cents.
pub uninterp spec fn currency_text(cents: int) -> Seq<char>;

/// What `comfy_table` renders for a table with these header cells and rows,
/// every column aligned to the right.
pub uninterp spec fn table_text(header: Seq<Seq<char>>, rows: Seq<Seq<Seq<char>>>) -> Seq<char>;

/// Relies on currency_rs's `Currency::new_string` (with `from_cents` set) and
/// `Currency::format`: the default currency format of an amount in cents,
/// which depends on that amount alone.
#[verifier::external_body]
fn format_cents(cents: i128) -> (r: String)
    ensures
        r@ == currency_text(cents as int),
{
    let opts = currency_rs::CurrencyOpts::new().set_from_cents(true);
    match currency_rs::Currency::new_string(&cents.to_string(), Some(opts)) {
        Ok(c) => c.format(),
        Err(_) => String::new(),
    }
}

/// Relies on comfy_table's `Table` (`set_header`, `add_rows`,
/// `Column::set_cell_alignment` and its `Display`): the rendering of the given
/// cells, right-aligned, which depends on the cells alone.
#[verifier::external_body]
fn render_table(header: &Vec<String>, rows: &Vec<Vec<String>>) -> (r: String)
    ensures
        r@ == table_text(header.deep_view(), rows.deep_view()),
{
    let mut table = comfy_table::Table::new();
    table.force_no_tty();
    table.set_header(header.clone());
    table.add_rows(rows.clone());
    for column in table.column_iter_mut() {
        column.set_cell_alignment(comfy_table::CellAlignment::Right);
    }
    table.to_string()
}

pub open spec fn digit_char(d: int) -> char {
    seq!['0', '1', '2', '3', '4', '5', '6', '7', '8', '9'][d]
}

/// The decimal digits of `n`, without leading zeros.
pub open spec fn decimal_text(n: nat) -> Seq<char>
    decreases n,
{
    if n < 10 {
        seq![digit_char(n as int)]
    } else {
        decimal_text(n / 10).push(digit_char((n % 10) as int))
    }
}

/// Relies on the `Display` of `u64`: its decimal digits.
#[verifier::external_body]
fn decimal_string(n: u64) -> (r: String)
    ensures
        r@ == decimal_text(n as nat),
{
    n.to_string()
}

/// A risk given in hundredths of a percent, written with two decimals.
pub open spec fn spec_percent_text(risk: nat) -> Seq<char> {
    decimal_text(risk / 100) + seq!['.'] + (if risk % 100 < 10 {
        seq!['0']
    } else {
        Seq::empty()
    }) + decimal_text(risk % 100)
}

/// Writes a risk given in hundredths of a percent with two decimals: `125`
/// gives `1.25`.
pub fn percent_text(risk: u32) -> (r: String)
    ensures
        r@ == spec_percent_text(risk as nat),
{
    proof {
        reveal_strlit(".");
        reveal_strlit("0");
    }
    let mut text = decimal_string((risk / 100) as u64);
    text.append(".");
    let part = risk % 100;
    if part < 10 {
        text.append("0");
    }
    let rest = decimal_string(part as u64);
    text.append(rest.as_str());
    text
}

/// The first risk of the sweep: 1.00%.
pub const MIN_RISK: u32 = 100;

/// The last risk of the sweep: 2.00%.
pub const MAX_RISK: u32 = 200;

/// The step of the sweep: 0.25%.
pub const RISK_STEP: u32 = 25;

/// The risks of the sweep, in hundredths of a percent.
pub open spec fn spec_risk_steps() -> Seq<u32> {
    seq![100u32, 125, 150, 175, 200]
}

/// The risks from `MIN_RISK` to `MAX_RISK` in steps of `RISK_STEP`.
pub fn risk_steps() -> (r: Vec<u32>)
    ensures
        r@ == spec_risk_steps(),
{
    let mut steps: Vec<u32> = Vec::new();
    let mut risk: u32 = MIN_RISK;
    while risk <= MAX_RISK
        invariant
            risk == MIN_RISK + RISK_STEP * steps@.len(),
            risk <= MAX_RISK + RISK_STEP,
            forall|j: int| 0 <= j < steps@.len() ==> #[trigger] steps@[j] == MIN_RISK + RISK_STEP * j,
        decreases MAX_RISK + RISK_STEP - risk,
    {
        steps.push(risk);
        risk = risk + RISK_STEP;
    }
    assert(steps@ =~= spec_risk_steps());
    steps
}

pub open spec fn input_header() -> Seq<Seq<char>> {
    seq!["Equity"@, "Price"@, "Stop-loss"@, "Per-unit Risk"@]
}

pub open spec fn risk_header() -> Seq<Seq<char>> {
    seq!["% Risk"@, "Risk Equity"@, "Shares"@]
}

/// The row of the inputs table: equity, price, stop-loss and per-unit risk.
pub open spec fn input_row(ts: TradeSize) -> Seq<Seq<char>> {
    seq![
        currency_text(ts.account_equity as int),
        currency_text(ts.price as int),
        currency_text(ts.stop_loss as int),
        currency_text(ts.spec_per_unit_risk()),
    ]
}

pub open spec fn spec_input_table(ts: TradeSize) -> Seq<char> {
    table_text(input_header(), seq![input_row(ts)])
}

/// The row of the outputs table for one risk: the risk, the equity at risk
/// and the share count.
pub open spec fn risk_row(ts: TradeSize, risk: u32, shares: u32) -> Seq<Seq<char>> {
    seq![
        spec_percent_text(risk as nat),
        currency_text(ts.spec_risk_equity(risk as int)),
        decimal_text(shares as nat),
    ]
}

/// The rows of the outputs table for the given risks, or the error of the
/// first risk that has no share count.
pub open spec fn spec_risk_rows(ts: TradeSize, steps: Seq<u32>) -> Result<
    Seq<Seq<Seq<char>>>,
    SizingError,
>
    decreases steps.len(),
{
    if steps.len() == 0 {
        Ok(Seq::empty())
    } else {
        match spec_risk_rows(ts, steps.drop_last()) {
            Err(e) => Err(e),
            Ok(rows) => match ts.spec_num_shares(steps.last() as int) {
                Err(e) => Err(e),
                Ok(n) => Ok(rows.push(risk_row(ts, steps.last(), n))),
            },
        }
    }
}

pub open spec fn spec_risk_table(ts: TradeSize) -> Result<Seq<char>, SizingError> {
    match spec_risk_rows(ts, spec_risk_steps()) {
        Err(e) => Err(e),
        Ok(rows) => Ok(table_text(risk_header(), rows)),
    }
}

/// A section label on its own line, after a blank line.
pub open spec fn padded(label: Seq<char>) -> Seq<char> {
    seq!['\n'] + label + seq!['\n']
}

/// Both reports as printed: the inputs, then the outputs.
pub open spec fn spec_report(ts: TradeSize) -> Result<Seq<char>, SizingError> {
    match spec_risk_table(ts) {
        Err(e) => Err(e),
        Ok(risk) => Ok(
            padded("Inputs:"@) + spec_input_table(ts) + seq!['\n'] + padded("Outputs:"@) + risk
                + seq!['\n'],
        ),
    }
}

proof fn lemma_rows_error_persists(ts: TradeSize, s: Seq<u32>, i: int)
    requires
        0 <= i <= s.len(),
        spec_risk_rows(ts, s.take(i)) is Err,
    ensures
        spec_risk_rows(ts, s) == spec_risk_rows(ts, s.take(i)),
    decreases s.len() - i,
{
    if i < s.len() {
        assert(s.take(i + 1).drop_last() =~= s.take(i));
        lemma_rows_error_persists(ts, s, i + 1);
    } else {
        assert(s.take(i) =~= s);
    }
}

proof fn lemma_rows_follow_steps(ts: TradeSize, s: Seq<u32>)
    ensures
        spec_risk_rows(ts, s) is Ok <==> forall|i: int|
            0 <= i < s.len() ==> #[trigger] ts.spec_num_shares(s[i] as int) is Ok,
        spec_risk_rows(ts, s) is Ok ==> spec_risk_rows(ts, s)->Ok_0.len() == s.len(),
        spec_risk_rows(ts, s) is Ok ==> forall|i: int|
            0 <= i < s.len() ==> (#[trigger] spec_risk_rows(ts, s)->Ok_0[i])[0] == spec_percent_text(
                s[i] as nat,
            ),
    decreases s.len(),
{
    if s.len() > 0 {
        let p = s.drop_last();
        lemma_rows_follow_steps(ts, p);
        assert forall|i: int| 0 <= i < p.len() implies p[i] == s[i] by {}
        if spec_risk_rows(ts, p) is Ok && ts.spec_num_shares(s.last() as int) is Ok {
            assert forall|i: int| 0 <= i < s.len() implies #[trigger] ts.spec_num_shares(
                s[i] as int,
            ) is Ok by {
                if i < p.len() {
                    assert(ts.spec_num_shares(p[i] as int) is Ok);
                }
            }
        }
        if !(spec_risk_rows(ts, p) is Ok) {
            let j = choose|j: int| 0 <= j < p.len() && !(#[trigger] ts.spec_num_shares(p[j] as int) is Ok);
            assert(p[j] == s[j]);
        }
        if !(ts.spec_num_shares(s.last() as int) is Ok) {
            assert(s[s.len() - 1] == s.last());
        }
    }
}

/// The outputs table exists exactly when a share count is defined at each of
/// the five risks 1.00, 1.25, 1.50, 1.75 and 2.00 percent, and then it has
/// one row for each of them, in that order.
pub proof fn lemma_outputs_have_five_rows(ts: TradeSize)
    ensures
        spec_risk_rows(ts, spec_risk_steps()) is Ok <==> forall|i: int|
            0 <= i < 5 ==> #[trigger] ts.spec_num_shares(100 + 25 * i) is Ok,
        spec_risk_rows(ts, spec_risk_steps()) is Ok ==> spec_risk_rows(
            ts,
            spec_risk_steps(),
        )->Ok_0.len() == 5,
        spec_risk_rows(ts, spec_risk_steps()) is Ok ==> forall|i: int|
            0 <= i < 5 ==> (#[trigger] spec_risk_rows(ts, spec_risk_steps())->Ok_0[i])[0]
                == spec_percent_text((100 + 25 * i) as nat),
{
    let s = spec_risk_steps();
    lemma_rows_follow_steps(ts, s);
    assert forall|i: int| 0 <= i < 5 implies s[i] as int == 100 + 25 * i by {}
    if forall|i: int| 0 <= i < 5 ==> #[trigger] ts.spec_num_shares(100 + 25 * i) is Ok {
        assert forall|i: int| 0 <= i < s.len() implies #[trigger] ts.spec_num_shares(
            s[i] as int,
        ) is Ok by {
            assert(ts.spec_num_shares(100 + 25 * i) is Ok);
        }
    }
    if spec_risk_rows(ts, s) is Ok {
        assert forall|i: int| 0 <= i < 5 implies #[trigger] ts.spec_num_shares(100 + 25 * i) is Ok by {
            assert(ts.spec_num_shares(s[i] as int) is Ok);
        }
    }
}

/// The table of inputs: equity, price, stop-loss and per-unit risk.
pub fn input_table(ts: &TradeSize) -> (r: String)
    ensures
        r@ == spec_input_table(*ts),
{
    proof {
        reveal_strlit("Equity");
        reveal_strlit("Price");
        reveal_strlit("Stop-loss");
        reveal_strlit("Per-unit Risk");
    }
    let header: Vec<String> = vec![
        String::from_str("Equity"),
        String::from_str("Price"),
        String::from_str("Stop-loss"),
        String::from_str("Per-unit Risk"),
    ];
    let row: Vec<String> = vec![
        format_cents(ts.account_equity as i128),
        format_cents(ts.price as i128),
        format_cents(ts.stop_loss as i128),
        format_cents(ts.per_unit_risk()),
    ];
    let rows: Vec<Vec<String>> = vec![row];
    assert(header.deep_view() =~= input_header());
    assert(rows.deep_view()[0] =~= input_row(*ts));
    assert(rows.deep_view() =~= seq![input_row(*ts)]);
    render_table(&header, &rows)
}

/// The rows of the outputs table, one for each risk of the sweep, or the
/// error of the first risk that has no share count.
pub fn risk_rows(ts: &TradeSize) -> (r: Result<Vec<Vec<String>>, SizingError>)
    ensures
        match r {
            Ok(rows) => spec_risk_rows(*ts, spec_risk_steps()) == Ok::<
                Seq<Seq<Seq<char>>>,
                SizingError,
            >(rows.deep_view()),
            Err(e) => spec_risk_rows(*ts, spec_risk_steps()) == Err::<
                Seq<Seq<Seq<char>>>,
                SizingError,
            >(e),
        },
{
    let steps = risk_steps();
    let mut rows: Vec<Vec<String>> = Vec::new();
    let mut i: usize = 0;
    assert(steps@.take(0) =~= Seq::<u32>::empty());
    assert(rows.deep_view() =~= Seq::<Seq<Seq<char>>>::empty());
    while i < steps.len()
        invariant
            0 <= i <= steps@.len(),
            steps@ == spec_risk_steps(),
            spec_risk_rows(*ts, steps@.take(i as int)) == Ok::<Seq<Seq<Seq<char>>>, SizingError>(
                rows.deep_view(),
            ),
        decreases steps@.len() - i,
    {
        let risk = steps[i];
        assert(steps@.take(i + 1).drop_last() =~= steps@.take(i as int));
        match ts.num_shares(risk) {
            Err(e) => {
                proof {
                    lemma_rows_error_persists(*ts, steps@, i + 1);
                }
                return Err(e);
            },
            Ok(n) => {
                let row: Vec<String> = vec![
                    percent_text(risk),
                    format_cents(ts.risk_equity(risk)),
                    decimal_string(n as u64),
                ];
                let ghost before = rows.deep_view();
                assert(row.deep_view() =~= risk_row(*ts, risk, n));
                rows.push(row);
                assert(rows.deep_view() =~= before.push(risk_row(*ts, risk, n)));
            },
        }
        i = i + 1;
    }
    assert(steps@.take(i as int) =~= steps@);
    Ok(rows)
}

/// The table of outputs: for each risk of the sweep, the equity at risk and
/// the share count.
pub fn risk_table(ts: &TradeSize) -> (r: Result<String, SizingError>)
    ensures
        match r {
            Ok(text) => spec_risk_table(*ts) == Ok::<Seq<char>, SizingError>(text@),
            Err(e) => spec_risk_table(*ts) == Err::<Seq<char>, SizingError>(e),
        },
{
    proof {
        reveal_strlit("% Risk");
        reveal_strlit("Risk Equity");
        reveal_strlit("Shares");
    }
    let rows = risk_rows(ts)?;
    let header: Vec<String> = vec![
        String::from_str("% Risk"),
        String::from_str("Risk Equity"),
        String::from_str("Shares"),
    ];
    assert(header.deep_view() =~= risk_header());
    Ok(render_table(&header, &rows))
}

/// A section label on its own line, after a blank line.
pub fn padded_label(label: &str) -> (r: String)
    ensures
        r@ == padded(label@),
{
    proof {
        reveal_strlit("\n");
    }
    let mut text = String::from_str("\n");
    text.append(label);
    text.append("\n");
    text
}

/// Both reports as printed: a blank line, `Inputs:` and the inputs table,
/// then a blank line, `Outputs:` and the outputs table.
pub fn report(ts: &TradeSize) -> (r: Result<String, SizingError>)
    ensures
        match r {
            Ok(text) => spec_report(*ts) == Ok::<Seq<char>, SizingError>(text@),
            Err(e) => spec_report(*ts) == Err::<Seq<char>, SizingError>(e),
        },
{
    proof {
        reveal_strlit("\n");
    }
    let risk = risk_table(ts)?;
    let mut text = padded_label("Inputs:");
    let inputs = input_table(ts);
    text.append(inputs.as_str());
    text.append("\n");
    let outputs = padded_label("Outputs:");
    text.append(outputs.as_str());
    text.append(risk.as_str());
    text.append("\n");
    assert(text@ =~= padded("Inputs:"@) + spec_input_table(*ts) + seq!['\n'] + padded("Outputs:"@)
        + risk@ + seq!['\n']);
    Ok(text)
}

} // verus!
