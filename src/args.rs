use vstd::prelude::*;
use vstd::string::*;
use crate::amount::{denotes, is_amount, parse_amount};
use crate::sizing::TradeSize;

verus! {

/// One of the three amounts on the command line.
#[derive(Clone, Copy, Debug, PartialEq, Eq, Structural)]
pub enum Field {
    AccountEquity,
    Price,
    StopLoss,
}

/// Why the command line does not give a sizing.
#[derive(Clone, Copy, Debug, PartialEq, Eq, Structural)]
pub enum ArgError {
    /// There are not exactly three amounts.
    Usage,
    /// The amount for this field is not a decimal number in range.
    Unparsable(Field),
}

pub open spec fn usage_text() -> Seq<char> {
    "Usage: ts [ACCOUNT_EQUITY] [PRICE] [STOP_LOSS]"@
}

impl ArgError {
    pub open spec fn spec_message(&self) -> Seq<char> {
        match self {
            ArgError::Usage => usage_text(),
            ArgError::Unparsable(Field::AccountEquity) => "Error parsing 'account_equity'"@,
            ArgError::Unparsable(Field::Price) => "Error parsing 'price'"@,
            ArgError::Unparsable(Field::StopLoss) => "Error parsing 'stop_loss'"@,
        }
    }

    /// The diagnostic for this error: the usage line, or the field that failed.
    pub fn message(&self) -> (r: String)
        ensures
            r@ == self.spec_message(),
    {
        match self {
            ArgError::Usage => String::from_str("Usage: ts [ACCOUNT_EQUITY] [PRICE] [STOP_LOSS]"),
            ArgError::Unparsable(Field::AccountEquity) => String::from_str(
                "Error parsing 'account_equity'",
            ),
            ArgError::Unparsable(Field::Price) => String::from_str("Error parsing 'price'"),
            ArgError::Unparsable(Field::StopLoss) => String::from_str("Error parsing 'stop_loss'"),
        }
    }
}

/// Reads the command line, program name first, then account equity, price
/// and stop-loss, each a decimal amount that is read in cents.
pub fn parse_arguments(args: &Vec<Vec<u8>>) -> (r: Result<TradeSize, ArgError>)
    ensures
        args@.len() != 4 <==> r == Err::<TradeSize, ArgError>(ArgError::Usage),
        args@.len() == 4 ==> {
            let (e, p, s) = (args@[1]@, args@[2]@, args@[3]@);
            &&& r == Err::<TradeSize, ArgError>(ArgError::Unparsable(Field::AccountEquity))
                <==> !is_amount(e)
            &&& r == Err::<TradeSize, ArgError>(ArgError::Unparsable(Field::Price)) <==> is_amount(e)
                && !is_amount(p)
            &&& r == Err::<TradeSize, ArgError>(ArgError::Unparsable(Field::StopLoss)) <==> is_amount(
                e,
            ) && is_amount(p) && !is_amount(s)
            &&& r is Ok ==> denotes(e, r->Ok_0.account_equity as int) && denotes(
                p,
                r->Ok_0.price as int,
            ) && denotes(s, r->Ok_0.stop_loss as int)
        },
{
    if args.len() != 4 {
        return Err(ArgError::Usage);
    }
    let account_equity = match parse_amount(args[1].as_slice()) {
        Ok(v) => v,
        Err(_) => return Err(ArgError::Unparsable(Field::AccountEquity)),
    };
    let price = match parse_amount(args[2].as_slice()) {
        Ok(v) => v,
        Err(_) => return Err(ArgError::Unparsable(Field::Price)),
    };
    let stop_loss = match parse_amount(args[3].as_slice()) {
        Ok(v) => v,
        Err(_) => return Err(ArgError::Unparsable(Field::StopLoss)),
    };
    Ok(TradeSize::new(account_equity, price, stop_loss))
}

} // verus!
