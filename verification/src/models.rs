//! Small pieces of the portfolio's records that carry no amounts.
use vstd::prelude::*;
use vstd::string::*;

verus! {

/// The asset type of a stock created without one: `stock`.
pub fn default_asset_type() -> (r: String)
    ensures
        r@ == "stock"@,
{
    String::from_str("stock")
}

/// The query of a price history request.
#[derive(Debug, Clone, Copy, PartialEq, Eq, Structural)]
pub struct HistoryQuery {
    pub limit: Option<i64>,
}

impl HistoryQuery {
    /// How many prices a history request returns when it names no limit.
    pub open spec fn default_limit() -> i64 {
        90
    }

    /// The limit asked for, or 90 when none is given.
    pub fn limit_or_default(&self) -> (r: i64)
        ensures
            r == match self.limit {
                Some(l) => l,
                None => Self::default_limit(),
            },
    {
        match self.limit {
            Some(l) => l,
            None => 90,
        }
    }
}

} // verus!
