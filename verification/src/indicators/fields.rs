//! Selectors for the value that an indicator reads from a bar.

use crate::types::ohlcv::{Row, OHLCV};
use vstd::prelude::*;

verus! {

#[derive(Debug, Clone, Copy, PartialEq, Eq, Structural)]
pub enum CommonField {
    Open,
    High,
    Low,
    Close,
    /// The share count as a fixed-point value.
    Volume,
    Median,
    Typical,
    WeightedClose,
}

impl CommonField {
    pub open spec fn spec_extract(&self, row: Row) -> i64 {
        match *self {
            CommonField::Open => row.open,
            CommonField::High => row.high,
            CommonField::Low => row.low,
            CommonField::Close => row.close,
            CommonField::Typical => row.spec_typical_price(),
            CommonField::WeightedClose => row.spec_weighted_close(),
            CommonField::Median => row.spec_median_price(),
            CommonField::Volume => row.spec_get_field(OHLCV::Volume),
        }
    }

    pub fn extract(&self, row: &Row) -> (r: i64)
        ensures
            r == self.spec_extract(*row),
    {
        match self {
            CommonField::Open => row.open,
            CommonField::High => row.high,
            CommonField::Low => row.low,
            CommonField::Close => row.close,
            CommonField::Typical => row.typical_price(),
            CommonField::WeightedClose => row.weighted_close(),
            CommonField::Median => row.median_price(),
            CommonField::Volume => row.get_field(OHLCV::Volume),
        }
    }
}

/// Price field selector for indicators.
#[derive(Debug, Clone, Copy, PartialEq, Eq, Structural)]
pub enum PriceField {
    Open,
    High,
    Low,
    Close,
    /// Median price: (High + Low) / 2.
    Median,
    /// Typical price: (High + Low + Close) / 3.
    Typical,
    /// Weighted close: (High + Low + Close + Close) / 4.
    WeightedClose,
}

impl PriceField {
    /// The same selector among all fields.
    pub open spec fn spec_common(&self) -> CommonField {
        match *self {
            PriceField::Open => CommonField::Open,
            PriceField::High => CommonField::High,
            PriceField::Low => CommonField::Low,
            PriceField::Close => CommonField::Close,
            PriceField::Typical => CommonField::Typical,
            PriceField::WeightedClose => CommonField::WeightedClose,
            PriceField::Median => CommonField::Median,
        }
    }

    /// The same selector among all fields.
    pub fn to_common(&self) -> (r: CommonField)
        ensures
            r == self.spec_common(),
            forall|row: Row| #[trigger] r.spec_extract(row) == self.spec_extract(row),
    {
        match self {
            PriceField::Open => CommonField::Open,
            PriceField::High => CommonField::High,
            PriceField::Low => CommonField::Low,
            PriceField::Close => CommonField::Close,
            PriceField::Typical => CommonField::Typical,
            PriceField::WeightedClose => CommonField::WeightedClose,
            PriceField::Median => CommonField::Median,
        }
    }

    pub open spec fn spec_extract(&self, row: Row) -> i64 {
        match *self {
            PriceField::Open => row.open,
            PriceField::High => row.high,
            PriceField::Low => row.low,
            PriceField::Close => row.close,
            PriceField::Typical => row.spec_typical_price(),
            PriceField::WeightedClose => row.spec_weighted_close(),
            PriceField::Median => row.spec_median_price(),
        }
    }

    pub fn extract(&self, row: &Row) -> (r: i64)
        ensures
            r == self.spec_extract(*row),
    {
        match self {
            PriceField::Open => row.open,
            PriceField::High => row.high,
            PriceField::Low => row.low,
            PriceField::Close => row.close,
            PriceField::Typical => row.typical_price(),
            PriceField::WeightedClose => row.weighted_close(),
            PriceField::Median => row.median_price(),
        }
    }
}

} // verus!
