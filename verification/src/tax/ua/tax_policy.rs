//! The tax rates in force, period by period.
use vstd::prelude::*;
use crate::date::Date;
use crate::decimal::Dec;

verus! {

pub struct TaxPolicy {
    pub sub_policies: Vec<TaxSpecByDate>,
}

/// The rates of one period. A period with an `end_date` lasts until that
/// date (inclusive); one without lasts until the next period starts.
#[derive(Debug, Clone, Copy, PartialEq, Eq, Structural)]
pub struct TaxSpecByDate {
    pub personal_income_tax: Dec,
    pub military_tax: Dec,
    pub start_date: Date,
    pub end_date: Option<Date>,
}

/// The rates of the default policy: 18% personal income tax throughout; 1.5%
/// military tax from 2020-01-01 to 2024-12-31 and 5% from 2025-01-01 on.
pub open spec fn spec_default_sub_policies() -> Seq<TaxSpecByDate> {
    seq![
        TaxSpecByDate {
            personal_income_tax: Dec { negative: false, magnitude: 18, scale: 2 },
            military_tax: Dec { negative: false, magnitude: 15, scale: 3 },
            start_date: Date { year: 2020, month: 1, day: 1 },
            end_date: Some(Date { year: 2024, month: 12, day: 31 }),
        },
        TaxSpecByDate {
            personal_income_tax: Dec { negative: false, magnitude: 18, scale: 2 },
            military_tax: Dec { negative: false, magnitude: 5, scale: 2 },
            start_date: Date { year: 2025, month: 1, day: 1 },
            end_date: None,
        },
    ]
}

/// The policy in force for Ukrainian residents.
pub fn default_tax_policy() -> (res: TaxPolicy)
    ensures
        res.sub_policies@ == spec_default_sub_policies(),
{
    let mut sub_policies = Vec::new();
    sub_policies.push(
        TaxSpecByDate {
            personal_income_tax: Dec::new(18, 2),
            military_tax: Dec::new(15, 3),
            start_date: Date { year: 2020, month: 1, day: 1 },
            end_date: Some(Date { year: 2024, month: 12, day: 31 }),
        },
    );
    sub_policies.push(
        TaxSpecByDate {
            personal_income_tax: Dec::new(18, 2),
            military_tax: Dec::new(5, 2),
            start_date: Date { year: 2025, month: 1, day: 1 },
            end_date: None,
        },
    );
    TaxPolicy { sub_policies }
}

} // verus!
