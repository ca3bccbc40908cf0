//! Calendar dates, ordered by year, then month, then day.
use vstd::prelude::*;
use vstd::string::*;
use chrono::Datelike;
use crate::text::{digits, pad_zeros, pad_with_zeros, u64_to_text};

verus! {

#[derive(Debug, Clone, Copy, PartialEq, Eq, Structural)]
pub struct Date {
    pub year: i32,
    pub month: u32,
    pub day: u32,
}

impl Date {
    /// `self` comes strictly before `other`.
    pub open spec fn precedes(self, other: Date) -> bool {
        ||| self.year < other.year
        ||| (self.year == other.year && self.month < other.month)
        ||| (self.year == other.year && self.month == other.month && self.day < other.day)
    }

    /// `self` comes before `other` or is the same day.
    pub open spec fn not_after(self, other: Date) -> bool {
        self.precedes(other) || self == other
    }

    /// Whether `self` comes strictly before `other`.
    pub fn is_before(&self, other: &Date) -> (res: bool)
        ensures
            res == self.precedes(*other),
    {
        self.year < other.year || (self.year == other.year && self.month < other.month) || (
        self.year == other.year && self.month == other.month && self.day < other.day)
    }

    /// The year written with at least four digits; a year outside 0..=9999
    /// gets its sign.
    pub open spec fn year_text(self) -> Seq<char> {
        if 0 <= self.year <= 9999 {
            pad_zeros(digits(self.year as nat), 4)
        } else if self.year >= 0 {
            seq!['+'] + pad_zeros(digits(self.year as nat), 4)
        } else {
            seq!['-'] + pad_zeros(digits((-self.year) as nat), 4)
        }
    }

    /// The date written as `YYYY-MM-DD` (see `year_text`); month and day get
    /// two digits.
    pub open spec fn text(self) -> Seq<char> {
        self.year_text() + seq!['-'] + pad_zeros(digits(self.month as nat), 2) + seq!['-']
            + pad_zeros(digits(self.day as nat), 2)
    }

    /// The date written as `YYYYMMDD` (see `year_text`).
    pub open spec fn compact_text(self) -> Seq<char> {
        self.year_text() + pad_zeros(digits(self.month as nat), 2) + pad_zeros(
            digits(self.day as nat),
            2,
        )
    }

    /// The year written as `year_text` says.
    pub fn year_to_string(&self) -> (res: String)
        ensures
            res@ == self.year_text(),
    {
        proof {
            reveal_strlit("+");
            reveal_strlit("-");
        }
        let year_abs: u64 = if self.year >= 0 {
            self.year as u64
        } else {
            (0i64 - self.year as i64) as u64
        };
        let year_digits = pad_with_zeros(u64_to_text(year_abs), 4);
        if 0 <= self.year && self.year <= 9999 {
            year_digits
        } else if self.year >= 0 {
            String::from_str("+").concat(year_digits.as_str())
        } else {
            String::from_str("-").concat(year_digits.as_str())
        }
    }

    /// The date written as `YYYYMMDD` (see `compact_text`).
    pub fn to_compact_string(&self) -> (res: String)
        ensures
            res@ == self.compact_text(),
    {
        let mut res = self.year_to_string();
        let month = pad_with_zeros(u64_to_text(self.month as u64), 2);
        res.append(month.as_str());
        let day = pad_with_zeros(u64_to_text(self.day as u64), 2);
        res.append(day.as_str());
        res
    }

    /// The date written as `YYYY-MM-DD` (see `text`).
    pub fn to_string(&self) -> (res: String)
        ensures
            res@ == self.text(),
    {
        proof {
            reveal_strlit("-");
        }
        let mut res = self.year_to_string();
        res.append("-");
        let month = pad_with_zeros(u64_to_text(self.month as u64), 2);
        res.append(month.as_str());
        res.append("-");
        let day = pad_with_zeros(u64_to_text(self.day as u64), 2);
        res.append(day.as_str());
        res
    }
}

/// What `chrono::NaiveDate::parse_from_str` gives for a text and a format.
pub uninterp spec fn naive_date_parse(s: Seq<char>, fmt: Seq<char>) -> Option<Date>;

/// `chrono::NaiveDate::parse_from_str`: the text read as a date in the
/// given format (`None` where chrono returns an error), taken apart into
/// year, month and day. Claimed: the result is `naive_date_parse` of the text
/// and the format.
#[verifier::external_body]
pub(crate) fn parse_date(s: &str, fmt: &str) -> (res: Option<Date>)
    ensures
        res == naive_date_parse(s@, fmt@),
{
    match chrono::NaiveDate::parse_from_str(s, fmt) {
        Ok(d) => Some(Date { year: d.year(), month: d.month(), day: d.day() }),
        Err(_) => None,
    }
}

} // verus!
