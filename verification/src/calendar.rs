//! Reading calendar dates, as the ledger writes them (`YYYY-MM-DD`).
use vstd::prelude::*;
use chrono::{Datelike, NaiveDate};

verus! {

/// What `chrono::NaiveDate::parse_from_str` makes of a text and a format:
/// the year, month and day of the date read, or nothing where the text
/// does not follow the format or names no day of the calendar.
pub uninterp spec fn naive_date_from_str(s: Seq<char>, fmt: Seq<char>) -> Option<(i32, u32, u32)>;

/// Calls `chrono::NaiveDate::parse_from_str` and hands back the year,
/// month and day of the date it read. The result is named
/// [`naive_date_from_str`]; the second clause is chrono's promise that a
/// date's month lies in 1..=12 and its day in 1..=31. How chrono matches a
/// text against a format is not stated.
#[verifier::external_body]
fn parse_naive_date(s: &str, fmt: &str) -> (r: Option<(i32, u32, u32)>)
    ensures
        r == naive_date_from_str(s@, fmt@),
        r matches Some((y, m, d)) ==> 1 <= m <= 12 && 1 <= d <= 31,
{
    match NaiveDate::parse_from_str(s, fmt) {
        Ok(date) => Some((date.year(), date.month(), date.day())),
        Err(_) => None,
    }
}

/// Whether a text reads as a date in the ledger's `YYYY-MM-DD` form.
pub open spec fn is_ledger_date(s: Seq<char>) -> bool {
    naive_date_from_str(s, "%Y-%m-%d"@) is Some
}

/// Whether `s` reads as a date in the ledger's `YYYY-MM-DD` form.
pub fn ledger_date_is_valid(s: &str) -> (r: bool)
    ensures
        r == is_ledger_date(s@),
        r == (naive_date_from_str(s@, "%Y-%m-%d"@) is Some),
{
    parse_naive_date(s, "%Y-%m-%d").is_some()
}


/// A text is a ledger date exactly when chrono reads it with the format
/// `%Y-%m-%d`; nothing further is asked of the year, month or day read.
pub proof fn lemma_ledger_date_is_chrono_date(s: Seq<char>)
    ensures
        is_ledger_date(s) <==> naive_date_from_str(s, "%Y-%m-%d"@) is Some,
        (naive_date_from_str(s, "%Y-%m-%d"@) matches Some((y, m, d))) ==> is_ledger_date(s),
{
}

} // verus!
