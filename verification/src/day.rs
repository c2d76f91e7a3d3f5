//! Calendar days as plain values: the day's number counted from
//! January 1 of year 1 (day 1), as `chrono::NaiveDate::num_days_from_ce`
//! counts it, within the range of dates that `chrono` represents.
use chrono::{Datelike, NaiveDate};
use std::str::FromStr;
use vstd::prelude::*;

verus! {

/// Number of the first date `chrono` represents.
pub open spec fn first_day_number() -> int {
    -95746129
}

/// Number of the last date `chrono` represents.
pub open spec fn last_day_number() -> int {
    95745399
}

/// `chrono::NaiveDate::from_str` followed by `num_days_from_ce`.
pub uninterp spec fn date_from_text(text: Seq<char>) -> Option<int>;

/// `Display` of `chrono::NaiveDate` for the day with the given number.
pub uninterp spec fn date_text(n: int) -> Seq<char>;

/// Day of the week, Monday being `0`: January 1 of year 1 was a Monday.
pub open spec fn weekday_of(n: int) -> int {
    (n + 6) % 7
}

/// A calendar day.
#[derive(Debug, Clone, Copy, PartialEq, Eq, Structural, PartialOrd, Ord, Hash)]
pub struct Day {
    pub(crate) n: i32,
}

impl Day {
    /// The day's number.
    pub closed spec fn num(self) -> int {
        self.n as int
    }

    #[verifier::type_invariant]
    pub closed spec fn in_range(self) -> bool {
        first_day_number() <= self.n <= last_day_number()
    }

    /// The day's number.
    pub fn number(&self) -> (r: i32)
        ensures
            r == self.num(),
            first_day_number() <= r <= last_day_number(),
    {
        proof {
            use_type_invariant(self);
        }
        self.n
    }

    /// The day with the given number, if `chrono` represents it.
    pub fn from_number(n: i32) -> (r: Option<Day>)
        ensures
            r is Some <==> first_day_number() <= n <= last_day_number(),
            r is Some ==> r.unwrap().num() == n,
    {
        if -95746129 <= n && n <= 95745399 {
            Some(Day { n })
        } else {
            None
        }
    }

    /// Parses `YYYY-MM-DD` as `chrono` does.
    pub fn parse(text: &str) -> (r: Option<Day>)
        ensures
            r is Some <==> date_from_text(text@) is Some,
            r is Some ==> r.unwrap().num() == date_from_text(text@).unwrap(),
    {
        match parse_date(text) {
            Ok(d) => Some(d),
            Err(_) => None,
        }
    }

    /// Parses `YYYY-MM-DD` as `chrono` does; on failure, the text of
    /// `chrono`'s error.
    pub fn parse_or_error(text: &str) -> (r: Result<Day, String>)
        ensures
            r is Ok <==> date_from_text(text@) is Some,
            r matches Ok(d) ==> d.num() == date_from_text(text@).unwrap(),
            r matches Err(e) ==> e@ == date_error_text(text@),
    {
        parse_date(text)
    }

    /// The following day, if `chrono` represents it.
    pub fn succ(&self) -> (r: Option<Day>)
        ensures
            r is Some <==> self.num() < last_day_number(),
            r is Some ==> r.unwrap().num() == self.num() + 1,
    {
        proof {
            use_type_invariant(self);
        }
        if self.n < 95745399 {
            Some(Day { n: self.n + 1 })
        } else {
            None
        }
    }

    /// Day of the week counted from Monday (`0`) to Sunday (`6`).
    pub fn weekday_from_monday(&self) -> (r: u32)
        ensures
            r == weekday_of(self.num()),
            r < 7,
    {
        proof {
            use_type_invariant(self);
        }
        // Shift by a multiple of seven so that the remainder is taken of a
        // non-negative number.
        let shifted: u64 = (self.n as i64 + 6 + 7 * 13678019) as u64;
        let w: u64 = shifted % 7;
        proof {
            vstd::arithmetic::div_mod::lemma_mod_multiples_vanish(13678019, self.num() + 6, 7);
        }
        w as u32
    }

    /// The text `chrono` prints for this day (`YYYY-MM-DD`).
    pub fn to_text(&self) -> (r: String)
        ensures
            r@ == date_text(self.num()),
    {
        proof {
            use_type_invariant(self);
        }
        date_to_text(self)
    }
}

/// `Display` of the error `chrono::NaiveDate::from_str` returns for `text`.
pub uninterp spec fn date_error_text(text: Seq<char>) -> Seq<char>;

/// Calls `chrono::NaiveDate::from_str` and `num_days_from_ce`; on failure,
/// the error's text.
#[verifier::external_body]
fn parse_date(text: &str) -> (r: Result<Day, String>)
    ensures
        r is Ok <==> date_from_text(text@) is Some,
        r matches Ok(d) ==> d.num() == date_from_text(text@).unwrap(),
        r matches Err(e) ==> e@ == date_error_text(text@),
{
    match NaiveDate::from_str(text) {
        Ok(d) => Ok(Day { n: d.num_days_from_ce() }),
        Err(e) => Err(e.to_string()),
    }
}

/// Calls `chrono::NaiveDate::from_num_days_from_ce_opt` and `Display`; every
/// `Day` lies in the range that call accepts.
#[verifier::external_body]
fn date_to_text(d: &Day) -> (r: String)
    ensures
        r@ == date_text(d.num()),
{
    NaiveDate::from_num_days_from_ce_opt(d.n).unwrap().to_string()
}

} // verus!
