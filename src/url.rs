//! The provider query for one month of daily prices.

use vstd::prelude::*;
use crate::calendar::{days_in_month, epoch_day, month_length, unix_timestamp, CivilDate, MAX_YEAR, MIN_YEAR};

verus! {

/// Decimal digits of `n`, most significant first, without leading zeros.
pub open spec fn digits(n: nat) -> Seq<char>
    decreases n,
{
    let d = seq!['0', '1', '2', '3', '4', '5', '6', '7', '8', '9'][(n % 10) as int];
    if n < 10 {
        seq![d]
    } else {
        digits(n / 10).push(d)
    }
}

/// Decimal text of an integer, with a leading `-` when negative.
pub open spec fn decimal(n: int) -> Seq<char> {
    if n < 0 {
        seq!['-'] + digits((-n) as nat)
    } else {
        digits(n as nat)
    }
}

/// The provider's chart query for `ticker` over the epoch seconds
/// `start..=end`, daily, with adjusted closes.
pub open spec fn chart_url(ticker: Seq<char>, start: int, end: int) -> Seq<char> {
    "https://query2.finance.yahoo.com/v8/finance/chart/"@ + ticker + "?period1="@ + decimal(start)
        + "&period2="@ + decimal(end) + "&interval=1d&events=history&includeAdjustedClose=true"@
}

/// First and last midnight of month `month` of `year`, in epoch seconds.
pub open spec fn month_bounds(year: int, month: int) -> (int, int) {
    (epoch_day(year, month, 1) * 86400, epoch_day(year, month, month_length(year, month)) * 86400)
}

/// Relies on std's `Display` for `i64` (through `to_string`): decimal digits
/// with a leading `-` for negative values.
#[verifier::external_body]
pub(crate) fn decimal_text(n: i64) -> (r: String)
    ensures
        r@ == decimal(n as int),
{
    n.to_string()
}

/// The query for the daily prices of `ticker` from the first to the last day
/// of month `month` of `year`.
pub fn get_url(year: i32, month: u32, ticker: &str) -> (r: String)
    requires
        1 <= month <= 12,
        MIN_YEAR <= year <= MAX_YEAR,
        year < MAX_YEAR || month < 12,
    ensures
        r@ == chart_url(ticker@, month_bounds(year as int, month as int).0, month_bounds(year as int, month as int).1),
{
    let last = days_in_month(year, month);
    let start = unix_timestamp(CivilDate { year, month, day: 1 });
    let end = unix_timestamp(CivilDate { year, month, day: last });
    let mut url = String::from_str("https://query2.finance.yahoo.com/v8/finance/chart/");
    url.append(ticker);
    url.append("?period1=");
    url.append(decimal_text(start).as_str());
    url.append("&period2=");
    url.append(decimal_text(end).as_str());
    url.append("&interval=1d&events=history&includeAdjustedClose=true");
    url
}

/// The fixed text of a chart query before the ticker.
pub open spec fn chart_prefix() -> Seq<char> {
    "https://query2.finance.yahoo.com/v8/finance/chart/"@
}

/// The period parameters of a query over `start..=end`.
pub open spec fn period_text(start: int, end: int) -> Seq<char> {
    "?period1="@ + decimal(start) + "&period2="@ + decimal(end)
}

/// The query depends on the ticker, year and month alone: equal requests give
/// equal queries, and each query carries the month's first and last midnight
/// as its period, right after the ticker.
pub proof fn lemma_url_determined_by_request(
    ticker1: Seq<char>,
    year1: int,
    month1: int,
    ticker2: Seq<char>,
    year2: int,
    month2: int,
)
    requires
        ticker1 == ticker2,
        year1 == year2,
        month1 == month2,
    ensures
        chart_url(ticker1, month_bounds(year1, month1).0, month_bounds(year1, month1).1)
            == chart_url(ticker2, month_bounds(year2, month2).0, month_bounds(year2, month2).1),
        ({
            let url = chart_url(ticker1, month_bounds(year1, month1).0, month_bounds(year1, month1).1);
            let at = chart_prefix().len() + ticker1.len();
            let period = period_text(month_bounds(year1, month1).0, month_bounds(year1, month1).1);
            url.subrange(at as int, (at + period.len()) as int) == period
        }),
{
    let start = month_bounds(year1, month1).0;
    let end = month_bounds(year1, month1).1;
    let tail = "&interval=1d&events=history&includeAdjustedClose=true"@;
    let url = chart_url(ticker1, start, end);
    let head = chart_prefix() + ticker1;
    let period = period_text(start, end);
    assert(url =~= head + period + tail);
    assert(url.subrange(head.len() as int, (head.len() + period.len()) as int) =~= period);
}

} // verus!
