//! The CSV text of a dated price series.

use vstd::prelude::*;
use crate::calendar::CivilDate;
use crate::url::digits;

verus! {

/// `n` in decimal, left-padded with zeros to at least `width` digits.
pub open spec fn zero_padded(n: nat, width: nat) -> Seq<char> {
    let d = digits(n);
    if d.len() >= width {
        d
    } else {
        Seq::new((width - d.len()) as nat, |_i: int| '0') + d
    }
}

/// A year as `%Y` writes it: four digits for years 0 to 9999, otherwise a
/// sign followed by at least four digits.
pub open spec fn year_text(y: int) -> Seq<char> {
    if 0 <= y <= 9999 {
        zero_padded(y as nat, 4)
    } else if y < 0 {
        seq!['-'] + zero_padded((-y) as nat, 4)
    } else {
        seq!['+'] + zero_padded(y as nat, 4)
    }
}

/// A date as `YYYY-MM-DD`.
pub open spec fn iso_date(d: CivilDate) -> Seq<char> {
    year_text(d.year as int) + seq!['-'] + zero_padded(d.month as nat, 2) + seq!['-'] + zero_padded(
        d.day as nat,
        2,
    )
}

/// One CSV line: the date, a comma, the close, a line break.
pub open spec fn csv_row(d: CivilDate, close: Seq<char>) -> Seq<char> {
    iso_date(d) + seq![','] + close + seq!['\n']
}

/// The lines of the first `n` points.
pub open spec fn csv_rows(dates: Seq<CivilDate>, closes: Seq<String>, n: int) -> Seq<char>
    decreases n,
{
    if n <= 0 {
        Seq::empty()
    } else {
        csv_rows(dates, closes, n - 1) + csv_row(dates[n - 1], closes[n - 1]@)
    }
}

/// The header line, then one line for each date that has a close.
pub open spec fn csv_text(dates: Seq<CivilDate>, closes: Seq<String>) -> Seq<char> {
    let n = if dates.len() <= closes.len() { dates.len() } else { closes.len() };
    "Date,Close\n"@ + csv_rows(dates, closes, n as int)
}

/// Relies on chrono's `NaiveDate::format` with `%Y-%m-%d`: the year as
/// `write_year` writes it (four digits for 0 to 9999, else signed and zero
/// padded to four digits), then the month and the day as two digits each.
#[verifier::external_body]
fn formatted_date(d: CivilDate) -> (r: String)
    requires
        d.valid(),
    ensures
        r@ == iso_date(d),
{
    chrono::NaiveDate::from_ymd_opt(d.year, d.month, d.day).unwrap().format("%Y-%m-%d").to_string()
}

/// The CSV document of a series: the header `Date,Close`, then for each
/// position that has both a date and a close, `YYYY-MM-DD,<close>`.
pub fn csv_document(dates: &Vec<CivilDate>, closes: &Vec<String>) -> (r: String)
    requires
        forall|i: int| 0 <= i < dates@.len() ==> (#[trigger] dates@[i]).valid(),
    ensures
        r@ == csv_text(dates@, closes@),
{
    let n: usize = if dates.len() <= closes.len() { dates.len() } else { closes.len() };
    let mut out = String::from_str("Date,Close\n");
    let mut i: usize = 0;
    while i < n
        invariant
            0 <= i <= n,
            n <= dates@.len(),
            n <= closes@.len(),
            n == if dates@.len() <= closes@.len() { dates@.len() } else { closes@.len() },
            forall|k: int| 0 <= k < dates@.len() ==> (#[trigger] dates@[k]).valid(),
            out@ == "Date,Close\n"@ + csv_rows(dates@, closes@, i as int),
        decreases n - i,
    {
        let text = formatted_date(dates[i]);
        out.append(text.as_str());
        out.append(",");
        out.append(closes[i].as_str());
        out.append("\n");
        proof {
            reveal_strlit(",");
            reveal_strlit("\n");
            assert(out@ =~= "Date,Close\n"@ + csv_rows(dates@, closes@, i + 1));
        }
        i = i + 1;
    }
    out
}

} // verus!
