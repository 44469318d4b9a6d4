//! Reading the provider's chart response into trading dates and closes.

use vstd::prelude::*;
use crate::calendar::{trading_date, trading_day, CivilDate, SUPPORTED_SECONDS};
use crate::json::{first_item, get_member, items_of, member, Json, JsonNumber};

verus! {

/// The response does not have the provider's chart shape.
#[derive(Clone, Copy, Debug, PartialEq, Eq, Structural)]
pub enum ChartError {
    MalformedResponse,
}

/// `chart.result[0]` of a response.
pub open spec fn chart_result(response: Json) -> Option<Json> {
    match member(response, "chart"@) {
        Some(chart) => match member(chart, "result"@) {
            Some(results) => first_item(results),
            None => None,
        },
        None => None,
    }
}

/// The items of `chart.result[0].indicators.adjclose[0].adjclose`.
pub open spec fn close_items(response: Json) -> Option<Seq<Json>> {
    match chart_result(response) {
        Some(result) => match member(result, "indicators"@) {
            Some(indicators) => match member(indicators, "adjclose"@) {
                Some(series) => match first_item(series) {
                    Some(entry) => match member(entry, "adjclose"@) {
                        Some(values) => items_of(values),
                        None => None,
                    },
                    None => None,
                },
                None => None,
            },
            None => None,
        },
        None => None,
    }
}

/// The items of `chart.result[0].timestamp`.
pub open spec fn timestamp_items(response: Json) -> Option<Seq<Json>> {
    match chart_result(response) {
        Some(result) => match member(result, "timestamp"@) {
            Some(values) => items_of(values),
            None => None,
        },
        None => None,
    }
}

/// The epoch seconds of a timestamp item: a number with an `i64` value.
pub open spec fn timestamp_value(item: Json) -> Option<int> {
    match item {
        Json::Number(n) => match n.integer {
            Some(t) => Some(t as int),
            None => None,
        },
        _ => None,
    }
}

/// Both series are where the provider puts them, every close is a number and
/// every timestamp an integer.
pub open spec fn well_formed_chart(response: Json) -> bool {
    &&& close_items(response) matches Some(closes)
    &&& timestamp_items(response) matches Some(stamps)
    &&& forall|i: int| 0 <= i < closes.len() ==> closes[i] is Number
    &&& forall|i: int| 0 <= i < stamps.len() ==> timestamp_value(#[trigger] stamps[i]) is Some
}

/// `date` is the valid trading date of timestamp item `item`.
pub open spec fn dated(item: Json, date: CivilDate) -> bool {
    &&& timestamp_value(item) matches Some(t)
    &&& date.valid()
    &&& date.day_number() == trading_day(t)
}

/// Every integer timestamp of the response lies within `SUPPORTED_SECONDS`.
pub open spec fn timestamps_supported(response: Json) -> bool {
    timestamp_items(response) matches Some(stamps) ==> forall|i: int|
        0 <= i < stamps.len() ==> (timestamp_value(#[trigger] stamps[i]) matches Some(t) ==> -SUPPORTED_SECONDS <= t <= SUPPORTED_SECONDS)
}

fn first_element<'a>(j: &'a Json) -> (r: Option<&'a Json>)
    ensures
        r matches Some(v) ==> first_item(*j) == Some(*v),
        r is None ==> first_item(*j) is None,
{
    match j {
        Json::Array(items) => if items.len() > 0 { Some(&items[0]) } else { None },
        _ => None,
    }
}

fn array_items<'a>(j: &'a Json) -> (r: Option<&'a Vec<Json>>)
    ensures
        r matches Some(v) ==> items_of(*j) == Some(v@),
        r is None ==> items_of(*j) is None,
{
    match j {
        Json::Array(items) => Some(items),
        _ => None,
    }
}

fn find_result<'a>(response: &'a Json) -> (r: Option<&'a Json>)
    ensures
        r matches Some(v) ==> chart_result(*response) == Some(*v),
        r is None ==> chart_result(*response) is None,
{
    match get_member(response, "chart") {
        Some(chart) => match get_member(chart, "result") {
            Some(results) => first_element(results),
            None => None,
        },
        None => None,
    }
}

fn find_closes<'a>(result: &'a Json) -> (r: Option<&'a Vec<Json>>)
    ensures
        r matches Some(v) ==> match member(*result, "indicators"@) {
            Some(indicators) => match member(indicators, "adjclose"@) {
                Some(series) => match first_item(series) {
                    Some(entry) => match member(entry, "adjclose"@) {
                        Some(values) => items_of(values) == Some(v@),
                        None => false,
                    },
                    None => false,
                },
                None => false,
            },
            None => false,
        },
        r is None ==> match member(*result, "indicators"@) {
            Some(indicators) => match member(indicators, "adjclose"@) {
                Some(series) => match first_item(series) {
                    Some(entry) => match member(entry, "adjclose"@) {
                        Some(values) => items_of(values) is None,
                        None => true,
                    },
                    None => true,
                },
                None => true,
            },
            None => true,
        },
{
    let indicators = match get_member(result, "indicators") {
        Some(v) => v,
        None => return None,
    };
    let series = match get_member(indicators, "adjclose") {
        Some(v) => v,
        None => return None,
    };
    let entry = match first_element(series) {
        Some(v) => v,
        None => return None,
    };
    match get_member(entry, "adjclose") {
        Some(values) => array_items(values),
        None => None,
    }
}

/// Reads the trading dates and adjusted closes out of a chart response.
/// Each date is the trading day of the timestamp at the same position; each
/// close is the number at the same position, in provider order.
pub fn parse_data(response: &Json) -> (r: Result<(Vec<CivilDate>, Vec<JsonNumber>), ChartError>)
    ensures
        !well_formed_chart(*response) ==> r is Err,
        well_formed_chart(*response) && timestamps_supported(*response) ==> r is Ok,
        r matches Ok((dates, closes)) ==> {
            &&& close_items(*response) matches Some(items)
            &&& closes@.len() == items.len()
            &&& forall|i: int| 0 <= i < items.len() ==> items[i] == Json::Number(#[trigger] closes@[i])
        },
        r matches Ok((dates, closes)) ==> {
            &&& timestamp_items(*response) matches Some(stamps)
            &&& dates@.len() == stamps.len()
            &&& forall|i: int| 0 <= i < stamps.len() ==> dated(stamps[i], #[trigger] dates@[i])
        },
{
    let result = match find_result(response) {
        Some(v) => v,
        None => return Err(ChartError::MalformedResponse),
    };
    let close_values = match find_closes(result) {
        Some(v) => v,
        None => return Err(ChartError::MalformedResponse),
    };
    let mut closes: Vec<JsonNumber> = Vec::new();
    let mut i: usize = 0;
    while i < close_values.len()
        invariant
            0 <= i <= close_values@.len(),
            close_items(*response) == Some(close_values@),
            closes@.len() == i,
            forall|k: int| 0 <= k < i ==> close_values@[k] == Json::Number(#[trigger] closes@[k]),
        decreases close_values@.len() - i,
    {
        match &close_values[i] {
            Json::Number(n) => closes.push(n.copied()),
            _ => return Err(ChartError::MalformedResponse),
        }
        i = i + 1;
    }
    let stamp_values = match get_member(result, "timestamp") {
        Some(values) => match array_items(values) {
            Some(v) => v,
            None => return Err(ChartError::MalformedResponse),
        },
        None => return Err(ChartError::MalformedResponse),
    };
    let mut dates: Vec<CivilDate> = Vec::new();
    let mut j: usize = 0;
    while j < stamp_values.len()
        invariant
            0 <= j <= stamp_values@.len(),
            close_items(*response) == Some(close_values@),
            timestamp_items(*response) == Some(stamp_values@),
            closes@.len() == close_values@.len(),
            forall|k: int| 0 <= k < close_values@.len() ==> close_values@[k] == Json::Number(#[trigger] closes@[k]),
            dates@.len() == j,
            forall|k: int| 0 <= k < j ==> dated(stamp_values@[k], #[trigger] dates@[k]),
        decreases stamp_values@.len() - j,
    {
        let t = match &stamp_values[j] {
            Json::Number(n) => match n.integer {
                Some(t) => t,
                None => return Err(ChartError::MalformedResponse),
            },
            _ => return Err(ChartError::MalformedResponse),
        };
        assert(timestamp_value(stamp_values@[j as int]) == Some(t as int));
        let d = match trading_date(t) {
            Some(d) => d,
            None => return Err(ChartError::MalformedResponse),
        };
        let ghost before = dates@;
        dates.push(d);
        assert forall|k: int| 0 <= k <= j implies dated(stamp_values@[k], #[trigger] dates@[k]) by {
            if k < j {
                assert(dates@[k] == before[k]);
            }
        }
        j = j + 1;
    }
    assert forall|k: int| 0 <= k < close_values@.len() implies close_values@[k] is Number by {
        assert(close_values@[k] == Json::Number(closes@[k]));
    }
    assert forall|k: int| 0 <= k < stamp_values@.len() implies timestamp_value(
        #[trigger] stamp_values@[k],
    ) is Some by {
        assert(dated(stamp_values@[k], dates@[k]));
    }
    Ok((dates, closes))
}

} // verus!
