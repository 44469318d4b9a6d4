use month_prices::{
    csv_document, days_in_month, get_member, get_url, parse_data, trading_date, unix_timestamp, ChartError,
    CivilDate, Json, JsonNumber,
};

fn date(year: i32, month: u32, day: u32) -> CivilDate {
    CivilDate::from_ymd_opt(year, month, day).unwrap()
}

fn object(members: Vec<(&str, Json)>) -> Json {
    Json::Object(members.into_iter().map(|(k, v)| (k.to_string(), v)).collect())
}

fn integers(values: &[i64]) -> Json {
    Json::Array(values.iter().map(|v| Json::Number(JsonNumber::from_i64(*v))).collect())
}

fn chart_response(closes: Json, timestamps: Json) -> Json {
    object(vec![(
        "chart",
        object(vec![(
            "result",
            Json::Array(vec![object(vec![
                (
                    "indicators",
                    object(vec![("adjclose", Json::Array(vec![object(vec![("adjclose", closes)])]))]),
                ),
                ("timestamp", timestamps),
            ])]),
        )]),
    )])
}

fn close_values(closes: &[JsonNumber]) -> Vec<f64> {
    closes.iter().map(|n| n.text.parse::<f64>().unwrap()).collect()
}

#[test]
fn test_days_in_month() {
    assert_eq!(days_in_month(2024, 10), 31);
    assert_eq!(days_in_month(2024, 2), 29);
    assert_eq!(days_in_month(2023, 2), 28);
    assert_eq!(days_in_month(2023, 12,), 31);
}

#[test]
fn test_unix_timestamp() {
    assert_eq!(unix_timestamp(date(2024, 11, 24)), 1732406400);
}

#[test]
fn test_get_url() {
    assert_eq!(
        get_url(2024, 11, "a"),
        "https://query2.finance.yahoo.com/v8/finance/chart/a?period1=1730419200&period2=1732924800&interval=1d&events=history&includeAdjustedClose=true",
    );
}

#[test]
fn test_parse_data() {
    let timestamp0 = 1732406400;
    let date_time0 = date(2024, 11, 24);

    // This timestamp lies one hour before midnight; it is read as the next day.
    let timestamp1 = 1732662000;
    let date_time1 = date(2024, 11, 27);

    let response = chart_response(integers(&[1, 2]), integers(&[timestamp0, timestamp1]));
    let expected_timestamps = vec![date_time0, date_time1];
    let expected_closes = vec![1f64, 2f64];
    let (timestamps, closes) = parse_data(&response).unwrap();
    assert_eq!(expected_closes, close_values(&closes));
    assert_eq!(expected_timestamps, timestamps);
}

#[test]
fn month_lengths_follow_the_gregorian_rules() {
    assert_eq!(days_in_month(1900, 2), 28);
    assert_eq!(days_in_month(2000, 2), 29);
    assert_eq!(days_in_month(2100, 2), 28);
    assert_eq!(days_in_month(2024, 4), 30);
    assert_eq!(days_in_month(2024, 6), 30);
    assert_eq!(days_in_month(2024, 9), 30);
    assert_eq!(days_in_month(2024, 11), 30);
    assert_eq!(days_in_month(2024, 1), 31);
    assert_eq!(days_in_month(2024, 7), 31);
    assert_eq!(days_in_month(2024, 8), 31);
    assert_eq!(days_in_month(-4, 2), 29);
    assert_eq!(days_in_month(262141, 12), 31);
}

#[test]
fn first_of_month_timestamps() {
    assert_eq!(unix_timestamp(date(1970, 1, 1)), 0);
    assert_eq!(unix_timestamp(date(2024, 11, 1)), 1730419200);
    assert_eq!(unix_timestamp(date(2000, 3, 1)), 951868800);
    assert_eq!(unix_timestamp(date(1969, 12, 1)), -2678400);
}

#[test]
fn dates_outside_the_calendar_are_refused() {
    assert_eq!(CivilDate::from_ymd_opt(2023, 2, 29), None);
    assert_eq!(CivilDate::from_ymd_opt(2024, 13, 1), None);
    assert_eq!(CivilDate::from_ymd_opt(2024, 0, 1), None);
    assert_eq!(CivilDate::from_ymd_opt(2024, 4, 31), None);
    assert_eq!(CivilDate::from_ymd_opt(262143, 1, 1), None);
    assert_eq!(
        CivilDate::from_ymd_opt(2024, 2, 29),
        Some(CivilDate { year: 2024, month: 2, day: 29 })
    );
}

#[test]
fn url_is_the_same_for_the_same_request() {
    let first = get_url(2023, 12, "MSFT");
    assert_eq!(first, get_url(2023, 12, "MSFT"));
    assert!(first.contains("/chart/MSFT?"));
    assert!(first.contains("period1=1701388800&period2=1703980800"));
}

#[test]
fn late_hour_moves_to_next_day() {
    assert_eq!(trading_date(1732662000), Some(date(2024, 11, 27)));
    assert_eq!(trading_date(1732406400), Some(date(2024, 11, 24)));
    // 22:59:59 UTC keeps its own day.
    assert_eq!(trading_date(1732658399), Some(date(2024, 11, 26)));
    // 23:59:59 UTC on the last day of a year.
    assert_eq!(trading_date(1704067199), Some(date(2024, 1, 1)));
    // 23:00 UTC on 1969-12-31.
    assert_eq!(trading_date(-3600), Some(date(1970, 1, 1)));
    assert_eq!(trading_date(i64::MAX), None);
}

#[test]
fn parse_keeps_order_and_length() {
    let stamps = [1732838400, 1732579200, 1732748400];
    let response = chart_response(integers(&[30, 10, 20]), integers(&stamps));
    let (dates, closes) = parse_data(&response).unwrap();
    assert_eq!(dates, vec![date(2024, 11, 29), date(2024, 11, 26), date(2024, 11, 28)]);
    assert_eq!(close_values(&closes), vec![30f64, 10f64, 20f64]);
}

#[test]
fn parse_of_empty_series() {
    let response = chart_response(integers(&[]), integers(&[]));
    let (dates, closes) = parse_data(&response).unwrap();
    assert!(dates.is_empty());
    assert!(closes.is_empty());
}

#[test]
fn parse_keeps_fractional_closes() {
    let close = JsonNumber { integer: None, text: "187.25".to_string() };
    let response = chart_response(Json::Array(vec![Json::Number(close)]), integers(&[1732406400]));
    let (_, closes) = parse_data(&response).unwrap();
    assert_eq!(close_values(&closes), vec![187.25f64]);
}

#[test]
fn parse_refuses_empty_result() {
    let response = object(vec![("chart", object(vec![("result", Json::Array(vec![]))]))]);
    assert_eq!(parse_data(&response).unwrap_err(), ChartError::MalformedResponse);
}

#[test]
fn parse_refuses_text_closes() {
    let closes = Json::Array(vec![Json::Text("1".to_string()), Json::Text("2".to_string())]);
    let response = chart_response(closes, integers(&[1732406400, 1732662000]));
    assert_eq!(parse_data(&response).unwrap_err(), ChartError::MalformedResponse);
}

#[test]
fn parse_refuses_fractional_timestamp() {
    let stamp = JsonNumber { integer: None, text: "1732406400.5".to_string() };
    let response = chart_response(integers(&[1]), Json::Array(vec![Json::Number(stamp)]));
    assert_eq!(parse_data(&response).unwrap_err(), ChartError::MalformedResponse);
}

#[test]
fn parse_refuses_missing_timestamps() {
    let response = chart_response(integers(&[1]), Json::Null);
    assert_eq!(parse_data(&response).unwrap_err(), ChartError::MalformedResponse);
    assert_eq!(parse_data(&Json::Array(vec![])).unwrap_err(), ChartError::MalformedResponse);
}

#[test]
fn parse_refuses_unrepresentable_timestamp() {
    let response = chart_response(integers(&[1]), integers(&[i64::MAX]));
    assert_eq!(parse_data(&response).unwrap_err(), ChartError::MalformedResponse);
}

#[test]
fn member_lookup_takes_the_first_match() {
    let doc = object(vec![("a", Json::Bool(true)), ("b", Json::Null), ("a", Json::Bool(false))]);
    assert!(matches!(get_member(&doc, "a"), Some(Json::Bool(true))));
    assert!(matches!(get_member(&doc, "b"), Some(Json::Null)));
    assert!(get_member(&doc, "c").is_none());
    assert!(get_member(&Json::Null, "a").is_none());
}

#[test]
fn integer_numbers_carry_their_text() {
    assert_eq!(JsonNumber::from_i64(-5).text, "-5");
    assert_eq!(JsonNumber::from_i64(1732406400).text, "1732406400");
    assert_eq!(JsonNumber::from_i64(0).integer, Some(0));
}

#[test]
fn csv_document_lists_each_point() {
    let dates = vec![date(2024, 11, 24), date(2024, 11, 27)];
    let closes = vec!["1".to_string(), "2".to_string()];
    assert_eq!(
        csv_document(&dates, &closes),
        "Date,Close\n2024-11-24,1\n2024-11-27,2\n"
    );
}

#[test]
fn csv_document_of_no_points_is_the_header() {
    assert_eq!(csv_document(&vec![], &vec![]), "Date,Close\n");
}

#[test]
fn csv_document_stops_at_the_shorter_series() {
    let dates = vec![date(2024, 1, 2), date(2024, 1, 3)];
    let closes = vec!["187.25".to_string()];
    assert_eq!(csv_document(&dates, &closes), "Date,Close\n2024-01-02,187.25\n");
}

#[test]
fn csv_document_pads_and_signs_years() {
    let dates = vec![date(999, 3, 4), date(10000, 1, 5), date(-1, 12, 31)];
    let closes = vec!["1".to_string(), "2".to_string(), "3".to_string()];
    assert_eq!(
        csv_document(&dates, &closes),
        "Date,Close\n0999-03-04,1\n+10000-01-05,2\n-0001-12-31,3\n"
    );
}

#[test]
fn parsed_series_becomes_csv() {
    let response = chart_response(integers(&[1, 2]), integers(&[1732406400, 1732662000]));
    let (dates, closes) = parse_data(&response).unwrap();
    let texts: Vec<String> = close_values(&closes).iter().map(|c| format!("{}", c)).collect();
    assert_eq!(
        csv_document(&dates, &texts),
        "Date,Close\n2024-11-24,1\n2024-11-27,2\n"
    );
}
