//! Monthly price-history retrieval: calendar arithmetic for a requested
//! month, the provider query for it, and the reading of the provider's chart
//! response into dated closing prices, written out as CSV text.

pub mod calendar;
pub mod chart;
pub mod csv;
pub mod json;
pub mod url;

pub use calendar::{
    days_in_month, trading_date, unix_timestamp, CivilDate, MAX_YEAR, MIN_YEAR, SUPPORTED_SECONDS,
};
pub use url::get_url;
pub use json::{get_member, Json, JsonNumber};
pub use chart::{parse_data, ChartError};
pub use csv::csv_document;
