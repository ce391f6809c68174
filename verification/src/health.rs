//! The report on the proxy's own health.
use vstd::prelude::*;

use crate::json::{json_text, Json};

verus! {

/// How an instant is written: `secs` seconds and `nanos` nanoseconds after the start of 1970, UTC.
/// None where that is no instant of the calendar.
pub uninterp spec fn utc_timestamp(secs: i64, nanos: u32) -> Option<Seq<char>>;

/// `chrono::DateTime::to_rfc3339_opts`, for the instant that `DateTime::from_timestamp` makes of
/// the two numbers, in UTC and with `Z` for the zone: the text depends on the two numbers alone,
/// and there is none where they make no instant.
#[verifier::external_body]
fn write_timestamp(secs: i64, nanos: u32) -> (text: Option<String>)
    ensures
        match text {
            Some(written) => utc_timestamp(secs, nanos) == Some(written@),
            None => utc_timestamp(secs, nanos) is None,
        },
{
    match chrono::DateTime::from_timestamp(secs, nanos) {
        Some(instant) => Some(instant.to_rfc3339_opts(chrono::SecondsFormat::AutoSi, true)),
        None => None,
    }
}

/// The member at `position` is called `name` and holds the text `text`.
pub open spec fn is_text_member(
    members: Seq<(String, Json)>,
    position: int,
    name: Seq<char>,
    text: Seq<char>,
) -> bool {
    members[position].0@ == name && json_text(members[position].1) == Some(text)
}

/// `report` says that the proxy is well, at the time `timestamp`, and whom it works for.
pub open spec fn is_health_report(
    report: Json,
    timestamp: Seq<char>,
    validator_url: Seq<char>,
    entrypoint: Seq<char>,
) -> bool {
    &&& report matches Json::Object(members)
    &&& members@.len() == 4
    &&& is_text_member(members@, 0, "status"@, "ok"@)
    &&& is_text_member(members@, 1, "timestamp"@, timestamp)
    &&& is_text_member(members@, 2, "validator_url"@, validator_url)
    &&& is_text_member(members@, 3, "entrypoint"@, entrypoint)
}

/// The report at the time `timestamp`.
pub fn health_report(timestamp: String, validator_url: &str, entrypoint: &str) -> (report: Json)
    ensures
        is_health_report(report, timestamp@, validator_url@, entrypoint@),
{
    let mut members: Vec<(String, Json)> = Vec::new();
    members.push(("status".to_owned(), Json::Text("ok".to_owned())));
    members.push(("timestamp".to_owned(), Json::Text(timestamp)));
    members.push(("validator_url".to_owned(), Json::Text(validator_url.to_owned())));
    members.push(("entrypoint".to_owned(), Json::Text(entrypoint.to_owned())));
    Json::Object(members)
}

/// The report at the instant `secs` seconds and `nanos` nanoseconds after the start of 1970, UTC,
/// where that is an instant of the calendar.
pub fn handle_health(secs: i64, nanos: u32, validator_url: &str, entrypoint: &str) -> (report:
    Option<Json>)
    ensures
        match utc_timestamp(secs, nanos) {
            Some(timestamp) => report matches Some(written) && is_health_report(
                written,
                timestamp,
                validator_url@,
                entrypoint@,
            ),
            None => report is None,
        },
{
    match write_timestamp(secs, nanos) {
        Some(timestamp) => Some(health_report(timestamp, validator_url, entrypoint)),
        None => None,
    }
}

/// The report has four members, in this order: the status, which is `ok`, the time, and the two
/// addresses that the proxy works with, each as it was given.
pub proof fn report_tells_time_and_addresses(
    report: Json,
    timestamp: Seq<char>,
    validator_url: Seq<char>,
    entrypoint: Seq<char>,
)
    requires
        is_health_report(report, timestamp, validator_url, entrypoint),
    ensures
        report matches Json::Object(members) && members@.len() == 4 && {
            &&& members@[0].0@ == "status"@
            &&& members@[0].1 matches Json::Text(text) && text@ == "ok"@
            &&& members@[1].0@ == "timestamp"@
            &&& members@[1].1 matches Json::Text(text) && text@ == timestamp
            &&& members@[2].0@ == "validator_url"@
            &&& members@[2].1 matches Json::Text(text) && text@ == validator_url
            &&& members@[3].0@ == "entrypoint"@
            &&& members@[3].1 matches Json::Text(text) && text@ == entrypoint
        },
{
}

} // verus!
