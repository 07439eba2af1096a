//! Crash reports: whether they may be made, where they go, and when they count
//! as sent.

use crate::text::{begins, cat3, contains_text, holds, i64_text, opt_view, same, signed_decimal, starts_with};
use vstd::prelude::*;

verus! {

/// The setting by which a business turns crash reports off.
pub fn opt_out_setting() -> (s: &'static str)
    ensures
        s@ == "crash_reporting_enabled"@,
{
    "crash_reporting_enabled"
}

/// Whether crash reports may be made: unless the first business of the install
/// has turned them off. Before there is a business nothing is turned off.
pub fn reporting_allowed(has_business: bool, setting: &Option<String>) -> (b: bool)
    ensures
        b == (!has_business || opt_view(*setting) != Some("false"@)),
{
    if !has_business {
        return true;
    }
    match setting {
        Some(v) => !same(v.as_str(), "false"),
        None => true,
    }
}

/// Whether reporting starts at all: there is somewhere to send reports to, and
/// they may be made.
pub fn init(has_target: bool, allowed: bool) -> (b: bool)
    ensures
        b == (has_target && allowed),
{
    has_target && allowed
}

/// Where a report goes.
#[derive(Clone, Copy, PartialEq, Eq, Structural, Debug)]
pub enum ReportTarget {
    Sentry,
    Webhook,
}

/// Where reports to that address go.
pub fn target_of(dsn: &str) -> (t: ReportTarget)
    ensures
        t == (if begins(dsn@, "https://"@) && holds(dsn@, "sentry.io"@) {
            ReportTarget::Sentry
        } else {
            ReportTarget::Webhook
        }),
{
    if starts_with(dsn, "https://") && contains_text(dsn, "sentry.io") {
        ReportTarget::Sentry
    } else {
        ReportTarget::Webhook
    }
}

/// Whether a report counts as sent, by the status of the answer. One that does
/// not stays in the queue.
pub fn was_sent(t: ReportTarget, status: u16) -> (b: bool)
    ensures
        b == (match t {
            ReportTarget::Sentry => status == 200,
            ReportTarget::Webhook => 200 <= status < 300,
        }),
{
    match t {
        ReportTarget::Sentry => status == 200,
        ReportTarget::Webhook => 200 <= status && status < 300,
    }
}

/// Whether a file in the queue is a report, by its ending.
pub fn is_report(ending: &Option<String>) -> (b: bool)
    ensures
        b == (opt_view(*ending) == Some("json"@)),
{
    match ending {
        Some(e) => same(e.as_str(), "json"),
        None => false,
    }
}

/// The name of a report's file, by the time of the crash.
pub fn report_name(timestamp: i64) -> (s: String)
    ensures
        s@ == "crash_"@ + signed_decimal(timestamp as int) + ".json"@,
{
    cat3("crash_", i64_text(timestamp).as_str(), ".json")
}

} // verus!
