//! The license of a business: a cycle of thirty days, a grace period of five,
//! and a lock on export alone after that. Data is never held back.

use crate::dates::{date_day, day_of, day_text, format_day, FIRST_PLAIN_DAY, LAST_PLAIN_DAY};
use crate::text::{i64_text, signed_decimal};
use vstd::prelude::*;

verus! {

/// The days that a payment pays for.
pub const BILLING_CYCLE_DAYS: i32 = 30;

/// The days after the due date before anything is locked.
pub const GRACE_PERIOD_DAYS: i32 = 5;

/// Where a license stands.
#[derive(Clone, Copy, PartialEq, Eq, Structural, Debug)]
pub enum LicenseStatus {
    Inactive,
    Active,
    Grace { days_left: i64 },
    Locked { days_overdue: i64 },
}

/// Why a license cannot be read or changed.
#[derive(Clone, Copy, PartialEq, Eq, Structural, Debug)]
pub enum LicenseError {
    /// It is activated already; it can only be renewed.
    AlreadyActivated,
    /// There is none to renew.
    NoLicense,
    /// The stored due date is no date.
    BadDate,
    /// The calendar has no such day.
    DateOutOfRange,
}

/// The stored license of a business.
#[derive(Debug)]
pub struct LicenseRow {
    /// One where the license is activated.
    pub activated: i64,
    pub next_due_date: String,
}

/// The dates that activating or paying stores.
#[derive(Debug)]
pub struct LicenseDates {
    pub paid_on: String,
    pub next_due: String,
}

/// Where an activated license stands on a day.
pub open spec fn status_on(due: int, today: int) -> LicenseStatus {
    if today <= due {
        LicenseStatus::Active
    } else if today <= due + GRACE_PERIOD_DAYS {
        LicenseStatus::Grace { days_left: (due + GRACE_PERIOD_DAYS - today) as i64 }
    } else {
        LicenseStatus::Locked { days_overdue: (today - due) as i64 }
    }
}

/// Where the license of a business stands on a day.
pub open spec fn license_status(row: Option<&LicenseRow>, today: int) -> Result<LicenseStatus, LicenseError> {
    match row {
        None => Ok(LicenseStatus::Inactive),
        Some(l) => if l.activated != 1 {
            Ok(LicenseStatus::Inactive)
        } else {
            match day_of(l.next_due_date@) {
                Some(due) => Ok(status_on(due, today)),
                None => Err(LicenseError::BadDate),
            }
        },
    }
}

/// Where an activated license with that due day stands on a day.
pub fn status_for(due: i32, today: i32) -> (r: LicenseStatus)
    ensures
        r == status_on(due as int, today as int),
{
    let due: i64 = due as i64;
    let today: i64 = today as i64;
    let grace_end: i64 = due + GRACE_PERIOD_DAYS as i64;
    if today <= due {
        LicenseStatus::Active
    } else if today <= grace_end {
        LicenseStatus::Grace { days_left: grace_end - today }
    } else {
        LicenseStatus::Locked { days_overdue: today - due }
    }
}

/// Where the license of a business stands today.
pub fn check_status(row: Option<&LicenseRow>, today: i32) -> (r: Result<LicenseStatus, LicenseError>)
    ensures
        r == license_status(row, today as int),
{
    match row {
        None => Ok(LicenseStatus::Inactive),
        Some(l) => if l.activated != 1 {
            Ok(LicenseStatus::Inactive)
        } else {
            match date_day(l.next_due_date.as_str()) {
                Some(due) => Ok(status_for(due, today)),
                None => Err(LicenseError::BadDate),
            }
        },
    }
}

/// The word that is stored for a status.
pub open spec fn status_word(s: LicenseStatus) -> Seq<char> {
    match s {
        LicenseStatus::Inactive => "inactive"@,
        LicenseStatus::Active => "active"@,
        LicenseStatus::Grace { days_left } => "grace"@,
        LicenseStatus::Locked { days_overdue } => "locked"@,
    }
}

/// The word that is stored for a status.
pub fn status_text(s: LicenseStatus) -> (r: &'static str)
    ensures
        r@ == status_word(s),
{
    match s {
        LicenseStatus::Inactive => "inactive",
        LicenseStatus::Active => "active",
        LicenseStatus::Grace { .. } => "grace",
        LicenseStatus::Locked { .. } => "locked",
    }
}

/// The due day after a payment: a cycle after the day it was due, or after
/// today if that is later.
pub open spec fn renewed_due(current_due: int, today: int) -> int {
    (if current_due >= today {
        current_due
    } else {
        today
    }) + BILLING_CYCLE_DAYS
}

/// The dates are the texts of these days; a due day with a plain year is read
/// back as that day.
pub open spec fn dates_are(d: LicenseDates, today: int, due: int) -> bool {
    &&& day_text(today) == Some(d.paid_on@)
    &&& day_text(due) == Some(d.next_due@)
    &&& FIRST_PLAIN_DAY <= due <= LAST_PLAIN_DAY ==> day_of(d.next_due@) == Some(due)
}

fn dates_for(today: i32, due: i64) -> (r: Result<LicenseDates, LicenseError>)
    ensures
        match r {
            Ok(d) => i32::MIN <= due <= i32::MAX && dates_are(d, today as int, due as int),
            Err(e) => {
                &&& e == LicenseError::DateOutOfRange
                &&& day_text(today as int) is None || due < i32::MIN || due > i32::MAX || day_text(due as int) is None
            },
        },
{
    if due < i32::MIN as i64 || due > i32::MAX as i64 {
        return Err(LicenseError::DateOutOfRange);
    }
    match (format_day(today), format_day(due as i32)) {
        (Some(paid_on), Some(next_due)) => Ok(LicenseDates { paid_on, next_due }),
        _ => Err(LicenseError::DateOutOfRange),
    }
}

/// Activates a license: due a cycle from today. One that is activated already
/// is refused. `stored` is the stored mark of activation, where there is one.
pub fn activate(stored: Option<i64>, today: i32) -> (r: Result<LicenseDates, LicenseError>)
    ensures
        match r {
            Ok(d) => stored != Some(1i64) && today + BILLING_CYCLE_DAYS <= i32::MAX && dates_are(
                d,
                today as int,
                today + BILLING_CYCLE_DAYS,
            ),
            Err(LicenseError::AlreadyActivated) => stored == Some(1i64),
            Err(LicenseError::DateOutOfRange) => stored != Some(1i64) && (day_text(today as int) is None || today
                + BILLING_CYCLE_DAYS > i32::MAX || day_text(today + BILLING_CYCLE_DAYS) is None),
            Err(_) => false,
        },
        stored == Some(1i64) ==> r is Err,
{
    match stored {
        Some(mark) => {
            if mark == 1 {
                return Err(LicenseError::AlreadyActivated);
            }
        },
        None => {},
    }
    dates_for(today, today as i64 + BILLING_CYCLE_DAYS as i64)
}

/// Records a payment. Whoever pays early keeps the days already paid for.
pub fn record_payment(current_due: Option<&str>, today: i32) -> (r: Result<LicenseDates, LicenseError>)
    ensures
        match r {
            Ok(d) => current_due is Some && day_of(current_due->0@) is Some && dates_are(
                d,
                today as int,
                renewed_due(day_of(current_due->0@)->0, today as int),
            ),
            Err(LicenseError::NoLicense) => current_due is None,
            Err(LicenseError::BadDate) => current_due is Some && day_of(current_due->0@) is None,
            Err(LicenseError::DateOutOfRange) => {
                &&& current_due is Some && day_of(current_due->0@) is Some
                &&& {
                    let due = renewed_due(day_of(current_due->0@)->0, today as int);
                    day_text(today as int) is None || due > i32::MAX || day_text(due) is None
                }
            },
            Err(LicenseError::AlreadyActivated) => false,
        },
{
    match current_due {
        None => Err(LicenseError::NoLicense),
        Some(text) => match date_day(text) {
            None => Err(LicenseError::BadDate),
            Some(due) => {
                let base: i32 = if due >= today {
                    due
                } else {
                    today
                };
                dates_for(today, base as i64 + BILLING_CYCLE_DAYS as i64)
            },
        },
    }
}

/// The sentence of a refused export; `None` where export is allowed.
pub open spec fn export_refusal(s: LicenseStatus) -> Option<Seq<char>> {
    match s {
        LicenseStatus::Active => None,
        LicenseStatus::Inactive => Some("license not activated — export is unavailable until activation"@),
        LicenseStatus::Grace { days_left } => Some(
            "payment overdue — export is locked. "@ + signed_decimal(days_left as int)
                + " day(s) remain in your grace period; please pay to restore export access"@,
        ),
        LicenseStatus::Locked { days_overdue } => Some(
            "payment overdue by "@ + signed_decimal(days_overdue as int)
                + " day(s) — export is locked. All other features keep working; please pay to restore export access"@,
        ),
    }
}

/// Allows export for an active license only; every other status is refused
/// with its own sentence.
pub fn require_export_allowed(s: LicenseStatus) -> (r: Result<(), String>)
    ensures
        match r {
            Ok(()) => export_refusal(s) is None,
            Err(m) => export_refusal(s) == Some(m@),
        },
{
    match s {
        LicenseStatus::Active => Ok(()),
        LicenseStatus::Inactive => Err(
            "license not activated — export is unavailable until activation".to_owned(),
        ),
        LicenseStatus::Grace { days_left } => {
            let mut m = "payment overdue — export is locked. ".to_owned();
            m.append(i64_text(days_left).as_str());
            m.append(" day(s) remain in your grace period; please pay to restore export access");
            Err(m)
        },
        LicenseStatus::Locked { days_overdue } => {
            let mut m = "payment overdue by ".to_owned();
            m.append(i64_text(days_overdue).as_str());
            m.append(
                " day(s) — export is locked. All other features keep working; please pay to restore export access",
            );
            Err(m)
        },
    }
}

// ---------------------------------------------------------------------------
// Laws
// ---------------------------------------------------------------------------

/// A payment never shortens what was paid for, and the license is then active
/// for the whole cycle from the day of the payment.
pub proof fn law_payment_pays_for_a_cycle(current_due: int, today: int, day: int)
    requires
        today <= day <= today + BILLING_CYCLE_DAYS,
    ensures
        renewed_due(current_due, today) >= current_due + BILLING_CYCLE_DAYS,
        renewed_due(current_due, today) >= today + BILLING_CYCLE_DAYS,
        status_on(renewed_due(current_due, today), day) == LicenseStatus::Active,
{
}

/// The grace period lasts exactly its days: on each of them the days left are
/// counted down to zero, and on the day after it the license is locked.
pub proof fn law_grace_lasts_its_days(due: int, k: int)
    requires
        1 <= k <= GRACE_PERIOD_DAYS,
    ensures
        status_on(due, due) == LicenseStatus::Active,
        status_on(due, due + k) == (LicenseStatus::Grace { days_left: (GRACE_PERIOD_DAYS - k) as i64 }),
        status_on(due, due + GRACE_PERIOD_DAYS + 1) == (LicenseStatus::Locked {
            days_overdue: (GRACE_PERIOD_DAYS + 1) as i64,
        }),
{
}

/// Without a payment a license never gets better with time: once it is no
/// longer active it stays so, and once it is locked it stays locked.
pub proof fn law_time_only_worsens(due: int, today: int, later: int)
    requires
        today <= later,
    ensures
        status_on(due, today) !is Active ==> status_on(due, later) !is Active,
        status_on(due, today) is Locked ==> status_on(due, later) is Locked,
{
}

/// Export is allowed for an active license and for no other.
pub proof fn law_export_needs_active(s: LicenseStatus)
    ensures
        export_refusal(s) is None <==> s == LicenseStatus::Active,
{
}

/// A payment pays for thirty days and no more: from the due date on where it comes
/// in time, so that none of the days that are paid for is lost, and from the day of
/// the payment on where it comes late.
pub proof fn law_a_payment_buys_thirty_days(current_due: int, today: int)
    ensures
        today <= current_due ==> renewed_due(current_due, today) - current_due == 30,
        today >= current_due ==> renewed_due(current_due, today) - today == 30,
        status_on(renewed_due(today, today), today + 30) is Active,
        status_on(renewed_due(today, today), today + 31) is Grace,
        status_on(renewed_due(today, today), today + 35) is Grace,
        status_on(renewed_due(today, today), today + 36) is Locked,
{
}

/// What is overdue is counted from the due date, however long ago it was.
pub proof fn law_locked_licenses_count_from_the_due_date(due: int, k: int)
    requires
        5 < k <= i64::MAX,
    ensures
        status_on(due, due + k) == (LicenseStatus::Locked { days_overdue: k as i64 }),
{
}

/// A license that was never activated is inactive, whatever its dates say. One that
/// is active goes by its due date, which has to be a date.
pub proof fn law_only_activated_licenses_count(row: &LicenseRow, today: int)
    ensures
        license_status(None, today) == Ok::<LicenseStatus, LicenseError>(LicenseStatus::Inactive),
        row.activated != 1 ==> license_status(Some(row), today) == Ok::<LicenseStatus, LicenseError>(
            LicenseStatus::Inactive,
        ),
        row.activated == 1 && day_of(row.next_due_date@) is Some ==> {
            &&& license_status(Some(row), today) is Ok
            &&& license_status(Some(row), today)->Ok_0 is Active <==> today <= day_of(row.next_due_date@)->0
        },
        row.activated == 1 && day_of(row.next_due_date@) is None ==> license_status(Some(row), today) is Err,
{
}

/// What is said of an overdue payment counts its days.
pub proof fn law_sentences_count_the_days(n: i64)
    ensures
        export_refusal(LicenseStatus::Grace { days_left: n }) == Some(
            "payment overdue — export is locked. "@ + signed_decimal(n as int)
                + " day(s) remain in your grace period; please pay to restore export access"@,
        ),
        export_refusal(LicenseStatus::Locked { days_overdue: n }) == Some(
            "payment overdue by "@ + signed_decimal(n as int)
                + " day(s) — export is locked. All other features keep working; please pay to restore export access"@,
        ),
        status_word(LicenseStatus::Inactive) == "inactive"@ && status_word(LicenseStatus::Active) == "active"@,
        status_word(LicenseStatus::Grace { days_left: n }) == "grace"@,
        status_word(LicenseStatus::Locked { days_overdue: n }) == "locked"@,
{
}

} // verus!
