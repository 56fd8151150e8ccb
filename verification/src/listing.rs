//! The listing: keys sorted by name, with masked values and local times.
use vstd::prelude::*;
use chrono::TimeZone;
use crate::model::{KeyDisplay, Vault};
use crate::vault::is_name_order;

verus! {

/// Whether `chrono` can place a Unix time (with no nanoseconds) on its calendar, that is
/// whether `DateTime::from_timestamp(ts, 0)` succeeds: its day must lie between
/// January 1 of year -262143 and December 31 of year 262142 (`NaiveDate`'s `MIN_YEAR` and
/// `MAX_YEAR`).
pub open spec fn chrono_timestamp_in_range(ts: i64) -> bool {
    -8_334_601_228_800 <= ts <= 8_210_266_876_799
}

/// The text shown for a time: a date-time when chrono can place it, "未知时间" otherwise.
/// The date-time is the time shifted by the local zone's offset, which is less than a day
/// either way.
pub open spec fn is_time_text(ts: i64, text: Seq<char>) -> bool {
    &&& chrono_timestamp_in_range(ts) ==> exists|offset: int|
        -86400 < offset < 86400 && text == #[trigger] datetime_text(ts + offset)
    &&& !chrono_timestamp_in_range(ts) ==> text == "未知时间"@
}

/// The proleptic Gregorian date `(year, month, day)` that lies `days` days after
/// 1970-01-01 (before it, for negative `days`).
pub open spec fn civil_from_days(days: int) -> (int, int, int) {
    let z = days + 719468;
    let era = z / 146097;
    let doe = z % 146097;
    let yoe = (doe - doe / 1460 + doe / 36524 - doe / 146096) / 365;
    let doy = doe - (365 * yoe + yoe / 4 - yoe / 100);
    let mp = (5 * doy + 2) / 153;
    let day = doy - (153 * mp + 2) / 5 + 1;
    let month = if mp < 10 { mp + 3 } else { mp - 9 };
    let year = yoe + era * 400 + if month <= 2 { 1int } else { 0int };
    (year, month, day)
}

/// The decimal digits of `n`, with no leading zeros.
pub open spec fn decimal(n: nat) -> Seq<char>
    decreases n,
{
    if n < 10 {
        seq![(48 + n) as char]
    } else {
        decimal(n / 10).push((48 + n % 10) as char)
    }
}

/// The decimal digits of `n`, padded with zeros on the left to at least `width` digits.
pub open spec fn zero_padded(n: nat, width: nat) -> Seq<char> {
    let d = decimal(n);
    if d.len() >= width {
        d
    } else {
        Seq::new((width - d.len()) as nat, |i: int| '0') + d
    }
}

/// A year as `%Y` writes it: four digits for years 0 to 9999, otherwise a sign and at
/// least four digits.
pub open spec fn year_text(year: int) -> Seq<char> {
    if 0 <= year <= 9999 {
        zero_padded(year as nat, 4)
    } else if year > 9999 {
        seq!['+'] + zero_padded(year as nat, 4)
    } else {
        seq!['-'] + zero_padded((-year) as nat, 4)
    }
}

/// The text `%Y-%m-%d %H:%M:%S` gives for a wall-clock time counted in seconds from
/// 1970-01-01 00:00:00.
pub open spec fn datetime_text(seconds: int) -> Seq<char> {
    let (year, month, day) = civil_from_days(seconds / 86400);
    let s = seconds % 86400;
    year_text(year) + seq!['-'] + zero_padded(month as nat, 2) + seq!['-'] + zero_padded(day as nat, 2)
        + seq![' '] + zero_padded((s / 3600) as nat, 2) + seq![':'] + zero_padded(
        ((s % 3600) / 60) as nat,
        2,
    ) + seq![':'] + zero_padded((s % 60) as nat, 2)
}

/// Calls `chrono::Local.timestamp_opt(ts, 0).single()` and formats the time with
/// `DateTime::format` and the pattern `%Y-%m-%d %H:%M:%S`. Claims: there is a time exactly
/// when `DateTime::from_timestamp(ts, 0)` succeeds, which is the range above
/// (`timestamp_opt` maps the UTC time to the local zone and always answers `Single` then;
/// `from_timestamp` fails exactly when `NaiveDate::from_num_days_from_ce_opt` rejects the
/// day, i.e. outside `MIN_YEAR`..=`MAX_YEAR`); and its text is the proleptic Gregorian
/// wall-clock time of `ts` shifted by the zone's offset (a `FixedOffset`, which lies
/// strictly between -86400 and 86400 seconds), written as the pattern writes it
/// (`format_numeric`: `%Y` four zero-padded digits for years 0 to 9999, a sign and at least
/// four digits otherwise; the other fields two zero-padded digits). Which offset applies
/// depends on the machine's time zone and is not claimed.
#[verifier::external_body]
fn local_time_text(ts: i64, pattern: &str) -> (text: Option<String>)
    requires
        pattern@ == "%Y-%m-%d %H:%M:%S"@,
    ensures
        text is Some <==> chrono_timestamp_in_range(ts),
        text matches Some(t) ==> exists|offset: int|
            -86400 < offset < 86400 && t@ == #[trigger] datetime_text(ts + offset),
{
    match chrono::Local.timestamp_opt(ts, 0).single() {
        Some(dt) => Some(dt.format(pattern).to_string()),
        None => None,
    }
}

/// The text shown for a time: the formatted local time, or "未知时间" when the time could
/// not be placed in the local time zone.
pub fn timestamp_or_unknown(local: Option<String>) -> (text: String)
    ensures
        match local {
            Some(t) => text == t,
            None => text@ == "未知时间"@,
        },
{
    match local {
        Some(t) => t,
        None => String::from_str("未知时间"),
    }
}

/// Formats a Unix time as `YYYY-MM-DD HH:MM:SS` in the local time zone, or "未知时间"
/// when the time is outside the calendar. Which local time is shown depends on the
/// machine's time zone.
fn format_timestamp(ts: i64) -> (text: String)
    ensures
        is_time_text(ts, text@),
{
    let local = local_time_text(ts, "%Y-%m-%d %H:%M:%S");
    timestamp_or_unknown(local)
}

impl Vault {
    /// The listing: one line per key, sorted by name byte-wise (keys of equal names in
    /// stored order), each with its name, masked preview and local times (a date-time, or
    /// "未知时间" for a time outside the calendar).
    pub fn key_displays(&self) -> (lines: Vec<KeyDisplay>)
        ensures
            exists|order: Seq<usize>|
                #[trigger] is_name_order(self.entries@, order) && lines@.len() == order.len()
                    && forall|k: int|
                    0 <= k < order.len() ==> (#[trigger] lines@[k]).name@ == self.entries@[order[k] as int].name@
                        && lines@[k].masked_value@ == self.entries@[order[k] as int].masked_preview@
                        && is_time_text(self.entries@[order[k] as int].created_at, lines@[k].created_at@)
                        && is_time_text(self.entries@[order[k] as int].updated_at, lines@[k].updated_at@),
    {
        let order = self.name_order();
        let mut lines: Vec<KeyDisplay> = Vec::new();
        let mut k: usize = 0;
        while k < order.len()
            invariant
                is_name_order(self.entries@, order@),
                k <= order@.len(),
                lines@.len() == k,
                forall|j: int|
                    0 <= j < k ==> (#[trigger] lines@[j]).name@ == self.entries@[order@[j] as int].name@
                        && lines@[j].masked_value@ == self.entries@[order@[j] as int].masked_preview@
                        && is_time_text(self.entries@[order@[j] as int].created_at, lines@[j].created_at@)
                        && is_time_text(self.entries@[order@[j] as int].updated_at, lines@[j].updated_at@),
            decreases order@.len() - k,
        {
            let e = &self.entries[order[k]];
            lines.push(KeyDisplay {
                name: e.name.clone(),
                masked_value: e.masked_preview.clone(),
                created_at: format_timestamp(e.created_at),
                updated_at: format_timestamp(e.updated_at),
            });
            k = k + 1;
        }
        lines
    }
}

} // verus!
