//! Thread summaries for display: relative activity times and the parsing of
//! the ISO-8601 timestamps recorded in thread files.

use crate::text::{
    chars_of, decimal, first_index, find_char, owned, parse_i64, parse_i64_chars, parse_u32,
    parse_u32_chars, parse_u64, parse_u64_chars, push_decimal, skip_chars, split_chars,
    split_pieces, take_chars, trim_end_char, trim_end_char_chars,
};
use crate::sorting::{
    is_stable_order, keys_view, rows_in_order, sorted_rows, stable_order, SortKey, SortKeyView,
};
use vstd::prelude::*;

verus! {

/// Summary of a thread for display.
#[derive(Debug, PartialEq, Eq)]
pub struct ThreadSummary {
    pub id: String,
    pub title: String,
    pub message_count: usize,
    /// Milliseconds since the Unix epoch of the last activity (or creation).
    pub last_activity_ms: u64,
}

// ---------------------------------------------------------------------------
// Relative times
// ---------------------------------------------------------------------------

/// Whole seconds from `then_ms` to `now_ms` (zero when `then_ms` is later).
pub open spec fn elapsed_secs(now_ms: u64, then_ms: u64) -> nat {
    (if now_ms >= then_ms { now_ms - then_ms } else { 0int }) as nat / 1000
}

/// The coarsest unit below the next one: `"<n>s ago"` under a minute,
/// `"<n>m ago"` under an hour, `"<n>h ago"` under a day, else `"<n>d ago"`.
pub open spec fn relative_time_text(now_ms: u64, then_ms: u64) -> Seq<char> {
    let d = elapsed_secs(now_ms, then_ms);
    if d < 60 {
        decimal(d) + "s ago"@
    } else if d < 3600 {
        decimal(d / 60) + "m ago"@
    } else if d < 86400 {
        decimal(d / 3600) + "h ago"@
    } else {
        decimal(d / 86400) + "d ago"@
    }
}

/// How long ago `then_ms` was at `now_ms`, in the largest whole unit.
pub fn format_relative_time(now_ms: u64, then_ms: u64) -> (r: String)
    ensures
        r@ == relative_time_text(now_ms, then_ms),
{
    let diff_secs = now_ms.saturating_sub(then_ms) / 1000;
    let mut r = String::new();
    if diff_secs < 60 {
        push_decimal(&mut r, diff_secs);
        r.push_str("s ago");
    } else if diff_secs < 3600 {
        push_decimal(&mut r, diff_secs / 60);
        r.push_str("m ago");
    } else if diff_secs < 86400 {
        push_decimal(&mut r, diff_secs / 3600);
        r.push_str("h ago");
    } else {
        push_decimal(&mut r, diff_secs / 86400);
        r.push_str("d ago");
    }
    r
}

/// `std::time::SystemTime`, the wall clock.
#[verifier::external_type_specification]
#[verifier::external_body]
pub struct ExSystemTime(std::time::SystemTime);

/// `SystemTime::now`: the current wall-clock time; nothing is known of it.
#[verifier::external_body]
fn system_time_now() -> std::time::SystemTime {
    std::time::SystemTime::now()
}

/// `SystemTime::duration_since(UNIX_EPOCH)`: the time since the epoch, or
/// `None` for a clock set before it; nothing is known of the value.
#[verifier::external_body]
fn since_unix_epoch(t: std::time::SystemTime) -> Option<std::time::Duration> {
    t.duration_since(std::time::UNIX_EPOCH).ok()
}

/// `Duration::as_millis`: whole milliseconds of a duration; the duration is
/// opaque here, so nothing is stated of the number.
#[verifier::external_body]
fn duration_millis(d: std::time::Duration) -> u128 {
    d.as_millis()
}

/// A millisecond count since the epoch as a `u64`: the count truncated to
/// 64 bits, or zero when there is none (a clock set before the epoch).
pub open spec fn epoch_millis_u64(ms: Option<u128>) -> u64 {
    match ms {
        Some(m) => (m % 0x1_0000_0000_0000_0000) as u64,
        None => 0,
    }
}

/// The clock's millisecond count since the epoch as a `u64`.
pub fn millis_as_u64(ms: Option<u128>) -> (r: u64)
    ensures
        r == epoch_millis_u64(ms),
{
    match ms {
        Some(m) => {
            let r: u64 = #[verifier::truncate] (m as u64);
            assert(r == (m % 0x1_0000_0000_0000_0000) as u64) by (bit_vector)
                requires
                    r == m as u64,
            ;
            r
        },
        None => 0,
    }
}

/// Milliseconds since the Unix epoch by the wall clock (zero for a clock set
/// before the epoch; the millisecond count is truncated to 64 bits). The
/// reading depends on the clock, so nothing is stated of the number;
/// `millis_as_u64` states what is made of each reading.
pub fn now_ms() -> u64 {
    let ms = match since_unix_epoch(system_time_now()) {
        Some(d) => Some(duration_millis(d)),
        None => None,
    };
    millis_as_u64(ms)
}

impl ThreadSummary {
    /// How long ago the thread was last active, by the wall clock.
    pub fn relative_time(&self) -> (r: String)
        ensures
            exists|now: u64| r@ == relative_time_text(now, self.last_activity_ms),
    {
        let now = now_ms();
        format_relative_time(now, self.last_activity_ms)
    }
}

// ---------------------------------------------------------------------------
// Timestamps
// ---------------------------------------------------------------------------

/// The fields of a timestamp `YYYY-MM-DDThh:mm:ss[.fff]` (trailing `Z`s
/// ignored): year, month, day, hour, minute, second, milliseconds. The date
/// is split at `-` and the time at `:`; the first three pieces of each must
/// parse as integers and further pieces are ignored. The part after the
/// first `.` of the time, when there is one, is the millisecond count.
pub open spec fn timestamp_fields(s: Seq<char>) -> Option<(i64, u32, u32, u32, u32, u32, u64)> {
    let t = trim_end_char(s, 'Z');
    match first_index(t, 'T') {
        None => None,
        Some(i) => {
            let date = split_pieces(t.take(i), '-');
            let time = t.skip(i + 1);
            let (main, millis) = match first_index(time, '.') {
                Some(j) => (time.take(j), parse_u64(time.skip(j + 1))),
                None => (time, Some(0u64)),
            };
            let clock = split_pieces(main, ':');
            if date.len() < 3 || clock.len() < 3 {
                None
            } else {
                match (
                    parse_i64(date[0]),
                    parse_u32(date[1]),
                    parse_u32(date[2]),
                    millis,
                    parse_u32(clock[0]),
                    parse_u32(clock[1]),
                    parse_u32(clock[2]),
                ) {
                    (Some(y), Some(mo), Some(d), Some(ms), Some(h), Some(mi), Some(se)) => Some(
                        (y, mo, d, h, mi, se, ms),
                    ),
                    _ => None,
                }
            }
        },
    }
}

/// Integer division rounding toward zero, for a positive divisor.
pub open spec fn div_toward_zero(a: int, b: int) -> int {
    if a >= 0 {
        a / b
    } else {
        -((-a) / b)
    }
}

/// Year and month shifted so that the year starts in March.
pub open spec fn march_year(year: int, month: int) -> int {
    if month <= 2 { year - 1 } else { year }
}

pub open spec fn march_month(month: int) -> int {
    if month <= 2 { month + 12 } else { month }
}

pub open spec fn civil_era(y: int) -> int {
    div_toward_zero(if y >= 0 { y } else { y - 399 }, 400)
}

pub open spec fn day_of_year(m: int, day: int) -> int {
    (153 * (m - 3) + 2) / 5 + day - 1
}

pub open spec fn day_of_era(yoe: int, doy: int) -> int {
    yoe * 365 + yoe / 4 - yoe / 100 + doy
}

/// Days from 1970-01-01 to the given proleptic Gregorian date.
pub open spec fn days_from_civil(year: int, month: int, day: int) -> int {
    let y = march_year(year, month);
    let m = march_month(month);
    let era = civil_era(y);
    let yoe = y - era * 400;
    era * 146097 + day_of_era(yoe, day_of_year(m, day)) - 719468
}

/// The date arithmetic stays within the integer types it is done in.
pub open spec fn days_in_range(year: i64, month: u32, day: u32) -> bool {
    let y = march_year(year as int, month as int);
    let m = march_month(month as int);
    let era = civil_era(y);
    let doy = day_of_year(m, day as int);
    let doe = day_of_era(y - era * 400, doy);
    &&& i64::MIN <= y
    &&& (y < 0 ==> i64::MIN <= y - 399)
    &&& 153 * (m - 3) + 2 <= u32::MAX
    &&& (153 * (m - 3) + 2) / 5 + day <= u32::MAX
    &&& doy >= 0
    &&& doe <= u32::MAX
    &&& i64::MIN <= era * 146097
    &&& i64::MIN <= era * 146097 + doe - 719468
    &&& era * 146097 + doe <= i64::MAX
}

/// Milliseconds since the epoch denoted by timestamp fields.
pub open spec fn fields_ms(f: (i64, u32, u32, u32, u32, u32, u64)) -> int {
    (days_from_civil(f.0 as int, f.1 as int, f.2 as int) * 86400 + f.3 * 3600 + f.4 * 60 + f.5)
        * 1000 + f.6
}

/// The arithmetic on the fields of `s` stays within the integer types it is
/// done in (days since the epoch nonnegative, milliseconds within `u64`).
pub open spec fn timestamp_in_range(s: Seq<char>) -> bool {
    timestamp_fields(s) matches Some(f) ==> {
        &&& days_in_range(f.0, f.1, f.2)
        &&& days_from_civil(f.0 as int, f.1 as int, f.2 as int) >= 0
        &&& fields_ms(f) <= u64::MAX
    }
}

/// The milliseconds since the epoch that a timestamp denotes.
pub open spec fn timestamp_ms(s: Seq<char>) -> Option<u64> {
    match timestamp_fields(s) {
        Some(f) => Some(fields_ms(f) as u64),
        None => None,
    }
}

/// Splits a timestamp into its fields.
pub fn parse_timestamp_fields(s: &str) -> (r: Option<(i64, u32, u32, u32, u32, u32, u64)>)
    ensures
        r == timestamp_fields(s@),
{
    let v = chars_of(s);
    let t = trim_end_char_chars(v.as_slice(), 'Z');
    let i = match find_char(t.as_slice(), 'T') {
        Some(i) => i,
        None => {
            return None;
        },
    };
    assert(i < t.len());
    let date_part = take_chars(t.as_slice(), i);
    let time_part = skip_chars(t.as_slice(), i + 1);
    let date = split_chars(date_part.as_slice(), '-');
    let (main, millis) = match find_char(time_part.as_slice(), '.') {
        Some(j) => {
            assert(j < time_part.len());
            let m = take_chars(time_part.as_slice(), j);
            let rest = skip_chars(time_part.as_slice(), j + 1);
            (m, parse_u64_chars(rest.as_slice()))
        },
        None => (time_part, Some(0u64)),
    };
    let clock = split_chars(main.as_slice(), ':');
    if date.len() < 3 || clock.len() < 3 {
        return None;
    }
    let y = parse_i64_chars(date[0].as_slice());
    let mo = parse_u32_chars(date[1].as_slice());
    let d = parse_u32_chars(date[2].as_slice());
    let h = parse_u32_chars(clock[0].as_slice());
    let mi = parse_u32_chars(clock[1].as_slice());
    let se = parse_u32_chars(clock[2].as_slice());
    match (y, mo, d, millis, h, mi, se) {
        (Some(y), Some(mo), Some(d), Some(ms), Some(h), Some(mi), Some(se)) => Some(
            (y, mo, d, h, mi, se, ms),
        ),
        _ => None,
    }
}


/// Days from 1970-01-01 to a proleptic Gregorian date (for every date whose
/// arithmetic stays within range, always `Some`).
pub fn days_from_epoch(year: i64, month: u32, day: u32) -> (r: Option<i64>)
    requires
        days_in_range(year, month, day),
    ensures
        r == Some(days_from_civil(year as int, month as int, day as int) as i64),
{
    let (y, m) = if month <= 2 {
        (year - 1, month + 12)
    } else {
        (year, month)
    };
    let base = if y >= 0 {
        y
    } else {
        y - 399
    };
    let era = base / 400;
    assert(era == div_toward_zero(base as int, 400));
    let ghost yoe_i: int = y - era * 400;
    assert(0 <= yoe_i < 400) by {
        if y >= 0 {
            assert(0 <= y - (y / 400) * 400 < 400) by (nonlinear_arith)
                requires
                    y >= 0,
            {
            }
        } else {
            let a: int = 399 - y;
            assert(a > 0);
            assert(0 <= a - (a / 400) * 400 < 400) by (nonlinear_arith)
                requires
                    a > 0,
            {
            }
        }
    }
    let yoe = (y - era * 400) as u32;
    let doy = (153 * (m - 3) + 2) / 5 + day - 1;
    let doe = yoe * 365 + yoe / 4 - yoe / 100 + doy;
    let days = era * 146097 + doe as i64 - 719468;
    Some(days)
}

/// Milliseconds since the epoch of an ISO-8601 timestamp such as
/// `2025-12-28T21:21:59.052Z`, or `None` when it does not have that shape.
pub fn chrono_parse_to_ms(s: &str) -> (r: Option<u64>)
    requires
        timestamp_in_range(s@),
    ensures
        r == timestamp_ms(s@),
{
    let (year, month, day, hour, min, sec, millis) = match parse_timestamp_fields(s) {
        Some(f) => f,
        None => {
            return None;
        },
    };
    let days = match days_from_epoch(year, month, day) {
        Some(d) => d,
        None => {
            return None;
        },
    };
    let ghost total: int = days * 86400 + hour * 3600 + min * 60 + sec;
    assert(total * 1000 + millis <= u64::MAX);
    assert(0 <= total);
    assert(total <= u64::MAX) by (nonlinear_arith)
        requires
            total * 1000 + millis <= u64::MAX,
            0 <= total,
    {
    }
    assert(0 <= days * 86400 <= total) by (nonlinear_arith)
        requires
            days >= 0,
            total == days * 86400 + hour * 3600 + min * 60 + sec,
    {
    }
    let total_secs = (days as u64) * 86400 + (hour as u64) * 3600 + (min as u64) * 60
        + (sec as u64);
    Some(total_secs * 1000 + millis)
}

/// Whether the arithmetic of `chrono_parse_to_ms` stays in range on `s`.
pub fn timestamp_fits(s: &str) -> (r: bool)
    ensures
        r == timestamp_in_range(s@),
{
    let (year, month, day, hour, min, sec, millis) = match parse_timestamp_fields(s) {
        Some(f) => f,
        None => {
            return true;
        },
    };
    let year_w = year as i128;
    let month_w = month as i128;
    let day_w = day as i128;
    let y: i128 = if month_w <= 2 { year_w - 1 } else { year_w };
    let m: i128 = if month_w <= 2 { month_w + 12 } else { month_w };
    if y < -0x8000_0000_0000_0000 {
        return false;
    }
    if y < 0 && y - 399 < -0x8000_0000_0000_0000 {
        return false;
    }
    let base: i128 = if y >= 0 { y } else { y - 399 };
    let era: i128 = base / 400;
    assert(era == div_toward_zero(base as int, 400));
    if 153 * (m - 3) + 2 > 0xffff_ffff {
        return false;
    }
    if (153 * (m - 3) + 2) / 5 + day_w > 0xffff_ffff {
        return false;
    }
    let doy: i128 = (153 * (m - 3) + 2) / 5 + day_w - 1;
    if doy < 0 {
        return false;
    }
    let ghost yoe_i: int = y - era * 400;
    assert(0 <= yoe_i < 400) by {
        if y >= 0 {
            assert(0 <= y - (y / 400) * 400 < 400) by (nonlinear_arith)
                requires
                    y >= 0,
            {
            }
        } else {
            let a: int = 399 - y;
            assert(0 <= a - (a / 400) * 400 < 400) by (nonlinear_arith)
                requires
                    a > 0,
            {
            }
        }
    }
    let yoe: i128 = y - era * 400;
    let doe: i128 = yoe * 365 + yoe / 4 - yoe / 100 + doy;
    if doe > 0xffff_ffff {
        return false;
    }
    assert(-23058430092136940int <= era <= 23058430092136940int);
    if era * 146097 < -0x8000_0000_0000_0000 {
        return false;
    }
    let days_plus: i128 = era * 146097 + doe;
    if days_plus > 0x7fff_ffff_ffff_ffff || days_plus - 719468 < -0x8000_0000_0000_0000 {
        return false;
    }
    let days: i128 = days_plus - 719468;
    assert(days == days_from_civil(year as int, month as int, day as int));
    if days < 0 {
        return false;
    }
    if days > 0xffff_ffff_ffff_ffff {
        return false;
    }
    let ghost total: int = days * 86400 + hour * 3600 + min * 60 + sec;
    let secs: i128 = days * 86400 + (hour as i128) * 3600 + (min as i128) * 60 + (sec as i128);
    let ms: i128 = secs * 1000 + (millis as i128);
    ms <= 0xffff_ffff_ffff_ffff
}


/// Title shown for a thread that has none.
pub const UNTITLED_THREAD: &'static str = "Untitled thread";

/// The last activity of a thread: the time of its latest usage event when
/// that timestamp parses, else its creation time.
pub open spec fn last_activity(created: u64, last_event_timestamp: Option<Seq<char>>) -> u64 {
    match last_event_timestamp {
        Some(t) => match timestamp_ms(t) {
            Some(ms) => ms,
            None => created,
        },
        None => created,
    }
}

/// The summary of a thread record: its ID, its title (or the placeholder),
/// its message count and its last activity.
pub fn thread_summary_from(
    id: String,
    created: u64,
    title: Option<String>,
    message_count: usize,
    last_event_timestamp: Option<&str>,
) -> (r: ThreadSummary)
    requires
        last_event_timestamp matches Some(t) ==> timestamp_in_range(t@),
    ensures
        r.id == id,
        title matches Some(t) ==> r.title == t,
        title is None ==> r.title@ == UNTITLED_THREAD@,
        r.message_count == message_count,
        r.last_activity_ms == last_activity(
            created,
            match last_event_timestamp {
                Some(t) => Some(t@),
                None => None,
            },
        ),
{
    let title = match title {
        Some(t) => t,
        None => owned(UNTITLED_THREAD),
    };
    let last_activity_ms = match last_event_timestamp {
        Some(t) => match chrono_parse_to_ms(t) {
            Some(ms) => ms,
            None => created,
        },
        None => created,
    };
    ThreadSummary { id, title, message_count, last_activity_ms }
}


/// The summary of a thread record, for any last-event timestamp: one whose
/// time does not fit the millisecond counter is passed over, and the
/// creation time stands for the last activity.
pub fn thread_summary_of(
    id: String,
    created: u64,
    title: Option<String>,
    message_count: usize,
    last_event_timestamp: Option<&str>,
) -> (r: ThreadSummary)
    ensures
        r.id == id,
        title matches Some(t) ==> r.title == t,
        title is None ==> r.title@ == UNTITLED_THREAD@,
        r.message_count == message_count,
        r.last_activity_ms == last_activity(
            created,
            match last_event_timestamp {
                Some(t) => if timestamp_in_range(t@) {
                    Some(t@)
                } else {
                    None
                },
                None => None,
            },
        ),
{
    let usable = match last_event_timestamp {
        Some(t) => if timestamp_fits(t) {
            Some(t)
        } else {
            None
        },
        None => None,
    };
    thread_summary_from(id, created, title, message_count, usable)
}

/// An exact copy of a thread summary.
fn copy_summary(t: &ThreadSummary) -> (r: ThreadSummary)
    ensures
        r == *t,
{
    ThreadSummary {
        id: t.id.clone(),
        title: t.title.clone(),
        message_count: t.message_count,
        last_activity_ms: t.last_activity_ms,
    }
}

/// The last-activity times of threads, as sort keys.
pub open spec fn activity_keys(threads: Seq<ThreadSummary>) -> Seq<SortKeyView> {
    threads.map_values(|t: ThreadSummary| SortKeyView::Number(Some(t.last_activity_ms)))
}

/// The threads with the most recently active first; threads active at the
/// same time keep their order.
pub fn most_recent_first(threads: &[ThreadSummary]) -> (r: Vec<ThreadSummary>)
    ensures
        sorted_rows(threads@, activity_keys(threads@), true, r@),
{
    let n = threads.len();
    let mut keys: Vec<SortKey> = Vec::new();
    let mut k: usize = 0;
    while k < n
        invariant
            n == threads@.len(),
            k <= n,
            keys_view(keys@) == activity_keys(threads@.take(k as int)),
        decreases n - k,
    {
        let key = SortKey::Number(Some(threads[k].last_activity_ms));
        let ghost prev = keys@;
        keys.push(key);
        proof {
            assert(keys@ =~= prev.push(key));
            assert(threads@.take(k + 1) =~= threads@.take(k as int).push(threads@[k as int]));
            assert(keys_view(keys@) =~= keys_view(prev).push(key@));
            assert(activity_keys(threads@.take(k + 1)) =~= activity_keys(threads@.take(k as int)).push(
                SortKeyView::Number(Some(threads@[k as int].last_activity_ms)),
            ));
        }
        k = k + 1;
    }
    assert(threads@.take(n as int) =~= threads@);
    let ghost kv = keys_view(keys@);
    assert(forall|q: int| 0 <= q < kv.len() ==> #[trigger] kv[q] is Number);
    let order = stable_order(keys.as_slice(), true);
    let ghost o = order@.map_values(|q: usize| q as int);
    let mut r: Vec<ThreadSummary> = Vec::new();
    let mut j: usize = 0;
    while j < order.len()
        invariant
            n == threads@.len(),
            is_stable_order(activity_keys(threads@), true, o),
            o == order@.map_values(|q: usize| q as int),
            j <= order@.len(),
            r@.len() == j,
            forall|q: int| 0 <= q < j ==> r@[q] == threads@[o[q]],
        decreases order@.len() - j,
    {
        assert(o[j as int] == order@[j as int] as int);
        let t = copy_summary(&threads[order[j]]);
        r.push(t);
        j = j + 1;
    }
    assert(rows_in_order(threads@, activity_keys(threads@), true, r@, o));
    r
}

} // verus!
