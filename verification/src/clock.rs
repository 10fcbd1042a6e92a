//! Calendar times from the always-on timer, the synced epoch time, and the
//! weekday/weekend power schedule: awake from Monday 06:00 until Saturday
//! 00:00, asleep over the weekend.
use crate::decimal::{
    digits, digits_02, lemma_digits_ascii, lemma_digits_len_bound, lemma_digits_shape, parse_u64,
    pow10, push_decimal, push_decimal_02, spec_parse_u64,
};
use crate::text::{is_ascii_text, text_of, DebugText, FixedText};
use vstd::prelude::*;

verus! {

/// Day of the week, Sunday first.
#[derive(Clone, Copy, Debug, PartialEq, Eq)]
pub enum DayOfWeek {
    Sunday,
    Monday,
    Tuesday,
    Wednesday,
    Thursday,
    Friday,
    Saturday,
}

impl DayOfWeek {
    pub open spec fn number_spec(self) -> u8 {
        match self {
            DayOfWeek::Sunday => 0,
            DayOfWeek::Monday => 1,
            DayOfWeek::Tuesday => 2,
            DayOfWeek::Wednesday => 3,
            DayOfWeek::Thursday => 4,
            DayOfWeek::Friday => 5,
            DayOfWeek::Saturday => 6,
        }
    }

    /// The day's number, Sunday being 0 and Saturday 6.
    pub fn number(&self) -> (n: u8)
        ensures
            n == self.number_spec(),
    {
        match self {
            DayOfWeek::Sunday => 0,
            DayOfWeek::Monday => 1,
            DayOfWeek::Tuesday => 2,
            DayOfWeek::Wednesday => 3,
            DayOfWeek::Thursday => 4,
            DayOfWeek::Friday => 5,
            DayOfWeek::Saturday => 6,
        }
    }

    /// Monday to Friday.
    pub open spec fn is_weekday_spec(self) -> bool {
        1 <= self.number_spec() <= 5
    }

    /// Monday to Friday.
    pub fn is_weekday(&self) -> (b: bool)
        ensures
            b == self.is_weekday_spec(),
    {
        let n = self.number();
        1 <= n && n <= 5
    }
}

/// A calendar date and time of day, as the always-on timer keeps it.
#[derive(Clone, Copy, Debug, PartialEq, Eq)]
pub struct DateTime {
    pub year: u16,
    pub month: u8,
    pub day: u8,
    pub day_of_week: DayOfWeek,
    pub hour: u8,
    pub minute: u8,
    pub second: u8,
}

/// A leap year of the Gregorian calendar.
pub open spec fn is_leap_year(year: int) -> bool {
    (year % 4 == 0 && year % 100 != 0) || year % 400 == 0
}

/// The number of days in `month` (1 to 12) of `year`.
pub open spec fn days_in_month_spec(year: int, month: int) -> int {
    if month == 2 {
        if is_leap_year(year) {
            29
        } else {
            28
        }
    } else if month == 4 || month == 6 || month == 9 || month == 11 {
        30
    } else {
        31
    }
}

/// The number of days in `month` (1 to 12) of `year`.
pub fn days_in_month(year: u16, month: u8) -> (n: u8)
    ensures
        n == days_in_month_spec(year as int, month as int),
{
    if month == 2 {
        if (year % 4 == 0 && year % 100 != 0) || year % 400 == 0 {
            29
        } else {
            28
        }
    } else if month == 4 || month == 6 || month == 9 || month == 11 {
        30
    } else {
        31
    }
}

/// A date of the calendar: a month from 1 to 12 and a day within it.
pub open spec fn is_valid_date_spec(dt: DateTime) -> bool {
    &&& 1 <= dt.month <= 12
    &&& 1 <= dt.day <= days_in_month_spec(dt.year as int, dt.month as int)
}

/// A date of the calendar: a month from 1 to 12 and a day within it.
pub fn is_valid_date(dt: &DateTime) -> (b: bool)
    ensures
        b == is_valid_date_spec(*dt),
{
    1 <= dt.month && dt.month <= 12 && 1 <= dt.day && dt.day <= days_in_month(dt.year, dt.month)
}

/// The date of `dt` as (year, month, day).
pub open spec fn date_of(dt: DateTime) -> (int, int, int) {
    (dt.year as int, dt.month as int, dt.day as int)
}

/// The date after `date`: the next day of the month, else the first of the
/// next month, else the first of January of the next year.
pub open spec fn day_after(date: (int, int, int)) -> (int, int, int) {
    if date.2 < days_in_month_spec(date.0, date.1) {
        (date.0, date.1, date.2 + 1)
    } else if date.1 < 12 {
        (date.0, date.1 + 1, 1)
    } else {
        (date.0 + 1, 1, 1)
    }
}

/// The date `n` days after `date`.
pub open spec fn days_after(date: (int, int, int), n: nat) -> (int, int, int)
    decreases n,
{
    if n == 0 {
        date
    } else {
        day_after(days_after(date, (n - 1) as nat))
    }
}

/// The number of the Gregorian date (year, month, day) in a count of
/// consecutive days: the year is taken to start in March, so that the leap
/// day closes it; each year has 365 days plus a leap day every fourth year,
/// except for centuries not divisible by 400; the months from March take 153
/// days every five months (31, 30, 31, 30, 31); then the day of the month.
/// The month lengths are not read from `days_in_month_spec`.
pub open spec fn civil_day(date: (int, int, int)) -> int {
    let y = if date.1 <= 2 {
        date.0 - 1
    } else {
        date.0
    };
    let mp = if date.1 > 2 {
        date.1 - 3
    } else {
        date.1 + 9
    };
    365 * y + y / 4 - y / 100 + y / 400 + (153 * mp + 2) / 5 + date.2
}

/// The day of the week of a date, Sunday 0 to Saturday 6, counted from
/// Thursday 1 January 1970.
pub open spec fn weekday_of(date: (int, int, int)) -> int {
    (civil_day(date) + 2) % 7
}

/// A date of the calendar, given as (year, month, day).
pub open spec fn is_valid_ymd(date: (int, int, int)) -> bool {
    &&& 1 <= date.1 <= 12
    &&& 1 <= date.2 <= days_in_month_spec(date.0, date.1)
}

/// The months have the lengths of the Gregorian calendar: thirty days hath
/// September, April, June and November; February 28, or 29 in a leap year;
/// all the rest 31.
pub proof fn lemma_month_lengths(year: int)
    ensures
        days_in_month_spec(year, 1) == 31,
        days_in_month_spec(year, 2) == if is_leap_year(year) { 29int } else { 28int },
        days_in_month_spec(year, 3) == 31,
        days_in_month_spec(year, 4) == 30,
        days_in_month_spec(year, 5) == 31,
        days_in_month_spec(year, 6) == 30,
        days_in_month_spec(year, 7) == 31,
        days_in_month_spec(year, 8) == 31,
        days_in_month_spec(year, 9) == 30,
        days_in_month_spec(year, 10) == 31,
        days_in_month_spec(year, 11) == 30,
        days_in_month_spec(year, 12) == 31,
        is_leap_year(year) <==> (year % 4 == 0 && (year % 100 != 0 || year % 400 == 0)),
{
}

proof fn lemma_div_step(y: int, k: int)
    requires
        k > 0,
    ensures
        y / k - (y - 1) / k == if y % k == 0 { 1int } else { 0int },
{
    vstd::arithmetic::div_mod::lemma_fundamental_div_mod(y, k);
    vstd::arithmetic::div_mod::lemma_fundamental_div_mod(y - 1, k);
    assert(y / k - (y - 1) / k == if y % k == 0 { 1int } else { 0int }) by (nonlinear_arith)
        requires
            k > 0,
            y == k * (y / k) + y % k,
            0 <= y % k < k,
            y - 1 == k * ((y - 1) / k) + (y - 1) % k,
            0 <= (y - 1) % k < k,
    ;
}

/// The date after a valid date is valid and is the next day of the count.
pub proof fn lemma_day_after_is_next_day(date: (int, int, int))
    requires
        is_valid_ymd(date),
    ensures
        is_valid_ymd(day_after(date)),
        civil_day(day_after(date)) == civil_day(date) + 1,
{
    let (y, m, d) = date;
    if d < days_in_month_spec(y, m) {
    } else if m == 2 {
        lemma_div_step(y, 4);
        lemma_div_step(y, 100);
        lemma_div_step(y, 400);
    }
}

/// `n` dates on from a valid date is a valid date, `n` days later in the count.
pub proof fn lemma_days_after_count(date: (int, int, int), n: nat)
    requires
        is_valid_ymd(date),
    ensures
        is_valid_ymd(days_after(date, n)),
        civil_day(days_after(date, n)) == civil_day(date) + n,
    decreases n,
{
    if n > 0 {
        lemma_days_after_count(date, (n - 1) as nat);
        lemma_day_after_is_next_day(days_after(date, (n - 1) as nat));
    }
}

/// The days from a weekday to the Saturday of its week.
pub open spec fn days_to_saturday(now: DateTime) -> nat {
    (6 - now.day_of_week.number_spec()) as nat
}

/// saturday, midnight: the coming Saturday's date, at 00:00:00.
pub open spec fn next_weekend_spec(now: DateTime) -> DateTime {
    let date = days_after(date_of(now), days_to_saturday(now));
    DateTime {
        year: date.0 as u16,
        month: date.1 as u8,
        day: date.2 as u8,
        day_of_week: DayOfWeek::Saturday,
        hour: 0,
        minute: 0,
        second: 0,
    }
}

/// The readings for which the coming Saturday can be given: a weekday with a
/// valid date, whose Saturday does not fall after the last year a `u16` holds.
pub open spec fn has_next_weekend_spec(now: DateTime) -> bool {
    &&& now.day_of_week.is_weekday_spec()
    &&& is_valid_date_spec(now)
    &&& (now.year < u16::MAX || now.month < 12 || now.day + days_to_saturday(now) <= 31)
}

/// The readings for which the coming Saturday can be given.
pub fn has_next_weekend(now: &DateTime) -> (b: bool)
    ensures
        b == has_next_weekend_spec(*now),
{
    if !now.day_of_week.is_weekday() || !is_valid_date(now) {
        return false;
    }
    let to_saturday = 6 - now.day_of_week.number();
    now.year < u16::MAX || now.month < 12 || now.day + to_saturday <= 31
}

/// Up to 28 days on, a date is found in its own month or the next one.
proof fn lemma_days_after_closed(date: (int, int, int), k: nat)
    requires
        1 <= date.1 <= 12,
        1 <= date.2 <= days_in_month_spec(date.0, date.1),
        k <= 28,
    ensures
        days_after(date, k) == (if date.2 + k <= days_in_month_spec(date.0, date.1) {
            (date.0, date.1, date.2 + k)
        } else if date.1 < 12 {
            (date.0, date.1 + 1, date.2 + k - days_in_month_spec(date.0, date.1))
        } else {
            (date.0 + 1, 1, date.2 + k - days_in_month_spec(date.0, date.1))
        }),
    decreases k,
{
    if k > 0 {
        lemma_days_after_closed(date, (k - 1) as nat);
    }
}

/// saturday, midnight
pub fn next_weekend(now: DateTime) -> (weekend: DateTime)
    requires
        has_next_weekend_spec(now),
    ensures
        weekend == next_weekend_spec(now),
{
    let day_of_week = now.day_of_week.number();
    // saturday is 6, today is monday-friday (1..=5), so 6-today is always positive
    let to_saturday = 6 - day_of_week;
    let month_days = days_in_month(now.year, now.month);
    proof {
        lemma_days_after_closed(date_of(now), to_saturday as nat);
    }
    let (year, month, day) = if now.day + to_saturday <= month_days {
        (now.year, now.month, now.day + to_saturday)
    } else if now.month < 12 {
        (now.year, now.month + 1, now.day + to_saturday - month_days)
    } else {
        (now.year + 1, 1u8, now.day + to_saturday - month_days)
    };
    DateTime {
        year,
        month,
        day,
        day_of_week: DayOfWeek::Saturday,
        hour: 0,
        minute: 0,
        second: 0,
    }
}

/// The text `debug_datetime` renders:
/// `{year}-{month}-{day} {hour:02}:{minute:02}:{second:02} ({timestamp})`.
pub open spec fn debug_datetime_text(dt: DateTime, timestamp_ms: u64) -> Seq<u8> {
    digits(dt.year as nat) + seq![45u8] + digits(dt.month as nat) + seq![45u8] + digits(
        dt.day as nat,
    ) + seq![32u8] + digits_02(dt.hour as nat) + seq![58u8] + digits_02(dt.minute as nat)
        + seq![58u8] + digits_02(dt.second as nat) + seq![32u8, 40u8] + digits(
        timestamp_ms as nat,
    ) + seq![41u8]
}

/// Renders `dt` and its milliseconds since the epoch for the log; `None`
/// when the text does not fit in 40 characters.
pub fn debug_datetime(dt: &DateTime, timestamp_ms: u64) -> (text: Option<DebugText>)
    ensures
        text is None <==> debug_datetime_text(*dt, timestamp_ms).len() > 40,
        text matches Some(t) ==> t.text() == debug_datetime_text(*dt, timestamp_ms),
{
    let mut s: Vec<u8> = Vec::new();
    push_decimal(&mut s, dt.year as u64);
    s.push(45u8);
    push_decimal(&mut s, dt.month as u64);
    s.push(45u8);
    push_decimal(&mut s, dt.day as u64);
    s.push(32u8);
    push_decimal_02(&mut s, dt.hour as u64);
    s.push(58u8);
    push_decimal_02(&mut s, dt.minute as u64);
    s.push(58u8);
    push_decimal_02(&mut s, dt.second as u64);
    s.push(32u8);
    s.push(40u8);
    push_decimal(&mut s, timestamp_ms);
    s.push(41u8);
    assert(s@ =~= debug_datetime_text(*dt, timestamp_ms));
    proof {
        lemma_debug_datetime_ascii(*dt, timestamp_ms);
    }
    text_of::<DebugText>(s.as_slice())
}

proof fn lemma_debug_datetime_ascii(dt: DateTime, timestamp_ms: u64)
    ensures
        is_ascii_text(debug_datetime_text(dt, timestamp_ms)),
{
    lemma_digits_ascii(dt.year as nat);
    lemma_digits_ascii(dt.month as nat);
    lemma_digits_ascii(dt.day as nat);
    lemma_digits_ascii(dt.hour as nat);
    lemma_digits_ascii(dt.minute as nat);
    lemma_digits_ascii(dt.second as nat);
    lemma_digits_ascii(timestamp_ms as nat);
    lemma_small_ascii();
    broadcast use crate::text::lemma_ascii_concat_auto;

    assert(is_ascii_text(debug_datetime_text(dt, timestamp_ms)));
}

proof fn lemma_small_ascii()
    ensures
        is_ascii_text(seq![45u8]),
        is_ascii_text(seq![32u8]),
        is_ascii_text(seq![58u8]),
        is_ascii_text(seq![32u8, 40u8]),
        is_ascii_text(seq![41u8]),
{
    assert(seq![45u8][0] < 128);
    assert(seq![32u8][0] < 128);
    assert(seq![58u8][0] < 128);
    assert(seq![32u8, 40u8][0] < 128 && seq![32u8, 40u8][1] < 128);
    assert(seq![41u8][0] < 128);
}

/// The debug text takes at most 35 characters for a date the timer can hold
/// (a year of at most four digits, two-digit fields) and a timestamp before
/// the year 2286 (at most 13 digits).
pub proof fn lemma_debug_datetime_fits(dt: DateTime, timestamp_ms: u64)
    requires
        dt.year < 10000,
        dt.month < 100 && dt.day < 100,
        dt.hour < 100 && dt.minute < 100 && dt.second < 100,
        timestamp_ms < 10_000_000_000_000,
    ensures
        debug_datetime_text(dt, timestamp_ms).len() <= 35,
{
    assert(pow10(4) == 10000) by {
        reveal_with_fuel(pow10, 5);
    }
    assert(pow10(2) == 100) by {
        reveal_with_fuel(pow10, 3);
    }
    assert(pow10(13) == 10_000_000_000_000) by {
        reveal_with_fuel(pow10, 14);
    }
    lemma_digits_len_bound(dt.year as nat, 4);
    lemma_digits_len_bound(dt.month as nat, 2);
    lemma_digits_len_bound(dt.day as nat, 2);
    lemma_digits_len_bound(timestamp_ms as nat, 13);
    lemma_digits_shape(dt.hour as nat);
    lemma_digits_shape(dt.minute as nat);
    lemma_digits_shape(dt.second as nat);
}

/// The milliseconds since the epoch in the body of the time service's answer:
/// just a decimal number. `None` when the body is not one.
pub fn parse_epoch_ms(body: &[u8]) -> (ms: Option<u64>)
    ensures
        ms == spec_parse_u64(body@),
{
    parse_u64(body)
}

/// Seconds in a day.
pub const DAY_SECS: u64 = 86400;

/// How long to sleep from `now`, the start of a weekend: until Monday 06:00,
/// counting from midnight.
pub open spec fn sleep_secs_spec(now: DateTime) -> u64 {
    let days: u64 = if now.day_of_week == DayOfWeek::Saturday {
        2
    } else {
        1
    };
    (days * 86400 + 6 * 3600) as u64
}

/// it should now be saturday 00:00, sleep until next monday 6:00
pub fn sleep_secs(now: &DateTime) -> (secs: u64)
    ensures
        secs == sleep_secs_spec(*now),
{
    let days: u64 = match now.day_of_week {
        DayOfWeek::Saturday => 2,
        _ => 1,
    };
    (days * DAY_SECS) + (6 * 60 * 60)
}

/// Seconds from the start of the week (Sunday 00:00) to `t`.
pub open spec fn week_secs(t: DateTime) -> int {
    t.day_of_week.number_spec() * 86400 + t.hour * 3600 + t.minute * 60 + t.second
}

/// Starting to sleep at midnight on Saturday or Sunday, the device wakes on
/// Monday at 06:00.
pub proof fn lemma_weekend_sleep_ends_monday_morning(now: DateTime)
    requires
        !now.day_of_week.is_weekday_spec(),
        now.hour == 0 && now.minute == 0 && now.second == 0,
    ensures
        (week_secs(now) + sleep_secs_spec(now)) % (7 * 86400int) == 86400 + 6 * 3600,
{
}

/// The weekend alarm set on a weekday is a valid date, a Saturday, at
/// midnight, and it lies 6 - w days after the weekday `w` (1 to 5 days on,
/// across the end of a month or a year where it falls there).
pub proof fn lemma_next_weekend_is_saturday(now: DateTime)
    requires
        has_next_weekend_spec(now),
    ensures
        next_weekend_spec(now).day_of_week == DayOfWeek::Saturday,
        is_valid_date_spec(next_weekend_spec(now)),
        date_of(next_weekend_spec(now)) == days_after(date_of(now), days_to_saturday(now)),
        1 <= days_to_saturday(now) <= 5,
        next_weekend_spec(now).hour == 0,
        next_weekend_spec(now).minute == 0,
        next_weekend_spec(now).second == 0,
        week_secs(next_weekend_spec(now)) == 6 * 86400,
{
    lemma_days_after_closed(date_of(now), days_to_saturday(now));
}

/// The weekend alarm lies on the calendar `6 - w` days after the weekday
/// reading, counted without the month lengths; when the reading's weekday is
/// that of its date, the alarm's date is really a Saturday.
pub proof fn lemma_next_weekend_on_the_calendar(now: DateTime)
    requires
        has_next_weekend_spec(now),
    ensures
        civil_day(date_of(next_weekend_spec(now))) == civil_day(date_of(now)) + days_to_saturday(
            now,
        ),
        weekday_of(date_of(now)) == now.day_of_week.number_spec() ==> weekday_of(
            date_of(next_weekend_spec(now)),
        ) == next_weekend_spec(now).day_of_week.number_spec(),
{
    lemma_days_after_count(date_of(now), days_to_saturday(now));
    lemma_days_after_closed(date_of(now), days_to_saturday(now));
}

/// Where the power schedule stands.
#[derive(Clone, Copy, Debug, PartialEq, Eq)]
pub enum PowerPhase {
    /// Booted; the clock is about to be read for the first time.
    Starting,
    /// Awake during the week, an alarm set for Saturday 00:00.
    AwaitingWeekend,
    /// Sleeping over the weekend.
    Asleep,
}

/// What the power manager has to do next.
#[derive(Clone, Copy, Debug, PartialEq, Eq)]
pub enum PowerAction {
    /// Set the alarm at this time and wait for it.
    AlarmAt(DateTime),
    /// Set the alarm this many seconds ahead and go to dormant sleep; on
    /// waking, sync the clock again.
    SleepFor(u64),
}

/// The decisions of the power manager, as a state machine driven by readings
/// of the (synced) clock.
pub struct PowerManager {
    pub phase: PowerPhase,
}

/// The phase after reading the clock in `phase` at `now`.
pub open spec fn next_phase(phase: PowerPhase, now: DateTime) -> PowerPhase {
    match phase {
        PowerPhase::Starting => if now.day_of_week.is_weekday_spec() {
            PowerPhase::AwaitingWeekend
        } else {
            PowerPhase::Asleep
        },
        PowerPhase::AwaitingWeekend => PowerPhase::Asleep,
        PowerPhase::Asleep => PowerPhase::AwaitingWeekend,
    }
}

/// What to do after reading the clock in `phase` at `now`.
pub open spec fn next_action(phase: PowerPhase, now: DateTime) -> PowerAction {
    match next_phase(phase, now) {
        PowerPhase::AwaitingWeekend => PowerAction::AlarmAt(next_weekend_spec(now)),
        _ => PowerAction::SleepFor(sleep_secs_spec(now)),
    }
}

/// The readings of the clock on which the schedule can go on: after waking up
/// it must be a weekday, and on a weekday the coming Saturday must be given.
pub open spec fn clock_ok(phase: PowerPhase, now: DateTime) -> bool {
    &&& phase == PowerPhase::Asleep ==> now.day_of_week.is_weekday_spec()
    &&& now.day_of_week.is_weekday_spec() ==> has_next_weekend_spec(now)
}

/// Whatever the phase, a sleep begun at midnight on a weekend day ends on
/// Monday at 06:00, and an alarm is set for 00:00 on the Saturday that falls
/// `6 - w` days after the weekday reading, on the calendar.
pub proof fn lemma_power_decisions(phase: PowerPhase, now: DateTime)
    requires
        clock_ok(phase, now),
    ensures
        !now.day_of_week.is_weekday_spec() && now.hour == 0 && now.minute == 0 && now.second
            == 0 ==> (next_action(phase, now) matches PowerAction::SleepFor(s) ==> (week_secs(now) + s) % (7
            * 86400int) == 86400 + 6 * 3600),
        next_action(phase, now) matches PowerAction::AlarmAt(t) ==> {
            &&& now.day_of_week.is_weekday_spec()
            &&& t.day_of_week == DayOfWeek::Saturday
            &&& t.hour == 0 && t.minute == 0 && t.second == 0
            &&& is_valid_date_spec(t)
            &&& civil_day(date_of(t)) == civil_day(date_of(now)) + days_to_saturday(now)
        },
{
    if now.day_of_week.is_weekday_spec() {
        lemma_next_weekend_is_saturday(now);
        lemma_next_weekend_on_the_calendar(now);
    }
    if !now.day_of_week.is_weekday_spec() && now.hour == 0 && now.minute == 0 && now.second == 0 {
        lemma_weekend_sleep_ends_monday_morning(now);
    }
}

impl PowerManager {
    pub fn new() -> (m: Self)
        ensures
            m.phase == PowerPhase::Starting,
    {
        PowerManager { phase: PowerPhase::Starting }
    }

    /// The clock has just been read (after syncing it, at boot and on waking
    /// up; after the alarm otherwise). If we start on a weekday, wait until
    /// the weekend to start sleeping, else start immediately.
    pub fn on_clock(&mut self, now: DateTime) -> (action: PowerAction)
        requires
            clock_ok(old(self).phase, now),
        ensures
            final(self).phase == next_phase(old(self).phase, now),
            action == next_action(old(self).phase, now),
            !now.day_of_week.is_weekday_spec() && now.hour == 0 && now.minute == 0 && now.second
                == 0 ==> (action matches PowerAction::SleepFor(s) ==> (week_secs(now) + s) % (7
                * 86400int) == 86400 + 6 * 3600),
            action matches PowerAction::AlarmAt(t) ==> {
                &&& t.day_of_week == DayOfWeek::Saturday
                &&& t.hour == 0 && t.minute == 0 && t.second == 0
                &&& is_valid_date_spec(t)
                &&& civil_day(date_of(t)) == civil_day(date_of(now)) + days_to_saturday(now)
            },
    {
        proof {
            lemma_power_decisions(old(self).phase, now);
        }
        match self.phase {
            PowerPhase::Starting => {
                if now.day_of_week.is_weekday() {
                    self.phase = PowerPhase::AwaitingWeekend;
                    PowerAction::AlarmAt(next_weekend(now))
                } else {
                    self.phase = PowerPhase::Asleep;
                    PowerAction::SleepFor(sleep_secs(&now))
                }
            },
            PowerPhase::AwaitingWeekend => {
                self.phase = PowerPhase::Asleep;
                PowerAction::SleepFor(sleep_secs(&now))
            },
            PowerPhase::Asleep => {
                // it should now be monday 6:00, wait until saturday 00:00
                self.phase = PowerPhase::AwaitingWeekend;
                PowerAction::AlarmAt(next_weekend(now))
            },
        }
    }
}

/// The schedule alternates: every alarm for the weekend is followed by a
/// sleep, and every sleep by an alarm for the weekend.
pub proof fn lemma_power_alternates(phase: PowerPhase, now: DateTime, later: DateTime)
    requires
        phase != PowerPhase::Starting,
    ensures
        next_action(phase, now) is AlarmAt <==> next_action(next_phase(phase, now), later) is SleepFor,
        next_phase(next_phase(phase, now), later) == phase,
{
}

} // verus!
