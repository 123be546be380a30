//! The daily meme counter and its reset at the start of each Moscow day.
use vstd::prelude::*;
use chrono::TimeZone;

verus! {

/// The instant (Unix seconds) at which the Moscow calendar day that holds the instant `ts`
/// (Unix seconds) begins, where chrono and chrono-tz can tell it.
pub uninterp spec fn moscow_day_start(ts: i64) -> Option<i64>;

/// The instants (Unix seconds) for which the start of their Moscow day is computed without
/// a panic. chrono's `naive_local` panics where the instant plus the Moscow offset passes
/// its largest date and time, +262142-12-31 23:59:59 (Unix 8_210_266_876_799); chrono-tz
/// puts Moscow at three hours ahead of UTC from 2014 on, and at no negative offset ever, so
/// that happens exactly for the instants of the last three hours up to that one. Later
/// instants lie outside chrono's range and give no day start; earlier ones are fine.
pub open spec fn day_start_in_range(ts: i64) -> bool {
    ts <= 8_210_266_865_999 || ts > 8_210_266_876_799
}

/// Calls chrono and chrono-tz: takes the instant `ts` into Moscow time
/// (`Utc::timestamp_opt`, `DateTime::with_timezone`), takes its date at 00:00:00
/// (`NaiveDateTime::new`) and maps that local time back to an instant with
/// `Europe::Moscow.from_local_datetime`. The contract claims only that the result is
/// `moscow_day_start(ts)`; `None` stands where chrono finds no single instant
/// (an instant out of its range, or a local time in a gap or a fold).
#[verifier::external_body]
fn moscow_midnight(ts: i64) -> (r: Option<i64>)
    requires
        day_start_in_range(ts),
    ensures
        r == moscow_day_start(ts),
{
    let now = match chrono::Utc.timestamp_opt(ts, 0).single() {
        Some(t) => t.with_timezone(&chrono_tz::Europe::Moscow),
        None => return None,
    };
    let naive = chrono::NaiveDateTime::new(now.date_naive(), chrono::NaiveTime::MIN);
    match chrono_tz::Europe::Moscow.from_local_datetime(&naive).single() {
        Some(d) => Some(d.timestamp()),
        None => None,
    }
}

/// Seconds in a day.
pub const SECS_PER_DAY: i64 = 86400;

/// Whole days from `last` to `now`, rounded toward zero, as chrono's `num_days` counts them.
pub open spec fn days_between(last: i64, now: i64) -> int {
    let d = now - last;
    if d >= 0 { d / 86400 } else { -((-d) / 86400) }
}

/// The counter of memes that the target sent today, and the instant (Unix seconds) at
/// which it was last reset.
#[derive(Clone, Copy, Debug, PartialEq, Eq, Structural)]
pub struct MemeCounter {
    count: usize,
    last_refresh: i64,
}

pub ghost struct MemeCounterView {
    pub count: usize,
    pub last_refresh: i64,
}

impl View for MemeCounter {
    type V = MemeCounterView;

    closed spec fn view(&self) -> MemeCounterView {
        MemeCounterView { count: self.count, last_refresh: self.last_refresh }
    }
}

/// What a refresh of the counter did.
#[derive(Clone, Copy, Debug, PartialEq, Eq, Structural)]
pub enum RefreshOutcome {
    /// Less than a day passed since the last reset; nothing changed.
    NotDue,
    /// A day or more passed: the counter is zero and was reset at the start of today.
    Reset,
    /// A day or more passed, but the start of today has no single instant in Moscow time;
    /// nothing changed.
    NoDayStart,
    /// A day or more passed, but the current instant lies in the last three hours of
    /// chrono's range, where taking it into Moscow time passes chrono's largest date;
    /// nothing changed.
    OutOfRange,
}

impl MemeCounter {
    /// A counter at zero, last reset at `last_refresh`.
    pub fn new(last_refresh: i64) -> (c: MemeCounter)
        ensures
            c@.count == 0,
            c@.last_refresh == last_refresh,
    {
        MemeCounter { count: 0, last_refresh }
    }

    pub fn count(&self) -> (n: usize)
        ensures
            n == self@.count,
    {
        self.count
    }

    pub fn last_refresh(&self) -> (t: i64)
        ensures
            t == self@.last_refresh,
    {
        self.last_refresh
    }

    /// Sets the counter to `count`.
    pub fn set_count(&mut self, count: usize)
        ensures
            final(self)@.count == count,
            final(self)@.last_refresh == old(self)@.last_refresh,
    {
        self.count = count;
    }

    /// Whether a day or more passed between the last reset and `now`.
    pub fn refresh_due(&self, now: i64) -> (due: bool)
        ensures
            due == (days_between(self@.last_refresh, now) > 0),
    {
        let d: i128 = now as i128 - self.last_refresh as i128;
        let day = SECS_PER_DAY as i128;
        let days: i128 = if d >= 0 { d / day } else { -((-d) / day) };
        days > 0
    }

    /// Resets the counter to zero, with `day_start` as the new reset instant, when a day
    /// or more passed between the last reset and `now`; returns whether it did.
    pub fn apply_refresh(&mut self, now: i64, day_start: i64) -> (reset: bool)
        ensures
            reset == (days_between(old(self)@.last_refresh, now) > 0),
            reset ==> final(self)@.count == 0 && final(self)@.last_refresh == day_start,
            !reset ==> final(self)@ == old(self)@,
    {
        if self.refresh_due(now) {
            self.count = 0;
            self.last_refresh = day_start;
            true
        } else {
            false
        }
    }
}

/// The counter and the outcome after a refresh at `now`: when a day or more passed since
/// the last reset, the counter goes to zero and the reset instant becomes the start of the
/// current Moscow day, where that is known.
pub open spec fn refresh(c: MemeCounterView, now: i64) -> (MemeCounterView, RefreshOutcome) {
    if days_between(c.last_refresh, now) <= 0 {
        (c, RefreshOutcome::NotDue)
    } else if !day_start_in_range(now) {
        (c, RefreshOutcome::OutOfRange)
    } else {
        match moscow_day_start(now) {
            Some(start) => (MemeCounterView { count: 0, last_refresh: start }, RefreshOutcome::Reset),
            None => (c, RefreshOutcome::NoDayStart),
        }
    }
}

/// Called with the current instant (Unix seconds) before each message is handled: when a
/// day or more passed since the counter's last reset, the counter goes back to zero and
/// the reset instant becomes the start of the current Moscow day, as `refresh` says.
pub fn refresh_meme_counter(counter: &mut MemeCounter, now: i64) -> (outcome: RefreshOutcome)
    ensures
        (final(counter)@, outcome) == refresh(old(counter)@, now),
{
    if !counter.refresh_due(now) {
        return RefreshOutcome::NotDue;
    }
    if 8_210_266_865_999i64 < now && now <= 8_210_266_876_799i64 {
        return RefreshOutcome::OutOfRange;
    }
    match moscow_midnight(now) {
        Some(start) => {
            counter.apply_refresh(now, start);
            RefreshOutcome::Reset
        },
        None => RefreshOutcome::NoDayStart,
    }
}

/// Whether the start of the Moscow day of `now`, where it is known, lies within the day
/// before `now`.
pub open spec fn day_start_within_day(now: i64) -> bool {
    day_start_in_range(now) ==> match moscow_day_start(now) {
        Some(start) => start <= now < start + 86400,
        None => true,
    }
}

/// Refreshing a second time at the same instant leaves the counter as the first refresh
/// left it.
pub proof fn law_refresh_twice_is_refresh_once(c: MemeCounterView, now: i64)
    ensures
        refresh(refresh(c, now).0, now).0 == refresh(c, now).0,
{
}

/// After a reset, a second refresh at the same instant finds nothing due, where the day's
/// start lies within the day before that instant.
pub proof fn law_reset_not_due_again(c: MemeCounterView, now: i64)
    requires
        day_start_within_day(now),
    ensures
        refresh(c, now).1 == RefreshOutcome::Reset ==> refresh(refresh(c, now).0, now).1 == RefreshOutcome::NotDue,
{
}

/// The reset instant never moves backwards and never passes the current instant, and the
/// counter either stays or goes to zero, where the day's start lies within the day before
/// the current instant.
pub proof fn law_reset_instant_moves_forward(c: MemeCounterView, now: i64)
    requires
        c.last_refresh <= now,
        day_start_within_day(now),
    ensures
        c.last_refresh <= refresh(c, now).0.last_refresh <= now,
        refresh(c, now).0.count == c.count || refresh(c, now).0.count == 0,
{
}

/// The refresh is due exactly when a whole day (86400 seconds) or more has passed since the
/// last reset. Before that nothing changes; after it, where the start of the current Moscow
/// day is known, the counter goes to zero and that start becomes the reset instant.
pub proof fn law_refresh_due_after_a_day(c: MemeCounterView, now: i64)
    ensures
        now - c.last_refresh < 86400 ==> refresh(c, now) == (c, RefreshOutcome::NotDue),
        now - c.last_refresh >= 86400 ==> refresh(c, now).1 != RefreshOutcome::NotDue,
        now - c.last_refresh >= 86400 && day_start_in_range(now) && moscow_day_start(now) is Some
            ==> (refresh(c, now) == (
                MemeCounterView { count: 0, last_refresh: moscow_day_start(now)->0 },
                RefreshOutcome::Reset,
            )),
{
}

} // verus!
