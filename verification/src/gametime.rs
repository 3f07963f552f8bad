//! The simulated clock: days, hours and minutes, and spans between two
//! readings of it.

use vstd::prelude::*;

verus! {

/// The largest day count of a well-formed clock reading.
pub const MAX_DAYS: usize = 1_000_000;

/// The largest hour count of a well-formed clock reading. A clock that was
/// started late may show more than 23 hours until the day first rolls over.
pub const MAX_HOURS: usize = 1_000_000;

/// Thousandths of a minute in one minute.
pub const MINUTE_UNIT: u64 = 1000;

/// A length of simulated time, in minutes. It may be negative.
#[derive(Clone, Copy, Debug, PartialEq, Eq, Structural)]
pub struct TimeSpan {
    pub minutes: isize,
}

impl TimeSpan {
    pub fn new(minutes: isize) -> (r: TimeSpan)
        ensures
            r.minutes == minutes,
    {
        TimeSpan { minutes }
    }

    pub fn new_zero() -> (r: TimeSpan)
        ensures
            r.minutes == 0,
    {
        TimeSpan { minutes: 0 }
    }

    /// A span of `hours` hours.
    pub fn new_hours(hours: isize) -> (r: TimeSpan)
        requires
            isize::MIN <= hours * 60 <= isize::MAX,
        ensures
            r.minutes == hours * 60,
    {
        TimeSpan { minutes: hours * 60 }
    }

    /// A span of `days` days.
    pub fn new_days(days: isize) -> (r: TimeSpan)
        requires
            isize::MIN <= days * 24 * 60 <= isize::MAX,
        ensures
            r.minutes == days * 24 * 60,
    {
        assert(isize::MIN <= days * 24 <= isize::MAX);
        let hours: isize = days * 24;
        TimeSpan { minutes: hours * 60 }
    }

    /// Whether this span lasts at least as long as `other`.
    pub fn at_least(&self, other: &TimeSpan) -> (r: bool)
        ensures
            r == (self.minutes >= other.minutes),
    {
        self.minutes >= other.minutes
    }

    /// The two spans one after the other; `None` where the sum does not fit.
    pub fn plus(&self, other: TimeSpan) -> (r: Option<TimeSpan>)
        ensures
            r is Some <==> isize::MIN <= self.minutes + other.minutes <= isize::MAX,
            r matches Some(sum) ==> sum.minutes == self.minutes + other.minutes,
    {
        match self.minutes.checked_add(other.minutes) {
            Some(minutes) => Some(TimeSpan { minutes }),
            None => None,
        }
    }

    /// This span shortened by `other`; `None` where the difference does not
    /// fit.
    pub fn minus(&self, other: TimeSpan) -> (r: Option<TimeSpan>)
        ensures
            r is Some <==> isize::MIN <= self.minutes - other.minutes <= isize::MAX,
            r matches Some(rest) ==> rest.minutes == self.minutes - other.minutes,
    {
        match self.minutes.checked_sub(other.minutes) {
            Some(minutes) => Some(TimeSpan { minutes }),
            None => None,
        }
    }
}

/// A reading of the simulated clock.
///
/// `fraction` counts thousandths of the minute that has begun; `speed` is the
/// number of simulated minutes that pass in one real second.
#[derive(Clone, Copy, Debug, PartialEq, Eq, Structural)]
pub struct Time {
    pub days: usize,
    pub hours: usize,
    pub minutes: usize,
    pub fraction: u64,
    pub speed: u32,
}

/// Splits a number of minutes into whole hours and the minutes left over.
pub fn mins_to_h_and_mins(mins: usize) -> (r: (usize, usize))
    ensures
        r.0 == mins / 60,
        r.1 == mins % 60,
{
    (mins / 60, mins % 60)
}

impl Time {
    /// A reading is well formed when its minute count is below 60 and its
    /// hours and days are small enough for every total to fit.
    pub open spec fn wf(&self) -> bool {
        self.minutes < 60 && self.hours <= MAX_HOURS && self.days <= MAX_DAYS
    }

    /// Minutes since the clock's zero.
    pub open spec fn minutes_since_zero(&self) -> int {
        self.days * 24 * 60 + self.hours * 60 + self.minutes
    }

    /// The reading `start_minutes` after zero, on day 0, running at ten
    /// simulated minutes per second.
    pub fn new(start_minutes: usize) -> (r: Time)
        requires
            start_minutes / 60 <= MAX_HOURS,
        ensures
            r.wf(),
            r.days == 0,
            r.hours == start_minutes / 60,
            r.minutes == start_minutes % 60,
            r.fraction == 0,
            r.speed == 10,
            r.minutes_since_zero() == start_minutes,
    {
        let (hrs, mins) = mins_to_h_and_mins(start_minutes);
        Time { days: 0, hours: hrs, minutes: mins, fraction: 0, speed: 10 }
    }

    pub fn new_zero() -> (r: Time)
        ensures
            r.wf(),
            r == (Time { days: 0, hours: 0, minutes: 0, fraction: 0, speed: 10 }),
    {
        Time::new(0)
    }

    /// The time that passes from this reading to `other`; negative where
    /// `other` is the earlier one.
    pub fn elapsed(&self, other: &Time) -> (r: TimeSpan)
        requires
            self.wf(),
            other.wf(),
        ensures
            r.minutes == other.minutes_since_zero() - self.minutes_since_zero(),
    {
        let total_minutes_self: isize = self.total_minutes() as isize;
        let total_minutes_other: isize = other.total_minutes() as isize;
        TimeSpan::new(total_minutes_other - total_minutes_self)
    }

    /// This reading with the begun minute forgotten, as a value.
    pub open spec fn snapshot_value(&self) -> Time {
        Time { fraction: 0, ..*self }
    }

    /// The same reading with the begun minute forgotten.
    pub fn snapshot(&self) -> (r: Time)
        ensures
            r == self.snapshot_value(),
    {
        Time {
            days: self.days,
            hours: self.hours,
            minutes: self.minutes,
            fraction: 0,
            speed: self.speed,
        }
    }

    pub fn total_minutes(&self) -> (r: usize)
        requires
            self.wf(),
        ensures
            r == self.minutes_since_zero(),
            r <= i32::MAX,
    {
        let total_days_minutes: usize = self.days * 24 * 60;
        let total_hours_minutes: usize = self.hours * 60;
        total_days_minutes + total_hours_minutes + self.minutes
    }

    pub fn total_hours(&self) -> (r: usize)
        requires
            self.wf(),
        ensures
            r == self.days * 24 + self.hours,
    {
        let total_days_hours: usize = self.days * 24;
        total_days_hours + self.hours
    }

    pub fn total_days(&self) -> (r: usize)
        ensures
            r == self.days,
    {
        self.days
    }

    /// The reading that lies `time_span` after zero, with hours below 24,
    /// running at one simulated minute per second. `None` for a negative span
    /// or one of more than `MAX_DAYS` days.
    pub fn from_time_span(time_span: TimeSpan) -> (r: Option<Time>)
        ensures
            r is Some <==> 0 <= time_span.minutes && time_span.minutes as int / 1440 <= MAX_DAYS,
            r matches Some(t) ==> {
                &&& t.wf()
                &&& t.hours < 24
                &&& t.minutes_since_zero() == time_span.minutes
                &&& t.fraction == 0
                &&& t.speed == 1
            },
    {
        if time_span.minutes < 0 {
            return None;
        }
        let all: usize = time_span.minutes as usize;
        let days: usize = all / (24 * 60);
        if days > MAX_DAYS {
            return None;
        }
        let remaining_minutes: usize = all % (24 * 60);
        let hours: usize = remaining_minutes / 60;
        let minutes: usize = remaining_minutes % 60;
        Some(Time { days, hours, minutes, fraction: 0, speed: 1 })
    }

    /// The reading after `dt` more milliseconds of real time, as a value.
    ///
    /// The begun minute grows by `dt * speed` thousandths; once it holds a
    /// whole minute, one minute is carried over, and from there hours and
    /// days. At most one minute is carried per tick.
    pub open spec fn ticked(self, dt: u32) -> Time {
        let grown = self.fraction + dt * self.speed;
        if grown < MINUTE_UNIT {
            Time { fraction: grown as u64, ..self }
        } else {
            let fraction = (grown - MINUTE_UNIT) as u64;
            if self.minutes + 1 < 60 {
                Time { fraction, minutes: (self.minutes + 1) as usize, ..self }
            } else if self.hours + 1 < 24 {
                Time { fraction, minutes: 0, hours: (self.hours + 1) as usize, ..self }
            } else {
                Time {
                    fraction,
                    minutes: 0,
                    hours: (self.hours + 1 - 24) as usize,
                    days: (self.days + 1) as usize,
                    speed: self.speed,
                }
            }
        }
    }

    /// Lets `dt` milliseconds of real time pass.
    pub fn tick(&mut self, dt: u32)
        requires
            old(self).wf(),
            old(self).days < MAX_DAYS,
            old(self).fraction + dt * old(self).speed <= u64::MAX,
        ensures
            *final(self) == old(self).ticked(dt),
            final(self).wf(),
    {
        assert(dt * self.speed <= 0xffff_ffff * 0xffff_ffff) by (nonlinear_arith)
            requires
                0 <= dt <= 0xffff_ffff,
                0 <= self.speed <= 0xffff_ffff,
        ;
        let grown: u64 = self.fraction + (dt as u64) * (self.speed as u64);
        if grown < MINUTE_UNIT {
            self.fraction = grown;
        } else {
            self.fraction = grown - MINUTE_UNIT;
            self.minutes += 1;
            if self.minutes >= 60 {
                self.minutes -= 60;
                self.hours += 1;
                if self.hours >= 24 {
                    self.hours -= 24;
                    self.days += 1;
                }
            }
        }
    }
}

} // verus!
