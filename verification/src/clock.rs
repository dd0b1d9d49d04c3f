use vstd::prelude::*;

use crate::model::Season;

verus! {

/// The simulation calendar, counted in minutes since the start of day 1.
#[derive(Debug, Clone, Copy, PartialEq, Eq, Structural)]
pub struct SimClock {
    pub minute: u64,
    pub paused: bool,
    pub speed: u8,
}

/// Minutes in one day.
pub const MINUTES_PER_DAY: u64 = 1440;

/// Days in one season.
pub const DAYS_PER_SEASON: u64 = 28;

/// Seasons in one year.
pub const SEASONS_PER_YEAR: u64 = 4;

/// One-based day number of a minute.
pub open spec fn day_of(minute: u64) -> int {
    minute as int / 1440 + 1
}

/// Zero-based index of the season (0 = spring .. 3 = winter) of a minute.
pub open spec fn season_index_of(minute: u64) -> int {
    ((day_of(minute) - 1) / 28) % 4
}

pub open spec fn season_of(minute: u64) -> Season {
    let index = season_index_of(minute);
    if index == 0 {
        Season::Spring
    } else if index == 1 {
        Season::Summer
    } else if index == 2 {
        Season::Autumn
    } else {
        Season::Winter
    }
}

/// One-based day within the current season.
pub open spec fn day_of_season_of(minute: u64) -> int {
    (day_of(minute) - 1) % 28 + 1
}

/// One-based year number.
pub open spec fn year_of(minute: u64) -> int {
    (day_of(minute) - 1) / 112 + 1
}

impl Default for SimClock {
    /// The clock a new farm starts with.
    fn default() -> (r: Self)
        ensures
            r.minute == 480,
            !r.paused,
            r.speed == 1,
    {
        SimClock::starting()
    }
}

impl SimClock {
    pub const MINUTES_PER_DAY: u64 = 1440;

    pub const DAYS_PER_SEASON: u64 = 28;

    pub const SEASONS_PER_YEAR: u64 = 4;

    /// The clock a new farm starts with: day 1, 08:00, running at 1x.
    pub fn starting() -> (r: Self)
        ensures
            r.minute == 480,
            !r.paused,
            r.speed == 1,
    {
        SimClock { minute: 8 * 60, paused: false, speed: 1 }
    }

    pub fn day(self) -> (r: u64)
        ensures
            r == day_of(self.minute),
    {
        self.minute / MINUTES_PER_DAY + 1
    }

    pub fn hour(self) -> (r: u64)
        ensures
            r == (self.minute % 1440) / 60,
            r < 24,
    {
        (self.minute % MINUTES_PER_DAY) / 60
    }

    pub fn minute_of_hour(self) -> (r: u64)
        ensures
            r == self.minute % 60,
    {
        self.minute % 60
    }

    pub fn season(self) -> (r: Season)
        ensures
            r == season_of(self.minute),
    {
        let index = ((self.day() - 1) / DAYS_PER_SEASON) % SEASONS_PER_YEAR;
        if index == 0 {
            Season::Spring
        } else if index == 1 {
            Season::Summer
        } else if index == 2 {
            Season::Autumn
        } else {
            Season::Winter
        }
    }

    pub fn day_of_season(self) -> (r: u64)
        ensures
            r == day_of_season_of(self.minute),
            1 <= r <= 28,
    {
        (self.day() - 1) % DAYS_PER_SEASON + 1
    }

    pub fn year(self) -> (r: u64)
        ensures
            r == year_of(self.minute),
            r >= 1,
    {
        (self.day() - 1) / (DAYS_PER_SEASON * SEASONS_PER_YEAR) + 1
    }
}

/// Advancing the clock by one full season moves to the next season of the cycle,
/// keeps the day within the season, and after four seasons the year advances.
pub proof fn season_cycle(minute: u64)
    requires
        minute as int + 4 * 28 * 1440 <= u64::MAX,
    ensures
        season_index_of((minute + 28 * 1440) as u64) == (season_index_of(minute) + 1) % 4,
        day_of_season_of((minute + 28 * 1440) as u64) == day_of_season_of(minute),
        year_of((minute + 4 * 28 * 1440) as u64) == year_of(minute) + 1,
        season_of((minute + 4 * 28 * 1440) as u64) == season_of(minute),
{
    let d = minute as int / 1440;
    assert((minute + 28 * 1440) as int / 1440 == d + 28) by (nonlinear_arith)
        requires d == minute as int / 1440, minute >= 0;
    assert((minute + 4 * 28 * 1440) as int / 1440 == d + 112) by (nonlinear_arith)
        requires d == minute as int / 1440, minute >= 0;
    assert((d + 28) / 28 == d / 28 + 1) by (nonlinear_arith) requires d >= 0;
    assert((d + 28) % 28 == d % 28) by (nonlinear_arith) requires d >= 0;
    assert((d + 112) / 112 == d / 112 + 1) by (nonlinear_arith) requires d >= 0;
    assert((d + 112) / 28 == d / 28 + 4) by (nonlinear_arith) requires d >= 0;
    assert((d / 28 + 4) % 4 == (d / 28) % 4) by (nonlinear_arith) requires d >= 0;
    assert((d / 28 + 1) % 4 == ((d / 28) % 4 + 1) % 4) by (nonlinear_arith) requires d >= 0;
}

} // verus!
