use autofarm::clock::SimClock;
use autofarm::model::Season;

#[test]
fn calendar_rolls_through_28_day_seasons() {
    let mut clock = SimClock {
        minute: 0,
        paused: false,
        speed: 1,
    };
    assert_eq!(clock.season(), Season::Spring);
    assert_eq!(clock.day_of_season(), 1);
    clock.minute = SimClock::DAYS_PER_SEASON * SimClock::MINUTES_PER_DAY;
    assert_eq!(clock.season(), Season::Summer);
    assert_eq!(clock.day_of_season(), 1);
    clock.minute =
        SimClock::DAYS_PER_SEASON * SimClock::SEASONS_PER_YEAR * SimClock::MINUTES_PER_DAY;
    assert_eq!(clock.season(), Season::Spring);
    assert_eq!(clock.year(), 2);
}

#[test]
fn new_farm_clock_starts_at_eight_in_the_morning() {
    let clock = SimClock::starting();
    assert_eq!(clock.day(), 1);
    assert_eq!(clock.hour(), 8);
    assert_eq!(clock.minute_of_hour(), 0);
    assert!(!clock.paused);
    assert_eq!(clock.speed, 1);
}

#[test]
fn one_season_later_is_the_same_day_of_the_next_season() {
    let minute = 5 * SimClock::MINUTES_PER_DAY + 300;
    let before = SimClock { minute, paused: false, speed: 1 };
    let after = SimClock { minute: minute + 28 * 1440, paused: false, speed: 1 };
    assert_eq!(before.day_of_season(), 6);
    assert_eq!(after.day_of_season(), 6);
    assert_eq!(after.season(), Season::Summer);
    let winter = SimClock { minute: 3 * 28 * 1440, paused: false, speed: 1 };
    assert_eq!(winter.season(), Season::Winter);
    assert_eq!(winter.year(), 1);
}
