use grid_agents::gametime::{mins_to_h_and_mins, Time, TimeSpan, MAX_DAYS};

#[test]
fn spans() {
    assert_eq!(TimeSpan::new(-7).minutes, -7);
    assert_eq!(TimeSpan::new_zero().minutes, 0);
    assert_eq!(TimeSpan::new_hours(3).minutes, 180);
    assert_eq!(TimeSpan::new_hours(-1).minutes, -60);
    assert_eq!(TimeSpan::new_days(2).minutes, 2880);
    assert_eq!(TimeSpan::new(5), TimeSpan { minutes: 5 });
    assert!(TimeSpan::new(5).at_least(&TimeSpan::new(5)));
    assert!(TimeSpan::new(6).at_least(&TimeSpan::new(5)));
    assert!(!TimeSpan::new(4).at_least(&TimeSpan::new(5)));
    assert_eq!(TimeSpan::new(4).plus(TimeSpan::new(5)), Some(TimeSpan::new(9)));
    assert_eq!(TimeSpan::new(4).minus(TimeSpan::new(5)), Some(TimeSpan::new(-1)));
    assert_eq!(TimeSpan::new(isize::MAX).plus(TimeSpan::new(1)), None);
    assert_eq!(TimeSpan::new(isize::MIN).minus(TimeSpan::new(1)), None);
}

#[test]
fn a_clock_starts_at_the_given_minute() {
    assert_eq!(mins_to_h_and_mins(125), (2, 5));
    assert_eq!(mins_to_h_and_mins(59), (0, 59));
    let time = Time::new(16 * 60 + 7);
    assert_eq!(time, Time { days: 0, hours: 16, minutes: 7, fraction: 0, speed: 10 });
    assert_eq!(time.total_minutes(), 967);
    assert_eq!(time.total_hours(), 16);
    assert_eq!(time.total_days(), 0);
    assert_eq!(Time::new_zero().total_minutes(), 0);
    assert_eq!(Time::new(3000).hours, 50);
}

#[test]
fn elapsed_time_is_signed() {
    let early = Time { days: 1, hours: 23, minutes: 58, fraction: 999, speed: 10 };
    let late = Time { days: 2, hours: 0, minutes: 3, fraction: 0, speed: 1 };
    assert_eq!(early.elapsed(&late), TimeSpan::new(5));
    assert_eq!(late.elapsed(&early), TimeSpan::new(-5));
    assert_eq!(early.elapsed(&early), TimeSpan::new(0));
    assert_eq!(early.total_minutes(), 1440 + 23 * 60 + 58);
    assert_eq!(early.total_hours(), 47);
    assert_eq!(early.total_days(), 1);
    assert_eq!(early.snapshot(), Time { days: 1, hours: 23, minutes: 58, fraction: 0, speed: 10 });
}

#[test]
fn a_clock_from_a_span() {
    assert_eq!(
        Time::from_time_span(TimeSpan::new(2 * 1440 + 5 * 60 + 42)),
        Some(Time { days: 2, hours: 5, minutes: 42, fraction: 0, speed: 1 })
    );
    assert_eq!(Time::from_time_span(TimeSpan::new(0)), Some(Time { days: 0, hours: 0, minutes: 0, fraction: 0, speed: 1 }));
    assert_eq!(Time::from_time_span(TimeSpan::new(-1)), None);
    assert!(Time::from_time_span(TimeSpan::new((MAX_DAYS as isize) * 1440 + 1439)).is_some());
    assert_eq!(Time::from_time_span(TimeSpan::new((MAX_DAYS as isize + 1) * 1440)), None);
}

#[test]
fn ticks_carry_minutes_hours_and_days() {
    let mut time = Time { days: 0, hours: 23, minutes: 58, fraction: 0, speed: 10 };
    time.tick(50);
    assert_eq!(time, Time { days: 0, hours: 23, minutes: 58, fraction: 500, speed: 10 });
    time.tick(49);
    assert_eq!(time.fraction, 990);
    assert_eq!(time.minutes, 58);
    time.tick(1);
    assert_eq!(time, Time { days: 0, hours: 23, minutes: 59, fraction: 0, speed: 10 });
    time.tick(130);
    assert_eq!(time, Time { days: 1, hours: 0, minutes: 0, fraction: 300, speed: 10 });
    time.tick(0);
    assert_eq!(time.fraction, 300);
    time.tick(400);
    assert_eq!(time, Time { days: 1, hours: 0, minutes: 1, fraction: 3300, speed: 10 });
    time.tick(0);
    assert_eq!(time, Time { days: 1, hours: 0, minutes: 2, fraction: 2300, speed: 10 });
}

#[test]
fn a_late_start_rolls_over_once() {
    let mut time = Time::new(30 * 60 + 59);
    time.tick(100);
    assert_eq!(time, Time { days: 1, hours: 7, minutes: 0, fraction: 0, speed: 10 });
}
