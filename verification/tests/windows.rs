use zincati::weekly::window::{build_intervals, is_within, RawWindowSpec};
use zincati::weekly::{NormalizedInterval, WeeklyError};

fn declared(days: &[&str], start_time: &str, length_minutes: u32) -> RawWindowSpec {
    RawWindowSpec {
        days: days.iter().map(|day| day.to_string()).collect(),
        start_time: start_time.to_string(),
        length_minutes,
    }
}

#[test]
fn window_within_the_week() {
    let monday_morning = vec![NormalizedInterval {
        start: 600,
        length_minutes: 60,
    }];
    assert!(is_within(630, &monday_morning));
    assert!(is_within(600, &monday_morning));
    assert!(is_within(659, &monday_morning));
    assert!(!is_within(599, &monday_morning));
    assert!(!is_within(660, &monday_morning));
    assert!(!is_within(0, &monday_morning));
    assert!(!is_within(10079, &monday_morning));
    assert!(monday_morning[0].is_open_at(630));
    assert!(!monday_morning[0].is_open_at(660));
}

#[test]
fn window_past_the_end_of_the_week() {
    let sunday_night = vec![NormalizedInterval {
        start: 10070,
        length_minutes: 30,
    }];
    assert!(is_within(10079, &sunday_night));
    assert!(is_within(10070, &sunday_night));
    assert!(is_within(10, &sunday_night));
    assert!(is_within(0, &sunday_night));
    assert!(is_within(19, &sunday_night));
    assert!(!is_within(20, &sunday_night));
    assert!(!is_within(10069, &sunday_night));
    assert!(!is_within(40, &sunday_night));
}

#[test]
fn window_that_ends_with_the_week() {
    let last_hour = vec![NormalizedInterval {
        start: 10020,
        length_minutes: 60,
    }];
    assert!(is_within(10020, &last_hour));
    assert!(is_within(10079, &last_hour));
    assert!(!is_within(0, &last_hour));
    assert!(!is_within(10019, &last_hour));
}

#[test]
fn window_of_a_whole_week_is_always_open() {
    let always = vec![NormalizedInterval {
        start: 5,
        length_minutes: 10080,
    }];
    for now in [0, 4, 5, 6, 5000, 10079] {
        assert!(is_within(now, &always));
    }
}

#[test]
fn no_window_is_never_open() {
    let none: Vec<NormalizedInterval> = Vec::new();
    for now in [0, 1, 630, 10079] {
        assert!(!is_within(now, &none));
    }
}

#[test]
fn any_window_may_be_the_open_one() {
    let windows = vec![
        NormalizedInterval {
            start: 600,
            length_minutes: 60,
        },
        NormalizedInterval {
            start: 10070,
            length_minutes: 30,
        },
        NormalizedInterval {
            start: 3000,
            length_minutes: 1,
        },
    ];
    assert!(is_within(630, &windows));
    assert!(is_within(5, &windows));
    assert!(is_within(3000, &windows));
    assert!(!is_within(3001, &windows));
    assert!(!is_within(2999, &windows));
}

#[test]
fn window_is_open_at_the_wrapped_minutes_after_its_start() {
    for (start, length_minutes) in [(600u32, 60u32), (10070, 30), (0, 1), (10079, 10080), (5, 10080)] {
        let interval = NormalizedInterval {
            start,
            length_minutes,
        };
        for now in 0..10080u32 {
            let reached = (0..length_minutes).any(|d| (start + d) % 10080 == now);
            assert_eq!(interval.is_open_at(now), reached);
        }
    }
}

#[test]
fn malformed_windows_are_never_open() {
    let malformed = vec![
        NormalizedInterval {
            start: 600,
            length_minutes: 0,
        },
        NormalizedInterval {
            start: 0,
            length_minutes: 20000,
        },
        NormalizedInterval {
            start: 600,
            length_minutes: 10081,
        },
        NormalizedInterval {
            start: 10080,
            length_minutes: 60,
        },
        NormalizedInterval {
            start: u32::MAX,
            length_minutes: u32::MAX,
        },
    ];
    for interval in malformed.iter() {
        for now in [0, 1, 599, 600, 601, 5000, 10079, 10080, u32::MAX - 1, u32::MAX] {
            assert!(!interval.is_open_at(now));
        }
    }
    for now in 0..10080u32 {
        assert!(!is_within(now, &malformed));
    }
}

#[test]
fn malformed_windows_do_not_hide_the_valid_ones() {
    let windows = vec![
        NormalizedInterval {
            start: 0,
            length_minutes: 20000,
        },
        NormalizedInterval {
            start: 600,
            length_minutes: 60,
        },
    ];
    assert!(is_within(630, &windows));
    assert!(!is_within(700, &windows));
}

#[test]
fn declaration_for_three_days_gives_three_intervals() {
    let specs = vec![declared(&["Mon", "wednesday", "SAT"], "02:00", 180)];
    let intervals = build_intervals(&specs).unwrap();
    assert_eq!(
        intervals,
        vec![
            NormalizedInterval {
                start: 120,
                length_minutes: 180
            },
            NormalizedInterval {
                start: 2 * 1440 + 120,
                length_minutes: 180
            },
            NormalizedInterval {
                start: 5 * 1440 + 120,
                length_minutes: 180
            },
        ]
    );
}

#[test]
fn declarations_are_expanded_in_order() {
    let specs = vec![
        declared(&["sun"], "23:50", 30),
        declared(&[], "10:00", 60),
        declared(&["tue", "mon", "tue"], "10:00", 60),
    ];
    let intervals = build_intervals(&specs).unwrap();
    assert_eq!(
        intervals,
        vec![
            NormalizedInterval {
                start: 10070,
                length_minutes: 30
            },
            NormalizedInterval {
                start: 1440 + 600,
                length_minutes: 60
            },
            NormalizedInterval {
                start: 600,
                length_minutes: 60
            },
            NormalizedInterval {
                start: 1440 + 600,
                length_minutes: 60
            },
        ]
    );
    assert!(is_within(10, &intervals));
    assert!(is_within(630, &intervals));
    assert!(!is_within(700, &intervals));
}

#[test]
fn no_declaration_gives_no_interval() {
    assert_eq!(build_intervals(&Vec::new()), Ok(Vec::new()));
}

#[test]
fn longest_and_shortest_lengths_are_accepted() {
    let specs = vec![declared(&["fri"], "0:00", 1), declared(&["fri"], "23:59", 10080)];
    let intervals = build_intervals(&specs).unwrap();
    assert_eq!(
        intervals,
        vec![
            NormalizedInterval {
                start: 4 * 1440,
                length_minutes: 1
            },
            NormalizedInterval {
                start: 4 * 1440 + 1439,
                length_minutes: 10080
            },
        ]
    );
}

#[test]
fn bad_declarations_fail_the_whole_list() {
    let good = declared(&["mon"], "10:00", 60);
    assert_eq!(
        build_intervals(&vec![good.clone(), declared(&["mon"], "25:00", 60)]),
        Err(WeeklyError::InvalidTimeFormat("25:00".to_string()))
    );
    assert_eq!(
        build_intervals(&vec![good.clone(), declared(&["mon"], "10:00", 0)]),
        Err(WeeklyError::ZeroLength)
    );
    assert_eq!(
        build_intervals(&vec![declared(&["mon"], "10:00", 10081), good.clone()]),
        Err(WeeklyError::TooLong)
    );
    assert_eq!(
        build_intervals(&vec![good.clone(), declared(&["mon", "lunedi", "martedi"], "10:00", 60)]),
        Err(WeeklyError::UnrecognizedWeekday("lunedi".to_string()))
    );
}

#[test]
fn start_time_is_checked_before_length_and_length_before_days() {
    assert_eq!(
        build_intervals(&vec![declared(&["lunedi"], "10h", 0)]),
        Err(WeeklyError::InvalidTimeFormat("10h".to_string()))
    );
    assert_eq!(
        build_intervals(&vec![declared(&["lunedi"], "10:00", 0)]),
        Err(WeeklyError::ZeroLength)
    );
    assert_eq!(
        build_intervals(&vec![declared(&[], "10:00", 20000)]),
        Err(WeeklyError::TooLong)
    );
    assert_eq!(
        build_intervals(&vec![
            declared(&["lunedi"], "10:00", 60),
            declared(&["mon"], "nope", 60)
        ]),
        Err(WeeklyError::UnrecognizedWeekday("lunedi".to_string()))
    );
}
