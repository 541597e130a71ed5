use streak_tracker::access::{in_memory, AccessLayer, FETCH_SIZE};
use streak_tracker::streak::StreakData;
use streak_tracker::tz::Timezone;

const DAY_MILLIS: i64 = 86_400_000;

fn create_access() -> AccessLayer {
    in_memory().expect("open in-memory store")
}

fn now_millis() -> i64 {
    chrono::Utc::now().timestamp_millis()
}

fn parse_millis(s: &str) -> i64 {
    chrono::DateTime::parse_from_rfc3339(s)
        .expect("well-formed timestamp")
        .timestamp_millis()
}

#[test]
fn test_streak_no_data() {
    let db = create_access();
    let tz = Timezone::utc();
    let streak = db.current_streak(&tz).expect("fetch current streak");
    assert!(matches!(streak, StreakData::NoData));
    let streak = db.previous_streak(&tz, &streak).expect("fetch previous streak");
    assert!(matches!(streak, StreakData::NoData));
}

#[test]
fn test_streak_few_days_ago() {
    let db = create_access();
    let tz = Timezone::utc();
    let then = now_millis() - 3 * DAY_MILLIS;
    db.record_event_at(then).expect("record event");
    let streak = db.current_streak(&tz).expect("fetch current streak");
    assert!(matches!(streak, StreakData::NoData));

    let previous_streak = db.previous_streak(&tz, &streak).expect("fetch previous streak");

    match previous_streak {
        StreakData::Streak(ref streak) => {
            assert_eq!(streak.count(), 1);
            assert_eq!(streak.days(&tz), 1);
        }
        _ => panic!("expected streak"),
    }

    let previous_streak = db
        .previous_streak(&tz, &previous_streak)
        .expect("fetch previous streak");
    assert!(matches!(previous_streak, StreakData::NoData));
}

#[test]
fn test_streak_one_day() {
    let db = create_access();
    let tz = Timezone::utc();
    db.record_event().expect("record event");

    let streak = db.current_streak(&tz).expect("fetch current streak");

    match streak {
        StreakData::Streak(streak) => {
            assert_eq!(streak.count(), 1);
            assert_eq!(streak.days(&tz), 1);
            let today = chrono::Utc::now().date_naive();
            let start = chrono::DateTime::from_timestamp_millis(streak.start())
                .expect("start in range")
                .date_naive();
            let end = chrono::DateTime::from_timestamp_millis(streak.end())
                .expect("end in range")
                .date_naive();
            assert_eq!(start, today);
            assert_eq!(end, today);
        }
        _ => panic!("expected streak"),
    }
}

#[test]
fn test_streak_three_days() {
    let db = create_access();
    let tz = Timezone::utc();
    let now = now_millis();
    let dates = vec![
        now,
        now - DAY_MILLIS,
        now - 2 * DAY_MILLIS,
        // Gap here, streak ends
        now - 4 * DAY_MILLIS,
        now - 5 * DAY_MILLIS,
    ];
    for date in dates {
        db.record_event_at(date).expect("record event");
    }

    let streak = db.current_streak(&tz).expect("fetch current streak");

    match streak {
        StreakData::Streak(ref streak) => {
            assert_eq!(streak.count(), 3);
            assert_eq!(streak.days(&tz), 3);
            let end_day = chrono::DateTime::from_timestamp_millis(streak.end())
                .expect("end in range")
                .date_naive();
            let start_day = chrono::DateTime::from_timestamp_millis(streak.start())
                .expect("start in range")
                .date_naive();
            let now_day = chrono::DateTime::from_timestamp_millis(now)
                .expect("now in range")
                .date_naive();
            let two_back = chrono::DateTime::from_timestamp_millis(now - 2 * DAY_MILLIS)
                .expect("in range")
                .date_naive();
            assert_eq!(end_day, now_day);
            assert_eq!(start_day, two_back);
        }
        _ => panic!("expected streak"),
    }

    let previous_streak = db.previous_streak(&tz, &streak).expect("fetch previous streak");

    match previous_streak {
        StreakData::Streak(ref streak) => {
            assert_eq!(streak.count(), 2);
            assert_eq!(streak.days(&tz), 2);
        }
        _ => panic!("expected streak"),
    }
}

#[test]
fn gap_in_previous() {
    let db = create_access();
    let tz = Timezone::utc();
    let now = now_millis();
    let times = vec![
        DAY_MILLIS,
        2 * DAY_MILLIS,
        8 * DAY_MILLIS,
        9 * DAY_MILLIS,
        10 * DAY_MILLIS,
        12 * DAY_MILLIS,
    ];
    for time in times {
        db.record_event_at(now - time).expect("record event");
    }

    let streak = db
        .streak_from_time(&tz, now, false)
        .expect("fetch current streak");
    assert!(matches!(streak, StreakData::Streak(_)));

    match db.previous_streak(&tz, &streak).expect("fetch previous streak") {
        StreakData::Streak(ref streak) => {
            assert_eq!(streak.days(&tz), 3);
        }
        StreakData::NoData => panic!("expected streak"),
    }
}

#[test]
fn test_streak_real_data() {
    let db = create_access();
    let times = vec![
        "2024-07-26T23:40:03.405Z",
        "2024-07-25T20:36:21.789Z",
        "2024-07-24T15:03:39.952Z",
        "2024-07-23T15:03:39.952Z",
    ];
    for time in &times {
        db.record_event_at(parse_millis(time)).expect("record event");
    }
    let now = parse_millis("2024-07-26T23:40:04.405Z");
    let pacific = Timezone::from_name("US/Pacific").expect("known zone");

    let streak = db
        .streak_from_time(&pacific, now, false)
        .expect("fetch current streak");
    match streak {
        StreakData::Streak(ref streak) => {
            assert_eq!(streak.count(), times.len());
            assert_eq!(streak.days(&pacific), 4);
        }
        _ => panic!("expected streak"),
    }
}

#[test]
fn test_streak_multiple_queries() {
    let db = create_access();
    let tz = Timezone::utc();
    let now = now_millis();

    for days in 0..FETCH_SIZE + 1 {
        db.record_event_at(now - (days as i64) * DAY_MILLIS)
            .expect("record event");
    }

    let streak = db.current_streak(&tz).expect("fetch current streak");

    match streak {
        StreakData::Streak(streak) => {
            assert_eq!(streak.count(), FETCH_SIZE + 1);
            assert_eq!(streak.days(&tz), (FETCH_SIZE + 1).try_into().unwrap());
        }
        _ => panic!("expected streak"),
    }
}

#[test]
fn test_adjacent_then_gap() {
    // One event, a second exactly one calendar day later, a third three
    // calendar days after that: the current streak holds only the third
    // event; the previous streak holds the first two.
    let db = create_access();
    let tz = Timezone::utc();
    let now = now_millis();
    db.record_event_at(now - 4 * DAY_MILLIS).expect("record event");
    db.record_event_at(now - 3 * DAY_MILLIS).expect("record event");
    db.record_event_at(now).expect("record event");

    let current = db.current_streak(&tz).expect("fetch current streak");
    match current {
        StreakData::Streak(ref streak) => {
            assert_eq!(streak.count(), 1);
            assert_eq!(streak.days(&tz), 1);
        }
        _ => panic!("expected streak"),
    }

    let previous = db.previous_streak(&tz, &current).expect("fetch previous streak");
    match (&current, &previous) {
        (StreakData::Streak(ref cur), StreakData::Streak(ref prev)) => {
            assert_eq!(prev.count(), 2);
            assert_eq!(prev.days(&tz), 2);
            // the reference and the previous streak share no event
            assert!(prev.end() < cur.start());
            assert!(cur.is_valid());
            assert!(prev.is_valid());
        }
        _ => panic!("expected streak"),
    }
}

#[test]
fn test_previous_streak_boundary_tie() {
    // An event whose timestamp equals the reference streak's start is not
    // scanned again: the previous-streak scan reads strictly older events.
    let db = create_access();
    let tz = Timezone::utc();
    let now = now_millis();
    db.record_event_at(now).expect("record event");
    db.record_event_at(now).expect("record duplicate event");
    db.record_event_at(now - 5 * DAY_MILLIS).expect("record event");

    let current = db.current_streak(&tz).expect("fetch current streak");
    match current {
        StreakData::Streak(ref streak) => {
            assert_eq!(streak.count(), 2);
            assert_eq!(streak.start(), now);
        }
        _ => panic!("expected streak"),
    }

    let previous = db.previous_streak(&tz, &current).expect("fetch previous streak");
    match previous {
        StreakData::Streak(ref streak) => {
            assert_eq!(streak.count(), 1);
            assert_eq!(streak.days(&tz), 1);
            assert_eq!(streak.end(), now - 5 * DAY_MILLIS);
        }
        _ => panic!("expected streak"),
    }
}

#[test]
fn test_duplicate_at_page_boundary() {
    // Two events on the very same instant straddling a page boundary: the
    // next page reads strictly below the last accepted instant, so the
    // duplicate is not seen. One event per instant (the realistic shape,
    // and the premise of the page-size-invariance law) is unaffected.
    let db = create_access();
    let tz = Timezone::utc();
    let now = now_millis();
    for i in 0..FETCH_SIZE {
        db.record_event_at(now - i as i64).expect("record event");
    }
    let oldest = now - (FETCH_SIZE as i64 - 1);
    db.record_event_at(oldest).expect("record duplicate event");

    let streak = db.current_streak(&tz).expect("fetch current streak");
    match streak {
        StreakData::Streak(ref streak) => {
            assert_eq!(streak.count(), FETCH_SIZE);
            assert_eq!(streak.days(&tz), 1);
        }
        _ => panic!("expected streak"),
    }
}

#[test]
fn test_current_streak_idempotent() {
    // Two back-to-back queries with no intervening write agree.
    let db = create_access();
    let tz = Timezone::utc();
    let now = now_millis();
    db.record_event_at(now - DAY_MILLIS).expect("record event");
    db.record_event_at(now).expect("record event");

    let first = db.current_streak(&tz).expect("fetch current streak");
    let second = db.current_streak(&tz).expect("fetch current streak");
    match (first, second) {
        (StreakData::Streak(a), StreakData::Streak(b)) => {
            assert_eq!(a.count(), b.count());
            assert_eq!(a.days(&tz), b.days(&tz));
            assert_eq!(a.end(), b.end());
        }
        _ => panic!("expected two streaks"),
    }
}
