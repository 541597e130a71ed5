use streak_tracker::scan::apply_page;
use streak_tracker::tz::Timezone;

const DAY_MILLIS: i64 = 86_400_000;

#[test]
fn test_apply_page_accepts_adjacent_days() {
    let tz = Timezone::utc();
    let base: i64 = 1_721_606_400_000;  // 2024-07-22T00:00:00Z
    let mut dates: Vec<i64> = Vec::new();
    let page = vec![base - 1, base - DAY_MILLIS, base - 2 * DAY_MILLIS];
    let alive = apply_page(&tz, &mut dates, base, &page, false).expect("classify page");
    assert!(alive);
    assert_eq!(dates, page);
}

#[test]
fn test_apply_page_stops_at_gap() {
    let tz = Timezone::utc();
    let base: i64 = 1_721_606_400_000;
    let mut dates: Vec<i64> = Vec::new();
    let page = vec![base - 1, base - 3 * DAY_MILLIS, base - 4 * DAY_MILLIS];
    let alive = apply_page(&tz, &mut dates, base, &page, false).expect("classify page");
    assert!(!alive);
    assert_eq!(dates, vec![base - 1]);
}

#[test]
fn test_apply_page_head_gap_rules() {
    let tz = Timezone::utc();
    let base: i64 = 1_721_606_400_000;
    let old_event = base - 5 * DAY_MILLIS;

    // Without the allowance, an event five days before the boundary is no
    // streak at all.
    let mut dates: Vec<i64> = Vec::new();
    let alive = apply_page(&tz, &mut dates, base, &vec![old_event], false).expect("classify page");
    assert!(!alive);
    assert!(dates.is_empty());

    // The previous-streak scan accepts the first event unconditionally.
    let mut dates: Vec<i64> = Vec::new();
    let alive = apply_page(&tz, &mut dates, base, &vec![old_event], true).expect("classify page");
    assert!(alive);
    assert_eq!(dates, vec![old_event]);
}

#[test]
fn test_apply_page_rejects_out_of_era() {
    let tz = Timezone::utc();
    let base: i64 = 1_721_606_400_000;
    let mut dates: Vec<i64> = Vec::new();
    let page = vec![streak_tracker::tz::MIN_INSTANT_MILLIS - 1];
    assert!(apply_page(&tz, &mut dates, base, &page, false).is_err());
}
