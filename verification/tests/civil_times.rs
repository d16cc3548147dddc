use timewarrior_calendar::civil::{
    leap_year, local_time, month_length, CivilTime, MAX_YEAR, MIN_YEAR,
};

fn time(year: i32, month: u32, day: u32, hour: u32, minute: u32, second: u32) -> CivilTime {
    CivilTime::new(year, month, day, hour, minute, second).unwrap()
}

const FOUR_HOURS_WEST: i32 = -4 * 3600;

#[test]
fn makes_only_times_that_exist() {
    assert_eq!(
        CivilTime::new(2024, 2, 29, 23, 59, 59),
        Some(CivilTime { year: 2024, month: 2, day: 29, hour: 23, minute: 59, second: 59 })
    );
    assert_eq!(CivilTime::new(2023, 2, 29, 0, 0, 0), None);
    assert_eq!(CivilTime::new(2024, 0, 1, 0, 0, 0), None);
    assert_eq!(CivilTime::new(2024, 13, 1, 0, 0, 0), None);
    assert_eq!(CivilTime::new(2024, 6, 0, 0, 0, 0), None);
    assert_eq!(CivilTime::new(2024, 6, 31, 0, 0, 0), None);
    assert_eq!(CivilTime::new(2024, 6, 30, 24, 0, 0), None);
    assert_eq!(CivilTime::new(2024, 6, 30, 0, 60, 0), None);
    assert_eq!(CivilTime::new(2024, 6, 30, 0, 0, 60), None);
    assert_eq!(CivilTime::new(MAX_YEAR + 1, 1, 1, 0, 0, 0), None);
    assert_eq!(CivilTime::new(MIN_YEAR - 1, 1, 1, 0, 0, 0), None);
    assert!(CivilTime::new(MAX_YEAR, 12, 31, 23, 59, 59).is_some());
    assert!(CivilTime::new(MIN_YEAR, 1, 1, 0, 0, 0).is_some());
}

#[test]
fn counts_leap_years_by_the_gregorian_rule() {
    assert!(leap_year(2024));
    assert!(leap_year(2000));
    assert!(leap_year(0));
    assert!(leap_year(-4));
    assert!(leap_year(-400));
    assert!(!leap_year(2023));
    assert!(!leap_year(1900));
    assert!(!leap_year(-1));
    assert!(!leap_year(-100));
}

#[test]
fn counts_the_days_of_each_month() {
    let lengths: Vec<u32> = (1..=12).map(|month| month_length(2023, month)).collect();
    assert_eq!(lengths, vec![31, 28, 31, 30, 31, 30, 31, 31, 30, 31, 30, 31]);
    assert_eq!(month_length(2024, 2), 29);
    assert_eq!(month_length(1900, 2), 28);
}

#[test]
fn moves_a_time_within_its_day() {
    assert_eq!(
        local_time(&time(2024, 6, 15, 14, 0, 0), FOUR_HOURS_WEST),
        Some(time(2024, 6, 15, 10, 0, 0))
    );
    assert_eq!(
        local_time(&time(2024, 6, 15, 14, 30, 45), 3600 + 61),
        Some(time(2024, 6, 15, 15, 31, 46))
    );
    assert_eq!(
        local_time(&time(2024, 6, 15, 4, 0, 0), FOUR_HOURS_WEST),
        Some(time(2024, 6, 15, 0, 0, 0))
    );
    assert_eq!(local_time(&time(2024, 6, 15, 14, 0, 0), 0), Some(time(2024, 6, 15, 14, 0, 0)));
}

#[test]
fn moves_a_time_into_the_day_before() {
    assert_eq!(
        local_time(&time(2024, 1, 1, 3, 0, 0), FOUR_HOURS_WEST),
        Some(time(2023, 12, 31, 23, 0, 0))
    );
    assert_eq!(
        local_time(&time(2024, 3, 1, 0, 0, 0), FOUR_HOURS_WEST),
        Some(time(2024, 2, 29, 20, 0, 0))
    );
    assert_eq!(
        local_time(&time(2023, 3, 1, 3, 59, 59), FOUR_HOURS_WEST),
        Some(time(2023, 2, 28, 23, 59, 59))
    );
    assert_eq!(
        local_time(&time(2024, 5, 1, 1, 0, 0), FOUR_HOURS_WEST),
        Some(time(2024, 4, 30, 21, 0, 0))
    );
    assert_eq!(
        local_time(&time(2024, 6, 15, 0, 0, 0), -1),
        Some(time(2024, 6, 14, 23, 59, 59))
    );
    assert_eq!(
        local_time(&time(0, 1, 1, 0, 0, 0), FOUR_HOURS_WEST),
        Some(time(-1, 12, 31, 20, 0, 0))
    );
}

#[test]
fn moves_a_time_into_the_day_after() {
    assert_eq!(
        local_time(&time(2023, 12, 31, 23, 0, 0), 4 * 3600),
        Some(time(2024, 1, 1, 3, 0, 0))
    );
    assert_eq!(
        local_time(&time(2024, 2, 28, 22, 0, 0), 3 * 3600),
        Some(time(2024, 2, 29, 1, 0, 0))
    );
    assert_eq!(
        local_time(&time(2023, 2, 28, 22, 0, 0), 3 * 3600),
        Some(time(2023, 3, 1, 1, 0, 0))
    );
    assert_eq!(
        local_time(&time(2024, 4, 30, 23, 59, 59), 1),
        Some(time(2024, 5, 1, 0, 0, 0))
    );
    assert_eq!(
        local_time(&time(2024, 6, 15, 23, 59, 59), 86_399),
        Some(time(2024, 6, 16, 23, 59, 58))
    );
}

#[test]
fn refuses_an_offset_of_a_day_or_more() {
    let noon = time(2024, 6, 15, 12, 0, 0);
    assert_eq!(local_time(&noon, 86_400), None);
    assert_eq!(local_time(&noon, -86_400), None);
    assert_eq!(local_time(&noon, i32::MAX), None);
    assert_eq!(local_time(&noon, i32::MIN), None);
    assert_eq!(local_time(&noon, -86_399), Some(time(2024, 6, 14, 12, 0, 1)));
}

#[test]
fn stops_at_the_first_and_the_last_day() {
    assert_eq!(local_time(&time(MIN_YEAR, 1, 1, 3, 0, 0), FOUR_HOURS_WEST), None);
    assert_eq!(
        local_time(&time(MIN_YEAR, 1, 1, 4, 0, 0), FOUR_HOURS_WEST),
        Some(time(MIN_YEAR, 1, 1, 0, 0, 0))
    );
    assert_eq!(local_time(&time(MAX_YEAR, 12, 31, 23, 0, 0), 3600), None);
    assert_eq!(
        local_time(&time(MAX_YEAR, 12, 31, 22, 0, 0), 3600),
        Some(time(MAX_YEAR, 12, 31, 23, 0, 0))
    );
}

#[test]
fn moving_there_and_back_returns_to_the_start() {
    let starts = [
        time(2024, 1, 1, 3, 0, 0),
        time(2024, 2, 29, 23, 59, 59),
        time(1999, 12, 31, 12, 34, 56),
        time(0, 1, 1, 0, 0, 0),
    ];
    let offsets = [FOUR_HOURS_WEST, 4 * 3600, 1, -1, 86_399, -86_399, 0];
    for start in starts {
        for offset in offsets {
            let moved = local_time(&start, offset).unwrap();
            assert_eq!(local_time(&moved, -offset), Some(start));
        }
    }
}
