use timewarrior_calendar::civil::{local_time, CivilTime, MAX_YEAR, MIN_YEAR};
use timewarrior_calendar::render::{render_clock, render_date};
use timewarrior_calendar::sheet::write_record;
use timewarrior_calendar::timestamp::parse_timestamp;

fn leap(year: i64) -> bool {
    year.rem_euclid(4) == 0 && (year.rem_euclid(100) != 0 || year.rem_euclid(400) == 0)
}

fn month_days(year: i64, month: i64) -> i64 {
    match month {
        2 => {
            if leap(year) {
                29
            } else {
                28
            }
        }
        4 | 6 | 9 | 11 => 30,
        _ => 31,
    }
}

fn expected_parse(
    year: i64,
    month: i64,
    day: i64,
    hour: i64,
    minute: i64,
    second: i64,
) -> Option<CivilTime> {
    let exists = (1..=12).contains(&month)
        && (1..=month_days(year, month)).contains(&day)
        && hour < 24
        && minute < 60
        && second <= 60;
    if !exists {
        return None;
    }
    Some(CivilTime {
        year: year as i32,
        month: month as u32,
        day: day as u32,
        hour: hour as u32,
        minute: minute as u32,
        second: if second == 60 { 59 } else { second as u32 },
    })
}

fn expected_move(time: &CivilTime, offset: i64) -> Option<CivilTime> {
    if offset <= -86_400 || offset >= 86_400 {
        return None;
    }
    let (mut year, mut month, mut day) = (time.year as i64, time.month as i64, time.day as i64);
    let mut seconds =
        time.hour as i64 * 3600 + time.minute as i64 * 60 + time.second as i64 + offset;
    if seconds < 0 {
        seconds += 86_400;
        day -= 1;
        if day == 0 {
            month -= 1;
            if month == 0 {
                month = 12;
                year -= 1;
            }
            day = month_days(year, month);
        }
    } else if seconds >= 86_400 {
        seconds -= 86_400;
        day += 1;
        if day > month_days(year, month) {
            day = 1;
            month += 1;
            if month == 13 {
                month = 1;
                year += 1;
            }
        }
    }
    if year < MIN_YEAR as i64 || year > MAX_YEAR as i64 {
        return None;
    }
    Some(CivilTime {
        year: year as i32,
        month: month as u32,
        day: day as u32,
        hour: (seconds / 3600) as u32,
        minute: (seconds % 3600 / 60) as u32,
        second: (seconds % 60) as u32,
    })
}

fn expected_year(year: i32) -> String {
    if (0..=9999).contains(&year) {
        format!("{:04}", year)
    } else if year < 0 {
        format!("-{:04}", -(year as i64))
    } else {
        format!("+{}", year)
    }
}

fn expected_line(fields: &[String]) -> Vec<u8> {
    let mut body: Vec<u8> = Vec::new();
    for (at, field) in fields.iter().enumerate() {
        if at > 0 {
            body.push(b',');
        }
        let bytes = field.as_bytes();
        if bytes.iter().any(|byte| matches!(byte, b',' | b'"' | b'\n' | b'\r')) {
            body.push(b'"');
            for byte in bytes {
                if *byte == b'"' {
                    body.push(b'"');
                }
                body.push(*byte);
            }
            body.push(b'"');
        } else {
            body.extend_from_slice(bytes);
        }
    }
    if body.is_empty() {
        body.extend_from_slice(b"\"\"");
    }
    body.push(b'\n');
    body
}

#[test]
fn every_day_of_some_years_is_read_or_refused_as_the_calendar_says() {
    for year in [0, 1, 4, 100, 400, 1900, 1999, 2000, 2023, 2024, 2100, 9999] {
        for month in 0..=13 {
            for day in 0..=32 {
                let text = format!("{:04}{:02}{:02}T123456Z", year, month, day);
                assert_eq!(
                    parse_timestamp(&text),
                    expected_parse(year, month, day, 12, 34, 56),
                    "{}",
                    text
                );
            }
        }
    }
}

#[test]
fn every_time_of_day_is_read_or_refused_as_the_clock_says() {
    for hour in 0..=25 {
        for minute in [0, 1, 30, 59, 60, 61, 99] {
            for second in [0, 1, 30, 59, 60, 61, 99] {
                let text = format!("20240229T{:02}{:02}{:02}Z", hour, minute, second);
                assert_eq!(
                    parse_timestamp(&text),
                    expected_parse(2024, 2, 29, hour, minute, second),
                    "{}",
                    text
                );
            }
        }
    }
}

#[test]
fn every_four_digit_year_is_read() {
    for year in 0..=9999 {
        let text = format!("{:04}0228T000000Z", year);
        assert_eq!(parse_timestamp(&text), expected_parse(year, 2, 28, 0, 0, 0), "{}", text);
        let leap_day = format!("{:04}0229T000000Z", year);
        let expected = expected_parse(year, 2, 29, 0, 0, 0);
        assert_eq!(parse_timestamp(&leap_day), expected, "{}", leap_day);
    }
}

#[test]
fn times_move_as_the_calendar_says() {
    let days = [
        (2024, 1, 1),
        (2024, 2, 28),
        (2024, 2, 29),
        (2024, 3, 1),
        (2023, 2, 28),
        (2023, 3, 1),
        (2023, 12, 31),
        (1900, 2, 28),
        (1900, 3, 1),
        (2000, 2, 29),
        (2024, 4, 30),
        (2024, 7, 31),
        (2024, 8, 1),
        (0, 1, 1),
        (-1, 12, 31),
        (-4, 2, 29),
        (9999, 12, 31),
        (MIN_YEAR, 1, 1),
        (MIN_YEAR, 1, 2),
        (MAX_YEAR, 12, 31),
        (MAX_YEAR, 12, 30),
    ];
    let times =
        [(0, 0, 0), (0, 0, 1), (3, 59, 59), (4, 0, 0), (12, 0, 0), (20, 0, 0), (23, 59, 59)];
    let mut offsets: Vec<i32> = (-86_500..=86_500).step_by(1013).collect();
    offsets.extend([-86_400, -86_399, -14_400, -1, 0, 1, 14_400, 86_399, 86_400]);
    for (year, month, day) in days {
        for (hour, minute, second) in times {
            let time = CivilTime::new(year, month, day, hour, minute, second).unwrap();
            for offset in &offsets {
                assert_eq!(
                    local_time(&time, *offset),
                    expected_move(&time, *offset as i64),
                    "{:?} {}",
                    time,
                    offset
                );
            }
        }
    }
}

#[test]
fn every_day_of_a_leap_year_moves_four_hours_west() {
    for month in 1..=12 {
        for day in 1..=month_days(2024, month as i64) as u32 {
            for hour in 0..24 {
                let time = CivilTime::new(2024, month, day, hour, 30, 15).unwrap();
                assert_eq!(local_time(&time, -14_400), expected_move(&time, -14_400));
            }
        }
    }
}

#[test]
fn every_minute_of_the_day_is_shown_on_the_twelve_hour_clock() {
    for hour in 0..24u32 {
        for minute in 0..60u32 {
            let time = CivilTime::new(2024, 6, 15, hour, minute, 59).unwrap();
            let shown = if hour % 12 == 0 { 12 } else { hour % 12 };
            let half = if hour < 12 { "AM" } else { "PM" };
            assert_eq!(render_clock(&time), format!("{:02}:{:02} {}", shown, minute, half));
        }
    }
}

#[test]
fn every_day_of_two_years_is_shown_as_month_day_year() {
    for year in [2023, 2024] {
        for month in 1..=12u32 {
            for day in 1..=month_days(year as i64, month as i64) as u32 {
                let time = CivilTime::new(year, month, day, 0, 0, 0).unwrap();
                assert_eq!(render_date(&time), format!("{:02}/{:02}/{}", month, day, year));
            }
        }
    }
}

#[test]
fn years_of_every_length_are_shown() {
    let mut years: Vec<i32> = (MIN_YEAR..=MAX_YEAR).step_by(37).collect();
    years.extend([
        MIN_YEAR, -100_000, -10_000, -9_999, -1_000, -999, -100, -99, -10, -9, -1, 0, 1, 9, 10,
        99, 100, 999, 1_000, 9_999, 10_000, 99_999, 100_000, MAX_YEAR,
    ]);
    for year in years {
        let time = CivilTime::new(year, 7, 4, 0, 0, 0).unwrap();
        assert_eq!(render_date(&time), format!("07/04/{}", expected_year(year)));
    }
}

#[test]
fn records_of_every_mix_of_bytes_are_written_as_expected() {
    let pieces = ["", "a", ",", "\"", "\n", "\r", " ", "\u{e9}", "x y", "\"\"", "a,b"];
    let mut texts: Vec<String> = Vec::new();
    for first in pieces {
        for second in pieces {
            for third in pieces {
                texts.push(format!("{}{}{}", first, second, third));
            }
        }
    }
    for (at, text) in texts.iter().enumerate() {
        let other = &texts[(at * 7 + 3) % texts.len()];
        for fields in [
            vec![text.clone()],
            vec![text.clone(), other.clone()],
            vec![String::new(), text.clone(), String::new()],
        ] {
            let mut sink = Vec::new();
            write_record(&mut sink, &fields);
            assert_eq!(sink, expected_line(&fields), "{:?}", fields);
        }
    }
}
