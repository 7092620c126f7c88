use backuper::calendar::{days_in_month, is_leap_year, is_valid_date, is_valid_time};
use backuper::get_time_mark_format;
use backuper::snapshot::{classify_name, snapshot_dir_name, NameKind};
use backuper::time_mark::{format_time_mark, parse_time_mark, TimeMark};
use chrono::{Datelike, NaiveDate, NaiveDateTime, Timelike};

fn mark(year: i32, month: u32, day: u32, hour: u32, minute: u32, second: u32) -> TimeMark {
    TimeMark::new(year, month, day, hour, minute, second).unwrap()
}

#[test]
fn leap_years_follow_the_gregorian_rule() {
    assert!(is_leap_year(2024));
    assert!(is_leap_year(2000));
    assert!(is_leap_year(0));
    assert!(!is_leap_year(1900));
    assert!(!is_leap_year(2023));
}

#[test]
fn months_have_their_lengths() {
    let lengths = [31u8, 28, 31, 30, 31, 30, 31, 31, 30, 31, 30, 31];
    for month in 1..=12u8 {
        assert_eq!(days_in_month(2023, month), lengths[(month - 1) as usize]);
    }
    assert_eq!(days_in_month(2024, 2), 29);
    assert_eq!(days_in_month(1900, 2), 28);
}

#[test]
fn dates_and_times_are_validated() {
    assert!(is_valid_date(2024, 2, 29));
    assert!(!is_valid_date(2023, 2, 29));
    assert!(!is_valid_date(2024, 4, 31));
    assert!(!is_valid_date(2024, 0, 1));
    assert!(!is_valid_date(2024, 13, 1));
    assert!(!is_valid_date(2024, 1, 0));
    assert!(is_valid_date(0, 1, 1));
    assert!(is_valid_date(9999, 12, 31));
    assert!(!is_valid_date(10000, 1, 1));
    assert!(is_valid_time(0, 0, 0));
    assert!(is_valid_time(23, 59, 59));
    assert!(!is_valid_time(24, 0, 0));
    assert!(!is_valid_time(0, 60, 0));
    assert!(!is_valid_time(0, 0, 60));
}

#[test]
fn new_accepts_only_what_exists() {
    let made = TimeMark::new(2024, 2, 29, 23, 59, 59);
    assert_eq!(
        made,
        Some(TimeMark { year: 2024, month: 2, day: 29, hour: 23, minute: 59, second: 59 })
    );
    assert!(made.unwrap().is_well_formed());
    assert_eq!(TimeMark::new(2023, 2, 29, 0, 0, 0), None);
    assert_eq!(TimeMark::new(-1, 1, 1, 0, 0, 0), None);
    assert_eq!(TimeMark::new(10000, 1, 1, 0, 0, 0), None);
    assert_eq!(TimeMark::new(2024, 1, 1, 24, 0, 0), None);
    assert_eq!(TimeMark::new(2024, 1, 1, 0, 0, 60), None);
    assert_eq!(TimeMark::new(2024, 300, 1, 0, 0, 0), None);
    assert_eq!(TimeMark::new(2024, 1, 257, 0, 0, 0), None);
    assert_eq!(TimeMark::new(65536 + 2024, 1, 1, 0, 0, 0), None);
}

#[test]
fn hand_made_marks_are_validated() {
    let bad = TimeMark { year: 2023, month: 2, day: 30, hour: 0, minute: 0, second: 0 };
    assert!(!bad.is_well_formed());
    let late = TimeMark { year: 2023, month: 2, day: 3, hour: 0, minute: 61, second: 0 };
    assert!(!late.is_well_formed());
}

#[test]
fn marks_are_written_with_padding() {
    assert_eq!(format_time_mark(&mark(2024, 3, 5, 7, 8, 9)), "05.03.2024 07-08-09");
    assert_eq!(format_time_mark(&mark(2024, 12, 31, 23, 59, 59)), "31.12.2024 23-59-59");
    assert_eq!(format_time_mark(&mark(987, 1, 1, 0, 0, 0)), "01.01.0987 00-00-00");
    assert_eq!(format_time_mark(&mark(0, 1, 1, 0, 0, 0)), "01.01.0000 00-00-00");
    assert_eq!(format_time_mark(&mark(9999, 12, 31, 0, 0, 0)), "31.12.9999 00-00-00");
}

#[test]
fn texts_are_read_back() {
    assert_eq!(parse_time_mark("05.03.2024 07-08-09"), Some(mark(2024, 3, 5, 7, 8, 9)));
    assert_eq!(parse_time_mark("29.02.2024 00-00-00"), Some(mark(2024, 2, 29, 0, 0, 0)));
    assert_eq!(parse_time_mark("01.01.0000 00-00-00"), Some(mark(0, 1, 1, 0, 0, 0)));
}

#[test]
fn other_texts_are_refused() {
    let refused = [
        "",
        "05.03.2024",
        "05.03.2024 07-08-0",
        "05.03.2024 07-08-099",
        "05.03.2024 07:08:09",
        "05-03-2024 07-08-09",
        "05.03.2024_07-08-09",
        "05.03.2024 07-08-0x",
        "0a.03.2024 07-08-09",
        "05.03.20z4 07-08-09",
        " 5.03.2024 07-08-09",
        "5.3.2024 7-8-9",
        "2024.03.05 07-08-09",
        "31.02.2024 07-08-09",
        "29.02.2023 07-08-09",
        "00.03.2024 07-08-09",
        "05.00.2024 07-08-09",
        "05.13.2024 07-08-09",
        "05.03.2024 24-08-09",
        "05.03.2024 07-60-09",
        "05.03.2024 07-08-60",
        "05.03.2024 07-08-09 ",
        "٠٥.٠٣.٢٠٢٤ ٠٧-٠٨-٠٩",
    ];
    for text in refused {
        assert_eq!(parse_time_mark(text), None, "{:?}", text);
    }
}

#[test]
fn every_second_of_a_leap_day_round_trips() {
    for hour in 0..24 {
        for minute in 0..60 {
            for second in 0..60 {
                let made = mark(2024, 2, 29, hour, minute, second);
                assert_eq!(parse_time_mark(&format_time_mark(&made)), Some(made));
            }
        }
    }
}

#[test]
fn every_day_of_chosen_years_round_trips() {
    for year in [0, 1, 999, 1900, 2000, 2023, 2024, 9999] {
        for month in 1..=12u32 {
            for day in 1..=31u32 {
                match TimeMark::new(year, month, day, 12, 34, 56) {
                    Some(made) => {
                        assert_eq!(parse_time_mark(&format_time_mark(&made)), Some(made));
                        assert!(NaiveDate::from_ymd_opt(year, month, day).is_some());
                    }
                    None => assert!(NaiveDate::from_ymd_opt(year, month, day).is_none()),
                }
            }
        }
    }
}

#[test]
fn the_pattern_is_the_one_of_the_directory_names() {
    assert_eq!(get_time_mark_format(), "%d.%m.%Y %H-%M-%S");
}

#[test]
fn texts_agree_with_the_pattern() {
    let pattern = get_time_mark_format();
    for (year, month, day, hour, minute, second) in
        [(2024, 1, 1, 10, 0, 0), (1999, 12, 31, 23, 59, 59), (2024, 2, 29, 0, 0, 1), (7, 7, 7, 7, 7, 7)]
    {
        let made = mark(year, month, day, hour, minute, second);
        let naive = NaiveDate::from_ymd_opt(year, month, day)
            .unwrap()
            .and_hms_opt(hour, minute, second)
            .unwrap();
        let text = format_time_mark(&made);
        assert_eq!(text, naive.format(pattern).to_string());
        let read = NaiveDateTime::parse_from_str(&text, pattern).unwrap();
        assert_eq!(read, naive);
        assert_eq!(
            (read.year(), read.month(), read.day(), read.hour(), read.minute(), read.second()),
            (year, month, day, hour, minute, second)
        );
    }
}

#[test]
fn snapshot_directories_carry_the_tag() {
    assert_eq!(snapshot_dir_name(&mark(2024, 1, 1, 10, 0, 0)), "Back-up 01.01.2024 10-00-00");
}

#[test]
fn names_are_sorted_into_kinds() {
    assert_eq!(
        classify_name("Back-up 01.01.2024 10-00-00"),
        NameKind::Snapshot(mark(2024, 1, 1, 10, 0, 0))
    );
    assert_eq!(classify_name("photos"), NameKind::Foreign);
    assert_eq!(classify_name(""), NameKind::Foreign);
    assert_eq!(classify_name("Back-up"), NameKind::Foreign);
    assert_eq!(classify_name("back-up 01.01.2024 10-00-00"), NameKind::Foreign);
    assert_eq!(classify_name("Backup 01.01.2024 10-00-00"), NameKind::Foreign);
    assert_eq!(classify_name(" Back-up 01.01.2024 10-00-00"), NameKind::Foreign);
    assert_eq!(classify_name("01.01.2024 10-00-00"), NameKind::Foreign);
    assert_eq!(classify_name("Back-up "), NameKind::Unparseable);
    assert_eq!(classify_name("Back-up yesterday"), NameKind::Unparseable);
    assert_eq!(classify_name("Back-up 32.01.2024 10-00-00"), NameKind::Unparseable);
    assert_eq!(classify_name("Back-up 01.01.2024 10-00-00 (copy)"), NameKind::Unparseable);
    assert_eq!(classify_name("Back-up  01.01.2024 10-00-00"), NameKind::Unparseable);
    assert_eq!(classify_name("Back-up 1.1.2024 10-0-0"), NameKind::Unparseable);
}

#[test]
fn a_snapshot_name_is_recognised_as_its_own() {
    let made = mark(2031, 10, 9, 8, 7, 6);
    assert_eq!(classify_name(&snapshot_dir_name(&made)), NameKind::Snapshot(made));
}
