use backuper::cleanup::{
    is_expired, judge_entry, judge_snapshot, CleanupRun, CleanupStep, Entry, Verdict,
};
use backuper::cleanup_old_backups;
use backuper::config::structs::BackuperConfig;
use backuper::local_time::{current_time_mark, LocalResolution};
use backuper::step::StepOutcome;
use backuper::time_mark::TimeMark;
use chrono::{Datelike, Local, NaiveDate};

fn config(keep_days: u64) -> BackuperConfig {
    BackuperConfig {
        destination: String::from("/backups"),
        interval_minutes: 60,
        keep_days,
        backup_sources: Vec::new(),
    }
}

fn noon(year: i32, month: u32, day: u32) -> TimeMark {
    TimeMark::new(year, month, day, 12, 0, 0).unwrap()
}

fn named(names: &[&str]) -> Vec<Entry> {
    names.iter().map(|name| Entry::Named(String::from(*name))).collect()
}

fn day(year: i32, month: u32, day: u32) -> i32 {
    NaiveDate::from_ymd_opt(year, month, day).unwrap().num_days_from_ce()
}

#[test]
fn snapshot_nine_days_old_is_deleted() {
    let entries = named(&["Back-up 01.01.2024 10-00-00"]);
    let run = cleanup_old_backups(&config(7), &noon(2024, 1, 10), &entries);
    assert_eq!(run.verdicts, vec![Verdict::Expired]);
    assert_eq!(run.step, CleanupStep::Delete { entry: 0 });
}

#[test]
fn snapshot_five_days_old_is_retained() {
    let entries = named(&["Back-up 05.01.2024 10-00-00"]);
    let run = cleanup_old_backups(&config(7), &noon(2024, 1, 10), &entries);
    assert_eq!(run.verdicts, vec![Verdict::Retained]);
    assert_eq!(run.step, CleanupStep::Finished);
}

#[test]
fn the_boundary_lies_at_keep_days() {
    let entries = named(&[
        "Back-up 03.01.2024 00-00-00",
        "Back-up 02.01.2024 23-59-59",
        "Back-up 10.01.2024 11-00-00",
        "Back-up 03.01.2024 23-59-59",
    ]);
    let run = cleanup_old_backups(&config(7), &noon(2024, 1, 10), &entries);
    assert_eq!(
        run.verdicts,
        vec![Verdict::Retained, Verdict::Expired, Verdict::Retained, Verdict::Retained]
    );
    assert_eq!(run.step, CleanupStep::Delete { entry: 1 });
}

#[test]
fn only_the_date_counts_not_the_time_of_day() {
    let entries = named(&["Back-up 02.01.2024 23-59-59", "Back-up 03.01.2024 00-00-00"]);
    let early = TimeMark::new(2024, 1, 10, 0, 0, 0).unwrap();
    let late = TimeMark::new(2024, 1, 10, 23, 59, 59).unwrap();
    for now in [early, late] {
        let run = cleanup_old_backups(&config(7), &now, &entries);
        assert_eq!(run.verdicts, vec![Verdict::Expired, Verdict::Retained]);
    }
}

#[test]
fn keeping_no_days_keeps_today_only() {
    let entries = named(&[
        "Back-up 10.01.2024 00-00-01",
        "Back-up 09.01.2024 23-59-59",
        "Back-up 11.01.2024 08-00-00",
    ]);
    let run = cleanup_old_backups(&config(0), &noon(2024, 1, 10), &entries);
    assert_eq!(run.verdicts, vec![Verdict::Retained, Verdict::Expired, Verdict::Retained]);
}

#[test]
fn days_are_counted_across_months_and_leap_days() {
    let entries = named(&[
        "Back-up 29.02.2024 09-00-00",
        "Back-up 28.02.2024 09-00-00",
        "Back-up 31.12.2023 09-00-00",
    ]);
    let run = cleanup_old_backups(&config(1), &noon(2024, 3, 1), &entries);
    assert_eq!(run.verdicts, vec![Verdict::Retained, Verdict::Expired, Verdict::Expired]);
    let run = cleanup_old_backups(&config(61), &noon(2024, 3, 1), &entries);
    assert_eq!(run.verdicts, vec![Verdict::Retained, Verdict::Retained, Verdict::Retained]);
    let run = cleanup_old_backups(&config(60), &noon(2024, 3, 1), &entries);
    assert_eq!(run.verdicts, vec![Verdict::Retained, Verdict::Retained, Verdict::Expired]);
    let run = cleanup_old_backups(&config(365), &noon(2023, 3, 1), &named(&["Back-up 28.02.2022 09-00-00"]));
    assert_eq!(run.verdicts, vec![Verdict::Expired]);
    let run = cleanup_old_backups(&config(366), &noon(2023, 3, 1), &named(&["Back-up 28.02.2022 09-00-00"]));
    assert_eq!(run.verdicts, vec![Verdict::Retained]);
}

#[test]
fn a_retention_beyond_all_time_deletes_nothing() {
    let entries = named(&["Back-up 01.01.0000 00-00-00", "Back-up 01.01.2024 10-00-00"]);
    let run = cleanup_old_backups(&config(u64::MAX), &noon(9999, 12, 31), &entries);
    assert_eq!(run.verdicts, vec![Verdict::Retained, Verdict::Retained]);
    assert_eq!(run.step, CleanupStep::Finished);
}

#[test]
fn foreign_entries_are_left_alone() {
    let entries = named(&[
        "photos",
        "Backup 01.01.2000 10-00-00",
        "back-up 01.01.2000 10-00-00",
        "01.01.2000 10-00-00",
        "",
    ]);
    let run = cleanup_old_backups(&config(0), &noon(2024, 1, 10), &entries);
    assert_eq!(run.verdicts, vec![Verdict::Foreign; 5]);
    assert_eq!(run.step, CleanupStep::Finished);
}

#[test]
fn tagged_names_without_a_mark_are_never_deleted() {
    let entries = named(&[
        "Back-up ",
        "Back-up 01.01.2000",
        "Back-up 31.02.2000 10-00-00",
        "Back-up 1.1.2000 10-00-00",
        "Back-up 01.01.2000 10-00-00.old",
        "Back-up 01.01.2000 10:00:00",
    ]);
    let run = cleanup_old_backups(&config(0), &noon(2024, 1, 10), &entries);
    assert_eq!(run.verdicts, vec![Verdict::Unparseable; 6]);
    assert_eq!(run.step, CleanupStep::Finished);
}

#[test]
fn entries_without_a_readable_name_are_skipped() {
    let entries = vec![
        Entry::Undecodable,
        Entry::Named(String::from("Back-up 01.01.2024 10-00-00")),
        Entry::Unreadable,
    ];
    let run = cleanup_old_backups(&config(7), &noon(2024, 1, 10), &entries);
    assert_eq!(run.verdicts, vec![Verdict::Undecodable, Verdict::Expired, Verdict::Unreadable]);
    assert_eq!(run.step, CleanupStep::Delete { entry: 1 });
}

#[test]
fn an_empty_listing_ends_the_run() {
    let run = cleanup_old_backups(&config(7), &noon(2024, 1, 10), &Vec::new());
    assert!(run.verdicts.is_empty());
    assert_eq!(run.step, CleanupStep::Finished);
}

#[test]
fn deletions_come_in_the_order_of_the_listing() {
    let entries = named(&[
        "notes.txt",
        "Back-up 01.01.2024 10-00-00",
        "Back-up 09.01.2024 10-00-00",
        "Back-up 02.01.2024 10-00-00",
        "Back-up broken",
        "Back-up 01.12.2023 10-00-00",
    ]);
    let mut run = cleanup_old_backups(&config(7), &noon(2024, 1, 10), &entries);
    let mut deleted = Vec::new();
    while let CleanupStep::Delete { entry } = run.step {
        deleted.push(entry);
        run.advance(StepOutcome::Succeeded);
    }
    assert_eq!(deleted, vec![1, 3, 5]);
    assert_eq!(run.step, CleanupStep::Finished);
    run.advance(StepOutcome::Succeeded);
    assert_eq!(run.step, CleanupStep::Finished);
}

#[test]
fn a_failed_deletion_ends_the_run() {
    let entries = named(&["Back-up 01.01.2024 10-00-00", "Back-up 02.01.2024 10-00-00"]);
    let mut run = cleanup_old_backups(&config(7), &noon(2024, 1, 10), &entries);
    assert_eq!(run.step, CleanupStep::Delete { entry: 0 });
    run.advance(StepOutcome::Failed);
    assert_eq!(run.step, CleanupStep::Aborted { entry: 0 });
    run.advance(StepOutcome::Succeeded);
    assert_eq!(run.step, CleanupStep::Aborted { entry: 0 });
    assert_eq!(run.verdicts, vec![Verdict::Expired, Verdict::Expired]);
}

#[test]
fn a_hand_made_run_stays_within_its_verdicts() {
    let mut run = CleanupRun {
        verdicts: vec![Verdict::Expired],
        step: CleanupStep::Delete { entry: usize::MAX },
    };
    run.advance(StepOutcome::Succeeded);
    assert_eq!(run.step, CleanupStep::Finished);
}

#[test]
fn expiry_is_strictly_before_the_horizon() {
    assert!(!is_expired(100, 107, 7));
    assert!(is_expired(99, 107, 7));
    assert!(!is_expired(107, 107, 7));
    assert!(!is_expired(107, 107, 0));
    assert!(is_expired(106, 107, 0));
    assert!(!is_expired(108, 107, 0));
    assert!(!is_expired(i32::MIN, i32::MAX, u64::MAX));
    assert!(is_expired(i32::MIN, i32::MAX, 0));
    assert!(!is_expired(i32::MAX, i32::MIN, 0));
}

#[test]
fn a_mark_that_names_no_single_instant_is_kept() {
    assert_eq!(judge_snapshot(LocalResolution::Unique, 1, 1000, 7), Verdict::Expired);
    assert_eq!(judge_snapshot(LocalResolution::Ambiguous, 1, 1000, 7), Verdict::Unresolved);
    assert_eq!(judge_snapshot(LocalResolution::Missing, 1, 1000, 7), Verdict::Unresolved);
    assert_eq!(judge_snapshot(LocalResolution::Unique, 993, 1000, 7), Verdict::Retained);
}

#[test]
fn entries_are_judged_by_day_numbers() {
    let today = day(2024, 1, 10);
    let old = Entry::Named(String::from("Back-up 01.01.2024 10-00-00"));
    let young = Entry::Named(String::from("Back-up 05.01.2024 10-00-00"));
    assert_eq!(judge_entry(&old, today, 7), Verdict::Expired);
    assert_eq!(judge_entry(&old, today, 9), Verdict::Retained);
    assert_eq!(judge_entry(&old, today, 8), Verdict::Expired);
    assert_eq!(judge_entry(&young, today, 7), Verdict::Retained);
    assert_eq!(judge_entry(&young, today, 4), Verdict::Expired);
    assert_eq!(judge_entry(&Entry::Undecodable, today, 0), Verdict::Undecodable);
    assert_eq!(judge_entry(&Entry::Unreadable, today, 0), Verdict::Unreadable);
}

#[test]
fn the_clock_gives_a_well_formed_mark() {
    let before = Local::now();
    let now = current_time_mark().unwrap();
    let after = Local::now();
    assert!(now.is_well_formed());
    assert!(before.year() <= now.year as i32 && now.year as i32 <= after.year());
    assert!((1..=12).contains(&now.month));
    assert!(now.year >= 2024);
}

#[test]
fn a_snapshot_just_written_is_not_deleted() {
    let now = current_time_mark().unwrap();
    let name = backuper::snapshot::snapshot_dir_name(&now);
    for keep_days in [0, 1, 7] {
        let run = cleanup_old_backups(&config(keep_days), &now, &vec![Entry::Named(name.clone())]);
        assert_ne!(run.verdicts[0], Verdict::Expired);
        assert_eq!(run.step, CleanupStep::Finished);
    }
}
