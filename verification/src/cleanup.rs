//! The retention pruner: which of the entries under the destination root are
//! snapshots past the retention horizon, and in which order they are deleted.
//!
//! The pruner touches no file. `cleanup_old_backups` judges the listed
//! entries and hands out the first deletion; the caller performs it and
//! reports the outcome to `CleanupRun::advance`, which hands out the next.

use crate::config::structs::BackuperConfig;
use crate::local_time::{day_number_of, local_resolution, mark_day_number, LocalResolution};
use crate::snapshot::{
    classify_name, has_snapshot_prefix, lemma_recognised_name_is_snapshot,
    lemma_snapshot_name_recognised, name_kind, snapshot_name, NameKind,
};
use crate::step::StepOutcome;
use crate::time_mark::{parsed_text, TimeMark};
use vstd::prelude::*;

verus! {

/// One entry of the listing of the destination root.
#[derive(Clone, Debug)]
pub enum Entry {
    /// An entry with this name.
    Named(String),
    /// An entry whose name is not text.
    Undecodable,
    /// An entry that the listing failed to read.
    Unreadable,
}

/// What the pruner makes of one entry. Only `Expired` entries are deleted.
#[derive(Clone, Copy, Debug, PartialEq, Eq, Structural)]
pub enum Verdict {
    /// The listing failed to read the entry: skipped with a warning.
    Unreadable,
    /// The name is not text: skipped with a warning.
    Undecodable,
    /// The name does not carry the snapshot tag: left alone in silence.
    Foreign,
    /// The name carries the tag but no readable time mark: skipped with a warning.
    Unparseable,
    /// The mark names no single instant of local time: kept.
    Unresolved,
    /// A snapshot dated on or after the horizon: kept.
    Retained,
    /// A snapshot dated before the horizon: to be deleted.
    Expired,
}

/// Whether a snapshot dated `snapshot_day` is past the horizon on day
/// `today`: its day lies strictly before `today` minus `keep_days`.
pub open spec fn expired(snapshot_day: int, today: int, keep_days: int) -> bool {
    snapshot_day < today - keep_days
}

/// The verdict on a snapshot, from how its mark resolves in local time and
/// from the day numbers of its date and of today.
pub open spec fn snapshot_verdict(
    resolution: LocalResolution,
    snapshot_day: int,
    today: int,
    keep_days: int,
) -> Verdict {
    if resolution != LocalResolution::Unique {
        Verdict::Unresolved
    } else if expired(snapshot_day, today, keep_days) {
        Verdict::Expired
    } else {
        Verdict::Retained
    }
}

/// Whether `verdict` is a verdict that `entry` can get on day `today`. All is
/// settled by the entry and the two days, but for a snapshot whose mark may
/// fail to resolve in the local time zone.
pub open spec fn admissible(entry: Entry, verdict: Verdict, today: int, keep_days: int) -> bool {
    match entry {
        Entry::Unreadable => verdict == Verdict::Unreadable,
        Entry::Undecodable => verdict == Verdict::Undecodable,
        Entry::Named(name) => match name_kind(name@) {
            NameKind::Foreign => verdict == Verdict::Foreign,
            NameKind::Unparseable => verdict == Verdict::Unparseable,
            NameKind::Snapshot(mark) => {
                ||| verdict == Verdict::Unresolved
                ||| verdict == snapshot_verdict(
                    LocalResolution::Unique,
                    mark_day_number(mark)->0,
                    today,
                    keep_days,
                )
            },
        },
    }
}

/// The retention boundary: with `keep_days` days kept, a snapshot dated
/// exactly `keep_days` days before today is retained, one dated a day
/// earlier is expired, and one dated today is retained.
pub proof fn lemma_retention_boundary(today: int, keep_days: int)
    requires
        keep_days >= 0,
    ensures
        !expired(today - keep_days, today, keep_days),
        expired(today - keep_days - 1, today, keep_days),
        !expired(today, today, keep_days),
{
}

/// A snapshot is expired exactly when more than `keep_days` days lie between
/// its date and today.
pub proof fn lemma_expired_by_age(snapshot_day: int, today: int, keep_days: int)
    ensures
        expired(snapshot_day, today, keep_days) <==> today - snapshot_day > keep_days,
{
}

/// An entry whose name does not begin with the snapshot tag is foreign
/// whatever the day and the retention: it is never to be deleted.
pub proof fn lemma_foreign_entry_kept(entry: Entry, verdict: Verdict, today: int, keep_days: int)
    requires
        admissible(entry, verdict, today, keep_days),
        entry matches Entry::Named(name) && !has_snapshot_prefix(name@),
    ensures
        verdict == Verdict::Foreign,
{
}

/// An entry whose name begins with the tag but goes on with anything else
/// than the text of a time mark is never to be deleted.
pub proof fn lemma_unparseable_entry_kept(
    entry: Entry,
    verdict: Verdict,
    today: int,
    keep_days: int,
)
    requires
        admissible(entry, verdict, today, keep_days),
        entry matches Entry::Named(name) && has_snapshot_prefix(name@) && parsed_text(
            name@.subrange(8, name@.len() as int),
        ) is None,
    ensures
        verdict == Verdict::Unparseable,
{
}

/// Whatever is to be deleted is a snapshot, named by its own well-formed
/// mark, and dated before the horizon.
pub proof fn lemma_only_old_snapshots_expire(
    entry: Entry,
    verdict: Verdict,
    today: int,
    keep_days: int,
)
    requires
        admissible(entry, verdict, today, keep_days),
        verdict == Verdict::Expired,
    ensures
        entry matches Entry::Named(name) && name_kind(name@) matches NameKind::Snapshot(mark)
            && mark.wf() && expired(mark_day_number(mark)->0, today, keep_days),
{
    match entry {
        Entry::Named(name) => match name_kind(name@) {
            NameKind::Snapshot(mark) => {
                lemma_recognised_name_is_snapshot(name@, mark);
            },
            _ => {},
        },
        _ => {},
    }
}

/// A snapshot is never deleted on the day it was taken: the snapshot named
/// after `now` is kept by a cleanup on the day of `now`, however few days are
/// kept.
pub proof fn lemma_fresh_snapshot_kept(now: TimeMark, entry: Entry, verdict: Verdict, keep_days: int)
    requires
        now.wf(),
        keep_days >= 0,
        entry matches Entry::Named(name) && name@ == snapshot_name(now),
        admissible(entry, verdict, mark_day_number(now)->0, keep_days),
    ensures
        verdict != Verdict::Expired,
{
    lemma_snapshot_name_recognised(now);
}

/// Whether a snapshot dated `snapshot_day` is past the horizon on day `today`.
pub fn is_expired(snapshot_day: i32, today: i32, keep_days: u64) -> (old_enough: bool)
    ensures
        old_enough == expired(snapshot_day as int, today as int, keep_days as int),
{
    (snapshot_day as i128) < (today as i128) - (keep_days as i128)
}

/// The verdict on a snapshot whose mark resolved as `resolution` and whose
/// date is day `snapshot_day`.
pub fn judge_snapshot(
    resolution: LocalResolution,
    snapshot_day: i32,
    today: i32,
    keep_days: u64,
) -> (verdict: Verdict)
    ensures
        verdict == snapshot_verdict(
            resolution,
            snapshot_day as int,
            today as int,
            keep_days as int,
        ),
{
    match resolution {
        LocalResolution::Unique => {
            if is_expired(snapshot_day, today, keep_days) {
                Verdict::Expired
            } else {
                Verdict::Retained
            }
        },
        _ => Verdict::Unresolved,
    }
}

/// The verdict on one entry on day `today`. The local time zone is asked
/// whether a snapshot's mark names one instant; where it does not, the
/// snapshot is kept.
pub fn judge_entry(entry: &Entry, today: i32, keep_days: u64) -> (verdict: Verdict)
    ensures
        admissible(*entry, verdict, today as int, keep_days as int),
{
    match entry {
        Entry::Unreadable => Verdict::Unreadable,
        Entry::Undecodable => Verdict::Undecodable,
        Entry::Named(name) => match classify_name(name.as_str()) {
            NameKind::Foreign => Verdict::Foreign,
            NameKind::Unparseable => Verdict::Unparseable,
            NameKind::Snapshot(mark) => {
                proof {
                    lemma_recognised_name_is_snapshot(name@, mark);
                }
                let resolution = local_resolution(&mark);
                let snapshot_day = day_number_of(&mark);
                judge_snapshot(resolution, snapshot_day, today, keep_days)
            },
        },
    }
}

/// What the caller of a cleanup run is to do next.
#[derive(Clone, Copy, Debug, PartialEq, Eq, Structural)]
pub enum CleanupStep {
    /// Delete, with all it holds, the directory of the entry at this index.
    Delete { entry: usize },
    /// Every entry has been seen to: the run ends in success.
    Finished,
    /// The deletion of the entry at this index failed: the run ends in that
    /// error, and the entries after it stay unseen.
    Aborted { entry: usize },
}

/// The first deletion at or after index `from`, or the end of the run.
pub open spec fn scan_from(verdicts: Seq<Verdict>, from: int) -> CleanupStep
    decreases verdicts.len() - from,
{
    if from < 0 || from >= verdicts.len() {
        CleanupStep::Finished
    } else if verdicts[from] == Verdict::Expired {
        CleanupStep::Delete { entry: from as usize }
    } else {
        scan_from(verdicts, from + 1)
    }
}

/// The step that follows `step` once it came back as `outcome`: a failed
/// deletion ends the run, a deletion that succeeded leads to the next one.
pub open spec fn cleanup_step_after(
    verdicts: Seq<Verdict>,
    step: CleanupStep,
    outcome: StepOutcome,
) -> CleanupStep {
    match step {
        CleanupStep::Delete { entry } => {
            if outcome == StepOutcome::Failed {
                CleanupStep::Aborted { entry }
            } else {
                scan_from(verdicts, entry + 1)
            }
        },
        ended => ended,
    }
}

/// What a scan hands out: the deletion of the first expired entry at or
/// after `from`, and the end of the run only where none is left.
pub proof fn lemma_scan_from(verdicts: Seq<Verdict>, from: int)
    requires
        0 <= from,
        verdicts.len() <= usize::MAX,
    ensures
        match scan_from(verdicts, from) {
            CleanupStep::Delete { entry } => {
                &&& from <= entry < verdicts.len()
                &&& verdicts[entry as int] == Verdict::Expired
                &&& forall|i: int| from <= i < entry ==> verdicts[i] != Verdict::Expired
            },
            CleanupStep::Finished => forall|i: int|
                from <= i < verdicts.len() ==> verdicts[i] != Verdict::Expired,
            CleanupStep::Aborted { .. } => false,
        },
    decreases verdicts.len() - from,
{
    if from < verdicts.len() && verdicts[from] != Verdict::Expired {
        lemma_scan_from(verdicts, from + 1);
    }
}

/// A cleanup run: the verdicts on the listed entries, in the order of the
/// listing, and the step that is due.
#[derive(Debug)]
pub struct CleanupRun {
    pub verdicts: Vec<Verdict>,
    pub step: CleanupStep,
}

fn next_deletion(verdicts: &Vec<Verdict>, from: usize) -> (step: CleanupStep)
    ensures
        step == scan_from(verdicts@, from as int),
{
    let mut at: usize = from;
    while at < verdicts.len()
        invariant
            from <= at,
            scan_from(verdicts@, from as int) == scan_from(verdicts@, at as int),
        decreases verdicts.len() - at,
    {
        if verdicts[at] == Verdict::Expired {
            return CleanupStep::Delete { entry: at };
        }
        at += 1;
    }
    CleanupStep::Finished
}

/// Judges every entry of the listing on the day of `now` and hands out the
/// first deletion. An entry is `Expired` only if its name is that of a
/// snapshot dated more than `config.keep_days` days before `now`.
pub fn cleanup_old_backups(config: &BackuperConfig, now: &TimeMark, entries: &Vec<Entry>) -> (run:
    CleanupRun)
    requires
        now.wf(),
    ensures
        run.verdicts.len() == entries.len(),
        forall|i: int|
            0 <= i < entries.len() ==> admissible(
                #[trigger] entries[i],
                run.verdicts[i],
                mark_day_number(*now)->0,
                config.keep_days as int,
            ),
        run.step == scan_from(run.verdicts@, 0),
        run.wf(),
{
    let today = day_number_of(now);
    let mut verdicts: Vec<Verdict> = Vec::new();
    let mut at: usize = 0;
    while at < entries.len()
        invariant
            at <= entries.len(),
            verdicts.len() == at,
            mark_day_number(*now) == Some(today as int),
            forall|i: int|
                0 <= i < at ==> admissible(
                    #[trigger] entries[i],
                    verdicts[i],
                    today as int,
                    config.keep_days as int,
                ),
        decreases entries.len() - at,
    {
        let verdict = judge_entry(&entries[at], today, config.keep_days);
        verdicts.push(verdict);
        at += 1;
    }
    let step = next_deletion(&verdicts, 0);
    proof {
        lemma_scan_from(verdicts@, 0);
    }
    CleanupRun { verdicts, step }
}

impl CleanupRun {
    /// A run never asks for the deletion of anything but an expired entry:
    /// where the step that is due is a deletion, it is that of an entry of
    /// the listing whose verdict is `Expired`.
    pub open spec fn wf(&self) -> bool {
        self.step matches CleanupStep::Delete { entry } ==> entry < self.verdicts.len()
            && self.verdicts[entry as int] == Verdict::Expired
    }

    /// Takes the outcome of the step that was due and makes the next one due.
    pub fn advance(&mut self, outcome: StepOutcome)
        ensures
            final(self).verdicts == old(self).verdicts,
            final(self).step == cleanup_step_after(old(self).verdicts@, old(self).step, outcome),
            final(self).wf(),
    {
        proof {
            if let CleanupStep::Delete { entry } = self.step {
                assert(self.verdicts@.len() == self.verdicts.len());
                lemma_scan_from(self.verdicts@, entry + 1);
            }
        }
        match self.step {
            CleanupStep::Delete { entry } => {
                match outcome {
                    StepOutcome::Failed => {
                        self.step = CleanupStep::Aborted { entry };
                    },
                    StepOutcome::Succeeded => {
                        if entry < self.verdicts.len() {
                            self.step = next_deletion(&self.verdicts, entry + 1);
                        } else {
                            self.step = CleanupStep::Finished;
                        }
                    },
                }
            },
            _ => {},
        }
    }
}

} // verus!
