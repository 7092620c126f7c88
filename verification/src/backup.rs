//! The snapshot writer: one snapshot per run, one directory per category
//! under it, and every source of every category copied into its directory.
//!
//! The writer touches no file. `do_backup` names the snapshot and hands out
//! the first step; the caller performs it and reports the outcome to
//! `BackupRun::advance`, which hands out the next. A copy that fails changes
//! nothing of what follows; a category directory that cannot be made ends
//! the run.

use crate::config::structs::{BackuperConfig, ConfigView, SourceView};
use crate::snapshot::{snapshot_dir_name, snapshot_name};
use crate::step::StepOutcome;
use crate::time_mark::TimeMark;
use vstd::prelude::*;

verus! {

/// What the caller of a backup run is to do next. Categories and sources are
/// given by their index in the configuration.
#[derive(Clone, Copy, Debug, PartialEq, Eq, Structural)]
pub enum BackupStep {
    /// Make sure that the directory of this category exists under the
    /// snapshot's directory: create it with all its parents where it is
    /// missing, and leave it as it is where it exists.
    EnsureDirectory { category: usize },
    /// Copy this source of this category into the category's directory.
    CopySource { category: usize, source: usize },
    /// Every category has been gone through: the run ends in success.
    Finished,
    /// The directory of this category could not be made: the run ends in
    /// that error.
    Aborted { category: usize },
}

/// The step that opens the category after `category`, or the end of the run.
pub open spec fn next_category(sources: Seq<SourceView>, category: int) -> BackupStep {
    if 0 <= category + 1 < sources.len() {
        BackupStep::EnsureDirectory { category: (category + 1) as usize }
    } else {
        BackupStep::Finished
    }
}

/// The copy of source `source` of `category` where there is one, else what
/// follows the category.
pub open spec fn copy_or_next(sources: Seq<SourceView>, category: int, source: int) -> BackupStep {
    if 0 <= category < sources.len() && 0 <= source < sources[category].paths.len() {
        BackupStep::CopySource { category: category as usize, source: source as usize }
    } else {
        next_category(sources, category)
    }
}

/// The first step of a run.
pub open spec fn first_backup_step(sources: Seq<SourceView>) -> BackupStep {
    next_category(sources, -1)
}

/// The step that follows `step` once it came back as `outcome`. The outcome
/// of a copy is not looked at.
pub open spec fn backup_step_after(
    sources: Seq<SourceView>,
    step: BackupStep,
    outcome: StepOutcome,
) -> BackupStep {
    match step {
        BackupStep::EnsureDirectory { category } => {
            if outcome == StepOutcome::Failed {
                BackupStep::Aborted { category }
            } else {
                copy_or_next(sources, category as int, 0)
            }
        },
        BackupStep::CopySource { category, source } => copy_or_next(
            sources,
            category as int,
            source + 1,
        ),
        ended => ended,
    }
}

/// The directory that `step` works in, as the names on the way down to it:
/// the destination root, the snapshot's directory under it, and under that
/// the directory named after the category. `None` for a step that names no
/// category of the configuration.
pub open spec fn step_directory(
    config: ConfigView,
    snapshot: Seq<char>,
    step: BackupStep,
) -> Option<Seq<Seq<char>>> {
    match step {
        BackupStep::EnsureDirectory { category } | BackupStep::CopySource { category, .. } => {
            if category < config.sources.len() {
                Some(seq![config.destination, snapshot, config.sources[category as int].name])
            } else {
                None
            }
        },
        _ => None,
    }
}

/// The path that `step` copies; `None` for a step that copies no source of
/// the configuration.
pub open spec fn step_source(config: ConfigView, step: BackupStep) -> Option<Seq<char>> {
    match step {
        BackupStep::CopySource { category, source } => {
            if category < config.sources.len() && source < config.sources[category as int].paths.len() {
                Some(config.sources[category as int].paths[source as int])
            } else {
                None
            }
        },
        _ => None,
    }
}

/// A backup run: the name of the snapshot's directory, which all categories
/// of the run share, and the step that is due.
#[derive(Debug)]
pub struct BackupRun {
    pub snapshot: String,
    pub step: BackupStep,
}

fn open_next_category(config: &BackuperConfig, category: usize) -> (step: BackupStep)
    requires
        category < config.backup_sources.len(),
    ensures
        step == next_category(config@.sources, category as int),
{
    if category + 1 < config.backup_sources.len() {
        BackupStep::EnsureDirectory { category: category + 1 }
    } else {
        BackupStep::Finished
    }
}

fn copy_or_open_next(config: &BackuperConfig, category: usize, source: usize) -> (step: BackupStep)
    ensures
        step == copy_or_next(config@.sources, category as int, source as int),
{
    if category >= config.backup_sources.len() {
        return BackupStep::Finished;
    }
    assert(config@.sources[category as int].paths.len()
        == config.backup_sources[category as int].paths.len());
    if source < config.backup_sources[category].paths.len() {
        BackupStep::CopySource { category, source }
    } else {
        open_next_category(config, category)
    }
}

/// Begins a backup run at the local time `now`: names the snapshot after
/// `now` and hands out the first step.
pub fn do_backup(config: &BackuperConfig, now: &TimeMark) -> (run: BackupRun)
    requires
        now.wf(),
    ensures
        run.snapshot@ == snapshot_name(*now),
        run.step == first_backup_step(config@.sources),
        run.wf(config@),
{
    let step = if config.backup_sources.len() > 0 {
        BackupStep::EnsureDirectory { category: 0 }
    } else {
        BackupStep::Finished
    };
    BackupRun { snapshot: snapshot_dir_name(now), step }
}

impl BackupRun {
    /// Every step that a run hands out names a category of the
    /// configuration, and every copy a source of that category.
    pub open spec fn wf(&self, config: ConfigView) -> bool {
        match self.step {
            BackupStep::EnsureDirectory { .. } => step_directory(
                config,
                self.snapshot@,
                self.step,
            ) is Some,
            BackupStep::CopySource { .. } => step_directory(config, self.snapshot@, self.step)
                is Some && step_source(config, self.step) is Some,
            _ => true,
        }
    }

    /// The directory that the due step works in, from the destination root
    /// down to the category's directory.
    pub fn directory(&self, config: &BackuperConfig) -> (path: Option<Vec<String>>)
        ensures
            match path {
                Some(names) => step_directory(config@, self.snapshot@, self.step) == Some(
                    names.deep_view(),
                ),
                None => step_directory(config@, self.snapshot@, self.step) is None,
            },
    {
        let category = match self.step {
            BackupStep::EnsureDirectory { category } => category,
            BackupStep::CopySource { category, .. } => category,
            _ => { return None; },
        };
        if category >= config.backup_sources.len() {
            return None;
        }
        let mut names: Vec<String> = Vec::new();
        names.push(config.destination.clone());
        names.push(self.snapshot.clone());
        names.push(config.backup_sources[category].name.clone());
        assert(names.deep_view() =~= seq![
            config@.destination,
            self.snapshot@,
            config@.sources[category as int].name,
        ]);
        Some(names)
    }

    /// The path that the due step copies.
    pub fn source(&self, config: &BackuperConfig) -> (path: Option<String>)
        ensures
            match path {
                Some(source) => step_source(config@, self.step) == Some(source@),
                None => step_source(config@, self.step) is None,
            },
    {
        match self.step {
            BackupStep::CopySource { category, source } => {
                if category >= config.backup_sources.len() {
                    return None;
                }
                assert(config@.sources[category as int].paths.len()
                    == config.backup_sources[category as int].paths.len());
                if source >= config.backup_sources[category].paths.len() {
                    return None;
                }
                Some(config.backup_sources[category].paths[source].clone())
            },
            _ => None,
        }
    }

    /// Takes the outcome of the step that was due and makes the next one due.
    pub fn advance(&mut self, config: &BackuperConfig, outcome: StepOutcome)
        ensures
            final(self).snapshot == old(self).snapshot,
            final(self).step == backup_step_after(config@.sources, old(self).step, outcome),
            final(self).wf(config@),
    {
        match self.step {
            BackupStep::EnsureDirectory { category } => {
                match outcome {
                    StepOutcome::Failed => {
                        self.step = BackupStep::Aborted { category };
                    },
                    StepOutcome::Succeeded => {
                        self.step = copy_or_open_next(config, category, 0);
                    },
                }
            },
            BackupStep::CopySource { category, source } => {
                if source < usize::MAX {
                    self.step = copy_or_open_next(config, category, source + 1);
                } else if category < config.backup_sources.len() {
                    assert(config@.sources[category as int].paths.len()
                        == config.backup_sources[category as int].paths.len());
                    self.step = open_next_category(config, category);
                } else {
                    self.step = BackupStep::Finished;
                }
            },
            _ => {},
        }
    }
}

/// Each category has a directory of its own: in a configuration in which no
/// category name occurs twice, two categories never share a directory.
pub proof fn lemma_directories_apart(
    config: BackuperConfig,
    snapshot: Seq<char>,
    first: usize,
    second: usize,
)
    requires
        config.wf(),
        first < config@.sources.len(),
        second < config@.sources.len(),
        first != second,
    ensures
        step_directory(config@, snapshot, BackupStep::EnsureDirectory { category: first })
            != step_directory(config@, snapshot, BackupStep::EnsureDirectory { category: second }),
{
    let one = seq![config@.destination, snapshot, config@.sources[first as int].name];
    let other = seq![config@.destination, snapshot, config@.sources[second as int].name];
    assert(one[2] != other[2]);
}

/// The steps of one category: its directory, then its sources in order.
pub open spec fn category_steps(sources: Seq<SourceView>, category: int) -> Seq<BackupStep> {
    seq![BackupStep::EnsureDirectory { category: category as usize }] + Seq::new(
        sources[category].paths.len(),
        |source: int| BackupStep::CopySource { category: category as usize, source: source as usize },
    )
}

/// The steps of the categories from `category` on, in the order of the
/// configuration.
pub open spec fn plan_from(sources: Seq<SourceView>, category: int) -> Seq<BackupStep>
    decreases sources.len() - category,
{
    if category < 0 || category >= sources.len() {
        Seq::empty()
    } else {
        category_steps(sources, category) + plan_from(sources, category + 1)
    }
}

/// All that a run does where every directory can be made: every category in
/// order, and in each its directory and then every one of its sources.
pub open spec fn backup_plan(sources: Seq<SourceView>) -> Seq<BackupStep> {
    plan_from(sources, 0)
}

/// Partial-failure isolation: after a copy, the run goes on with the same
/// step whether the copy failed or succeeded.
pub proof fn lemma_copy_failure_isolated(
    sources: Seq<SourceView>,
    category: usize,
    source: usize,
)
    ensures
        backup_step_after(
            sources,
            BackupStep::CopySource { category, source },
            StepOutcome::Failed,
        ) == backup_step_after(
            sources,
            BackupStep::CopySource { category, source },
            StepOutcome::Succeeded,
        ),
{
}

proof fn lemma_walk_from(
    config: BackuperConfig,
    category: int,
    at: int,
    outcome: StepOutcome,
)
    requires
        0 <= category <= config@.sources.len(),
        0 <= at < plan_from(config@.sources, category).len(),
        plan_from(config@.sources, category)[at] is EnsureDirectory ==> outcome
            == StepOutcome::Succeeded,
    ensures
        backup_step_after(config@.sources, plan_from(config@.sources, category)[at], outcome) == (
        if at + 1 < plan_from(config@.sources, category).len() {
            plan_from(config@.sources, category)[at + 1]
        } else {
            BackupStep::Finished
        }),
    decreases config@.sources.len() - category,
{
    let sources = config@.sources;
    let here = category_steps(sources, category);
    let rest = plan_from(sources, category + 1);
    let copies = sources[category].paths.len() as int;
    assert(sources.len() == config.backup_sources.len());
    assert(copies == config.backup_sources[category].paths.len());
    assert(plan_from(sources, category) == here + rest);
    assert(here.len() == 1 + copies);
    if category + 1 < sources.len() {
        assert(rest == category_steps(sources, category + 1) + plan_from(sources, category + 2));
        assert(rest[0] == BackupStep::EnsureDirectory { category: (category + 1) as usize });
    } else {
        assert(rest.len() == 0);
    }
    if at > copies {
        lemma_walk_from(config, category + 1, at - 1 - copies, outcome);
    }
}

/// A run walks the plan: as long as no directory fails to be made, each
/// step of the plan is followed by the next one, whatever became of the
/// copies, and the last one by the end of the run.
pub proof fn lemma_run_walks_plan(config: BackuperConfig, at: int, outcome: StepOutcome)
    requires
        0 <= at < backup_plan(config@.sources).len(),
        backup_plan(config@.sources)[at] is EnsureDirectory ==> outcome == StepOutcome::Succeeded,
    ensures
        backup_plan(config@.sources)[0] == first_backup_step(config@.sources),
        backup_step_after(config@.sources, backup_plan(config@.sources)[at], outcome) == (if at + 1
            < backup_plan(config@.sources).len() {
            backup_plan(config@.sources)[at + 1]
        } else {
            BackupStep::Finished
        }),
{
    let sources = config@.sources;
    lemma_walk_from(config, 0, at, outcome);
    assert(plan_from(sources, 0) == category_steps(sources, 0) + plan_from(sources, 1));
}

/// A run with nothing in its plan is over at once.
pub proof fn lemma_empty_plan(config: BackuperConfig)
    ensures
        backup_plan(config@.sources).len() == 0 <==> config@.sources.len() == 0,
        backup_plan(config@.sources).len() == 0 ==> first_backup_step(config@.sources)
            == BackupStep::Finished,
{
    let sources = config@.sources;
    if sources.len() > 0 {
        assert(plan_from(sources, 0) == category_steps(sources, 0) + plan_from(sources, 1));
    }
}

proof fn lemma_covers_from(config: BackuperConfig, from: int, category: int)
    requires
        0 <= from <= category < config@.sources.len(),
    ensures
        forall|step: BackupStep|
            category_steps(config@.sources, category).contains(step) ==> #[trigger] plan_from(
                config@.sources,
                from,
            ).contains(step),
    decreases category - from,
{
    let sources = config@.sources;
    let here = category_steps(sources, from);
    let rest = plan_from(sources, from + 1);
    let plan = plan_from(sources, from);
    assert(plan == here + rest);
    if from == category {
        assert forall|step: BackupStep| here.contains(step) implies plan.contains(step) by {
            let at = choose|i: int| 0 <= i < here.len() && here[i] == step;
            assert(plan[at] == step);
        }
    } else {
        lemma_covers_from(config, from + 1, category);
        assert forall|step: BackupStep| rest.contains(step) implies plan.contains(step) by {
            let at = choose|i: int| 0 <= i < rest.len() && rest[i] == step;
            assert(plan[here.len() + at] == step);
        }
    }
}

/// The plan leaves nothing out: it holds the directory of every category,
/// also of one without sources, and the copy of every source of every
/// category. With `lemma_run_walks_plan`: where one source cannot be copied,
/// the others of its category and all the categories after it still are.
pub proof fn lemma_plan_covers(config: BackuperConfig, category: int, source: int)
    requires
        0 <= category < config@.sources.len(),
    ensures
        backup_plan(config@.sources).contains(
            BackupStep::EnsureDirectory { category: category as usize },
        ),
        0 <= source < config@.sources[category].paths.len() ==> backup_plan(
            config@.sources,
        ).contains(BackupStep::CopySource { category: category as usize, source: source as usize }),
{
    let here = category_steps(config@.sources, category);
    lemma_covers_from(config, 0, category);
    assert(here[0] == BackupStep::EnsureDirectory { category: category as usize });
    if 0 <= source < config@.sources[category].paths.len() {
        assert(here[1 + source] == BackupStep::CopySource {
            category: category as usize,
            source: source as usize,
        });
    }
}

} // verus!
