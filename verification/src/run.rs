//! Runs: what executing a plan comes to, node by node.
//!
//! A run consumes a plan, which stays the source of truth for what runs. How
//! it executes is decided here and in [`crate::schedule`]: the physical
//! operation of each model, retries with backoff for transient adapter
//! failures, what a test's answer means, and the records that make a run
//! resumable.

use vstd::prelude::*;

use crate::events::{EngineEvent, EngineEventView, ExecutionStatus};
use crate::failure::{
    unattempted, Attempt, AttemptView, Duration, Failure, FailureCategory, FailureView,
    RetryPolicy,
};
use crate::plan::{
    Plan, PlanAction, PlanView, PlannedModel, PlannedModelView, PlannedSeed, PlannedSeedView,
    PlannedTest, PlannedTestView,
};
use crate::planner::{strategy_code, strategy_code_of, strategy_key, strategy_key_of};
use crate::seqs::{
    count_where, first_where, gather, lemma_count_ends, lemma_first_ends, lemma_first_step,
    lemma_gather_ends, lemma_gather_step,
};
use crate::state::{
    MaterializedRecord, MaterializedRecordView, ModelRunRecord, ModelRunRecordView, RunRecord,
    RunRecordView, SeedRecord, SeedRecordView, SeedRunRecord, SeedRunRecordView, StoredPlan,
    StoredPlanModel, StoredPlanModelView, StoredPlanSeed, StoredPlanSeedView, StoredPlanTest,
    StoredPlanTestView, StoredPlanView, TestRunRecord, TestRunRecordView,
};
use crate::text::{
    cat2, cat3, cat4, cat5, decimal, decimal_text, head, head_text, join, join_text, none_of, put,
    put_all, same, same_option, DeepClone,
};
use crate::util::{sha256_hex, sha256_text};
use crate::workspace::{
    double_marks, doubled, quote, quoted, relation_sql, relation_text, type_text, CompiledModel,
    CompiledModelView, CompiledSeed, CompiledSeedView, DataType, DataTypeView, IncrementalStrategy,
    IncrementalStrategyView, Materialization, SchemaColumn, SchemaColumnView,
};

verus! {

/// Options controlling a run.
#[derive(Clone, Debug)]
pub struct RunOptions {
    pub environment: Option<String>,
    /// Maximum concurrent model builds.
    pub concurrency: usize,
    /// Run custom tests after the models.
    pub run_tests: bool,
    /// Stop scheduling new work on the first unrecoverable failure.
    pub fail_fast: bool,
    /// Retry policy for transient adapter failures.
    pub retry: RetryPolicy,
    /// Per-attempt timeout for model builds and test executions.
    pub model_timeout: Option<Duration>,
}

impl Default for RunOptions {
    fn default() -> (options: Self)
        ensures
            options.environment is None,
            options.concurrency == 4,
            options.run_tests,
            !options.fail_fast,
            options.retry.retries == 0,
            options.retry.base_delay.whole_seconds() == 0,
            options.retry.base_delay.remainder_nanos() == 200_000_000,
            options.retry.max_delay.whole_seconds() == 5,
            options.retry.max_delay.remainder_nanos() == 0,
            options.model_timeout is None,
    {
        RunOptions {
            environment: None,
            concurrency: 4,
            run_tests: true,
            fail_fast: false,
            retry: RetryPolicy::default(),
            model_timeout: None,
        }
    }
}

/// The outcome of a single model.
#[derive(Clone, Debug, PartialEq, Eq)]
pub struct ModelResult {
    pub model: String,
    pub target: String,
    pub materialization: String,
    /// The plan action that governed this model (`build`, `skip`, `cached`).
    pub action: String,
    pub status: ExecutionStatus,
    pub desired_version: String,
    pub previous_version: Option<String>,
    pub reasons: Vec<String>,
    pub query_id: Option<String>,
    /// Every attempt made, oldest first.
    pub attempts: Vec<Attempt>,
    /// Structured failure detail: category, adapter error, attempt.
    pub failure: Option<Failure>,
    pub started_at: Option<String>,
    pub finished_at: Option<String>,
    pub duration_ms: u64,
    pub sql_hash: String,
    /// The strong physical identity of `target` captured right after the
    /// build. Verified again before the materialised version is recorded, so
    /// that a concurrent writer's output is never claimed as this run's.
    pub output_identity: Option<String>,
}

/// The contents of a [`ModelResult`].
pub struct ModelResultView {
    pub model: Seq<char>,
    pub target: Seq<char>,
    pub materialization: Seq<char>,
    pub action: Seq<char>,
    pub status: ExecutionStatus,
    pub desired_version: Seq<char>,
    pub previous_version: Option<Seq<char>>,
    pub reasons: Seq<Seq<char>>,
    pub query_id: Option<Seq<char>>,
    pub attempts: Seq<AttemptView>,
    pub failure: Option<FailureView>,
    pub started_at: Option<Seq<char>>,
    pub finished_at: Option<Seq<char>>,
    pub duration_ms: u64,
    pub sql_hash: Seq<char>,
    pub output_identity: Option<Seq<char>>,
}

impl DeepView for ModelResult {
    type V = ModelResultView;

    open spec fn deep_view(&self) -> ModelResultView {
        ModelResultView {
            model: self.model@,
            target: self.target@,
            materialization: self.materialization@,
            action: self.action@,
            status: self.status,
            desired_version: self.desired_version@,
            previous_version: self.previous_version.deep_view(),
            reasons: self.reasons.deep_view(),
            query_id: self.query_id.deep_view(),
            attempts: self.attempts.deep_view(),
            failure: self.failure.deep_view(),
            started_at: self.started_at.deep_view(),
            finished_at: self.finished_at.deep_view(),
            duration_ms: self.duration_ms,
            sql_hash: self.sql_hash@,
            output_identity: self.output_identity.deep_view(),
        }
    }
}

impl DeepClone for ModelResult {
    fn deep_clone(&self) -> (copy: Self) {
        ModelResult {
            model: self.model.deep_clone(),
            target: self.target.deep_clone(),
            materialization: self.materialization.deep_clone(),
            action: self.action.deep_clone(),
            status: self.status,
            desired_version: self.desired_version.deep_clone(),
            previous_version: self.previous_version.deep_clone(),
            reasons: self.reasons.deep_clone(),
            query_id: self.query_id.deep_clone(),
            attempts: self.attempts.deep_clone(),
            failure: self.failure.deep_clone(),
            started_at: self.started_at.deep_clone(),
            finished_at: self.finished_at.deep_clone(),
            duration_ms: self.duration_ms,
            sql_hash: self.sql_hash.deep_clone(),
            output_identity: self.output_identity.deep_clone(),
        }
    }
}

/// The outcome of a single seed load.
#[derive(Clone, Debug, PartialEq, Eq)]
pub struct SeedResult {
    pub seed: String,
    pub target: String,
    pub status: ExecutionStatus,
    pub attempts: Vec<Attempt>,
    pub failure: Option<Failure>,
    pub duration_ms: u64,
}

/// The contents of a [`SeedResult`].
pub struct SeedResultView {
    pub seed: Seq<char>,
    pub target: Seq<char>,
    pub status: ExecutionStatus,
    pub attempts: Seq<AttemptView>,
    pub failure: Option<FailureView>,
    pub duration_ms: u64,
}

impl DeepView for SeedResult {
    type V = SeedResultView;

    open spec fn deep_view(&self) -> SeedResultView {
        SeedResultView {
            seed: self.seed@,
            target: self.target@,
            status: self.status,
            attempts: self.attempts.deep_view(),
            failure: self.failure.deep_view(),
            duration_ms: self.duration_ms,
        }
    }
}

impl DeepClone for SeedResult {
    fn deep_clone(&self) -> (copy: Self) {
        SeedResult {
            seed: self.seed.deep_clone(),
            target: self.target.deep_clone(),
            status: self.status,
            attempts: self.attempts.deep_clone(),
            failure: self.failure.deep_clone(),
            duration_ms: self.duration_ms,
        }
    }
}

/// The outcome of a single test.
#[derive(Clone, Debug, PartialEq, Eq)]
pub struct TestResult {
    pub test: String,
    pub status: ExecutionStatus,
    pub row_count: u64,
    pub query_id: Option<String>,
    pub failure: Option<Failure>,
    pub duration_ms: u64,
}

/// The contents of a [`TestResult`].
pub struct TestResultView {
    pub test: Seq<char>,
    pub status: ExecutionStatus,
    pub row_count: u64,
    pub query_id: Option<Seq<char>>,
    pub failure: Option<FailureView>,
    pub duration_ms: u64,
}

impl DeepView for TestResult {
    type V = TestResultView;

    open spec fn deep_view(&self) -> TestResultView {
        TestResultView {
            test: self.test@,
            status: self.status,
            row_count: self.row_count,
            query_id: self.query_id.deep_view(),
            failure: self.failure.deep_view(),
            duration_ms: self.duration_ms,
        }
    }
}

impl DeepClone for TestResult {
    fn deep_clone(&self) -> (copy: Self) {
        TestResult {
            test: self.test.deep_clone(),
            status: self.status,
            row_count: self.row_count,
            query_id: self.query_id.deep_clone(),
            failure: self.failure.deep_clone(),
            duration_ms: self.duration_ms,
        }
    }
}

/// Per-status counts across every node in the run (models, seeds, tests).
#[derive(Clone, Copy, Debug, PartialEq, Eq, Structural)]
pub struct RunCounts {
    pub passed: usize,
    pub failed: usize,
    pub skipped: usize,
    pub cached: usize,
    pub blocked: usize,
    pub cancelled: usize,
}

impl DeepView for RunCounts {
    type V = RunCounts;

    open spec fn deep_view(&self) -> RunCounts {
        *self
    }
}

impl DeepClone for RunCounts {
    fn deep_clone(&self) -> (copy: Self) {
        *self
    }
}

impl Default for RunCounts {
    fn default() -> (counts: Self)
        ensures
            counts == no_counts(),
    {
        RunCounts { passed: 0, failed: 0, skipped: 0, cached: 0, blocked: 0, cancelled: 0 }
    }
}

/// Nothing counted yet.
pub open spec fn no_counts() -> RunCounts {
    RunCounts { passed: 0, failed: 0, skipped: 0, cached: 0, blocked: 0, cancelled: 0 }
}

/// Picks a status.
pub open spec fn is_status(status: ExecutionStatus) -> spec_fn(ExecutionStatus) -> bool {
    |other: ExecutionStatus| other == status
}

/// How often a status occurs.
pub open spec fn occurrences(
    statuses: Seq<ExecutionStatus>,
    status: ExecutionStatus,
) -> nat {
    count_where(statuses, is_status(status))
}

/// Whether `counts` counts the terminal statuses of nodes.
pub open spec fn counts_of(counts: RunCounts, statuses: Seq<ExecutionStatus>) -> bool {
    &&& counts.passed == occurrences(statuses, ExecutionStatus::Passed)
    &&& counts.failed == occurrences(statuses, ExecutionStatus::Failed)
    &&& counts.skipped == occurrences(statuses, ExecutionStatus::Skipped)
    &&& counts.cached == occurrences(statuses, ExecutionStatus::Cached)
    &&& counts.blocked == occurrences(statuses, ExecutionStatus::Blocked)
    &&& counts.cancelled == occurrences(statuses, ExecutionStatus::Cancelled)
}

/// The counts with one more node.
pub open spec fn counted(counts: RunCounts, status: ExecutionStatus) -> RunCounts {
    match status {
        ExecutionStatus::Passed => RunCounts { passed: (counts.passed + 1) as usize, ..counts },
        ExecutionStatus::Failed => RunCounts { failed: (counts.failed + 1) as usize, ..counts },
        ExecutionStatus::Skipped => RunCounts { skipped: (counts.skipped + 1) as usize, ..counts },
        ExecutionStatus::Cached => RunCounts { cached: (counts.cached + 1) as usize, ..counts },
        ExecutionStatus::Blocked => RunCounts { blocked: (counts.blocked + 1) as usize, ..counts },
        ExecutionStatus::Cancelled => RunCounts {
            cancelled: (counts.cancelled + 1) as usize,
            ..counts
        },
        _ => counts,
    }
}

impl RunCounts {
    /// Counts one more node. Nodes that are not done are not counted.
    pub fn add(&mut self, status: ExecutionStatus)
        requires
            old(self).passed < usize::MAX,
            old(self).failed < usize::MAX,
            old(self).skipped < usize::MAX,
            old(self).cached < usize::MAX,
            old(self).blocked < usize::MAX,
            old(self).cancelled < usize::MAX,
        ensures
            *final(self) == counted(*old(self), status),
    {
        match status {
            ExecutionStatus::Passed => self.passed = self.passed + 1,
            ExecutionStatus::Failed => self.failed = self.failed + 1,
            ExecutionStatus::Skipped => self.skipped = self.skipped + 1,
            ExecutionStatus::Cached => self.cached = self.cached + 1,
            ExecutionStatus::Blocked => self.blocked = self.blocked + 1,
            ExecutionStatus::Cancelled => self.cancelled = self.cancelled + 1,
            _ => {},
        }
    }
}

proof fn lemma_occurrences(before: Seq<ExecutionStatus>, status: ExecutionStatus)
    ensures
        forall|other: ExecutionStatus| #[trigger]
            occurrences(before.push(status), other) == occurrences(before, other) + if other
                == status {
                1nat
            } else {
                0nat
            },
        forall|other: ExecutionStatus| #[trigger] occurrences(before, other) <= before.len(),
{
    assert forall|other: ExecutionStatus| #[trigger]
        occurrences(before.push(status), other) == occurrences(before, other) + if other
            == status {
            1nat
        } else {
            0nat
        } by {
        assert(before.push(status).drop_last() =~= before);
    }
    assert forall|other: ExecutionStatus| #[trigger]
        occurrences(before, other) <= before.len() by {
        lemma_count_ends(before, is_status(other));
    }
}

/// The statuses of every node of a run: models, then seeds, then tests.
pub open spec fn all_statuses(
    models: Seq<ModelResultView>,
    seeds: Seq<SeedResultView>,
    tests: Seq<TestResultView>,
) -> Seq<ExecutionStatus> {
    Seq::new(models.len(), |i: int| models[i].status) + Seq::new(
        seeds.len(),
        |i: int| seeds[i].status,
    ) + Seq::new(tests.len(), |i: int| tests[i].status)
}

/// Per-status counts over models, seeds and tests.
pub fn tally(models: &Vec<ModelResult>, seeds: &Vec<SeedResult>, tests: &Vec<TestResult>) -> (r:
    RunCounts)
    requires
        models@.len() + seeds@.len() + tests@.len() <= usize::MAX,
    ensures
        counts_of(r, all_statuses(models.deep_view(), seeds.deep_view(), tests.deep_view())),
{
    let mut r: RunCounts = RunCounts::default();
    let ghost mut seen: Seq<ExecutionStatus> = Seq::empty();
    let ghost all = all_statuses(models.deep_view(), seeds.deep_view(), tests.deep_view());
    assert(all.len() == models@.len() + seeds@.len() + tests@.len());
    for i in 0..models.len()
        invariant
            all == all_statuses(models.deep_view(), seeds.deep_view(), tests.deep_view()),
            all.len() == models@.len() + seeds@.len() + tests@.len(),
            all.len() <= usize::MAX,
            seen =~= all.take(i as int),
            counts_of(r, seen),
    {
        proof {
            lemma_occurrences(seen, models@[i as int].status);
            assert(occurrences(seen, ExecutionStatus::Passed) <= seen.len());
            assert(occurrences(seen, ExecutionStatus::Failed) <= seen.len());
            assert(occurrences(seen, ExecutionStatus::Skipped) <= seen.len());
            assert(occurrences(seen, ExecutionStatus::Cached) <= seen.len());
            assert(occurrences(seen, ExecutionStatus::Blocked) <= seen.len());
            assert(occurrences(seen, ExecutionStatus::Cancelled) <= seen.len());
        }
        r.add(models[i].status);
        proof {
            assert(all[i as int] == models@[i as int].status);
            seen = seen.push(models@[i as int].status);
        }
    }
    for i in 0..seeds.len()
        invariant
            all == all_statuses(models.deep_view(), seeds.deep_view(), tests.deep_view()),
            all.len() == models@.len() + seeds@.len() + tests@.len(),
            all.len() <= usize::MAX,
            seen =~= all.take(models@.len() + i),
            counts_of(r, seen),
    {
        proof {
            lemma_occurrences(seen, seeds@[i as int].status);
            assert(occurrences(seen, ExecutionStatus::Passed) <= seen.len());
            assert(occurrences(seen, ExecutionStatus::Failed) <= seen.len());
            assert(occurrences(seen, ExecutionStatus::Skipped) <= seen.len());
            assert(occurrences(seen, ExecutionStatus::Cached) <= seen.len());
            assert(occurrences(seen, ExecutionStatus::Blocked) <= seen.len());
            assert(occurrences(seen, ExecutionStatus::Cancelled) <= seen.len());
        }
        r.add(seeds[i].status);
        proof {
            assert(all[models@.len() + i] == seeds@[i as int].status);
            seen = seen.push(seeds@[i as int].status);
        }
    }
    for i in 0..tests.len()
        invariant
            all == all_statuses(models.deep_view(), seeds.deep_view(), tests.deep_view()),
            all.len() == models@.len() + seeds@.len() + tests@.len(),
            all.len() <= usize::MAX,
            seen =~= all.take(models@.len() + seeds@.len() + i),
            counts_of(r, seen),
    {
        proof {
            lemma_occurrences(seen, tests@[i as int].status);
            assert(occurrences(seen, ExecutionStatus::Passed) <= seen.len());
            assert(occurrences(seen, ExecutionStatus::Failed) <= seen.len());
            assert(occurrences(seen, ExecutionStatus::Skipped) <= seen.len());
            assert(occurrences(seen, ExecutionStatus::Cached) <= seen.len());
            assert(occurrences(seen, ExecutionStatus::Blocked) <= seen.len());
            assert(occurrences(seen, ExecutionStatus::Cancelled) <= seen.len());
        }
        r.add(tests[i].status);
        proof {
            assert(all[models@.len() + seeds@.len() + i] == tests@[i as int].status);
            seen = seen.push(tests@[i as int].status);
        }
    }
    assert(all.take(all.len() as int) =~= all);
    r
}

/// The status of a run as a whole: cancelled where it was, else failed where
/// any node failed, else passed.
pub open spec fn overall(cancelled: bool, counts: RunCounts) -> ExecutionStatus {
    if cancelled {
        ExecutionStatus::Cancelled
    } else if counts.failed > 0 {
        ExecutionStatus::Failed
    } else {
        ExecutionStatus::Passed
    }
}

pub fn run_status(cancelled: bool, counts: &RunCounts) -> (r: ExecutionStatus)
    ensures
        r == overall(cancelled, *counts),
{
    if cancelled {
        ExecutionStatus::Cancelled
    } else if counts.failed > 0 {
        ExecutionStatus::Failed
    } else {
        ExecutionStatus::Passed
    }
}

/// The result of applying a plan.
#[derive(Clone, Debug, PartialEq, Eq)]
pub struct RunResult {
    pub run_id: String,
    pub plan_id: String,
    pub environment: Option<String>,
    /// The run this execution continues: the same id for a resume, the
    /// original id for a retry (which creates a new run).
    pub continued_from: Option<String>,
    pub status: ExecutionStatus,
    pub started_at: String,
    pub finished_at: String,
    /// Per-status counts over models, seeds and tests.
    pub counts: RunCounts,
    pub warnings: Vec<String>,
    pub models: Vec<ModelResult>,
    pub tests: Vec<TestResult>,
    /// Seed loads performed before model builds.
    pub seeds: Vec<SeedResult>,
    pub events: Vec<EngineEvent>,
}

/// The contents of a [`RunResult`].
pub struct RunResultView {
    pub run_id: Seq<char>,
    pub plan_id: Seq<char>,
    pub environment: Option<Seq<char>>,
    pub continued_from: Option<Seq<char>>,
    pub status: ExecutionStatus,
    pub started_at: Seq<char>,
    pub finished_at: Seq<char>,
    pub counts: RunCounts,
    pub warnings: Seq<Seq<char>>,
    pub models: Seq<ModelResultView>,
    pub tests: Seq<TestResultView>,
    pub seeds: Seq<SeedResultView>,
    pub events: Seq<EngineEventView>,
}

impl DeepView for RunResult {
    type V = RunResultView;

    open spec fn deep_view(&self) -> RunResultView {
        RunResultView {
            run_id: self.run_id@,
            plan_id: self.plan_id@,
            environment: self.environment.deep_view(),
            continued_from: self.continued_from.deep_view(),
            status: self.status,
            started_at: self.started_at@,
            finished_at: self.finished_at@,
            counts: self.counts,
            warnings: self.warnings.deep_view(),
            models: self.models.deep_view(),
            tests: self.tests.deep_view(),
            seeds: self.seeds.deep_view(),
            events: self.events.deep_view(),
        }
    }
}

impl DeepClone for RunResult {
    fn deep_clone(&self) -> (copy: Self) {
        RunResult {
            run_id: self.run_id.deep_clone(),
            plan_id: self.plan_id.deep_clone(),
            environment: self.environment.deep_clone(),
            continued_from: self.continued_from.deep_clone(),
            status: self.status,
            started_at: self.started_at.deep_clone(),
            finished_at: self.finished_at.deep_clone(),
            counts: self.counts,
            warnings: self.warnings.deep_clone(),
            models: self.models.deep_clone(),
            tests: self.tests.deep_clone(),
            seeds: self.seeds.deep_clone(),
            events: self.events.deep_clone(),
        }
    }
}

/// The physical operation chosen for a model.
#[derive(Clone, Debug, PartialEq, Eq)]
pub enum ExecOp {
    View,
    Table,
    Append,
    Merge(Vec<String>),
    ReplacePartitions(Vec<String>),
    TimeWindow { predicate: String },
}

/// The contents of a [`ExecOp`].
pub enum ExecOpView {
    View,
    Table,
    Append,
    Merge(Seq<Seq<char>>),
    ReplacePartitions(Seq<Seq<char>>),
    TimeWindow { predicate: Seq<char> },
}

impl DeepView for ExecOp {
    type V = ExecOpView;

    open spec fn deep_view(&self) -> ExecOpView {
        match self {
            ExecOp::View => ExecOpView::View,
            ExecOp::Table => ExecOpView::Table,
            ExecOp::Append => ExecOpView::Append,
            ExecOp::Merge(value) => ExecOpView::Merge(value.deep_view()),
            ExecOp::ReplacePartitions(value) => ExecOpView::ReplacePartitions(value.deep_view()),
            ExecOp::TimeWindow { predicate } => ExecOpView::TimeWindow { predicate: predicate@ },
        }
    }
}

impl DeepClone for ExecOp {
    fn deep_clone(&self) -> (copy: Self) {
        match self {
            ExecOp::View => ExecOp::View,
            ExecOp::Table => ExecOp::Table,
            ExecOp::Append => ExecOp::Append,
            ExecOp::Merge(value) => ExecOp::Merge(value.deep_clone()),
            ExecOp::ReplacePartitions(value) => ExecOp::ReplacePartitions(value.deep_clone()),
            ExecOp::TimeWindow { predicate } => ExecOp::TimeWindow {
                predicate: predicate.deep_clone(),
            },
        }
    }
}

/// The SQL name of a type that values can be cast to.
pub open spec fn castable(data_type: DataTypeView) -> bool {
    !(data_type is Other || data_type is Unknown)
}

/// Picks the column of a given name.
pub open spec fn column_is(name: Seq<char>) -> spec_fn(SchemaColumnView) -> bool {
    |column: SchemaColumnView| column.name == name
}

/// The rows newer than a watermark: a comparison of the column with the
/// watermark cast to the column's type, backed off by the overlap where the
/// type is a timestamp. Nothing where the column is unknown or its type is.
pub open spec fn window_predicate(
    model: CompiledModelView,
    column: Seq<char>,
    watermark: Seq<char>,
    overlap_seconds: Option<u64>,
) -> Option<Seq<char>> {
    match first_where(model.schema.columns, column_is(column)) {
        None => None,
        Some(found) => if !castable(found.data_type) {
            None
        } else {
            let bound = "CAST('"@ + doubled(watermark, '\'') + "' AS "@ + type_text(
                found.data_type,
            ) + ")"@;
            let backed_off = if overlap_seconds is Some && overlap_seconds->0 > 0 && (
            found.data_type is Timestamp || found.data_type is TimestampTz) {
                "("@ + bound + " - INTERVAL '"@ + decimal_text(overlap_seconds->0 as nat)
                    + "' SECOND)"@
            } else {
                bound
            };
            Some(quoted(column) + " > "@ + backed_off)
        },
    }
}

fn find_schema<'a>(columns: &'a Vec<SchemaColumn>, name: &str) -> (r: Option<&'a SchemaColumn>)
    ensures
        r.deep_view() == first_where(columns.deep_view(), column_is(name@)),
{
    let ghost views = columns.deep_view();
    let ghost p = column_is(name@);
    proof {
        lemma_first_ends(views, p);
    }
    for i in 0..columns.len()
        invariant
            views == columns.deep_view(),
            p == column_is(name@),
            first_where(views, p) == first_where(views.skip(i as int), p),
    {
        proof {
            lemma_first_step(views, i as int, p);
        }
        assert(views[i as int] == columns@[i as int].deep_view());
        if same(columns[i].name.as_str(), name) {
            return Some(&columns[i]);
        }
    }
    proof {
        lemma_first_ends(views, p);
    }
    None
}

/// Build a typed predicate that compares a column with a watermark,
/// optionally backing the watermark off by a configured overlap.
pub fn time_window_predicate(
    model: &CompiledModel,
    column: &str,
    watermark: &str,
    overlap_seconds: Option<u64>,
) -> (r: Option<String>)
    ensures
        r.deep_view() == window_predicate(
            model.deep_view(),
            column@,
            watermark@,
            overlap_seconds,
        ),
{
    match find_schema(&model.schema.columns, column) {
        None => None,
        Some(found) => {
            match &found.data_type {
                DataType::Other(_) | DataType::Unknown => {
                    return None;
                },
                _ => {},
            }
            let bound: String = cat5(
                "CAST('",
                double_marks(watermark, '\'').as_str(),
                "' AS ",
                found.data_type.name().as_str(),
                ")",
            );
            let timed: bool = matches!(
                &found.data_type,
                DataType::Timestamp | DataType::TimestampTz
            );
            let lower: String = match overlap_seconds {
                Some(overlap) => if overlap > 0 && timed {
                    cat5(
                        "(",
                        bound.as_str(),
                        " - INTERVAL '",
                        decimal(overlap).as_str(),
                        "' SECOND)",
                    )
                } else {
                    bound
                },
                None => bound,
            };
            Some(cat3(quote(column).as_str(), " > ", lower.as_str()))
        },
    }
}

/// The operation that brings a model's relation up to date. An incremental
/// model is built as a table until there is something to add to, and whenever
/// its window cannot be stated.
pub open spec fn operation(model: CompiledModelView, info: Option<PlannedModelView>) -> ExecOpView {
    match model.config.materialization {
        Materialization::View => ExecOpView::View,
        Materialization::Table => ExecOpView::Table,
        Materialization::Ephemeral => ExecOpView::Table,
        Materialization::Incremental => if info is None || info->0.full_rebuild
            || !info->0.exists {
            ExecOpView::Table
        } else {
            match model.config.incremental {
                Some(IncrementalStrategyView::Append) => ExecOpView::Append,
                Some(IncrementalStrategyView::Key { columns }) => ExecOpView::Merge(columns),
                Some(IncrementalStrategyView::Partition { columns }) =>
                    ExecOpView::ReplacePartitions(columns),
                Some(IncrementalStrategyView::TimeWindow { column, overlap_seconds }) =>
                    match info->0.watermark {
                    Some(watermark) => match window_predicate(
                        model,
                        column,
                        watermark,
                        overlap_seconds,
                    ) {
                        Some(predicate) => ExecOpView::TimeWindow { predicate },
                        None => ExecOpView::Table,
                    },
                    None => ExecOpView::Table,
                },
                None => ExecOpView::Table,
            }
        },
    }
}

/// Chooses the physical operation for a model. Ephemeral models are inlined
/// into their dependents and have none.
pub fn exec_op(model: &CompiledModel, info: Option<&PlannedModel>) -> (r: ExecOp)
    requires
        model.config.materialization != Materialization::Ephemeral,
    ensures
        r.deep_view() == operation(model.deep_view(), info.deep_view()),
        r is View <==> model.config.materialization == Materialization::View,
        r is Append ==> model.config.incremental == Some(IncrementalStrategy::Append),
        r matches ExecOp::Merge(by) ==> (model.config.incremental matches Some(
            IncrementalStrategy::Key { columns },
        ) && by.deep_view() == columns.deep_view()),
        r matches ExecOp::ReplacePartitions(by) ==> (model.config.incremental matches Some(
            IncrementalStrategy::Partition { columns },
        ) && by.deep_view() == columns.deep_view()),
        model.config.materialization == Materialization::Incremental && (info matches Some(planned)
            && planned.exists && !planned.full_rebuild) && (model.config.incremental matches Some(
            IncrementalStrategy::Key { .. },
        )) ==> r is Merge,
        model.config.materialization == Materialization::Incremental && (info matches Some(planned)
            && planned.exists && !planned.full_rebuild) && (model.config.incremental matches Some(
            IncrementalStrategy::Partition { .. },
        )) ==> r is ReplacePartitions,
        model.config.materialization == Materialization::Incremental && (info matches Some(planned)
            && planned.exists && !planned.full_rebuild) && (model.config.incremental matches Some(
            IncrementalStrategy::Append,
        )) ==> r is Append,
{
    match model.config.materialization {
        Materialization::View => ExecOp::View,
        Materialization::Table => ExecOp::Table,
        Materialization::Ephemeral => ExecOp::Table,
        Materialization::Incremental => match info {
            None => ExecOp::Table,
            Some(planned) => {
                if planned.full_rebuild || !planned.exists {
                    return ExecOp::Table;
                }
                match &model.config.incremental {
                    Some(IncrementalStrategy::Append) => ExecOp::Append,
                    Some(IncrementalStrategy::Key { columns }) => ExecOp::Merge(
                        columns.deep_clone(),
                    ),
                    Some(IncrementalStrategy::Partition { columns }) => ExecOp::ReplacePartitions(
                        columns.deep_clone(),
                    ),
                    Some(IncrementalStrategy::TimeWindow { column, overlap_seconds }) =>
                        match &planned.watermark {
                        Some(watermark) => match time_window_predicate(
                            model,
                            column.as_str(),
                            watermark.as_str(),
                            *overlap_seconds,
                        ) {
                            Some(predicate) => ExecOp::TimeWindow { predicate },
                            None => ExecOp::Table,
                        },
                        None => ExecOp::Table,
                    },
                    None => ExecOp::Table,
                }
            },
        },
    }
}

/// The SQL an operation is carried out with: the model's own, narrowed to the
/// window where there is one.
pub open spec fn operation_sql(op: ExecOpView, compiled_sql: Seq<char>) -> Seq<char> {
    match op {
        ExecOpView::TimeWindow { predicate } => "SELECT * FROM ("@ + compiled_sql
            + ") AS __phlo_src WHERE "@ + predicate,
        _ => compiled_sql,
    }
}

pub fn execute_op(op: &ExecOp, compiled_sql: &str) -> (r: String)
    ensures
        r@ == operation_sql(op.deep_view(), compiled_sql@),
{
    match op {
        ExecOp::TimeWindow { predicate } => cat4(
            "SELECT * FROM (",
            compiled_sql,
            ") AS __phlo_src WHERE ",
            predicate.as_str(),
        ),
        _ => compiled_sql.to_owned(),
    }
}

/// The query for a time-window model's newest value; none for other models.
pub open spec fn watermark_sql(model: CompiledModelView) -> Option<Seq<char>> {
    match model.config.incremental {
        Some(IncrementalStrategyView::TimeWindow { column, .. }) => Some(
            "SELECT max("@ + quoted(column) + ") FROM "@ + relation_sql(model.target),
        ),
        _ => None,
    }
}

/// The query that a successful time-window build advances its watermark by.
pub fn watermark_query(model: &CompiledModel) -> (r: Option<String>)
    ensures
        r.deep_view() == watermark_sql(model.deep_view()),
{
    match &model.config.incremental {
        Some(IncrementalStrategy::TimeWindow { column, .. }) => Some(
            cat4(
                "SELECT max(",
                quote(column.as_str()).as_str(),
                ") FROM ",
                model.target.sql().as_str(),
            ),
        ),
        _ => None,
    }
}

/// The watermark that the rows of a query answer; none for an empty relation.
pub open spec fn watermark_in(rows: Seq<Seq<Seq<char>>>) -> Option<Seq<char>> {
    if rows.len() > 0 && rows[0].len() > 0 && rows[0][0] != "NULL"@ {
        Some(rows[0][0])
    } else {
        None
    }
}

/// Reads the watermark out of a query's rows.
pub fn advance_watermark(rows: &Vec<Vec<String>>) -> (r: Option<String>)
    ensures
        r.deep_view() == watermark_in(rows.deep_view()),
{
    assert(rows.deep_view().len() == rows@.len());
    if rows.len() == 0 {
        return None;
    }
    assert(rows.deep_view()[0] == rows@[0].deep_view());
    assert(rows@[0].deep_view().len() == rows@[0]@.len());
    if rows[0].len() == 0 || same(rows[0][0].as_str(), "NULL") {
        return None;
    }
    Some(rows[0][0].clone())
}

/// The details of reasons.
pub open spec fn reason_details(model: PlannedModelView) -> Seq<Seq<char>> {
    Seq::new(model.reasons.len(), |i: int| model.reasons[i].detail)
}

/// What a result takes over from the plan: the desired version, the version it
/// replaces, and the reasons.
pub fn plan_result_fields(info: Option<&PlannedModel>) -> (r: (
    String,
    Option<String>,
    Vec<String>,
))
    ensures
        match info.deep_view() {
            Some(model) => r.0@ == model.desired_version && r.1.deep_view()
                == model.current_version && r.2.deep_view() == reason_details(model),
            None => r.0@.len() == 0 && r.1 is None && r.2.deep_view() == Seq::<
                Seq<char>,
            >::empty(),
        },
{
    match info {
        Some(model) => {
            let mut details: Vec<String> = Vec::new();
            for i in 0..model.reasons.len()
                invariant
                    details@.len() == i,
                    forall|j: int|
                        0 <= j < i ==> (#[trigger] details@[j])@ == model.reasons@[j].detail@,
            {
                details.push(model.reasons[i].detail.clone());
            }
            assert(details.deep_view() =~= reason_details(model.deep_view()));
            (model.desired_version.clone(), model.current_version.deep_clone(), details)
        },
        None => (String::new(), None, none_of()),
    }
}

/// A model's result before anything is known of its execution.
pub open spec fn blank_result(
    model: CompiledModelView,
    info: Option<PlannedModelView>,
) -> ModelResultView {
    ModelResultView {
        model: model.id,
        target: relation_text(model.target),
        materialization: model.config.materialization.text(),
        action: match info {
            Some(planned) => planned.action.code_text(),
            None => "build"@,
        },
        status: ExecutionStatus::Pending,
        desired_version: match info {
            Some(planned) => planned.desired_version,
            None => Seq::empty(),
        },
        previous_version: match info {
            Some(planned) => planned.current_version,
            None => None,
        },
        reasons: match info {
            Some(planned) => reason_details(planned),
            None => Seq::empty(),
        },
        query_id: None,
        attempts: Seq::empty(),
        failure: None,
        started_at: None,
        finished_at: None,
        duration_ms: 0,
        sql_hash: sha256_text(model.compiled_sql),
        output_identity: None,
    }
}

/// A model's result before anything is known of its execution.
pub fn model_result(model: &CompiledModel, info: Option<&PlannedModel>) -> (r: ModelResult)
    ensures
        r.deep_view() == blank_result(model.deep_view(), info.deep_view()),
{
    let (desired_version, previous_version, reasons) = plan_result_fields(info);
    let action: String = match info {
        Some(planned) => planned.action.as_str().to_owned(),
        None => "build".to_owned(),
    };
    proof {
        assert(desired_version@ =~= blank_result(
            model.deep_view(),
            info.deep_view(),
        ).desired_version);
    }
    ModelResult {
        model: model.id.clone(),
        target: model.target.display(),
        materialization: model.config.materialization.name(),
        action,
        status: ExecutionStatus::Pending,
        desired_version,
        previous_version,
        reasons,
        query_id: None,
        attempts: none_of(),
        failure: None,
        started_at: None,
        finished_at: None,
        duration_ms: 0,
        sql_hash: sha256_hex(model.compiled_sql.as_str()),
        output_identity: None,
    }
}

impl ModelResult {
    /// The result with a status and without anything executed.
    pub fn with_status(self, status: ExecutionStatus) -> (r: Self)
        ensures
            r.deep_view() == (ModelResultView { status, ..self.deep_view() }),
    {
        ModelResult { status, ..self }
    }

    /// The result with a failure.
    pub fn with_failure(self, failure: Failure) -> (r: Self)
        ensures
            r.deep_view() == (ModelResultView {
                failure: Some(failure.deep_view()),
                ..self.deep_view()
            }),
    {
        ModelResult { failure: Some(failure), ..self }
    }
}

/// A seed's result.
pub open spec fn seed_outcome(
    seed: PlannedSeedView,
    status: ExecutionStatus,
    attempts: Seq<AttemptView>,
    failure: Option<FailureView>,
    duration_ms: u64,
) -> SeedResultView {
    SeedResultView { seed: seed.name, target: seed.target, status, attempts, failure, duration_ms }
}

pub fn seed_result(
    planned_seed: &PlannedSeed,
    status: ExecutionStatus,
    attempts: Vec<Attempt>,
    failure: Option<Failure>,
    duration_ms: u64,
) -> (r: SeedResult)
    ensures
        r.deep_view() == seed_outcome(
            planned_seed.deep_view(),
            status,
            attempts.deep_view(),
            failure.deep_view(),
            duration_ms,
        ),
{
    SeedResult {
        seed: planned_seed.name.clone(),
        target: planned_seed.target.clone(),
        status,
        attempts,
        failure,
        duration_ms,
    }
}

/// The message of an optional failure.
pub open spec fn failure_message(failure: Option<FailureView>) -> Option<Seq<char>> {
    match failure {
        Some(given) => Some(given.message),
        None => None,
    }
}

/// The category code of an optional failure.
pub open spec fn failure_code(failure: Option<FailureView>) -> Option<Seq<char>> {
    match failure {
        Some(given) => Some(given.category.code_text()),
        None => None,
    }
}

fn message_of(failure: &Option<Failure>) -> (r: Option<String>)
    ensures
        r.deep_view() == failure_message(failure.deep_view()),
{
    match failure {
        Some(given) => Some(given.message.clone()),
        None => None,
    }
}

fn code_of(failure: &Option<Failure>) -> (r: Option<String>)
    ensures
        r.deep_view() == failure_code(failure.deep_view()),
{
    match failure {
        Some(given) => Some(given.category.code().to_owned()),
        None => None,
    }
}

/// A text, or none of it.
pub open spec fn text_or_empty(text: Option<Seq<char>>) -> Seq<char> {
    match text {
        Some(given) => given,
        None => Seq::empty(),
    }
}

fn or_empty(text: &Option<String>) -> (r: String)
    ensures
        r@ == text_or_empty(text.deep_view()),
{
    match text {
        Some(given) => given.clone(),
        None => {
            let r: String = String::new();
            assert(r@ =~= Seq::<char>::empty());
            r
        },
    }
}

/// The record that a model's result leaves.
pub open spec fn model_record(run_id: Seq<char>, result: ModelResultView) -> ModelRunRecordView {
    ModelRunRecordView {
        run_id,
        model_id: result.model,
        materialization: result.materialization,
        action: result.action,
        status: result.status,
        started_at: text_or_empty(result.started_at),
        finished_at: text_or_empty(result.finished_at),
        sql_hash: result.sql_hash,
        target: result.target,
        desired_version: result.desired_version,
        attempts: result.attempts,
        query_id: result.query_id,
        error: failure_message(result.failure),
        error_category: failure_code(result.failure),
    }
}

/// The record to persist for a model's result.
pub fn persist_model(run_id: &str, result: &ModelResult) -> (r: ModelRunRecord)
    ensures
        r.deep_view() == model_record(run_id@, result.deep_view()),
{
    ModelRunRecord {
        run_id: run_id.to_owned(),
        model_id: result.model.clone(),
        materialization: result.materialization.clone(),
        action: result.action.clone(),
        status: result.status,
        started_at: or_empty(&result.started_at),
        finished_at: or_empty(&result.finished_at),
        sql_hash: result.sql_hash.clone(),
        target: result.target.clone(),
        desired_version: result.desired_version.clone(),
        attempts: result.attempts.deep_clone(),
        query_id: result.query_id.deep_clone(),
        error: message_of(&result.failure),
        error_category: code_of(&result.failure),
    }
}

/// A model's result while it is running: started, not finished, and after a
/// failed attempt with that attempt's failure.
pub open spec fn running_result(
    blank: ModelResultView,
    started_at: Seq<char>,
    attempts: Seq<AttemptView>,
    failure: Option<FailureView>,
) -> ModelResultView {
    ModelResultView {
        status: ExecutionStatus::Running,
        started_at: Some(started_at),
        attempts,
        failure,
        ..blank
    }
}

/// The record to persist while a model is running: at its start, so that a
/// crash leaves an honest trace, and after every failed attempt, so that a
/// crash during backoff does not lose the attempts already made.
pub fn persist_model_start(
    run_id: &str,
    blank: &ModelResult,
    started_at: &str,
    attempts: &Vec<Attempt>,
    failure: &Option<Failure>,
) -> (r: ModelRunRecord)
    ensures
        r.deep_view() == model_record(
            run_id@,
            running_result(
                blank.deep_view(),
                started_at@,
                attempts.deep_view(),
                failure.deep_view(),
            ),
        ),
{
    let running: ModelResult = ModelResult {
        status: ExecutionStatus::Running,
        started_at: Some(started_at.to_owned()),
        attempts: attempts.deep_clone(),
        failure: failure.deep_clone(),
        ..blank.deep_clone()
    };
    persist_model(run_id, &running)
}

/// The record to persist for a seed's result.
pub open spec fn seed_record(
    run_id: Seq<char>,
    result: SeedResultView,
    started_at: Seq<char>,
    finished_at: Seq<char>,
) -> SeedRunRecordView {
    SeedRunRecordView {
        run_id,
        name: result.seed,
        status: result.status,
        target: result.target,
        attempts: result.attempts,
        error: failure_message(result.failure),
        error_category: failure_code(result.failure),
        started_at,
        finished_at,
    }
}

pub fn persist_seed(run_id: &str, result: &SeedResult, started_at: &str, finished_at: &str) -> (r:
    SeedRunRecord)
    ensures
        r.deep_view() == seed_record(run_id@, result.deep_view(), started_at@, finished_at@),
{
    SeedRunRecord {
        run_id: run_id.to_owned(),
        name: result.seed.clone(),
        status: result.status,
        target: result.target.clone(),
        attempts: result.attempts.deep_clone(),
        error: message_of(&result.failure),
        error_category: code_of(&result.failure),
        started_at: started_at.to_owned(),
        finished_at: finished_at.to_owned(),
    }
}

/// The record to persist for a test's result.
pub open spec fn test_record(
    run_id: Seq<char>,
    result: TestResultView,
    started_at: Seq<char>,
    finished_at: Seq<char>,
) -> TestRunRecordView {
    TestRunRecordView {
        run_id,
        test_id: result.test,
        status: result.status,
        row_count: result.row_count,
        query_id: result.query_id,
        error: failure_message(result.failure),
        error_category: failure_code(result.failure),
        started_at,
        finished_at,
    }
}

pub fn persist_test(run_id: &str, result: &TestResult, started_at: &str, finished_at: &str) -> (r:
    TestRunRecord)
    ensures
        r.deep_view() == test_record(run_id@, result.deep_view(), started_at@, finished_at@),
{
    TestRunRecord {
        run_id: run_id.to_owned(),
        test_id: result.test.clone(),
        status: result.status,
        row_count: result.row_count,
        query_id: result.query_id.deep_clone(),
        error: message_of(&result.failure),
        error_category: code_of(&result.failure),
        started_at: started_at.to_owned(),
        finished_at: finished_at.to_owned(),
    }
}

/// What follows an attempt.
#[derive(Clone, Debug, PartialEq, Eq)]
pub enum AfterAttempt {
    /// The node is done.
    Done,
    /// Try again after a delay in milliseconds.
    RetryAfter(u64),
}

/// The contents of a [`AfterAttempt`].
pub enum AfterAttemptView {
    Done,
    RetryAfter(u64),
}

impl DeepView for AfterAttempt {
    type V = AfterAttemptView;

    open spec fn deep_view(&self) -> AfterAttemptView {
        match self {
            AfterAttempt::Done => AfterAttemptView::Done,
            AfterAttempt::RetryAfter(value) => AfterAttemptView::RetryAfter(*value),
        }
    }
}

impl DeepClone for AfterAttempt {
    fn deep_clone(&self) -> (copy: Self) {
        match self {
            AfterAttempt::Done => AfterAttempt::Done,
            AfterAttempt::RetryAfter(value) => AfterAttempt::RetryAfter(*value),
        }
    }
}

/// The attempts made at a node. Attempt numbers continue those of an earlier
/// invocation of the same run, whose attempts `earlier` holds.
#[derive(Clone, Debug, PartialEq, Eq)]
pub struct Attempts {
    pub earlier: Vec<Attempt>,
    pub made: Vec<Attempt>,
}

/// The contents of a [`Attempts`].
pub struct AttemptsView {
    pub earlier: Seq<AttemptView>,
    pub made: Seq<AttemptView>,
}

impl DeepView for Attempts {
    type V = AttemptsView;

    open spec fn deep_view(&self) -> AttemptsView {
        AttemptsView {
            earlier: self.earlier.deep_view(),
            made: self.made.deep_view(),
        }
    }
}

impl DeepClone for Attempts {
    fn deep_clone(&self) -> (copy: Self) {
        Attempts {
            earlier: self.earlier.deep_clone(),
            made: self.made.deep_clone(),
        }
    }
}

impl AttemptsView {
    /// The number of the attempt now under way.
    pub open spec fn number(self) -> nat {
        self.earlier.len() + self.made.len() + 1
    }

    /// Every attempt, oldest first.
    pub open spec fn all(self) -> Seq<AttemptView> {
        self.earlier + self.made
    }
}

/// What a failed attempt leads to: another one, where the policy allows it and
/// the run has not been cancelled.
pub open spec fn after_failure(
    policy: RetryPolicy,
    failure: FailureView,
    attempt: u32,
    cancelled: bool,
) -> AfterAttemptView {
    if policy.retries_after(failure, attempt) && !cancelled {
        AfterAttemptView::RetryAfter(
            (policy.delay_millis(attempt) % 0x1_0000_0000_0000_0000) as u64,
        )
    } else {
        AfterAttemptView::Done
    }
}

impl Attempts {
    /// The attempts of a node that an earlier invocation may have tried.
    pub fn new(earlier: Vec<Attempt>) -> (r: Self)
        ensures
            r.deep_view().earlier == earlier.deep_view(),
            r.deep_view().made.len() == 0,
    {
        Attempts { earlier, made: none_of() }
    }

    /// The number of the attempt now under way.
    pub fn number(&self) -> (n: u32)
        requires
            self.deep_view().number() <= u32::MAX,
        ensures
            n == self.deep_view().number(),
    {
        assert(self.earlier.deep_view().len() == self.earlier@.len());
        assert(self.made.deep_view().len() == self.made@.len());
        (self.earlier.len() + self.made.len() + 1) as u32
    }

    /// Every attempt, oldest first.
    pub fn all(&self) -> (r: Vec<Attempt>)
        ensures
            r.deep_view() == self.deep_view().all(),
    {
        let mut r: Vec<Attempt> = self.earlier.deep_clone();
        put_all(&mut r, self.made.deep_clone());
        r
    }

    /// Records that the attempt under way succeeded.
    pub fn succeed(&mut self, started_at: String, duration_ms: u64, query_id: Option<String>)
        requires
            old(self).deep_view().number() <= u32::MAX,
        ensures
            final(self).deep_view().earlier == old(self).deep_view().earlier,
            final(self).deep_view().made == old(self).deep_view().made.push(
                AttemptView {
                    attempt: old(self).deep_view().number() as u32,
                    started_at: started_at@,
                    duration_ms,
                    query_id: query_id.deep_view(),
                    failure: None,
                },
            ),
    {
        let attempt: u32 = self.number();
        put(
            &mut self.made,
            Attempt { attempt, started_at, duration_ms, query_id, failure: None },
        );
    }

    /// Records that the attempt under way failed, and decides what follows.
    pub fn fail(
        &mut self,
        policy: &RetryPolicy,
        failure: &Failure,
        started_at: String,
        duration_ms: u64,
        cancelled: bool,
    ) -> (next: AfterAttempt)
        requires
            old(self).deep_view().number() <= u32::MAX,
        ensures
            final(self).deep_view().earlier == old(self).deep_view().earlier,
            final(self).deep_view().made == old(self).deep_view().made.push(
                AttemptView {
                    attempt: old(self).deep_view().number() as u32,
                    started_at: started_at@,
                    duration_ms,
                    query_id: None,
                    failure: Some(failure.deep_view()),
                },
            ),
            next.deep_view() == after_failure(
                *policy,
                failure.deep_view(),
                old(self).deep_view().number() as u32,
                cancelled,
            ),
    {
        let attempt: u32 = self.number();
        put(
            &mut self.made,
            Attempt {
                attempt,
                started_at,
                duration_ms,
                query_id: None,
                failure: Some(failure.deep_clone()),
            },
        );
        if policy.should_retry(failure, attempt) && !cancelled {
            let delay: u128 = policy.delay(attempt).as_millis();
            proof {
                let whole = policy.delay_millis(attempt);
                assert(whole % 0x1_0000_0000_0000_0000 < 0x1_0000_0000_0000_0000);
            }
            AfterAttempt::RetryAfter(delay as u64)
        } else {
            AfterAttempt::Done
        }
    }
}

/// A node is never tried more often than the policy allows: the attempt that
/// reaches the limit is final.
pub proof fn law_the_last_attempt_is_final(
    policy: RetryPolicy,
    failure: FailureView,
    attempt: u32,
    cancelled: bool,
)
    ensures
        attempt >= policy.attempts() ==> after_failure(policy, failure, attempt, cancelled)
            == AfterAttemptView::Done,
        cancelled ==> after_failure(policy, failure, attempt, cancelled)
            == AfterAttemptView::Done,
{
}

/// What is done about a planned seed when its turn comes.
#[derive(Clone, Debug, PartialEq, Eq)]
pub enum SeedStep {
    /// The run has stopped: the seed is cancelled.
    Cancel(SeedResult),
    /// Nothing is to be loaded; a skip leaves a record, a reuse keeps the one
    /// it has.
    Settle { result: SeedResult, persist: bool },
    /// The CSV has to be loaded.
    Load,
}

/// The contents of a [`SeedStep`].
pub enum SeedStepView {
    Cancel(SeedResultView),
    Settle { result: SeedResultView, persist: bool },
    Load,
}

impl DeepView for SeedStep {
    type V = SeedStepView;

    open spec fn deep_view(&self) -> SeedStepView {
        match self {
            SeedStep::Cancel(value) => SeedStepView::Cancel(value.deep_view()),
            SeedStep::Settle { result, persist } => SeedStepView::Settle {
                result: result.deep_view(),
                persist: *persist,
            },
            SeedStep::Load => SeedStepView::Load,
        }
    }
}

impl DeepClone for SeedStep {
    fn deep_clone(&self) -> (copy: Self) {
        match self {
            SeedStep::Cancel(value) => SeedStep::Cancel(value.deep_clone()),
            SeedStep::Settle { result, persist } => SeedStep::Settle {
                result: result.deep_clone(),
                persist: *persist,
            },
            SeedStep::Load => SeedStep::Load,
        }
    }
}

/// Whether an earlier invocation of the run loaded the seed.
pub open spec fn loaded_before(record: Option<SeedRunRecordView>) -> bool {
    record is Some && record->0.status == ExecutionStatus::Passed
}

/// What is done about a planned seed: cancelled in a stopped run, settled
/// where nothing is to be built, loaded otherwise.
pub open spec fn seed_step(
    seed: PlannedSeedView,
    stopped: bool,
    prior: Option<SeedRunRecordView>,
    now: Seq<char>,
) -> SeedStepView {
    if stopped {
        SeedStepView::Cancel(
            seed_outcome(
                seed,
                ExecutionStatus::Cancelled,
                Seq::empty(),
                Some(unattempted(FailureCategory::Cancelled, "not started"@, now)),
                0,
            ),
        )
    } else if seed.action != PlanAction::Build {
        SeedStepView::Settle {
            result: seed_outcome(
                seed,
                if loaded_before(prior) {
                    ExecutionStatus::Cached
                } else {
                    ExecutionStatus::Skipped
                },
                Seq::empty(),
                None,
                0,
            ),
            persist: !loaded_before(prior),
        }
    } else {
        SeedStepView::Load
    }
}

/// Whether the seeds after one that was loaded are no longer loaded: the run was
/// stopped before, it is cancelled, or the seed failed under fail-fast.
pub fn seeds_stopped(
    stopped: bool,
    cancelled: bool,
    fail_fast: bool,
    status: ExecutionStatus,
) -> (r: bool)
    ensures
        r == (stopped || cancelled || (fail_fast && status == ExecutionStatus::Failed)),
{
    stopped || cancelled || (fail_fast && status == ExecutionStatus::Failed)
}

/// What is to be done about a seed when its turn comes.
pub fn next_seed(
    seed: &PlannedSeed,
    stopped: bool,
    prior: Option<&SeedRunRecord>,
    now: &str,
) -> (r: SeedStep)
    ensures
        r.deep_view() == seed_step(seed.deep_view(), stopped, prior.deep_view(), now@),
{
    if stopped {
        let failure: Failure = Failure::without_attempt_at(
            FailureCategory::Cancelled,
            "not started",
            now,
        );
        return SeedStep::Cancel(
            seed_result(seed, ExecutionStatus::Cancelled, none_of(), Some(failure), 0),
        );
    }
    if seed.action != PlanAction::Build {
        let reused: bool = match prior {
            Some(record) => record.status == ExecutionStatus::Passed,
            None => false,
        };
        let status: ExecutionStatus = if reused {
            ExecutionStatus::Cached
        } else {
            ExecutionStatus::Skipped
        };
        return SeedStep::Settle {
            result: seed_result(seed, status, none_of(), None, 0),
            persist: !reused,
        };
    }
    SeedStep::Load
}

/// The result of a seed that was loaded, or given up on.
pub open spec fn loaded_seed(
    seed: PlannedSeedView,
    attempts: Seq<AttemptView>,
    failure: Option<FailureView>,
    duration_ms: u64,
) -> SeedResultView {
    seed_outcome(
        seed,
        if failure is None {
            ExecutionStatus::Passed
        } else {
            ExecutionStatus::Failed
        },
        attempts,
        failure,
        duration_ms,
    )
}

pub fn run_seed(
    seed: &PlannedSeed,
    attempts: &Attempts,
    failure: Option<Failure>,
    duration_ms: u64,
) -> (r: SeedResult)
    ensures
        r.deep_view() == loaded_seed(
            seed.deep_view(),
            attempts.deep_view().all(),
            failure.deep_view(),
            duration_ms,
        ),
{
    let status: ExecutionStatus = if failure.is_none() {
        ExecutionStatus::Passed
    } else {
        ExecutionStatus::Failed
    };
    seed_result(seed, status, attempts.all(), failure, duration_ms)
}

/// The target of a seed that failed to load.
pub open spec fn if_failed_seed() -> spec_fn(SeedResultView) -> Seq<Seq<char>> {
    |result: SeedResultView|
        if result.status == ExecutionStatus::Failed {
            seq![result.target]
        } else {
            Seq::empty()
        }
}

/// The targets of the seeds that failed to load: nothing may read them.
pub fn failed_seed_targets(results: &Vec<SeedResult>) -> (r: Vec<String>)
    ensures
        r.deep_view() == gather(results.deep_view(), if_failed_seed()),
{
    let ghost views = results.deep_view();
    let ghost f = if_failed_seed();
    proof {
        lemma_gather_ends(views, f);
    }
    let mut r: Vec<String> = none_of();
    for i in 0..results.len()
        invariant
            views == results.deep_view(),
            f == if_failed_seed(),
            r.deep_view() == gather(views.take(i as int), f),
    {
        proof {
            lemma_gather_step(views, i as int, f);
        }
        let ghost before = r.deep_view();
        assert(views[i as int] == results@[i as int].deep_view());
        if results[i].status == ExecutionStatus::Failed {
            put(&mut r, results[i].target.clone());
        }
        assert(r.deep_view() =~= before + f(views[i as int]));
    }
    r
}

/// What a test is waiting for, as far as it is known before it runs.
#[derive(Clone, Debug, PartialEq, Eq)]
pub struct TestInputs {
    /// Each model the test reads, with that model's status; pending where the
    /// model is not part of the run.
    pub targets: Vec<(String, ExecutionStatus)>,
    /// Each source the test reads, and whether the seed behind it failed.
    pub sources: Vec<(String, bool)>,
}

/// The contents of a [`TestInputs`].
pub struct TestInputsView {
    pub targets: Seq<(Seq<char>, ExecutionStatus)>,
    pub sources: Seq<(Seq<char>, bool)>,
}

impl DeepView for TestInputs {
    type V = TestInputsView;

    open spec fn deep_view(&self) -> TestInputsView {
        TestInputsView {
            targets: self.targets.deep_view(),
            sources: self.sources.deep_view(),
        }
    }
}

impl DeepClone for TestInputs {
    fn deep_clone(&self) -> (copy: Self) {
        TestInputs {
            targets: self.targets.deep_clone(),
            sources: self.sources.deep_clone(),
        }
    }
}

/// Names a target whose dataset is not available.
pub open spec fn if_unready() -> spec_fn((Seq<char>, ExecutionStatus)) -> Seq<Seq<char>> {
    |target: (Seq<char>, ExecutionStatus)|
        if target.1.satisfied() {
            Seq::empty()
        } else {
            seq![target.0]
        }
}

/// Names a source whose seed failed to load.
pub open spec fn if_unloaded() -> spec_fn((Seq<char>, bool)) -> Seq<Seq<char>> {
    |source: (Seq<char>, bool)|
        if source.1 {
            seq![source.0]
        } else {
            Seq::empty()
        }
}

fn unready(targets: &Vec<(String, ExecutionStatus)>) -> (r: Vec<String>)
    ensures
        r.deep_view() == gather(targets.deep_view(), if_unready()),
{
    let ghost views = targets.deep_view();
    let ghost f = if_unready();
    proof {
        lemma_gather_ends(views, f);
    }
    let mut r: Vec<String> = none_of();
    for i in 0..targets.len()
        invariant
            views == targets.deep_view(),
            f == if_unready(),
            r.deep_view() == gather(views.take(i as int), f),
    {
        proof {
            lemma_gather_step(views, i as int, f);
        }
        let ghost before = r.deep_view();
        assert(views[i as int] == targets@[i as int].deep_view());
        if !targets[i].1.is_satisfied() {
            put(&mut r, targets[i].0.clone());
        }
        assert(r.deep_view() =~= before + f(views[i as int]));
    }
    r
}

fn unloaded(sources: &Vec<(String, bool)>) -> (r: Vec<String>)
    ensures
        r.deep_view() == gather(sources.deep_view(), if_unloaded()),
{
    let ghost views = sources.deep_view();
    let ghost f = if_unloaded();
    proof {
        lemma_gather_ends(views, f);
    }
    let mut r: Vec<String> = none_of();
    for i in 0..sources.len()
        invariant
            views == sources.deep_view(),
            f == if_unloaded(),
            r.deep_view() == gather(views.take(i as int), f),
    {
        proof {
            lemma_gather_step(views, i as int, f);
        }
        let ghost before = r.deep_view();
        assert(views[i as int] == sources@[i as int].deep_view());
        if sources[i].1 {
            put(&mut r, sources[i].0.clone());
        }
        assert(r.deep_view() =~= before + f(views[i as int]));
    }
    r
}

/// What is done about a test when its turn comes.
#[derive(Clone, Debug, PartialEq, Eq)]
pub enum TestStep {
    /// The run has stopped: the test never starts.
    Cancel(TestResult),
    /// What the test reads is not available.
    Block(TestResult),
    /// The test's query has to be executed.
    Execute,
}

/// The contents of a [`TestStep`].
pub enum TestStepView {
    Cancel(TestResultView),
    Block(TestResultView),
    Execute,
}

impl DeepView for TestStep {
    type V = TestStepView;

    open spec fn deep_view(&self) -> TestStepView {
        match self {
            TestStep::Cancel(value) => TestStepView::Cancel(value.deep_view()),
            TestStep::Block(value) => TestStepView::Block(value.deep_view()),
            TestStep::Execute => TestStepView::Execute,
        }
    }
}

impl DeepClone for TestStep {
    fn deep_clone(&self) -> (copy: Self) {
        match self {
            TestStep::Cancel(value) => TestStep::Cancel(value.deep_clone()),
            TestStep::Block(value) => TestStep::Block(value.deep_clone()),
            TestStep::Execute => TestStep::Execute,
        }
    }
}

/// A test that was not executed.
pub open spec fn unexecuted_test(
    test: Seq<char>,
    status: ExecutionStatus,
    category: FailureCategory,
    message: Seq<char>,
    now: Seq<char>,
) -> TestResultView {
    TestResultView {
        test,
        status,
        row_count: 0,
        query_id: None,
        failure: Some(unattempted(category, message, now)),
        duration_ms: 0,
    }
}

/// What is done about a test: cancelled in a stopped run, blocked where a
/// dataset it reads is not available, executed otherwise. Unready targets are
/// named before failed sources.
pub open spec fn test_step(
    test: Seq<char>,
    stopped: bool,
    inputs: TestInputsView,
    now: Seq<char>,
) -> TestStepView {
    let missing = gather(inputs.targets, if_unready());
    let bad = gather(inputs.sources, if_unloaded());
    if stopped {
        TestStepView::Cancel(
            unexecuted_test(
                test,
                ExecutionStatus::Cancelled,
                FailureCategory::Cancelled,
                "not started"@,
                now,
            ),
        )
    } else if missing.len() > 0 {
        TestStepView::Block(
            unexecuted_test(
                test,
                ExecutionStatus::Blocked,
                FailureCategory::Dependency,
                "targets not ready: "@ + join_text(missing, ", "@),
                now,
            ),
        )
    } else if bad.len() > 0 {
        TestStepView::Block(
            unexecuted_test(
                test,
                ExecutionStatus::Blocked,
                FailureCategory::Dependency,
                "seed sources failed to load: "@ + join_text(bad, ", "@),
                now,
            ),
        )
    } else {
        TestStepView::Execute
    }
}

fn not_executed(
    test: &str,
    status: ExecutionStatus,
    category: FailureCategory,
    message: &str,
    now: &str,
) -> (r: TestResult)
    ensures
        r.deep_view() == unexecuted_test(test@, status, category, message@, now@),
{
    TestResult {
        test: test.to_owned(),
        status,
        row_count: 0,
        query_id: None,
        failure: Some(Failure::without_attempt_at(category, message, now)),
        duration_ms: 0,
    }
}

/// Decides what is done about a planned test.
pub fn next_test(test: &str, stopped: bool, inputs: &TestInputs, now: &str) -> (r: TestStep)
    ensures
        r.deep_view() == test_step(test@, stopped, inputs.deep_view(), now@),
{
    if stopped {
        return TestStep::Cancel(
            not_executed(
                test,
                ExecutionStatus::Cancelled,
                FailureCategory::Cancelled,
                "not started",
                now,
            ),
        );
    }
    let missing: Vec<String> = unready(&inputs.targets);
    let bad: Vec<String> = unloaded(&inputs.sources);
    assert(missing.deep_view().len() == missing@.len());
    assert(bad.deep_view().len() == bad@.len());
    if missing.len() > 0 {
        let list: &[String] = missing.as_slice();
        assert(list.deep_view() =~= missing.deep_view());
        let reason: String = cat2("targets not ready: ", join(list, ", ").as_str());
        return TestStep::Block(
            not_executed(
                test,
                ExecutionStatus::Blocked,
                FailureCategory::Dependency,
                reason.as_str(),
                now,
            ),
        );
    }
    if bad.len() > 0 {
        let list: &[String] = bad.as_slice();
        assert(list.deep_view() =~= bad.deep_view());
        let reason: String = cat2("seed sources failed to load: ", join(list, ", ").as_str());
        return TestStep::Block(
            not_executed(
                test,
                ExecutionStatus::Blocked,
                FailureCategory::Dependency,
                reason.as_str(),
                now,
            ),
        );
    }
    TestStep::Execute
}

/// What a test's query came back with: a number of rows, or a failure.
#[derive(Clone, Debug, PartialEq, Eq)]
pub enum TestAnswer {
    Rows { row_count: u64, query_id: Option<String> },
    Failed(Failure),
}

/// The contents of a [`TestAnswer`].
pub enum TestAnswerView {
    Rows { row_count: u64, query_id: Option<Seq<char>> },
    Failed(FailureView),
}

impl DeepView for TestAnswer {
    type V = TestAnswerView;

    open spec fn deep_view(&self) -> TestAnswerView {
        match self {
            TestAnswer::Rows { row_count, query_id } => TestAnswerView::Rows {
                row_count: *row_count,
                query_id: query_id.deep_view(),
            },
            TestAnswer::Failed(value) => TestAnswerView::Failed(value.deep_view()),
        }
    }
}

impl DeepClone for TestAnswer {
    fn deep_clone(&self) -> (copy: Self) {
        match self {
            TestAnswer::Rows { row_count, query_id } => TestAnswer::Rows {
                row_count: *row_count,
                query_id: query_id.deep_clone(),
            },
            TestAnswer::Failed(value) => TestAnswer::Failed(value.deep_clone()),
        }
    }
}

/// A test passes where its query returns no rows. Rows are violating data: a
/// failure of the test, not of the query.
pub open spec fn executed_test(
    test: Seq<char>,
    answer: TestAnswerView,
    duration_ms: u64,
    now: Seq<char>,
) -> TestResultView {
    match answer {
        TestAnswerView::Rows { row_count, query_id } => if row_count == 0 {
            TestResultView {
                test,
                status: ExecutionStatus::Passed,
                row_count: 0,
                query_id,
                failure: None,
                duration_ms,
            }
        } else {
            TestResultView {
                test,
                status: ExecutionStatus::Failed,
                row_count,
                query_id,
                failure: Some(
                    FailureView {
                        category: FailureCategory::Test,
                        message: "test returned "@ + decimal_text(row_count as nat) + " row(s)"@,
                        adapter_code: None,
                        adapter_message: None,
                        attempt: 1,
                        at: now,
                        retryable: false,
                    },
                ),
                duration_ms,
            }
        },
        TestAnswerView::Failed(failure) => TestResultView {
            test,
            status: ExecutionStatus::Failed,
            row_count: 0,
            query_id: None,
            failure: Some(failure),
            duration_ms,
        },
    }
}

/// The result of an executed test.
pub fn run_test(test: &str, answer: &TestAnswer, duration_ms: u64, now: &str) -> (r: TestResult)
    ensures
        r.deep_view() == executed_test(test@, answer.deep_view(), duration_ms, now@),
{
    match answer {
        TestAnswer::Rows { row_count, query_id } => {
            if *row_count == 0 {
                TestResult {
                    test: test.to_owned(),
                    status: ExecutionStatus::Passed,
                    row_count: 0,
                    query_id: query_id.deep_clone(),
                    failure: None,
                    duration_ms,
                }
            } else {
                TestResult {
                    test: test.to_owned(),
                    status: ExecutionStatus::Failed,
                    row_count: *row_count,
                    query_id: query_id.deep_clone(),
                    failure: Some(
                        Failure {
                            category: FailureCategory::Test,
                            message: cat3(
                                "test returned ",
                                decimal(*row_count).as_str(),
                                " row(s)",
                            ),
                            adapter_code: None,
                            adapter_message: None,
                            attempt: 1,
                            at: now.to_owned(),
                            retryable: false,
                        },
                    ),
                    duration_ms,
                }
            }
        },
        TestAnswer::Failed(failure) => TestResult {
            test: test.to_owned(),
            status: ExecutionStatus::Failed,
            row_count: 0,
            query_id: None,
            failure: Some(failure.deep_clone()),
            duration_ms,
        },
    }
}

/// A test passes only on a query that returned no rows.
pub proof fn law_tests_pass_only_without_rows(
    test: Seq<char>,
    answer: TestAnswerView,
    duration_ms: u64,
    now: Seq<char>,
)
    ensures
        executed_test(test, answer, duration_ms, now).status == ExecutionStatus::Passed <==> (
        answer matches TestAnswerView::Rows { row_count, .. } && row_count == 0),
{
}

/// The run as it is recorded when it starts.
pub open spec fn opening_record(
    run_id: Seq<char>,
    plan_id: Seq<char>,
    environment: Option<Seq<char>>,
    started_at: Seq<char>,
    model_count: usize,
) -> RunRecordView {
    RunRecordView {
        run_id,
        plan_id,
        environment,
        reference_hash: None,
        started_at,
        finished_at: None,
        status: ExecutionStatus::Running,
        model_count,
        failed_count: 0,
    }
}

/// The record to persist before any work: a killed process must leave an
/// honest "running" record, never a silent gap.
pub fn open_run(
    run_id: &str,
    plan: &Plan,
    environment: &Option<String>,
    started_at: &str,
) -> (r: RunRecord)
    ensures
        r.deep_view() == opening_record(
            run_id@,
            plan.id@,
            environment.deep_view(),
            started_at@,
            plan.models@.len() as usize,
        ),
{
    RunRecord {
        run_id: run_id.to_owned(),
        plan_id: plan.id.clone(),
        environment: environment.deep_clone(),
        reference_hash: None,
        started_at: started_at.to_owned(),
        finished_at: None,
        status: ExecutionStatus::Running,
        model_count: plan.models.len(),
        failed_count: 0,
    }
}

/// A planned model as it is stored.
pub open spec fn stored_model(model: PlannedModelView) -> StoredPlanModelView {
    StoredPlanModelView {
        id: model.id,
        target: model.target,
        action: model.action.code_text(),
        desired_version: model.desired_version,
        full_rebuild: model.full_rebuild,
        watermark: model.watermark,
    }
}

/// A planned seed as it is stored.
pub open spec fn stored_seed(seed: PlannedSeedView) -> StoredPlanSeedView {
    StoredPlanSeedView {
        name: seed.name,
        target: seed.target,
        path: seed.path,
        action: seed.action.code_text(),
        desired_version: seed.desired_version,
    }
}

/// A planned test as it is stored.
pub open spec fn stored_test(test: PlannedTestView) -> StoredPlanTestView {
    StoredPlanTestView { id: test.id, targets: test.targets, sources: test.sources }
}

/// A plan as it is stored with a run.
pub open spec fn stored_plan(plan: PlanView, environment: Option<Seq<char>>) -> StoredPlanView {
    StoredPlanView {
        plan_id: plan.id,
        environment,
        models: Seq::new(plan.models.len(), |i: int| stored_model(plan.models[i])),
        seeds: Seq::new(plan.seeds.len(), |i: int| stored_seed(plan.seeds[i])),
        tests: Seq::new(plan.tests.len(), |i: int| stored_test(plan.tests[i])),
    }
}

impl StoredPlan {
    /// The plan as it is stored with a run.
    pub fn from_plan(plan: &Plan, environment: &Option<String>) -> (r: Self)
        ensures
            r.deep_view() == stored_plan(plan.deep_view(), environment.deep_view()),
    {
        let mut models: Vec<StoredPlanModel> = Vec::new();
        for i in 0..plan.models.len()
            invariant
                models@.len() == i,
                forall|j: int|
                    0 <= j < i ==> (#[trigger] models@[j]).deep_view() == stored_model(
                        plan.models@[j].deep_view(),
                    ),
        {
            let model: &PlannedModel = &plan.models[i];
            models.push(
                StoredPlanModel {
                    id: model.id.clone(),
                    target: model.target.clone(),
                    action: model.action.as_str().to_owned(),
                    desired_version: model.desired_version.clone(),
                    full_rebuild: model.full_rebuild,
                    watermark: model.watermark.deep_clone(),
                },
            );
        }
        let mut seeds: Vec<StoredPlanSeed> = Vec::new();
        for i in 0..plan.seeds.len()
            invariant
                seeds@.len() == i,
                forall|j: int|
                    0 <= j < i ==> (#[trigger] seeds@[j]).deep_view() == stored_seed(
                        plan.seeds@[j].deep_view(),
                    ),
        {
            let seed: &PlannedSeed = &plan.seeds[i];
            seeds.push(
                StoredPlanSeed {
                    name: seed.name.clone(),
                    target: seed.target.clone(),
                    path: seed.path.clone(),
                    action: seed.action.as_str().to_owned(),
                    desired_version: seed.desired_version.clone(),
                },
            );
        }
        let mut tests: Vec<StoredPlanTest> = Vec::new();
        for i in 0..plan.tests.len()
            invariant
                tests@.len() == i,
                forall|j: int|
                    0 <= j < i ==> (#[trigger] tests@[j]).deep_view() == stored_test(
                        plan.tests@[j].deep_view(),
                    ),
        {
            let test: &PlannedTest = &plan.tests[i];
            tests.push(
                StoredPlanTest {
                    id: test.id.clone(),
                    targets: test.targets.deep_clone(),
                    sources: test.sources.deep_clone(),
                },
            );
        }
        let ghost p = plan.deep_view();
        assert(models.deep_view() =~= Seq::new(
            p.models.len(),
            |i: int| stored_model(p.models[i]),
        ));
        assert(seeds.deep_view() =~= Seq::new(p.seeds.len(), |i: int| stored_seed(p.seeds[i])));
        assert(tests.deep_view() =~= Seq::new(p.tests.len(), |i: int| stored_test(p.tests[i])));
        StoredPlan {
            plan_id: plan.id.clone(),
            environment: environment.deep_clone(),
            models,
            seeds,
            tests,
        }
    }
}

/// What becomes of a successful build's version.
#[derive(Clone, Debug, PartialEq, Eq)]
pub enum Recording {
    /// The version is recorded.
    Record(MaterializedRecord),
    /// Another writer owns the relation by now: recording the version would
    /// poison the shared cache. The warning says so.
    Withhold(String),
}

/// The contents of a [`Recording`].
pub enum RecordingView {
    Record(MaterializedRecordView),
    Withhold(Seq<char>),
}

impl DeepView for Recording {
    type V = RecordingView;

    open spec fn deep_view(&self) -> RecordingView {
        match self {
            Recording::Record(value) => RecordingView::Record(value.deep_view()),
            Recording::Withhold(value) => RecordingView::Withhold(value@),
        }
    }
}

impl DeepClone for Recording {
    fn deep_clone(&self) -> (copy: Self) {
        match self {
            Recording::Record(value) => Recording::Record(value.deep_clone()),
            Recording::Withhold(value) => Recording::Withhold(value.deep_clone()),
        }
    }
}

/// The record of a successful build.
pub open spec fn build_record(
    model: CompiledModelView,
    result: ModelResultView,
    environment: Option<Seq<char>>,
    adapter: Seq<char>,
    effective_key: Seq<Seq<Seq<char>>>,
    run_id: Seq<char>,
    finished_at: Seq<char>,
) -> MaterializedRecordView {
    MaterializedRecordView {
        model_id: result.model,
        environment,
        version: model.version,
        detail: Some(model.version_detail),
        target: result.target,
        incremental_strategy: strategy_code(model.config.incremental),
        incremental_key: strategy_key(model.config.incremental),
        adapter: Some(adapter),
        output_identity: result.output_identity,
        contract: model.contract,
        effective_key: Some(effective_key),
        run_id,
        materialized_at: finished_at,
    }
}

/// What becomes of a successful build's version: it is withheld where the
/// physical identity captured at the build is no longer the live one.
pub open spec fn recording(
    model: CompiledModelView,
    result: ModelResultView,
    live: Option<Seq<char>>,
    environment: Option<Seq<char>>,
    adapter: Seq<char>,
    run_id: Seq<char>,
    finished_at: Seq<char>,
) -> RecordingView {
    if result.output_identity is Some && live != result.output_identity {
        RecordingView::Withhold(
            "materialisation for "@ + result.model + " not recorded: "@ + result.target
                + " changed after the build (a concurrent writer owns it now)"@,
        )
    } else {
        RecordingView::Record(
            build_record(
                model,
                result,
                environment,
                adapter,
                match crate::contracts::model_key(model) {
                    Some(key) => key,
                    None => Seq::empty(),
                },
                run_id,
                finished_at,
            ),
        )
    }
}

/// Decides what becomes of a successful build's version, given the relation's
/// physical identity right now.
pub(crate) fn record_build(
    model: &CompiledModel,
    result: &ModelResult,
    live: &Option<String>,
    environment: &Option<String>,
    adapter: &str,
    run_id: &str,
    finished_at: &str,
) -> (r: Recording)
    ensures
        r.deep_view() == recording(
            model.deep_view(),
            result.deep_view(),
            live.deep_view(),
            environment.deep_view(),
            adapter@,
            run_id@,
            finished_at@,
        ),
{
    if result.output_identity.is_some() && !same_option(live, &result.output_identity) {
        return Recording::Withhold(
            cat5(
                "materialisation for ",
                result.model.as_str(),
                " not recorded: ",
                result.target.as_str(),
                " changed after the build (a concurrent writer owns it now)",
            ),
        );
    }
    let key: Vec<Vec<String>> = match crate::contracts::effective_key(model) {
        Some(key) => key,
        None => none_of(),
    };
    Recording::Record(
        MaterializedRecord {
            model_id: result.model.clone(),
            environment: environment.deep_clone(),
            version: model.version.deep_clone(),
            detail: Some(model.version_detail.deep_clone()),
            target: result.target.clone(),
            incremental_strategy: strategy_code_of(&model.config.incremental),
            incremental_key: strategy_key_of(&model.config.incremental),
            adapter: Some(adapter.to_owned()),
            output_identity: result.output_identity.deep_clone(),
            contract: model.contract.deep_clone(),
            effective_key: Some(key),
            run_id: run_id.to_owned(),
            materialized_at: finished_at.to_owned(),
        },
    )
}

/// The record of a successful seed load.
pub open spec fn load_record(
    seed: CompiledSeedView,
    result: SeedResultView,
    environment: Option<Seq<char>>,
    run_id: Seq<char>,
    finished_at: Seq<char>,
) -> SeedRecordView {
    SeedRecordView {
        name: seed.name,
        environment,
        content_hash: seed.content_hash,
        target: result.target,
        run_id,
        loaded_at: finished_at,
    }
}

pub(crate) fn record_load(
    seed: &CompiledSeed,
    result: &SeedResult,
    environment: &Option<String>,
    run_id: &str,
    finished_at: &str,
) -> (r: SeedRecord)
    ensures
        r.deep_view() == load_record(
            seed.deep_view(),
            result.deep_view(),
            environment.deep_view(),
            run_id@,
            finished_at@,
        ),
{
    SeedRecord {
        name: seed.name.clone(),
        environment: environment.deep_clone(),
        content_hash: seed.content_hash.clone(),
        target: result.target.clone(),
        run_id: run_id.to_owned(),
        loaded_at: finished_at.to_owned(),
    }
}

/// A short run id for display.
pub fn short_id(run_id: &str) -> (r: String)
    ensures
        r@ == head_text(run_id@, 8),
{
    head(run_id, 8)
}

} // verus!
