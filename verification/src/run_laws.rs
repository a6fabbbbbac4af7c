//! What a run promises: the operation that a model is carried out by, what
//! becomes of seeds and tests, and what a finished node leaves for the next plan.

use vstd::prelude::*;

use crate::events::ExecutionStatus;
use crate::failure::{FailureCategory, FailureView, RetryPolicy};
use crate::plan::{model_decision, seed_decision, ModelObservationView, PlanAction, PlannedModelView, PlannedSeedView, PlannerView};
use crate::planner::{incremental_change, strategy_code, strategy_key};
use crate::run::{
    after_failure, castable, column_is, counted, counts_of, executed_test, if_failed_seed,
    if_unloaded, if_unready, load_record, loaded_seed, model_record, occurrences, operation,
    operation_sql, overall, recording, running_result, seed_record, seed_step, stored_plan,
    test_record, test_step, watermark_in, watermark_sql, window_predicate, AfterAttemptView, ExecOp,
    ExecOpView, ModelResultView, RecordingView, RunCounts, SeedResultView, SeedStepView,
    TestAnswerView, TestInputsView, TestResultView, TestStepView,
};
use crate::seqs::{first_where, gather, lemma_first_found, lemma_gather_member};
use crate::state::SeedRunRecordView;
use crate::text::{begins, ends};
use crate::workspace::{
    doubled, quoted, strategy_columns, strategy_text, CompiledModelView, CompiledSeedView,
    IncrementalStrategyView, Materialization,
};

verus! {

/// Whether an incremental model adds to what is in place: it was planned, its
/// relation exists, and no full rebuild is due.
pub open spec fn adds(model: CompiledModelView, info: Option<PlannedModelView>) -> bool {
    &&& model.config.materialization == Materialization::Incremental
    &&& info is Some
    &&& info->0.exists
    &&& !info->0.full_rebuild
}

/// The operation that a model is carried out by. A view is a view. Where an
/// incremental model adds to what is in place, a key strategy merges on exactly
/// its columns, a partition strategy replaces exactly its partitions, an append
/// strategy appends, and a time window takes the rows beyond the watermark; and
/// no other model is carried out so. Everything else is written as a table.
pub proof fn law_operations_follow_the_strategy(
    model: CompiledModelView,
    info: Option<PlannedModelView>,
)
    ensures
        ({
            let op = operation(model, info);
            let strategy = model.config.incremental;
            &&& op is View <==> model.config.materialization == Materialization::View
            &&& op is Append <==> adds(model, info) && strategy is Some && strategy->0 is Append
            &&& op is Merge <==> adds(model, info) && strategy is Some && strategy->0 is Key
            &&& op is ReplacePartitions <==> adds(model, info) && strategy is Some && strategy->0
                is Partition
            &&& op is TimeWindow ==> adds(model, info) && strategy is Some && strategy->0
                is TimeWindow && info->0.watermark is Some
            &&& op matches ExecOpView::Merge(columns) ==> strategy == Some(
                IncrementalStrategyView::Key { columns },
            )
            &&& op matches ExecOpView::ReplacePartitions(columns) ==> strategy == Some(
                IncrementalStrategyView::Partition { columns },
            )
            &&& op matches ExecOpView::TimeWindow { predicate } ==> window_predicate(
                model,
                strategy->0->TimeWindow_column,
                info->0.watermark->0,
                strategy->0->TimeWindow_overlap_seconds,
            ) == Some(predicate)
            &&& adds(model, info) && strategy is Some && strategy->0 is TimeWindow
                && info->0.watermark is Some && window_predicate(
                model,
                strategy->0->TimeWindow_column,
                info->0.watermark->0,
                strategy->0->TimeWindow_overlap_seconds,
            ) is Some ==> op is TimeWindow
        }),
{
}

/// An operation is what its contents say it is.
pub proof fn law_operations_are_their_contents(op: ExecOp)
    ensures
        op is View <==> op.deep_view() is View,
        op is Table <==> op.deep_view() is Table,
        op is Append <==> op.deep_view() is Append,
        op matches ExecOp::Merge(columns) ==> op.deep_view() == ExecOpView::Merge(
            columns.deep_view(),
        ),
        op matches ExecOp::ReplacePartitions(columns) ==> op.deep_view()
            == ExecOpView::ReplacePartitions(columns.deep_view()),
        op matches ExecOp::TimeWindow { predicate } ==> op.deep_view() == (
        ExecOpView::TimeWindow { predicate: predicate@ }),
{
}

/// A time window compares its own column, for rows beyond the watermark, and
/// exists exactly where the model's schema has that column at a type to cast to.
/// Without an overlap the bound is the watermark itself.
pub proof fn law_windows_take_newer_rows(
    model: CompiledModelView,
    column: Seq<char>,
    watermark: Seq<char>,
    overlap: Option<u64>,
)
    ensures
        window_predicate(model, column, watermark, overlap) is Some ==> begins(
            window_predicate(model, column, watermark, overlap)->0,
            quoted(column) + " > "@,
        ),
        window_predicate(model, column, watermark, overlap) is Some ==> exists|i: int|
            0 <= i < model.schema.columns.len() && (#[trigger] model.schema.columns[i]).name
                == column && castable(model.schema.columns[i].data_type),
        (forall|i: int|
            0 <= i < model.schema.columns.len() ==> (#[trigger] model.schema.columns[i]).name
                == column ==> castable(model.schema.columns[i].data_type)) && (exists|i: int|
            0 <= i < model.schema.columns.len() && (#[trigger] model.schema.columns[i]).name
                == column) ==> window_predicate(model, column, watermark, overlap) is Some,
        overlap is None || overlap == Some(0u64) ==> window_predicate(
            model,
            column,
            watermark,
            overlap,
        ) == window_predicate(model, column, watermark, None),
        window_predicate(model, column, watermark, None) matches Some(plain) ==> begins(
            plain,
            quoted(column) + " > "@ + ("CAST('"@ + doubled(watermark, '\'') + "' AS "@),
        ),
{
    let columns = model.schema.columns;
    lemma_first_found(columns, column_is(column));
    if exists|i: int| 0 <= i < columns.len() && (#[trigger] columns[i]).name == column {
        let i = choose|i: int| 0 <= i < columns.len() && (#[trigger] columns[i]).name == column;
        assert(column_is(column)(columns[i]));
    }
    if first_where(columns, column_is(column)) is Some {
        let found = first_where(columns, column_is(column))->0;
        let i = choose|i: int| 0 <= i < columns.len() && columns[i] == found;
        assert(columns[i].name == column);
    }
    if window_predicate(model, column, watermark, overlap) is Some {
        let text = window_predicate(model, column, watermark, overlap)->0;
        let head = quoted(column) + " > "@;
        assert(text.take(head.len() as int) =~= head);
    }
    if window_predicate(model, column, watermark, None) is Some {
        let text = window_predicate(model, column, watermark, None)->0;
        let head = quoted(column) + " > "@ + ("CAST('"@ + doubled(watermark, '\'') + "' AS "@);
        assert(text.take(head.len() as int) =~= head);
    }
}

/// An operation runs the model's own query; a time window keeps of it the rows
/// that its predicate admits, and nothing else filters.
pub proof fn law_only_windows_filter(op: ExecOpView, sql: Seq<char>)
    ensures
        !(op is TimeWindow) ==> operation_sql(op, sql) == sql,
        op matches ExecOpView::TimeWindow { predicate } ==> begins(
            operation_sql(op, sql),
            "SELECT * FROM ("@ + sql,
        ) && ends(operation_sql(op, sql), " WHERE "@ + predicate),
{
    if op is TimeWindow {
        let text = operation_sql(op, sql);
        let head = "SELECT * FROM ("@ + sql;
        let tail = " WHERE "@ + op->predicate;
        reveal_strlit(") AS __phlo_src WHERE ");
        reveal_strlit(" WHERE ");
        assert(text.take(head.len() as int) =~= head);
        assert(text.skip(text.len() - tail.len()) =~= tail);
    }
}

/// The query for a watermark is there exactly for time windows, asks for the
/// greatest value of the window's column, and its answer is its first cell.
pub proof fn law_watermarks_are_the_newest_value(model: CompiledModelView, rows: Seq<Seq<Seq<char>>>)
    ensures
        watermark_sql(model) is Some <==> model.config.incremental is Some
            && model.config.incremental->0 is TimeWindow,
        watermark_sql(model) matches Some(sql) ==> begins(
            sql,
            "SELECT max("@ + quoted(model.config.incremental->0->TimeWindow_column),
        ),
        watermark_in(rows) matches Some(value) ==> value == rows[0][0] && value != "NULL"@,
        rows.len() > 0 && rows[0].len() > 0 && rows[0][0] != "NULL"@ ==> watermark_in(rows)
            == Some(rows[0][0]),
        rows.len() == 0 ==> watermark_in(rows) is None,
{
    if watermark_sql(model) is Some {
        let head = "SELECT max("@ + quoted(model.config.incremental->0->TimeWindow_column);
        let sql = watermark_sql(model)->0;
        assert(sql.take(head.len() as int) =~= head);
    }
}

/// What a successful build leaves is what the next plan needs: as long as the
/// relation exists and holds what was written, the model at the same version is
/// skipped, and its strategy asks for no full rebuild.
pub proof fn law_a_recorded_build_is_skipped_next(
    planner: PlannerView,
    model: CompiledModelView,
    result: ModelResultView,
    environment: Option<Seq<char>>,
    run_id: Seq<char>,
    finished_at: Seq<char>,
    observed: ModelObservationView,
)
    requires
        recording(
            model,
            result,
            observed.output_identity,
            environment,
            planner.adapter,
            run_id,
            finished_at,
        ) == RecordingView::Record(observed.current->0),
        observed.current is Some,
        observed.exists,
    ensures
        model_decision(planner, model, observed, environment, false).0 == PlanAction::Skip,
        !incremental_change(model, observed.current).0,
        incremental_change(model, observed.current).1.len() == 0,
        observed.current->0.environment == environment,
        observed.current->0.model_id == result.model,
        observed.current->0.target == result.target,
        observed.current->0.run_id == run_id,
        observed.current->0.materialized_at == finished_at,
        observed.current->0.detail == Some(model.version_detail),
        observed.current->0.contract == model.contract,
{
}

/// A version is withheld exactly where the build captured an identity that the
/// relation no longer reports.
pub proof fn law_overwritten_builds_are_withheld(
    model: CompiledModelView,
    result: ModelResultView,
    live: Option<Seq<char>>,
    environment: Option<Seq<char>>,
    adapter: Seq<char>,
    run_id: Seq<char>,
    finished_at: Seq<char>,
)
    ensures
        recording(model, result, live, environment, adapter, run_id, finished_at) is Withhold
            <==> result.output_identity is Some && live != result.output_identity,
{
}

/// What a loaded seed leaves is what the next plan needs: at the same content and
/// target it is skipped.
pub proof fn law_a_recorded_load_is_skipped_next(
    seed: CompiledSeedView,
    result: SeedResultView,
    environment: Option<Seq<char>>,
    run_id: Seq<char>,
    finished_at: Seq<char>,
)
    ensures
        seed_decision(
            true,
            seed,
            result.target,
            true,
            Some(load_record(seed, result, environment, run_id, finished_at)),
            false,
        ).0 == PlanAction::Skip,
        load_record(seed, result, environment, run_id, finished_at).environment == environment,
        load_record(seed, result, environment, run_id, finished_at).name == seed.name,
        load_record(seed, result, environment, run_id, finished_at).loaded_at == finished_at,
{
}

/// Strategies are told apart by what they do and by the columns they work by.
pub proof fn law_strategy_codes_tell_strategies_apart(
    a: IncrementalStrategyView,
    b: IncrementalStrategyView,
)
    ensures
        strategy_text(a) == strategy_text(b) <==> (a is Append <==> b is Append) && (a is Key
            <==> b is Key) && (a is Partition <==> b is Partition) && (a is TimeWindow <==> b
            is TimeWindow),
        a matches IncrementalStrategyView::Key { columns } ==> strategy_columns(a) == columns,
        a matches IncrementalStrategyView::Partition { columns } ==> strategy_columns(a)
            == columns,
        a matches IncrementalStrategyView::TimeWindow { column, .. } ==> strategy_columns(a)
            == seq![column],
        a is Append ==> strategy_columns(a).len() == 0,
        strategy_code(Some(a)) == Some(strategy_text(a)),
        strategy_code(None) is None,
        strategy_key(None) is None,
{
    reveal_strlit("append");
    reveal_strlit("key");
    reveal_strlit("partition");
    reveal_strlit("time_window");
    assert("append"@.len() == 6);
    assert("key"@.len() == 3);
    assert("partition"@.len() == 9);
    assert("time_window"@.len() == 11);
}

/// A run ends cancelled exactly where it was cancelled, else failed exactly where
/// some node failed, else passed.
pub proof fn law_runs_fail_with_a_failed_node(
    cancelled: bool,
    counts: RunCounts,
    statuses: Seq<ExecutionStatus>,
)
    requires
        counts_of(counts, statuses),
    ensures
        overall(cancelled, counts) == ExecutionStatus::Cancelled <==> cancelled,
        overall(cancelled, counts) == ExecutionStatus::Failed <==> !cancelled && statuses.contains(
            ExecutionStatus::Failed,
        ),
        overall(cancelled, counts) == ExecutionStatus::Passed <==> !cancelled
            && !statuses.contains(ExecutionStatus::Failed),
{
    law_occurrences_are_found(statuses, ExecutionStatus::Failed);
}

/// A status is counted exactly as often as it occurs.
pub proof fn law_occurrences_are_found(statuses: Seq<ExecutionStatus>, status: ExecutionStatus)
    ensures
        occurrences(statuses, status) > 0 <==> statuses.contains(status),
        occurrences(statuses, status) <= statuses.len(),
        forall|next: ExecutionStatus| #[trigger]
            occurrences(statuses.push(next), status) == occurrences(statuses, status) + if next
                == status {
                1nat
            } else {
                0nat
            },
    decreases statuses.len(),
{
    assert forall|next: ExecutionStatus| #[trigger]
        occurrences(statuses.push(next), status) == occurrences(statuses, status) + if next
            == status {
            1nat
        } else {
            0nat
        } by {
        assert(statuses.push(next).drop_last() =~= statuses);
    }
    if statuses.len() > 0 {
        let rest = statuses.drop_last();
        law_occurrences_are_found(rest, status);
        if rest.contains(status) {
            let k = choose|k: int| 0 <= k < rest.len() && rest[k] == status;
            assert(statuses[k] == status);
        }
        if statuses.contains(status) && statuses.last() != status {
            let k = choose|k: int| 0 <= k < statuses.len() && statuses[k] == status;
            assert(rest[k] == status);
        }
        assert(statuses[statuses.len() - 1] == statuses.last());
    }
}

/// Counting a node adds one to its own status and to no other.
pub proof fn law_counting_adds_one(counts: RunCounts, status: ExecutionStatus)
    requires
        counts.passed < usize::MAX,
        counts.failed < usize::MAX,
        counts.skipped < usize::MAX,
        counts.cached < usize::MAX,
        counts.blocked < usize::MAX,
        counts.cancelled < usize::MAX,
    ensures
        ({
            let now = counted(counts, status);
            &&& now.passed == counts.passed + (if status == ExecutionStatus::Passed {
                1int
            } else {
                0
            })
            &&& now.failed == counts.failed + (if status == ExecutionStatus::Failed {
                1int
            } else {
                0
            })
            &&& now.skipped == counts.skipped + (if status == ExecutionStatus::Skipped {
                1int
            } else {
                0
            })
            &&& now.cached == counts.cached + (if status == ExecutionStatus::Cached {
                1int
            } else {
                0
            })
            &&& now.blocked == counts.blocked + (if status == ExecutionStatus::Blocked {
                1int
            } else {
                0
            })
            &&& now.cancelled == counts.cancelled + (if status == ExecutionStatus::Cancelled {
                1int
            } else {
                0
            })
        }),
{
}

/// A seed is loaded exactly where the run goes on and the plan builds it. In a
/// stopped run it is cancelled; where nothing is to be loaded it keeps an earlier
/// success of the run, and is skipped and recorded without one.
pub proof fn law_seeds_load_where_planned(
    seed: PlannedSeedView,
    stopped: bool,
    prior: Option<SeedRunRecordView>,
    now: Seq<char>,
)
    ensures
        ({
            let step = seed_step(seed, stopped, prior, now);
            let reused = prior is Some && prior->0.status == ExecutionStatus::Passed;
            &&& step is Load <==> !stopped && seed.action == PlanAction::Build
            &&& step is Cancel <==> stopped
            &&& step matches SeedStepView::Cancel(result) ==> result.status
                == ExecutionStatus::Cancelled && result.seed == seed.name && result.target
                == seed.target && result.failure is Some && result.failure->0.category
                == FailureCategory::Cancelled
            &&& step matches SeedStepView::Settle { result, persist } ==> {
                &&& result.seed == seed.name && result.target == seed.target
                &&& result.failure is None
                &&& result.status == ExecutionStatus::Cached <==> reused
                &&& result.status == ExecutionStatus::Skipped <==> !reused
                &&& persist <==> !reused
            }
        }),
{
}

/// A seed passes exactly where its load ended without a failure.
pub proof fn law_loads_pass_without_a_failure(
    seed: PlannedSeedView,
    attempts: Seq<crate::failure::AttemptView>,
    failure: Option<FailureView>,
    duration_ms: u64,
)
    ensures
        ({
            let result = loaded_seed(seed, attempts, failure, duration_ms);
            &&& result.status == ExecutionStatus::Passed <==> failure is None
            &&& result.status == ExecutionStatus::Failed <==> failure is Some
            &&& result.seed == seed.name && result.target == seed.target
            &&& result.attempts == attempts && result.failure == failure
        }),
{
}

/// A relation counts as not loaded exactly where a seed that loads into it
/// failed.
pub proof fn law_failed_seeds_are_not_read(results: Seq<SeedResultView>, target: Seq<char>)
    ensures
        gather(results, if_failed_seed()).contains(target) <==> exists|i: int|
            0 <= i < results.len() && (#[trigger] results[i]).status == ExecutionStatus::Failed
                && results[i].target == target,
{
    let f = if_failed_seed();
    lemma_gather_member(results, f, target);
    if gather(results, f).contains(target) {
        let i = choose|i: int| 0 <= i < results.len() && f(#[trigger] results[i]).contains(target);
        assert(results[i].target == target);
    }
    if exists|i: int|
        0 <= i < results.len() && (#[trigger] results[i]).status == ExecutionStatus::Failed
            && results[i].target == target {
        let i = choose|i: int|
            0 <= i < results.len() && (#[trigger] results[i]).status == ExecutionStatus::Failed
                && results[i].target == target;
        assert(f(results[i])[0] == target);
        assert(f(results[i]).contains(target));
    }
}

/// A test runs exactly where the run goes on, every model that it reads is
/// available, and no seed behind it failed; in a stopped run it is cancelled, and
/// otherwise blocked.
pub proof fn law_tests_run_on_available_data(
    test: Seq<char>,
    stopped: bool,
    inputs: TestInputsView,
    now: Seq<char>,
)
    ensures
        ({
            let step = test_step(test, stopped, inputs, now);
            &&& step is Execute <==> {
                &&& !stopped
                &&& forall|i: int|
                    0 <= i < inputs.targets.len() ==> {
                        let status = (#[trigger] inputs.targets[i]).1;
                        status == ExecutionStatus::Passed || status == ExecutionStatus::Skipped
                            || status == ExecutionStatus::Cached
                    }
                &&& forall|i: int|
                    0 <= i < inputs.sources.len() ==> !(#[trigger] inputs.sources[i]).1
            }
            &&& step is Cancel <==> stopped
            &&& step matches TestStepView::Cancel(result) ==> result.status
                == ExecutionStatus::Cancelled && result.test == test
            &&& step matches TestStepView::Block(result) ==> result.status
                == ExecutionStatus::Blocked && result.test == test && result.failure is Some
                && result.failure->0.category == FailureCategory::Dependency
        }),
{
    let missing = gather(inputs.targets, if_unready());
    let bad = gather(inputs.sources, if_unloaded());
    if missing.len() > 0 {
        assert(missing.contains(missing[0]));
        lemma_gather_member(inputs.targets, if_unready(), missing[0]);
        let i = choose|i: int|
            0 <= i < inputs.targets.len() && if_unready()(#[trigger] inputs.targets[i]).contains(
                missing[0],
            );
        assert(!inputs.targets[i].1.satisfied());
    } else {
        assert forall|i: int| 0 <= i < inputs.targets.len() implies (
        #[trigger] inputs.targets[i]).1.satisfied() by {
            if !inputs.targets[i].1.satisfied() {
                let name = inputs.targets[i].0;
                assert(if_unready()(inputs.targets[i])[0] == name);
                assert(if_unready()(inputs.targets[i]).contains(name));
                lemma_gather_member(inputs.targets, if_unready(), name);
            }
        }
    }
    if bad.len() > 0 {
        assert(bad.contains(bad[0]));
        lemma_gather_member(inputs.sources, if_unloaded(), bad[0]);
        let i = choose|i: int|
            0 <= i < inputs.sources.len() && if_unloaded()(#[trigger] inputs.sources[i]).contains(
                bad[0],
            );
        assert(inputs.sources[i].1);
    } else {
        assert forall|i: int| 0 <= i < inputs.sources.len() implies !(
        #[trigger] inputs.sources[i]).1 by {
            if inputs.sources[i].1 {
                let name = inputs.sources[i].0;
                assert(if_unloaded()(inputs.sources[i])[0] == name);
                assert(if_unloaded()(inputs.sources[i]).contains(name));
                lemma_gather_member(inputs.sources, if_unloaded(), name);
            }
        }
    }
}

/// An executed test reports the rows it found, and a failure exactly where it did
/// not pass: its own where rows came back, the query's where the query failed.
pub proof fn law_failed_tests_say_why(
    test: Seq<char>,
    answer: TestAnswerView,
    duration_ms: u64,
    now: Seq<char>,
)
    ensures
        ({
            let result = executed_test(test, answer, duration_ms, now);
            &&& result.test == test
            &&& result.status == ExecutionStatus::Passed || result.status
                == ExecutionStatus::Failed
            &&& result.failure is None <==> result.status == ExecutionStatus::Passed
            &&& answer matches TestAnswerView::Rows { row_count, query_id } ==> result.row_count
                == row_count && result.query_id == query_id && (row_count > 0
                ==> result.failure->0.category == FailureCategory::Test
                && !result.failure->0.retryable)
            &&& answer matches TestAnswerView::Failed(failure) ==> result.failure == Some(failure)
        }),
{
}

/// What is persisted of a node is its outcome: the status unchanged, an error
/// exactly where there was a failure, and every attempt.
pub proof fn law_records_keep_the_outcome(
    run_id: Seq<char>,
    model: ModelResultView,
    seed: SeedResultView,
    test: TestResultView,
    started_at: Seq<char>,
    finished_at: Seq<char>,
)
    ensures
        ({
            let m = model_record(run_id, model);
            let s = seed_record(run_id, seed, started_at, finished_at);
            let t = test_record(run_id, test, started_at, finished_at);
            &&& m.run_id == run_id && s.run_id == run_id && t.run_id == run_id
            &&& m.model_id == model.model && s.name == seed.seed && t.test_id == test.test
            &&& m.status == model.status && s.status == seed.status && t.status == test.status
            &&& m.desired_version == model.desired_version && m.target == model.target
            &&& m.attempts == model.attempts && s.attempts == seed.attempts
            &&& m.error is Some <==> model.failure is Some
            &&& s.error is Some <==> seed.failure is Some
            &&& t.error is Some <==> test.failure is Some
            &&& m.error is Some ==> m.error->0 == model.failure->0.message
            &&& s.error is Some ==> s.error->0 == seed.failure->0.message
            &&& t.error is Some ==> t.error->0 == test.failure->0.message
            &&& t.row_count == test.row_count
        }),
{
}

/// While a model runs, its record says so and keeps what was attempted.
pub proof fn law_running_models_are_recorded_as_running(
    run_id: Seq<char>,
    blank: ModelResultView,
    started_at: Seq<char>,
    attempts: Seq<crate::failure::AttemptView>,
    failure: Option<FailureView>,
)
    ensures
        ({
            let r = model_record(run_id, running_result(blank, started_at, attempts, failure));
            &&& r.status == ExecutionStatus::Running
            &&& r.started_at == started_at
            &&& r.attempts == attempts
            &&& r.model_id == blank.model
            &&& r.desired_version == blank.desired_version
        }),
{
}

/// Another attempt follows a failed one exactly where the run goes on, the adapter
/// declared the failure retryable, and attempts are left.
pub proof fn law_retries_need_a_retryable_adapter_failure(
    policy: RetryPolicy,
    failure: FailureView,
    attempt: u32,
    cancelled: bool,
)
    ensures
        after_failure(policy, failure, attempt, cancelled) is RetryAfter <==> {
            &&& !cancelled
            &&& failure.retryable
            &&& failure.category == FailureCategory::Adapter
            &&& attempt <= policy.retries
            &&& attempt < u32::MAX
        },
        policy.delay_millis(attempt) < 0x1_0000_0000_0000_0000 ==> (after_failure(
            policy,
            failure,
            attempt,
            cancelled,
        ) matches AfterAttemptView::RetryAfter(delay) ==> delay == policy.delay_millis(attempt)),
{
}

/// A stored plan keeps, node for node, what a resumed run compares against: the
/// names, versions, actions and full rebuilds of the plan.
pub proof fn law_stored_plans_keep_the_plan(
    plan: crate::plan::PlanView,
    environment: Option<Seq<char>>,
    i: int,
)
    ensures
        ({
            let stored = stored_plan(plan, environment);
            &&& stored.plan_id == plan.id
            &&& stored.environment == environment
            &&& stored.models.len() == plan.models.len()
            &&& stored.seeds.len() == plan.seeds.len()
            &&& stored.tests.len() == plan.tests.len()
            &&& 0 <= i < plan.models.len() ==> stored.models[i].id == plan.models[i].id
                && stored.models[i].desired_version == plan.models[i].desired_version
                && stored.models[i].full_rebuild == plan.models[i].full_rebuild
                && stored.models[i].watermark == plan.models[i].watermark
                && stored.models[i].action == plan.models[i].action.code_text()
            &&& 0 <= i < plan.seeds.len() ==> stored.seeds[i].name == plan.seeds[i].name
                && stored.seeds[i].desired_version == plan.seeds[i].desired_version
                && stored.seeds[i].action == plan.seeds[i].action.code_text()
            &&& 0 <= i < plan.tests.len() ==> stored.tests[i].id == plan.tests[i].id
                && stored.tests[i].targets == plan.tests[i].targets
        }),
{
}

proof fn lemma_doubled_tells_apart(a: Seq<char>, b: Seq<char>, mark: char)
    requires
        doubled(a, mark) == doubled(b, mark),
    ensures
        a == b,
    decreases a.len(),
{
    let x = doubled(a, mark);
    if a.len() == 0 {
        if b.len() > 0 {
            assert(doubled(b, mark).len() > 0);
        }
        assert(a =~= b);
    } else {
        assert(x.len() > 0);
        if b.len() == 0 {
            assert(doubled(b, mark).len() == 0);
        }
        let p = doubled(a.drop_last(), mark);
        let q = doubled(b.drop_last(), mark);
        assert(x.last() == a.last() && x.last() == b.last());
        if a.last() == mark {
            assert(x.drop_last().drop_last() =~= p);
            assert(x.drop_last().drop_last() =~= q);
        } else {
            assert(x.drop_last() =~= p);
            assert(x.drop_last() =~= q);
        }
        lemma_doubled_tells_apart(a.drop_last(), b.drop_last(), mark);
        assert(a =~= a.drop_last().push(a.last()));
        assert(b =~= b.drop_last().push(b.last()));
    }
}

/// Quoted names are told apart, and are quoted on both sides.
pub proof fn law_quoting_tells_names_apart(a: Seq<char>, b: Seq<char>)
    ensures
        quoted(a) == quoted(b) ==> a == b,
        quoted(a).len() >= a.len() + 2,
        quoted(a)[0] == '"',
        quoted(a).last() == '"',
    decreases a.len(),
{
    reveal_strlit("\"");
    let x = doubled(a, '"');
    let y = doubled(b, '"');
    if quoted(a) == quoted(b) {
        assert(quoted(a).subrange(1, quoted(a).len() - 1) =~= x);
        assert(quoted(b).subrange(1, quoted(b).len() - 1) =~= y);
        lemma_doubled_tells_apart(a, b, '"');
    }
    if a.len() > 0 {
        law_quoting_tells_names_apart(a.drop_last(), a.drop_last());
    }
}

} // verus!
