use phlo_transform_engine::error::EngineError;
use phlo_transform_engine::events::{EngineEvent, ExecutionStatus};
use phlo_transform_engine::failure::{Duration, Failure, FailureCategory, RetryPolicy};
use phlo_transform_engine::names::NameMap;
use phlo_transform_engine::plan::{
    Membership, Plan, PlanAction, PlanSelection, PlannedModel, PlannedSeed, PlannedTest,
};
use phlo_transform_engine::resume::{resolve_run_id, resume, resume_plan, retry_failed};
use phlo_transform_engine::run::{
    exec_op, execute_op, next_test, run_test, seed_result, seeds_stopped, AfterAttempt, Attempts,
    ExecOp, Recording, RunOptions, TestAnswer, TestStep,
};
use phlo_transform_engine::runner::{
    conclude_run, models_to_record, record_loads, record_model, shared_targets, PriorRun, RunEnd,
    RunMark, Runner,
};
use phlo_transform_engine::schedule::{Completion, Execution};
use phlo_transform_engine::state::{
    ModelRunRecord, RunRecord, RunSummary, SeedRecord, StoredPlan, StoredPlanModel, StoredRun,
    TestRunRecord,
};
use phlo_transform_engine::workspace::{
    Compilation, CompiledModel, CompiledSeed, CompiledTest, Defaults, Materialization, ModelConfig,
    ModelSchema, ModelVersion, Relation, SourceId, VersionDetail,
};

const NOW: &str = "2026-01-01T00:00:00Z";

fn model(id: &str, dependencies: &[&str]) -> CompiledModel {
    CompiledModel {
        id: id.to_string(),
        target: Relation {
            catalog: None,
            schema: "s".to_string(),
            table: id.to_string(),
        },
        config: ModelConfig {
            materialization: Materialization::Table,
            incremental: None,
            diff: None,
        },
        version: ModelVersion {
            hash: format!("v-{id}"),
            sql_hash: String::new(),
            config_hash: String::new(),
            contract_hash: String::new(),
            dependency_hash: String::new(),
            source_state_hash: String::new(),
            compiler_version: String::new(),
            target_hash: String::new(),
        },
        version_detail: VersionDetail {
            dependencies: NameMap::new(),
            sources: NameMap::new(),
        },
        schema: ModelSchema {
            known: false,
            columns: Vec::new(),
        },
        contract: None,
        assertions: Vec::new(),
        model_dependencies: dependencies.iter().map(|d| d.to_string()).collect(),
        source_dependencies: Vec::new(),
        compiled_sql: format!("select '{id}'"),
    }
}

/// `a` <- `b` <- `c`, and `d` on its own; a test reads `b`, another the seed.
fn workspace() -> Compilation {
    let mut seeded = model("d", &[]);
    seeded.source_dependencies = vec![events_source()];
    Compilation {
        ok: true,
        models: vec![model("a", &[]), model("b", &["a"]), model("c", &["b"]), seeded],
        seeds: vec![CompiledSeed {
            name: "events".to_string(),
            path: "seeds/events.csv".to_string(),
            content_hash: "h1".to_string(),
            catalog: None,
            schema: None,
            table: "events".to_string(),
        }],
        tests: vec![
            CompiledTest {
                id: "t-b".to_string(),
                generated: false,
                targets: vec!["b".to_string()],
                sources: Vec::new(),
                compiled_sql: "select 1".to_string(),
            },
            CompiledTest {
                id: "t-events".to_string(),
                generated: true,
                targets: Vec::new(),
                sources: vec![events_source()],
                compiled_sql: "select 2".to_string(),
            },
        ],
        defaults: Defaults {
            catalog: None,
            schema: Some("raw".to_string()),
        },
        topological_order: Some(
            ["a", "b", "c", "d"].iter().map(|n| n.to_string()).collect(),
        ),
        diagnostics: Vec::new(),
        lineage_hash: "lineage".to_string(),
        compiler_semantics_version: "7".to_string(),
    }
}

fn events_source() -> SourceId {
    SourceId {
        catalog: None,
        schema: None,
        table: "events".to_string(),
    }
}

fn planned(id: &str, action: PlanAction) -> PlannedModel {
    PlannedModel {
        id: id.to_string(),
        target: format!("s.{id}"),
        materialization: "table".to_string(),
        action,
        reasons: Vec::new(),
        membership: Membership::Selected,
        exists: true,
        incremental: None,
        full_rebuild: false,
        watermark: None,
        desired_version: format!("v-{id}"),
        current_version: None,
        dependencies: Vec::new(),
        sources: Vec::new(),
        sql_hash: String::new(),
        compiled_sql: String::new(),
    }
}

fn plan() -> Plan {
    Plan {
        id: "plan-1".to_string(),
        created_at: NOW.to_string(),
        environment: None,
        adapter: "trino".to_string(),
        compiler_semantics_version: "7".to_string(),
        blocked: false,
        selection: PlanSelection {
            terms: Vec::new(),
            exclude: Vec::new(),
            matched: Vec::new(),
            expanded: Vec::new(),
            required: Vec::new(),
        },
        git: None,
        warnings: Vec::new(),
        seeds: vec![PlannedSeed {
            name: "events".to_string(),
            target: "raw.events".to_string(),
            path: "seeds/events.csv".to_string(),
            action: PlanAction::Build,
            desired_version: "h1".to_string(),
            reasons: Vec::new(),
        }],
        models: ["a", "b", "c", "d"]
            .iter()
            .map(|id| planned(id, PlanAction::Build))
            .collect(),
        tests: ["t-b", "t-events"]
            .iter()
            .map(|id| PlannedTest {
                id: id.to_string(),
                generated: false,
                targets: Vec::new(),
                sources: Vec::new(),
            })
            .collect(),
        diagnostics: Vec::new(),
    }
}

fn options(concurrency: usize, fail_fast: bool) -> RunOptions {
    RunOptions {
        environment: None,
        concurrency,
        run_tests: true,
        fail_fast,
        retry: RetryPolicy {
            retries: 1,
            base_delay: Duration::from_millis(10),
            max_delay: Duration::from_secs(1),
        },
        model_timeout: None,
    }
}

fn nothing_before() -> PriorRun {
    PriorRun::of(&Vec::new(), &Vec::new())
}

fn start(plan: &Plan, options: &RunOptions, failed: &[&str]) -> Execution {
    Runner::new("trino".to_string(), true).execute(
        &workspace(),
        plan,
        options,
        &nothing_before(),
        &failed.iter().map(|f| f.to_string()).collect(),
        false,
        Vec::new(),
        NOW,
    )
}

fn success() -> Completion {
    Completion {
        attempts: Vec::new(),
        failure: None,
        query_id: Some("q".to_string()),
        output_identity: None,
        started_at: NOW.to_string(),
        finished_at: NOW.to_string(),
        duration_ms: 5,
    }
}

fn broken() -> Completion {
    Completion {
        failure: Some(Failure::without_attempt_at(
            FailureCategory::Sql,
            "no column",
            NOW,
        )),
        query_id: None,
        ..success()
    }
}

fn end() -> RunEnd {
    RunEnd {
        run_id: "run-1".to_string(),
        plan_id: "plan-1".to_string(),
        environment: None,
        continued_from: None,
        started_at: NOW.to_string(),
        finished_at: NOW.to_string(),
        warnings: Vec::new(),
        seeds: Vec::new(),
        tests: Vec::new(),
    }
}

#[test]
fn models_start_once_what_they_read_is_there() {
    let mut run = start(&plan(), &options(4, false), &[]);
    // `a` and `d` read no planned model.
    assert_eq!(run.next(), Some(0));
    assert_eq!(run.next(), Some(3));
    assert_eq!(run.next(), None);
    run.complete(0, success(), NOW);
    assert_eq!(run.next(), Some(1));
    run.complete(1, success(), NOW);
    assert_eq!(run.next(), Some(2));
    run.complete(2, success(), NOW);
    run.complete(3, success(), NOW);
    assert!(!run.is_active());
    run.close(NOW);
    let result = conclude_run(&run, end());
    assert_eq!(result.status, ExecutionStatus::Passed);
    assert_eq!(result.counts.passed, 4);
    assert_eq!(result.models.len(), 4);
    assert_eq!(
        result.events.last(),
        Some(&EngineEvent::RunFinished {
            run_id: "run-1".to_string(),
            status: ExecutionStatus::Passed,
        })
    );
}

#[test]
fn no_more_models_run_at_once_than_allowed() {
    let mut run = start(&plan(), &options(1, false), &[]);
    assert_eq!(run.next(), Some(0));
    assert_eq!(run.next(), None);
    run.complete(0, success(), NOW);
    assert!(run.next().is_some());
    assert_eq!(run.next(), None);
}

#[test]
fn a_failure_blocks_its_readers_and_nothing_else() {
    let mut run = start(&plan(), &options(4, false), &[]);
    run.next();
    run.next();
    run.complete(0, broken(), NOW);
    assert_eq!(run.status_of(1), ExecutionStatus::Blocked);
    assert_eq!(run.status_of(2), ExecutionStatus::Blocked);
    assert_eq!(run.status_of(3), ExecutionStatus::Running);
    run.complete(3, success(), NOW);
    run.close(NOW);
    let result = conclude_run(&run, end());
    assert_eq!(result.status, ExecutionStatus::Failed);
    assert_eq!(result.counts.failed, 1);
    assert_eq!(result.counts.blocked, 2);
    assert_eq!(result.counts.passed, 1);
}

#[test]
fn fail_fast_cuts_the_rest_off() {
    let mut run = start(&plan(), &options(1, true), &[]);
    assert_eq!(run.next(), Some(0));
    run.complete(0, broken(), NOW);
    assert!(run.is_stopped());
    assert_eq!(run.next(), None);
    run.close(NOW);
    assert_eq!(run.status_of(3), ExecutionStatus::Cancelled);
    assert_eq!(run.status_of(1), ExecutionStatus::Blocked);
    let cut = run.result(3).clone().unwrap().failure.unwrap();
    assert_eq!(cut.message, "cancelled by fail-fast shutdown");
}

#[test]
fn a_failed_seed_blocks_its_readers() {
    let run = start(&plan(), &options(4, false), &["raw.events"]);
    assert_eq!(run.status_of(3), ExecutionStatus::Blocked);
    assert_eq!(run.status_of(0), ExecutionStatus::Pending);
    let reason = run.result(3).clone().unwrap().failure.unwrap();
    assert_eq!(reason.message, "blocked by a failed seed load");
}

#[test]
fn a_failed_seed_stops_a_fail_fast_run() {
    let mut run = start(&plan(), &options(4, true), &["raw.events"]);
    assert!(run.is_stopped());
    assert_eq!(run.next(), None);
    run.close(NOW);
    assert_eq!(run.status_of(0), ExecutionStatus::Cancelled);
    assert_eq!(run.status_of(3), ExecutionStatus::Blocked);
}

#[test]
fn a_cancelled_run_ends_every_model() {
    let mut run = start(&plan(), &options(1, false), &[]);
    run.next();
    run.cancel();
    assert!(run.is_cancelled());
    run.close(NOW);
    let result = conclude_run(&run, end());
    assert_eq!(result.status, ExecutionStatus::Cancelled);
    assert_eq!(result.counts.cancelled, 4);
}

#[test]
fn a_run_cancelled_while_its_seeds_loaded_starts_no_model() {
    let mut idle = plan();
    idle.models = Vec::new();
    for plan in [plan(), idle] {
        let mut run = Runner::new("trino".to_string(), true).execute(
            &workspace(),
            &plan,
            &options(4, false),
            &nothing_before(),
            &Vec::new(),
            true,
            Vec::new(),
            NOW,
        );
        assert!(run.is_cancelled());
        assert!(!run.is_active());
        assert_eq!(run.next(), None);
        run.close(NOW);
        let result = conclude_run(&run, end());
        assert_eq!(result.status, ExecutionStatus::Cancelled);
        assert_eq!(result.counts.cancelled, plan.models.len());
    }
}

#[test]
fn seeds_stop_at_a_cancellation_or_a_failure_under_fail_fast() {
    let (passed, failed) = (ExecutionStatus::Passed, ExecutionStatus::Failed);
    assert!(!seeds_stopped(false, false, false, failed));
    assert!(!seeds_stopped(false, false, true, passed));
    assert!(seeds_stopped(false, false, true, failed));
    assert!(seeds_stopped(false, true, false, passed));
    assert!(seeds_stopped(true, false, false, passed));
}

fn mark() -> RunMark {
    RunMark {
        environment: Some("ci".to_string()),
        run_id: "run-1".to_string(),
        finished_at: NOW.to_string(),
    }
}

#[test]
fn only_models_that_passed_are_recorded() {
    let mut run = start(&plan(), &options(4, false), &[]);
    let first = run.next().unwrap();
    let second = run.next().unwrap();
    run.complete(
        first,
        Completion {
            output_identity: Some("snapshot-1".to_string()),
            ..success()
        },
        NOW,
    );
    run.complete(second, broken(), NOW);
    run.close(NOW);
    let results = run.results();
    assert_eq!(results.len(), 4);
    let chosen = models_to_record(&results);
    assert_eq!(chosen.len(), 1);
    assert_eq!(chosen[0].model, "a");
    let live = Some("snapshot-1".to_string());
    match record_model(&workspace(), &chosen[0], &live, "trino", &mark()) {
        Some(Recording::Record(record)) => {
            assert_eq!(record.model_id, "a");
            assert_eq!(record.environment.as_deref(), Some("ci"));
            assert_eq!(record.run_id, "run-1");
            assert_eq!(record.version, workspace().models[0].version);
            assert_eq!(record.adapter.as_deref(), Some("trino"));
            assert_eq!(record.materialized_at, NOW);
            assert_eq!(record.output_identity, live);
        }
        other => panic!("{other:?}"),
    }
    for moved in [None, Some("snapshot-2".to_string())] {
        match record_model(&workspace(), &chosen[0], &moved, "trino", &mark()) {
            Some(Recording::Withhold(warning)) => assert!(warning.contains("not recorded")),
            other => panic!("{other:?}"),
        }
    }
    for result in results {
        if result.model != "a" {
            let recorded = record_model(&workspace(), &result, &None, "trino", &mark());
            assert_eq!(recorded, None);
        }
    }
}

#[test]
fn results_are_recorded_in_name_order() {
    let mut run = start(&plan(), &options(4, false), &[]);
    while let Some(i) = run.next() {
        run.complete(i, success(), NOW);
    }
    run.close(NOW);
    let mut results = run.results();
    results.reverse();
    let names: Vec<String> = models_to_record(&results)
        .into_iter()
        .map(|result| result.model)
        .collect();
    assert_eq!(names, ["a", "b", "c", "d"]);
}

#[test]
fn only_seeds_that_passed_are_recorded() {
    let planned = plan().seeds.remove(0);
    let seed = |status| seed_result(&planned, status, Vec::new(), None, 0);
    let loads = record_loads(
        &workspace(),
        &vec![
            seed(ExecutionStatus::Failed),
            seed(ExecutionStatus::Cached),
            seed(ExecutionStatus::Passed),
            seed(ExecutionStatus::Cancelled),
        ],
        &mark(),
    );
    assert_eq!(
        loads,
        [SeedRecord {
            name: "events".to_string(),
            environment: Some("ci".to_string()),
            content_hash: "h1".to_string(),
            target: "raw.events".to_string(),
            run_id: "run-1".to_string(),
            loaded_at: NOW.to_string(),
        }]
    );
}

#[test]
fn skipped_models_release_their_readers() {
    let mut plan = plan();
    plan.models[0].action = PlanAction::Skip;
    plan.models[1].action = PlanAction::Cached;
    let mut run = start(&plan, &options(1, false), &[]);
    assert_eq!(run.status_of(0), ExecutionStatus::Skipped);
    assert_eq!(run.status_of(1), ExecutionStatus::Cached);
    assert_eq!(run.journal_from(0), [0, 1]);
    assert_eq!(run.next(), Some(2));
}

#[test]
fn seeds_and_tests_are_laid_out_from_the_plan() {
    let runner = Runner::new("trino".to_string(), true);
    let seeds = runner.seed_tasks(&workspace(), &plan());
    assert_eq!(seeds.len(), 1);
    assert_eq!(seeds[0].relation.display(), "raw.events");
    let failed = vec!["raw.events".to_string()];
    let run = start(&plan(), &options(1, false), &["raw.events"]);
    let tests = runner.run_tests(&workspace(), &plan(), &options(1, false), &run, &failed);
    assert_eq!(tests.len(), 2);
    assert_eq!(
        tests[0].inputs.targets,
        [("b".to_string(), ExecutionStatus::Pending)]
    );
    assert_eq!(tests[1].inputs.sources, [("events".to_string(), true)]);
    match next_test("t-b", false, &tests[0].inputs, NOW) {
        TestStep::Block(result) => assert_eq!(
            result.failure.unwrap().message,
            "targets not ready: b"
        ),
        other => panic!("{other:?}"),
    }
    match next_test("t-events", false, &tests[1].inputs, NOW) {
        TestStep::Block(result) => assert_eq!(
            result.failure.unwrap().message,
            "seed sources failed to load: events"
        ),
        other => panic!("{other:?}"),
    }
    let mut quiet = options(1, false);
    quiet.run_tests = false;
    assert!(runner
        .run_tests(&workspace(), &plan(), &quiet, &run, &failed)
        .is_empty());
}

#[test]
fn a_test_passes_only_without_rows() {
    let clean = run_test(
        "t",
        &TestAnswer::Rows {
            row_count: 0,
            query_id: None,
        },
        3,
        NOW,
    );
    assert_eq!(clean.status, ExecutionStatus::Passed);
    let rows = run_test(
        "t",
        &TestAnswer::Rows {
            row_count: 2,
            query_id: Some("q".to_string()),
        },
        3,
        NOW,
    );
    assert_eq!(rows.status, ExecutionStatus::Failed);
    assert_eq!(rows.row_count, 2);
    assert_eq!(rows.failure.unwrap().message, "test returned 2 row(s)");
}

#[test]
fn attempts_are_numbered_across_invocations() {
    let policy = options(1, false).retry;
    let mut failure = Failure::without_attempt_at(FailureCategory::Adapter, "boom", NOW);
    failure.retryable = true;
    let mut attempts = Attempts::new(Vec::new());
    assert_eq!(attempts.number(), 1);
    assert_eq!(
        attempts.fail(&policy, &failure, NOW.to_string(), 1, false),
        AfterAttempt::RetryAfter(10)
    );
    assert_eq!(attempts.number(), 2);
    assert_eq!(
        attempts.fail(&policy, &failure, NOW.to_string(), 1, false),
        AfterAttempt::Done
    );
    let again = Attempts::new(attempts.all());
    assert_eq!(again.number(), 3);
}

#[test]
fn shared_targets_are_serialised() {
    let mut compilation = workspace();
    compilation.models[1].target = compilation.models[0].target.clone();
    let (targets, warnings) = shared_targets(&compilation, &plan());
    assert_eq!(targets, ["s.a"]);
    assert_eq!(
        warnings,
        ["s.a is written by 2 planned models; their writes are serialised"]
    );
}

#[test]
fn operations_follow_the_materialization() {
    let info = planned("a", PlanAction::Build);
    assert_eq!(exec_op(&model("a", &[]), Some(&info)), ExecOp::Table);
    let mut view = model("a", &[]);
    view.config.materialization = Materialization::View;
    assert_eq!(exec_op(&view, Some(&info)), ExecOp::View);
    assert_eq!(execute_op(&ExecOp::Table, "select 1"), "select 1");
    let windowed = execute_op(
        &ExecOp::TimeWindow {
            predicate: "\"at\" > 1".to_string(),
        },
        "select 1",
    );
    assert!(windowed.contains("select 1") && windowed.contains("\"at\" > 1"));
}

#[test]
fn blocked_and_stale_plans_do_not_run() {
    let runner = Runner::new("trino".to_string(), true);
    assert_eq!(runner.apply(&workspace(), &plan()).unwrap().len(), 36);
    let mut blocked = plan();
    blocked.blocked = true;
    assert_eq!(
        runner.apply(&workspace(), &blocked).unwrap_err(),
        EngineError::Compilation
    );
    let mut moved = workspace();
    moved.models[0].version.hash = "other".to_string();
    assert!(matches!(
        runner.apply(&moved, &plan()).unwrap_err(),
        EngineError::StalePlan(_)
    ));
}

fn stored(status: ExecutionStatus) -> StoredRun {
    StoredRun {
        record: RunRecord {
            run_id: "0123456789abcdef".to_string(),
            plan_id: "plan-1".to_string(),
            environment: Some("ci".to_string()),
            reference_hash: None,
            started_at: NOW.to_string(),
            finished_at: None,
            status,
            model_count: 1,
            failed_count: 0,
        },
        plan: Some(StoredPlan {
            plan_id: "plan-1".to_string(),
            environment: Some("ci".to_string()),
            models: vec![StoredPlanModel {
                id: "a".to_string(),
                target: "s.a".to_string(),
                action: "build".to_string(),
                desired_version: "v-a".to_string(),
                full_rebuild: false,
                watermark: None,
            }],
            seeds: Vec::new(),
            tests: Vec::new(),
        }),
    }
}

fn model_run(status: ExecutionStatus, version: &str) -> ModelRunRecord {
    ModelRunRecord {
        run_id: "0123456789abcdef".to_string(),
        model_id: "a".to_string(),
        materialization: "table".to_string(),
        action: "build".to_string(),
        status,
        started_at: NOW.to_string(),
        finished_at: NOW.to_string(),
        sql_hash: String::new(),
        target: "s.a".to_string(),
        desired_version: version.to_string(),
        attempts: Vec::new(),
        query_id: None,
        error: None,
        error_category: None,
    }
}

#[test]
fn only_an_interrupted_run_is_resumed() {
    let ci = Some("ci".to_string());
    let attempt = |stored: &StoredRun, environment: &Option<String>| {
        resume(&workspace(), true, Some(stored), "0123", environment)
    };
    let manifest = attempt(&stored(ExecutionStatus::Running), &ci).unwrap();
    assert_eq!(manifest.models.len(), 1);
    assert!(attempt(&stored(ExecutionStatus::Cancelled), &ci).is_ok());
    for status in [ExecutionStatus::Passed, ExecutionStatus::Failed] {
        assert!(matches!(
            attempt(&stored(status), &ci).unwrap_err(),
            EngineError::InvalidPlan(_)
        ));
    }
    // The environments are named as Rust prints them for debugging.
    let error = attempt(&stored(ExecutionStatus::Running), &None).unwrap_err();
    assert!(
        error
            .message_text()
            .contains("targeted environment Some(\"ci\"); refusing to resume into None"),
        "{}",
        error.message_text()
    );
    assert!(resume(&workspace(), false, None, "x", &None).is_err());
    assert!(matches!(
        resume(&workspace(), true, None, "x", &None).unwrap_err(),
        EngineError::InvalidPlan(_)
    ));
    let mut gone = workspace();
    gone.models.remove(0);
    assert!(resume(
        &gone,
        true,
        Some(&stored(ExecutionStatus::Running)),
        "0123",
        &ci
    )
    .is_err());
}

#[test]
fn a_resumed_run_reuses_only_what_is_still_desired() {
    let mut fresh = plan();
    fresh.models.truncate(1);
    fresh.seeds.clear();
    let record = stored(ExecutionStatus::Running);
    let manifest = record.plan.clone().unwrap();
    let reused = resume_plan(
        &fresh,
        &record.record,
        &manifest,
        &PriorRun::of(
            &vec![model_run(ExecutionStatus::Passed, "v-a")],
            &Vec::new(),
        ),
        &Vec::new(),
    );
    assert_eq!(reused.models[0].action, PlanAction::Skip);
    assert_eq!(
        reused.models[0].reasons[0].detail,
        "passed earlier in this run at the same version — reused"
    );
    assert_eq!(reused.id, "plan-1");
    let stale = resume_plan(
        &fresh,
        &record.record,
        &manifest,
        &PriorRun::of(
            &vec![model_run(ExecutionStatus::Passed, "older")],
            &Vec::new(),
        ),
        &Vec::new(),
    );
    assert_eq!(stale.models[0].action, PlanAction::Build);
    assert_eq!(
        stale.models[0].reasons[0].detail,
        "resumed run; previous status was passed"
    );
}

#[test]
fn a_retry_takes_the_failed_portion() {
    let ci = Some("ci".to_string());
    let mut finished = stored(ExecutionStatus::Failed);
    finished.record.finished_at = Some(NOW.to_string());
    let failed_test = TestRunRecord {
        run_id: "0123456789abcdef".to_string(),
        test_id: "t-b".to_string(),
        status: ExecutionStatus::Failed,
        row_count: 1,
        query_id: None,
        error: None,
        error_category: None,
        started_at: NOW.to_string(),
        finished_at: NOW.to_string(),
    };
    let portion = retry_failed(
        &workspace(),
        true,
        Some(&finished),
        "0123",
        &ci,
        &vec![model_run(ExecutionStatus::Failed, "v-a")],
        &vec![failed_test],
    )
    .unwrap();
    assert_eq!(portion.models, ["a"]);
    assert_eq!(portion.tests, ["t-b"]);
    assert_eq!(portion.select, ["a", "b"]);
    let nothing = retry_failed(
        &workspace(),
        true,
        Some(&finished),
        "0123",
        &ci,
        &vec![model_run(ExecutionStatus::Passed, "v-a")],
        &Vec::new(),
    );
    assert!(nothing.is_err());
    assert!(retry_failed(
        &workspace(),
        true,
        Some(&stored(ExecutionStatus::Running)),
        "0123",
        &ci,
        &Vec::new(),
        &Vec::new(),
    )
    .is_err());
}

#[test]
fn a_run_is_named_by_a_unique_prefix() {
    let run = |id: &str| RunSummary {
        run_id: id.to_string(),
        plan_id: "p".to_string(),
        environment: None,
        reference_hash: None,
        started_at: NOW.to_string(),
        finished_at: None,
        status: ExecutionStatus::Running,
        model_count: 0,
        failed_count: 0,
    };
    assert_eq!(resolve_run_id(&vec![run("abc")], "a").unwrap(), "abc");
    assert!(resolve_run_id(&Vec::new(), "a").is_err());
    assert!(resolve_run_id(&vec![run("abc"), run("abd")], "ab").is_err());
}
