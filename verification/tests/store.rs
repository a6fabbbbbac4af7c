use phlo_transform_engine::contracts::RecordedKey;
use phlo_transform_engine::error::EngineError;
use phlo_transform_engine::events::ExecutionStatus;
use phlo_transform_engine::promotion::PromotionRecord;
use phlo_transform_engine::state::{
    EvidenceKind, EvidenceRecord, MaterializedRecord, ModelRunRecord, RunRecord, SeedRecord,
    SeedRunRecord, StoredPlan, StoredPlanModel, TestRunRecord,
};
use phlo_transform_engine::store::{find_unique_run, StateTables, Watermark};
use phlo_transform_engine::util::now_rfc3339;
use phlo_transform_engine::workspace::ModelVersion;

fn version(hash: &str) -> ModelVersion {
    ModelVersion {
        hash: hash.to_string(),
        sql_hash: String::new(),
        config_hash: String::new(),
        contract_hash: String::new(),
        dependency_hash: String::new(),
        source_state_hash: String::new(),
        compiler_version: String::new(),
        target_hash: String::new(),
    }
}

fn run_of(run_id: &str, environment: Option<&str>, started_at: &str) -> RunRecord {
    RunRecord {
        run_id: run_id.to_string(),
        plan_id: "plan".to_string(),
        environment: environment.map(str::to_string),
        started_at: started_at.to_string(),
        finished_at: None,
        status: ExecutionStatus::Running,
        model_count: 1,
        failed_count: 0,
        reference_hash: None,
    }
}

fn empty_plan(environment: Option<&str>) -> StoredPlan {
    StoredPlan {
        plan_id: "plan".to_string(),
        environment: environment.map(str::to_string),
        models: Vec::new(),
        seeds: Vec::new(),
        tests: Vec::new(),
    }
}

#[test]
fn persists_and_reads_run_history() {
    let mut store = StateTables::in_memory();
    let timestamp = now_rfc3339();
    let stored_plan = StoredPlan {
        plan_id: "plan-1".to_string(),
        environment: Some("ci".to_string()),
        models: vec![StoredPlanModel {
            id: "assay.raw".to_string(),
            target: "assay.raw".to_string(),
            action: "build".to_string(),
            desired_version: "v1".to_string(),
            full_rebuild: false,
            watermark: None,
        }],
        seeds: Vec::new(),
        tests: Vec::new(),
    };
    store
        .start_run(
            &RunRecord {
                run_id: "run-1".to_string(),
                plan_id: "plan-1".to_string(),
                environment: Some("ci".to_string()),
                started_at: timestamp.clone(),
                finished_at: None,
                status: ExecutionStatus::Running,
                model_count: 2,
                failed_count: 0,
                reference_hash: None,
            },
            &stored_plan,
        )
        .unwrap();
    store.record_model(&ModelRunRecord {
        run_id: "run-1".to_string(),
        model_id: "assay.raw".to_string(),
        materialization: "view".to_string(),
        action: "build".to_string(),
        status: ExecutionStatus::Passed,
        started_at: timestamp.clone(),
        finished_at: timestamp.clone(),
        sql_hash: "abc".to_string(),
        target: "assay.raw".to_string(),
        desired_version: "v1".to_string(),
        attempts: Vec::new(),
        query_id: Some("q1".to_string()),
        error: None,
        error_category: None,
    });
    store.finish_run("run-1", ExecutionStatus::Passed, &timestamp, 0);

    let runs = store.runs();
    assert_eq!(runs.len(), 1);
    assert_eq!(runs[0].run_id, "run-1");
    assert_eq!(runs[0].status, ExecutionStatus::Passed);

    // The persisted plan and per-model progress round-trip for resume.
    let stored = store.run("run-1").expect("run exists");
    assert_eq!(stored.plan, Some(stored_plan));
    let models = store.model_runs("run-1");
    assert_eq!(models.len(), 1);
    assert_eq!(models[0].desired_version, "v1");
    assert_eq!(store.find_runs("run").len(), 1);
    assert!(store.find_runs("nope").is_empty());
}

fn materialized(model_id: &str, hash: &str, at: &str, run_id: &str) -> MaterializedRecord {
    MaterializedRecord {
        model_id: model_id.to_string(),
        environment: Some("prod".to_string()),
        version: version(hash),
        detail: None,
        target: "cat.assay.results".to_string(),
        incremental_strategy: None,
        incremental_key: None,
        adapter: Some("trino".to_string()),
        output_identity: Some(format!("snap:{hash}")),
        contract: None,
        effective_key: Some(Vec::new()),
        run_id: run_id.to_string(),
        materialized_at: at.to_string(),
    }
}

/// Two writers, same model and environment, completing out of order: the
/// record from the earlier materialisation must not overwrite the later one.
#[test]
fn out_of_order_materialized_writes_do_not_regress() {
    let mut store = StateTables::in_memory();

    let mut winning = materialized("assay.results", "v2", "2026-01-01T00:00:02Z", "run-b");
    winning.effective_key = Some(vec![vec!["sample_id".to_string()]]);
    store.record_materialized(&winning);
    store.record_materialized(&materialized(
        "assay.results",
        "v1",
        "2026-01-01T00:00:01Z",
        "run-a",
    ));
    let record = store
        .materialized_version("assay.results", Some("prod"))
        .expect("record");
    assert_eq!(record.version.hash, "v2", "the stale write must lose");
    assert_eq!(record.run_id, "run-b");
    // The persisted effective key survives the write and the read.
    assert_eq!(
        record.effective_key.as_deref(),
        Some(&[vec!["sample_id".to_string()]][..])
    );

    // An equal or later timestamp still applies: same-run re-records and
    // genuinely newer writes are unaffected.
    store.record_materialized(&materialized(
        "assay.results",
        "v3",
        "2026-01-01T00:00:03Z",
        "run-a",
    ));
    let record = store
        .materialized_version("assay.results", Some("prod"))
        .expect("record");
    assert_eq!(record.version.hash, "v3");
}

/// Reopening a store fills in the key of legacy rows that recorded an
/// incremental `key` strategy, and leaves rows with no key evidence unknown.
#[test]
fn reopening_backfills_legacy_incremental_keys() {
    let mut store = StateTables::in_memory();
    // A legacy incremental-key row: nothing in `effective_key`, the
    // incremental fields carry the era's key.
    let mut keyed = materialized("assay.keyed", "v1", "2026-01-01T00:00:01Z", "run-1");
    keyed.incremental_strategy = Some("key".to_string());
    keyed.incremental_key = Some("b, a".to_string());
    keyed.effective_key = None;
    store.record_materialized(&keyed);
    // A legacy row with no key evidence at all stays unknown.
    let mut bare = materialized("assay.bare", "v1", "2026-01-01T00:00:01Z", "run-1");
    bare.effective_key = None;
    store.record_materialized(&bare);

    let store = store.open();
    let keyed = store
        .materialized_version("assay.keyed", Some("prod"))
        .expect("keyed record");
    assert_eq!(
        keyed.effective_key.as_deref(),
        Some(&[vec!["a".to_string(), "b".to_string()]][..]),
        "the backfill writes the canonical sorted claim"
    );
    assert_eq!(
        keyed.recorded_key().as_deref(),
        Some(&[vec!["a".to_string(), "b".to_string()]][..])
    );

    let bare = store
        .materialized_version("assay.bare", Some("prod"))
        .expect("bare record");
    assert_eq!(bare.effective_key, None, "no evidence to backfill from");
    assert_eq!(bare.recorded_key(), RecordedKey::Unknown);
}

fn seed(hash: &str, at: &str, run_id: &str) -> SeedRecord {
    SeedRecord {
        name: "raw.events".to_string(),
        environment: Some("prod".to_string()),
        content_hash: hash.to_string(),
        target: "cat.raw.events".to_string(),
        run_id: run_id.to_string(),
        loaded_at: at.to_string(),
    }
}

#[test]
fn out_of_order_seed_writes_do_not_regress() {
    let mut store = StateTables::in_memory();
    store.record_seed(&seed("h2", "2026-01-01T00:00:02Z", "run-b"));
    store.record_seed(&seed("h1", "2026-01-01T00:00:01Z", "run-a"));
    let record = store.seed_state("raw.events", Some("prod")).expect("seed");
    assert_eq!(record.content_hash, "h2");
}

/// Watermarks order by run generation, not write order: a watermark is an
/// observation a run made, so the later-started run supersedes even when it
/// finishes first.
#[test]
fn watermarks_follow_run_generation() {
    let mut store = StateTables::in_memory();
    for (run_id, started_at) in [
        ("run-old", "2026-01-01T00:00:01Z"),
        ("run-new", "2026-01-01T00:00:02Z"),
    ] {
        store
            .start_run(
                &run_of(run_id, Some("prod"), started_at),
                &empty_plan(Some("prod")),
            )
            .unwrap();
    }

    store.set_watermark("assay.results", Some("prod"), "2026-06-01", "run-new");
    // The older run's observation arrives late: it must not rewind the newer
    // run's mark.
    store.set_watermark("assay.results", Some("prod"), "2026-01-01", "run-old");
    assert_eq!(
        store.watermark("assay.results", Some("prod")),
        Some("2026-06-01".to_string())
    );
    // The newer generation still advances.
    store.set_watermark("assay.results", Some("prod"), "2026-12-01", "run-new");
    assert_eq!(
        store.watermark("assay.results", Some("prod")),
        Some("2026-12-01".to_string())
    );
}

fn hash_of(store: &StateTables, model_id: &str) -> String {
    store
        .materialized_version(model_id, Some("prod"))
        .expect("record")
        .version
        .hash
}

/// Mixed-version writers disagree on timestamp shape: legacy rows carry bare
/// `Z` or variable-width fractions, new writes fixed-width nanoseconds.
/// Byte-wise a legacy `...00.5Z` sorts after a newer `...00.501000000Z`, so the
/// ordered writes must compare parsed instants.
#[test]
fn mixed_format_timestamp_writes_order_by_instant() {
    let mut store = StateTables::in_memory();

    // A legacy-format row is there first; a same-second newer write, byte-wise
    // smaller, must still apply.
    store.record_materialized(&materialized(
        "assay.results",
        "v-legacy",
        "2026-01-01T00:00:00.5Z",
        "run-old",
    ));
    store.record_materialized(&materialized(
        "assay.results",
        "v-new",
        "2026-01-01T00:00:00.501000000Z",
        "run-new",
    ));
    assert_eq!(
        hash_of(&store, "assay.results"),
        "v-new",
        "a newer instant wins regardless of timestamp shape"
    );
    // The stale direction still loses.
    store.record_materialized(&materialized(
        "assay.results",
        "v-stale",
        "2026-01-01T00:00:00.499000000Z",
        "run-stale",
    ));
    assert_eq!(hash_of(&store, "assay.results"), "v-new");
    // An equal instant written differently re-records idempotently.
    store.record_materialized(&materialized(
        "assay.results",
        "v-same",
        "2026-01-01T00:00:00.501000000Z",
        "run-same",
    ));
    assert_eq!(hash_of(&store, "assay.results"), "v-same");
    // Bare-`Z` legacy vs fractional new format on another key.
    store.record_materialized(&materialized(
        "assay.other",
        "v-legacy",
        "2026-01-01T00:00:01Z",
        "run-old",
    ));
    store.record_materialized(&materialized(
        "assay.other",
        "v-new",
        "2026-01-01T00:00:01.25Z",
        "run-new",
    ));
    assert_eq!(hash_of(&store, "assay.other"), "v-new");

    // Seed loads: the same ordering through `loaded_at`.
    store.record_seed(&seed("h-legacy", "2026-01-01T00:00:00.5Z", "run-old"));
    store.record_seed(&seed("h-new", "2026-01-01T00:00:00.501000000Z", "run-new"));
    assert_eq!(
        store
            .seed_state("raw.events", Some("prod"))
            .expect("seed")
            .content_hash,
        "h-new"
    );

    // Watermarks: a legacy-shaped run start must not beat a newer run's
    // different-shaped start.
    for (run_id, started_at) in [
        ("run-old", "2026-01-01T00:00:00.5Z"),
        ("run-new", "2026-01-01T00:00:00.501000000Z"),
    ] {
        store
            .start_run(
                &run_of(run_id, Some("prod"), started_at),
                &empty_plan(Some("prod")),
            )
            .unwrap();
    }
    store.set_watermark("assay.results", Some("prod"), "old-mark", "run-old");
    store.set_watermark("assay.results", Some("prod"), "new-mark", "run-new");
    assert_eq!(
        store.watermark("assay.results", Some("prod")),
        Some("new-mark".to_string()),
        "the newer run's mark must win across timestamp shapes"
    );
}

fn evidence(id: &str, kind: EvidenceKind, subject: &str, created_at: &str) -> EvidenceRecord {
    EvidenceRecord {
        evidence_id: id.to_string(),
        kind,
        subject: subject.to_string(),
        target_ref: "main".to_string(),
        candidate_hash: Some("candhash".to_string()),
        target_hash: Some("targ_hash".to_string()),
        fingerprint: Some("fp".to_string()),
        payload: format!("{{\"marker\": \"{id}\"}}"),
        run_id: Some("run-1".to_string()),
        created_at: created_at.to_string(),
    }
}

#[test]
fn evidence_orders_same_second_records_chronologically() {
    let mut store = StateTables::in_memory();
    // `.5Z` (500ms) sorts after `.52Z` (520ms) as text, and a bare `Z` sorts
    // after every fraction. Byte order alone would return these oldest-first.
    for (id, created_at) in [
        ("e-mid", "2026-01-01T00:00:00.5Z"),
        ("e-new", "2026-01-01T00:00:00.52Z"),
        ("e-zero", "2026-01-01T00:00:00Z"),
    ] {
        store
            .record_evidence(&evidence(id, EvidenceKind::BranchDiff, "ci/x", created_at))
            .unwrap();
    }
    let records = store
        .evidence_for(EvidenceKind::BranchDiff, "ci/x")
        .unwrap();
    let ids: Vec<&str> = records
        .iter()
        .map(|record| record.evidence_id.as_str())
        .collect();
    assert_eq!(ids, ["e-new", "e-mid", "e-zero"]);
    // `latest_evidence` keeps the same freshest record.
    assert_eq!(
        store.latest_evidence(EvidenceKind::BranchDiff).unwrap()[0].evidence_id,
        "e-new"
    );
}

#[test]
fn latest_run_orders_same_second_starts_chronologically() {
    let mut store = StateTables::in_memory();
    for (run_id, started_at) in [
        ("run-mid", "2026-01-01T00:00:00.5Z"),
        ("run-new", "2026-01-01T00:00:00.52Z"),
        ("run-zero", "2026-01-01T00:00:00Z"),
    ] {
        store
            .start_run(
                &run_of(run_id, Some("ci/x"), started_at),
                &empty_plan(Some("ci/x")),
            )
            .unwrap();
    }
    assert_eq!(store.latest_run(Some("ci/x")).unwrap().run_id, "run-new");
}

#[test]
fn evidence_appends_and_reads_newest_first() {
    let mut store = StateTables::in_memory();
    store
        .record_evidence(&evidence(
            "e1",
            EvidenceKind::BranchDiff,
            "ci/x",
            "2026-01-01T00:00:00Z",
        ))
        .unwrap();
    store
        .record_evidence(&evidence(
            "e2",
            EvidenceKind::BranchDiff,
            "ci/x",
            "2026-01-02T00:00:00Z",
        ))
        .unwrap();

    // Append-only: both audits are retained, newest first.
    let records = store
        .evidence_for(EvidenceKind::BranchDiff, "ci/x")
        .unwrap();
    assert_eq!(records.len(), 2);
    assert_eq!(records[0].evidence_id, "e2");
    assert_eq!(records[1].evidence_id, "e1");
    // A re-audit does not mutate the earlier record.
    assert_eq!(records[1].payload, "{\"marker\":\"e1\"}");

    // Other kinds and subjects are separate.
    assert!(store
        .evidence_for(EvidenceKind::LineageDiff, "ci/x")
        .unwrap()
        .is_empty());
    assert!(store
        .evidence_for(EvidenceKind::BranchDiff, "ci/y")
        .unwrap()
        .is_empty());
}

#[test]
fn evidence_latest_is_per_subject_and_target_pair() {
    let mut store = StateTables::in_memory();
    store
        .record_evidence(&evidence(
            "e1",
            EvidenceKind::BranchDiff,
            "ci/x",
            "2026-01-01T00:00:00Z",
        ))
        .unwrap();
    // ci/x re-audited against a different target: both stay current.
    let mut release = evidence(
        "e2",
        EvidenceKind::BranchDiff,
        "ci/x",
        "2026-01-02T00:00:00Z",
    );
    release.target_ref = "release".to_string();
    store.record_evidence(&release).unwrap();
    store
        .record_evidence(&evidence(
            "e3",
            EvidenceKind::BranchDiff,
            "ci/y",
            "2026-01-03T00:00:00Z",
        ))
        .unwrap();

    let latest = store.latest_evidence(EvidenceKind::BranchDiff).unwrap();
    let pairs: Vec<(&str, &str)> = latest
        .iter()
        .map(|record| (record.subject.as_str(), record.target_ref.as_str()))
        .collect();
    assert_eq!(
        pairs,
        vec![("ci/y", "main"), ("ci/x", "release"), ("ci/x", "main")]
    );
}

#[test]
fn evidence_ids_are_unique() {
    let mut store = StateTables::in_memory();
    store
        .record_evidence(&evidence(
            "e1",
            EvidenceKind::Environment,
            "ci/x",
            "2026-01-01T00:00:00Z",
        ))
        .unwrap();
    // A colliding id is rejected: evidence never overwrites in place.
    let error = store
        .record_evidence(&evidence(
            "e1",
            EvidenceKind::Environment,
            "ci/x",
            "2026-01-02T00:00:00Z",
        ))
        .expect_err("duplicate evidence id must fail");
    assert!(
        matches!(error, EngineError::State(_)),
        "{}",
        error.message_text()
    );
}

#[test]
fn evidence_removal_is_per_kind_and_subject() {
    let mut store = StateTables::in_memory();
    store
        .record_evidence(&evidence(
            "e1",
            EvidenceKind::Environment,
            "ci/x",
            "2026-01-01T00:00:00Z",
        ))
        .unwrap();
    store
        .record_evidence(&evidence(
            "e2",
            EvidenceKind::BranchDiff,
            "ci/x",
            "2026-01-01T00:00:00Z",
        ))
        .unwrap();
    store
        .record_evidence(&evidence(
            "e3",
            EvidenceKind::Environment,
            "ci/y",
            "2026-01-01T00:00:00Z",
        ))
        .unwrap();

    // Deleting ci/x's environment binding leaves its diffs and other
    // candidates' environment evidence alone.
    store.remove_evidence(EvidenceKind::Environment, "ci/x");
    assert!(store
        .evidence_for(EvidenceKind::Environment, "ci/x")
        .unwrap()
        .is_empty());
    assert_eq!(
        store
            .evidence_for(EvidenceKind::BranchDiff, "ci/x")
            .unwrap()
            .len(),
        1
    );
    assert_eq!(
        store
            .evidence_for(EvidenceKind::Environment, "ci/y")
            .unwrap()
            .len(),
        1
    );
}

#[test]
fn evidence_is_visible_across_connections() {
    // What one handle records, the tables opened again read.
    let mut writer = StateTables::in_memory();
    writer
        .record_evidence(&evidence(
            "e1",
            EvidenceKind::Environment,
            "ci/x",
            "2026-01-01T00:00:00Z",
        ))
        .unwrap();

    let reader = writer.clone().open();
    let records = reader
        .evidence_for(EvidenceKind::Environment, "ci/x")
        .unwrap();
    assert_eq!(records.len(), 1);
    assert_eq!(records[0].payload, "{\"marker\":\"e1\"}");
    assert_eq!(records[0].candidate_hash.as_deref(), Some("candhash"));
}

#[test]
fn a_corrupt_evidence_row_fails_the_read() {
    // A row whose payload cannot be decoded is corrupt evidence: the read
    // errors rather than silently dropping it.
    let mut store = StateTables::in_memory();
    let mut bad = evidence("bad", EvidenceKind::Environment, "ci/x", "t");
    bad.target_ref = String::new();
    bad.payload = "not json".to_string();
    store.record_evidence(&bad).unwrap();
    let error = store
        .evidence_for(EvidenceKind::Environment, "ci/x")
        .expect_err("an undecodable payload is corrupt evidence");
    assert!(
        matches!(error, EngineError::State(_)),
        "{}",
        error.message_text()
    );
    // It does not poison unrelated subjects.
    assert!(store
        .evidence_for(EvidenceKind::Environment, "ci/y")
        .unwrap()
        .is_empty());
}

#[test]
fn postgres_roundtrip_run_and_versions() {
    let mut store = StateTables::in_memory();
    store
        .start_run(
            &run_of("run-pg-1", Some("ci/x"), "s"),
            &empty_plan(Some("ci/x")),
        )
        .expect("start");
    store.record_model(&ModelRunRecord {
        run_id: "run-pg-1".to_string(),
        model_id: "m.a".to_string(),
        materialization: "table".to_string(),
        action: "build".to_string(),
        status: ExecutionStatus::Passed,
        started_at: "s".to_string(),
        finished_at: "f".to_string(),
        sql_hash: "sql".to_string(),
        target: "cat.m.a".to_string(),
        desired_version: "v1".to_string(),
        attempts: Vec::new(),
        query_id: None,
        error: None,
        error_category: None,
    });
    store.finish_run("run-pg-1", ExecutionStatus::Passed, "f", 0);
    let stored = store.run("run-pg-1").expect("run exists");
    assert_eq!(stored.record.status, ExecutionStatus::Passed);
    assert!(stored.plan.is_some());
    let models = store.model_runs("run-pg-1");
    assert_eq!(models.len(), 1);
    assert_eq!(models[0].status, ExecutionStatus::Passed);

    store.record_materialized(&MaterializedRecord {
        model_id: "m.a".to_string(),
        environment: Some("ci/x".to_string()),
        version: version("v1"),
        detail: None,
        target: "cat.m.a".to_string(),
        incremental_strategy: None,
        incremental_key: None,
        adapter: Some("trino".to_string()),
        output_identity: Some("snap:1".to_string()),
        contract: None,
        effective_key: Some(vec![vec!["sample_id".to_string()]]),
        run_id: "run-pg-1".to_string(),
        materialized_at: "2026-01-01T00:00:01Z".to_string(),
    });
    let record = store
        .materialized_version("m.a", Some("ci/x"))
        .expect("record");
    assert_eq!(record.version.hash, "v1");
    assert_eq!(record.adapter.as_deref(), Some("trino"));
    assert_eq!(record.output_identity.as_deref(), Some("snap:1"));
    assert_eq!(
        record.effective_key.as_deref(),
        Some(&[vec!["sample_id".to_string()]][..])
    );
    assert_eq!(store.materialized_by_hash("v1").len(), 1);

    // Same-key writes are ordered by materialisation time: a later
    // materialisation supersedes, an earlier one arriving after it is dropped
    // rather than regressing shared state.
    let mut record2 = record.clone();
    record2.version.hash = "v2".to_string();
    record2.adapter = Some("duckdb".to_string());
    record2.materialized_at = "2026-01-01T00:00:02Z".to_string();
    store.record_materialized(&record2);
    let record = store
        .materialized_version("m.a", Some("ci/x"))
        .expect("record");
    assert_eq!(record.version.hash, "v2");
    assert_eq!(record.adapter.as_deref(), Some("duckdb"));

    let mut stale = record2.clone();
    stale.version.hash = "v0".to_string();
    stale.materialized_at = "2026-01-01T00:00:00Z".to_string();
    store.record_materialized(&stale);
    let record = store
        .materialized_version("m.a", Some("ci/x"))
        .expect("record");
    assert_eq!(record.version.hash, "v2", "the stale write must lose");
}

#[test]
fn a_run_id_is_recorded_once() {
    let mut store = StateTables::in_memory();
    let run = run_of("run-1", None, "2026-01-01T00:00:00Z");
    store.start_run(&run, &empty_plan(None)).unwrap();
    let error = store.start_run(&run, &empty_plan(None)).unwrap_err();
    assert_eq!(
        error,
        EngineError::State("UNIQUE constraint failed: runs.run_id".to_string())
    );
    assert_eq!(store.runs().len(), 1);
}

#[test]
fn an_empty_environment_is_the_default_one() {
    let mut store = StateTables::in_memory();
    store
        .start_run(
            &run_of("run-1", Some(""), "2026-01-01T00:00:00Z"),
            &empty_plan(None),
        )
        .unwrap();
    let latest = store.latest_run(None).expect("recorded under no environment");
    assert_eq!(latest.environment, None);
    assert!(store.latest_run(Some("prod")).is_none());
}

#[test]
fn a_reopened_run_keeps_its_start() {
    let mut store = StateTables::in_memory();
    store
        .start_run(
            &run_of("run-1", None, "2026-01-01T00:00:00Z"),
            &empty_plan(None),
        )
        .unwrap();
    store.finish_run("run-1", ExecutionStatus::Failed, "2026-01-01T00:01:00Z", 2);
    store.reopen_run("run-1");
    store.bind_run_reference_hash("run-1", "abc");
    let run = store.run("run-1").unwrap().record;
    assert_eq!(run.status, ExecutionStatus::Running);
    assert_eq!(run.finished_at, None);
    assert_eq!(run.started_at, "2026-01-01T00:00:00Z");
    assert_eq!(run.reference_hash.as_deref(), Some("abc"));
    assert_eq!(run.failed_count, 2);
}

#[test]
fn rows_of_a_run_come_in_key_order_and_are_replaced() {
    let mut store = StateTables::in_memory();
    for (name, status) in [
        ("b", ExecutionStatus::Running),
        ("a", ExecutionStatus::Running),
        ("b", ExecutionStatus::Passed),
    ] {
        store.record_seed_run(&SeedRunRecord {
            run_id: "run-1".to_string(),
            name: name.to_string(),
            status,
            target: "t".to_string(),
            attempts: Vec::new(),
            error: None,
            error_category: None,
            started_at: "s".to_string(),
            finished_at: "f".to_string(),
        });
        store.record_test(&TestRunRecord {
            run_id: "run-1".to_string(),
            test_id: name.to_string(),
            status,
            row_count: 3,
            query_id: None,
            error: None,
            error_category: None,
            started_at: "s".to_string(),
            finished_at: "f".to_string(),
        });
    }
    let seeds = store.seed_runs("run-1");
    assert_eq!(seeds.len(), 2);
    assert_eq!(seeds[0].name, "a");
    assert_eq!(seeds[1].name, "b");
    assert_eq!(seeds[1].status, ExecutionStatus::Passed);
    let tests = store.test_runs("run-1");
    assert_eq!(tests.len(), 2);
    assert_eq!(tests[1].test_id, "b");
    assert_eq!(tests[1].row_count, 3);
    assert!(store.test_runs("run-2").is_empty());
}

#[test]
fn materialisations_are_found_by_version_and_environment() {
    let mut store = StateTables::in_memory();
    store.record_materialized(&materialized("m.b", "v1", "2026-01-01T00:00:00Z", "r"));
    store.record_materialized(&materialized("m.a", "v1", "2026-01-01T00:00:00Z", "r"));
    let mut other = materialized("m.a", "v2", "2026-01-01T00:00:00Z", "r");
    other.environment = None;
    store.record_materialized(&other);
    let named: Vec<String> = store
        .materialized_in(Some("prod"))
        .into_iter()
        .map(|record| record.model_id)
        .collect();
    assert_eq!(named, ["m.a", "m.b"]);
    let by_hash = store.materialized_by_hashes(&vec!["v1".to_string(), "v9".to_string()]);
    assert_eq!(by_hash.get("v1").unwrap().len(), 2);
    assert!(by_hash.get("v9").unwrap().is_empty());
    assert!(by_hash.get("v2").is_none());
}

#[test]
fn a_watermark_without_a_run_on_record_is_as_old_as_its_write() {
    let mut store = StateTables::in_memory();
    let mark = |value: &str, run_id: &str, at: &str| Watermark {
        model_id: "m".to_string(),
        environment: None,
        value: value.to_string(),
        run_id: run_id.to_string(),
        updated_at: at.to_string(),
    };
    store.set_watermark_at(&mark("w1", "ghost", "2026-01-01T00:00:05Z"));
    store
        .start_run(
            &run_of("run-1", None, "2026-01-01T00:00:00Z"),
            &empty_plan(None),
        )
        .unwrap();
    // The holder does not resolve, so any writer replaces it.
    store.set_watermark_at(&mark("w2", "run-1", "2026-01-01T00:00:01Z"));
    assert_eq!(store.watermark("m", None).as_deref(), Some("w2"));
}

fn promotion(id: &str, at: &str) -> PromotionRecord {
    PromotionRecord {
        promotion_id: id.to_string(),
        candidate_ref: "ci/x".to_string(),
        candidate_hash: None,
        target_ref: "main".to_string(),
        target_hash_before: "aaa".to_string(),
        target_hash_after: None,
        plan_id: None,
        run_id: None,
        dry_run: false,
        merged: true,
        conflicts: Vec::new(),
        gates: Vec::new(),
        timestamp: at.to_string(),
        actor: None,
    }
}

#[test]
fn promotions_come_newest_first() {
    let mut store = StateTables::in_memory();
    store.record_promotion(&promotion("p1", "2026-01-01T00:00:00.5Z"));
    store.record_promotion(&promotion("p2", "2026-01-01T00:00:00.52Z"));
    store.record_promotion(&promotion("p3", "2026-01-01T00:00:00.52Z"));
    let ids: Vec<String> = store
        .promotions()
        .into_iter()
        .map(|record| record.promotion_id)
        .collect();
    assert_eq!(ids, ["p3", "p2", "p1"]);
}

#[test]
fn a_partial_run_id_must_be_unique() {
    let mut store = StateTables::in_memory();
    for id in ["run-1", "run-2"] {
        store
            .start_run(
                &run_of(id, None, "2026-01-01T00:00:00Z"),
                &empty_plan(None),
            )
            .unwrap();
    }
    assert_eq!(find_unique_run(&store, "run-1").unwrap().run_id, "run-1");
    assert_eq!(
        find_unique_run(&store, "zzz").unwrap_err(),
        EngineError::NotFound("no run matches `zzz`".to_string())
    );
    assert_eq!(
        find_unique_run(&store, "run").unwrap_err(),
        EngineError::Ambiguous("`run` matches 2 runs — give a longer prefix".to_string())
    );
}
