use phlo_transform_engine::adapter::CatalogStatus;
use phlo_transform_engine::artifacts::LineageDiff;
use phlo_transform_engine::audit::{
    branch_diff_evidence, compiled_catalog, contract_breaking_changes, lineage_diff_evidence,
    persist_branch_diff, write_environment_artifacts, AuditEvidence, ComparisonBase, DiffSource,
    EvidenceStamp, LineageFile, LineageSource,
};
use phlo_transform_engine::branch_diff::BranchDiffReport;
use phlo_transform_engine::environment::EnvironmentSetup;
use phlo_transform_engine::error::{Diagnostic, EngineError};
use phlo_transform_engine::events::ExecutionStatus;
use phlo_transform_engine::lineage_diff::{relabel, LineageDiffContext, LineageInputs};
use phlo_transform_engine::names::NameMap;
use phlo_transform_engine::nessie::{MergeOutcome, ReferenceInfo};
use phlo_transform_engine::promotion::{
    catalog_to_drop, evaluate_promotion, PromotionFacts, PromotionOptions,
};
use phlo_transform_engine::run::{RunCounts, RunResult};
use phlo_transform_engine::state::{
    EvidenceKind, MaterializedRecord, RunRecord, RunSummary, StoredPlan,
};
use phlo_transform_engine::store::{bind_run_reference, StateTables};
use phlo_transform_engine::workspace::{
    Assertion, Compilation, CompiledModel, Defaults, Materialization, ModelConfig, ModelSchema,
    ModelVersion, Relation, VersionDetail,
};

fn stamp(id: &str) -> EvidenceStamp {
    EvidenceStamp {
        evidence_id: id.to_string(),
        now: "2026-01-05T00:00:00Z".to_string(),
    }
}

fn report(base_ref: &str, finished_at: &str) -> BranchDiffReport {
    BranchDiffReport {
        candidate_ref: "ci/x".to_string(),
        base_ref: base_ref.to_string(),
        candidate_hash: Some("bbb".to_string()),
        base_hash: Some("aaa".to_string()),
        datasets: Vec::new(),
        schema_changes: Vec::new(),
        rows: Vec::new(),
        diffs: Vec::new(),
        deep: true,
        passed: true,
        started_at: finished_at.to_string(),
        finished_at: finished_at.to_string(),
    }
}

fn setup(created_from: Option<&str>) -> EnvironmentSetup {
    EnvironmentSetup {
        base: ReferenceInfo::branch("main", "aaa"),
        candidate: ReferenceInfo::branch("ci/x", "bbb"),
        created_from: created_from.map(|hash| ReferenceInfo::branch("main", hash)),
        created_branch: false,
        catalog: "phlo_x".to_string(),
        catalog_status: CatalogStatus::Created,
        catalog_owned_by_phlo: None,
    }
}

fn version(hash: &str) -> ModelVersion {
    ModelVersion {
        hash: hash.to_string(),
        sql_hash: String::new(),
        config_hash: String::new(),
        contract_hash: String::new(),
        dependency_hash: String::new(),
        source_state_hash: String::new(),
        compiler_version: String::new(),
        target_hash: String::new(),
    }
}

fn workspace() -> Compilation {
    Compilation {
        ok: true,
        models: vec![CompiledModel {
            id: "m".to_string(),
            target: Relation {
                catalog: Some("cat".to_string()),
                schema: "s".to_string(),
                table: "m".to_string(),
            },
            config: ModelConfig {
                materialization: Materialization::Table,
                incremental: None,
                diff: None,
            },
            version: version("v1"),
            version_detail: VersionDetail {
                dependencies: NameMap::new(),
                sources: NameMap::new(),
            },
            schema: ModelSchema {
                known: false,
                columns: Vec::new(),
            },
            contract: None,
            assertions: vec![Assertion::Unique {
                columns: vec!["id".to_string()],
            }],
            model_dependencies: Vec::new(),
            source_dependencies: Vec::new(),
            compiled_sql: String::new(),
        }],
        seeds: Vec::new(),
        tests: Vec::new(),
        defaults: Defaults {
            catalog: None,
            schema: None,
        },
        topological_order: None,
        diagnostics: Vec::new(),
        lineage_hash: "fp".to_string(),
        compiler_semantics_version: String::new(),
    }
}

#[test]
fn file_evidence_is_imported_under_its_own_pair() {
    let mut state = StateTables::in_memory();
    persist_branch_diff(
        &mut state,
        &report("main", "2026-01-01T00:00:00Z"),
        "{\"n\":1}",
        &stamp("e1"),
    )
    .unwrap();
    // A newer file for another target is recorded, and masks nothing.
    let other = Some(report("release", "2026-01-02T00:00:00Z"));
    match branch_diff_evidence(&mut state, "ci/x", "main", &other, "{\"n\":2}", &stamp("e2")) {
        DiffSource::Record { record } => assert_eq!(record.evidence_id, "e1"),
        found => panic!("{found:?}"),
    }
    assert_eq!(state.evidence.len(), 2);
    // A newer file for this pair speaks for itself, under its own record.
    let newer = Some(report("main", "2026-01-03T00:00:00Z"));
    assert_eq!(
        branch_diff_evidence(&mut state, "ci/x", "main", &newer, "{\"n\":3}", &stamp("e3")),
        DiffSource::File {
            evidence_id: Some("e3".to_string())
        }
    );
    // Another candidate without evidence learns what was audited instead.
    match branch_diff_evidence(&mut state, "ci/z", "main", &None, "", &stamp("e4")) {
        DiffSource::Record { record } => assert_eq!(record.evidence_id, "e3"),
        found => panic!("{found:?}"),
    }
    let mut empty = StateTables::in_memory();
    assert_eq!(
        branch_diff_evidence(&mut empty, "ci/x", "main", &None, "", &stamp("e5")),
        DiffSource::Missing
    );
}

#[test]
fn corrupt_branch_evidence_is_not_skipped() {
    let mut state = StateTables::in_memory();
    persist_branch_diff(
        &mut state,
        &report("main", "2026-01-01T00:00:00Z"),
        "not json",
        &stamp("e1"),
    )
    .unwrap();
    match branch_diff_evidence(&mut state, "ci/x", "main", &None, "", &stamp("e2")) {
        DiffSource::Corrupt { reason } => {
            assert!(reason.starts_with("cannot read the evidence store: "))
        }
        found => panic!("{found:?}"),
    }
    assert_eq!(
        lineage_diff_evidence(
            &mut state,
            "ci/x",
            "main",
            &LineageFile::Absent,
            "",
            &stamp("e3")
        ),
        LineageSource::File { evidence_id: None }
    );
}

#[test]
fn an_unchanged_binding_is_recorded_once() {
    let mut state = StateTables::in_memory();
    let payload = "{\"catalog\": \"phlo_x\"}";
    write_environment_artifacts(&mut state, &setup(None), payload, &stamp("e1")).unwrap();
    write_environment_artifacts(&mut state, &setup(None), payload, &stamp("e2")).unwrap();
    assert_eq!(state.evidence.len(), 1);
    write_environment_artifacts(&mut state, &setup(Some("aaa")), payload, &stamp("e3")).unwrap();
    let records = state
        .evidence_for(EvidenceKind::Environment, "ci/x")
        .unwrap();
    assert_eq!(records.len(), 2);
    assert_eq!(records[0].target_hash.as_deref(), Some("aaa"));
}

#[test]
fn contract_breaks_name_their_model() {
    let mut base = NameMap::new();
    base.insert(
        "m".to_string(),
        MaterializedRecord {
            model_id: "m".to_string(),
            environment: None,
            version: version("v0"),
            detail: None,
            target: "cat.s.m".to_string(),
            incremental_strategy: None,
            incremental_key: None,
            adapter: None,
            output_identity: None,
            contract: None,
            effective_key: Some(vec![vec!["other".to_string()]]),
            run_id: String::new(),
            materialized_at: String::new(),
        },
    );
    let breaks = contract_breaking_changes(&base, &workspace());
    assert_eq!(breaks.len(), 1);
    assert!(breaks[0].starts_with("m: contract "), "{}", breaks[0]);
    assert!(contract_breaking_changes(&NameMap::new(), &workspace()).is_empty());
    assert_eq!(compiled_catalog(&workspace()).as_deref(), Some("cat"));
}

/// A candidate with everything that a promotion rests on.
fn evidence() -> PromotionFacts {
    PromotionFacts {
        candidate: ReferenceInfo::branch("ci/x", "bbb"),
        target: ReferenceInfo::branch("main", "aaa"),
        run: Some(RunSummary {
            run_id: "run-1".to_string(),
            plan_id: "plan-1".to_string(),
            environment: Some("ci/x".to_string()),
            reference_hash: Some("bbb".to_string()),
            started_at: "2026-01-01T00:00:00Z".to_string(),
            finished_at: None,
            status: ExecutionStatus::Passed,
            model_count: 0,
            failed_count: 0,
        }),
        model_runs: Vec::new(),
        test_runs: Vec::new(),
        environment: Some(setup(Some("aaa"))),
        audit: AuditEvidence {
            schema_audited: true,
            ..AuditEvidence::default()
        },
        contract_breaks: vec!["m: contract key changed".to_string()],
        merge_check: Some(MergeOutcome {
            hash: None,
            conflicts: Vec::new(),
        }),
        lineage: None,
    }
}

/// The names and details of the gates that refuse a promotion.
fn refusals(facts: PromotionFacts) -> Vec<(String, String)> {
    let options = PromotionOptions {
        require_diff: false,
        allow_breaking_schema: true,
    };
    let gates = evaluate_promotion(facts, "ci/x", "main", &options).gates;
    assert_eq!(gates.results.len(), 6);
    let failed: Vec<(String, String)> = gates
        .results
        .into_iter()
        .filter(|result| !result.passed)
        .map(|result| (result.name, result.detail))
        .collect();
    assert_eq!(gates.passed, failed.is_empty());
    failed
}

fn refusal(name: &str, detail: &str) -> Vec<(String, String)> {
    vec![(name.to_string(), detail.to_string())]
}

#[test]
fn a_candidate_of_unknown_origin_is_refused() {
    let unknown = "the candidate's origin is unknown and no audit recorded a base";
    let mut facts = evidence();
    facts.environment = Some(setup(None));
    assert_eq!(refusals(facts), refusal("base", unknown));
    let mut facts = evidence();
    facts.environment = None;
    assert_eq!(refusals(facts), refusal("base", unknown));
    let mut facts = evidence();
    facts.environment = None;
    facts.audit.audited_base_hash = Some("aaa".to_string());
    assert!(refusals(facts).is_empty());
    let mut facts = evidence();
    facts.audit.audited_base_hash = Some("old".to_string());
    assert_eq!(
        refusals(facts),
        refusal(
            "base",
            "target advanced since planning (expected old, found aaa)"
        )
    );
}

#[test]
fn a_missing_schema_audit_is_not_a_clean_schema() {
    let mut facts = evidence();
    facts.audit.schema_audited = false;
    facts.contract_breaks = Vec::new();
    assert_eq!(
        refusals(facts),
        refusal(
            "schema",
            "no current schema audit of the candidate against the target"
        )
    );
}

#[test]
fn only_a_run_bound_to_the_head_promotes() {
    let mut facts = evidence();
    facts.run.as_mut().unwrap().reference_hash = None;
    assert_eq!(
        refusals(facts),
        refusal("run", "run run-1 is not bound to a commit")
    );
    let mut facts = evidence();
    facts.run.as_mut().unwrap().reference_hash = Some("old".to_string());
    assert_eq!(
        refusals(facts),
        refusal(
            "run",
            "run run-1 is bound to old, not to the candidate at bbb"
        )
    );
    // A run that failed is refused for that.
    let mut facts = evidence();
    let run = facts.run.as_mut().unwrap();
    run.reference_hash = None;
    run.status = ExecutionStatus::Failed;
    run.failed_count = 2;
    assert_eq!(
        refusals(facts),
        refusal("run", "latest run run-1 failed (2 failed)")
    );
}

#[test]
fn an_evaluation_pins_what_it_saw() {
    let facts = evidence();
    let options = PromotionOptions {
        require_diff: false,
        allow_breaking_schema: true,
    };
    let evaluation = evaluate_promotion(facts, "ci/x", "main", &options);
    assert!(evaluation.gates.passed, "{:?}", evaluation.gates.results);
    assert_eq!(evaluation.expected_target_hash.as_deref(), Some("aaa"));
    let request = evaluation.request(&options, Some("me".to_string()));
    assert_eq!(request.candidate_hash.as_deref(), Some("bbb"));
    assert_eq!(request.expected_target_hash.as_deref(), Some("aaa"));
    assert_eq!(request.run_id.as_deref(), Some("run-1"));
    assert_eq!(request.breaking_schema_changes.len(), 1);
    assert!(!request.dry_run);
    assert_eq!(
        catalog_to_drop(&evaluation.environment).as_deref(),
        Some("phlo_x")
    );
}

#[test]
fn a_passed_run_is_bound_to_its_head() {
    let mut state = StateTables::in_memory();
    state
        .start_run(
            &RunRecord {
                run_id: "run-1".to_string(),
                plan_id: "plan-1".to_string(),
                environment: Some("ci/x".to_string()),
                reference_hash: None,
                started_at: "2026-01-01T00:00:00Z".to_string(),
                finished_at: None,
                status: ExecutionStatus::Running,
                model_count: 0,
                failed_count: 0,
            },
            &StoredPlan {
                plan_id: "plan-1".to_string(),
                environment: None,
                models: Vec::new(),
                seeds: Vec::new(),
                tests: Vec::new(),
            },
        )
        .unwrap();
    let mut result = RunResult {
        run_id: "run-1".to_string(),
        plan_id: "plan-1".to_string(),
        environment: Some("ci/x".to_string()),
        continued_from: None,
        status: ExecutionStatus::Failed,
        started_at: String::new(),
        finished_at: String::new(),
        counts: RunCounts {
            passed: 0,
            failed: 1,
            skipped: 0,
            cached: 0,
            blocked: 0,
            cancelled: 0,
        },
        warnings: Vec::new(),
        models: Vec::new(),
        tests: Vec::new(),
        seeds: Vec::new(),
        events: Vec::new(),
    };
    let head = Some(ReferenceInfo::branch("ci/x", "ccc"));
    bind_run_reference(&mut state, &result, &head);
    assert_eq!(state.run("run-1").unwrap().record.reference_hash, None);
    result.status = ExecutionStatus::Passed;
    bind_run_reference(&mut state, &result, &head);
    assert_eq!(
        state.run("run-1").unwrap().record.reference_hash.as_deref(),
        Some("ccc")
    );
}

fn inputs() -> LineageInputs {
    LineageInputs {
        base_commit: "0123456789abcdef".to_string(),
        diff: LineageDiff {
            base_ref: None,
            change_count: 2,
            changes: "{}".to_string(),
        },
        candidate_reference: Some(ReferenceInfo::branch("ci/x", "bbb")),
        target_reference: Some(ReferenceInfo::branch("main", "aaa")),
        created_at: "2026-01-01T00:00:00Z".to_string(),
    }
}

#[test]
fn lineage_diffs_are_bound_to_what_they_compared() {
    let comparison = ComparisonBase {
        commit: "0123456789abcdef".to_string(),
        head: Some("head".to_string()),
        dirty: true,
    };
    let mut context = LineageDiffContext {
        workspace: None,
        candidate_env: Some("ci/x".to_string()),
    };
    assert!(matches!(
        context.diff_vs_ref("main", &comparison, inputs()),
        Err(EngineError::Git(_))
    ));
    context.workspace = Some(workspace());
    let artifact = context.diff_vs_ref("main", &comparison, inputs()).unwrap();
    assert_eq!(
        artifact.diff.base_ref.as_deref(),
        Some("main (merge-base 0123456789ab)")
    );
    assert_eq!(artifact.candidate.lineage_hash.as_deref(), Some("fp"));
    assert_eq!(
        artifact.candidate.model_versions.get("m").map(String::as_str),
        Some("v1")
    );
    assert_eq!(artifact.environment.unwrap().target_hash, "aaa");
    let exact = context.diff_ref_vs_ref("main", "topic", "c0ffee", &workspace(), inputs());
    assert_eq!(exact.base_kind, "ref");
    assert_eq!(
        exact.diff.base_ref.as_deref(),
        Some("main (0123456789ab)")
    );
    assert!(!exact.candidate.dirty);
}

#[test]
fn a_failed_tree_is_named_after_its_ref() {
    let error = EngineError::FailedDiagnostics {
        label: "/tmp/tree".to_string(),
        problem: "cannot load".to_string(),
        diagnostics: vec![Diagnostic {
            rendered: "boom".to_string(),
        }],
    };
    match relabel(error, "main") {
        EngineError::FailedDiagnostics { label, problem, .. } => {
            assert_eq!(label, "main");
            assert_eq!(problem, "cannot load");
        }
        other => panic!("{other:?}"),
    }
    assert_eq!(
        relabel(EngineError::Compilation, "main"),
        EngineError::Compilation
    );
}
