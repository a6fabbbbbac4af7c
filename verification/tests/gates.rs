use phlo_transform_engine::events::ExecutionStatus;
use phlo_transform_engine::gates::{evaluate_gates, GateInput};
use phlo_transform_engine::nessie::{Conflict, MergeOutcome};
use phlo_transform_engine::state::RunSummary;

fn ready() -> GateInput {
    GateInput {
        run: Some(RunSummary {
            run_id: "run-1".to_string(),
            plan_id: "plan-1".to_string(),
            environment: Some("ci/x".to_string()),
            reference_hash: None,
            started_at: "2026-01-01T00:00:00Z".to_string(),
            finished_at: Some("2026-01-01T00:00:01Z".to_string()),
            status: ExecutionStatus::Passed,
            model_count: 1,
            failed_count: 0,
        }),
        model_runs: Vec::new(),
        test_runs: Vec::new(),
        require_diff: false,
        diff_passed: None,
        diff_rejected: None,
        breaking_schema_changes: Vec::new(),
        allow_breaking_schema: false,
        expected_target_hash: Some("aaa".to_string()),
        actual_target_hash: Some("aaa".to_string()),
        merge_check: Some(MergeOutcome {
            hash: None,
            conflicts: Vec::new(),
        }),
    }
}

#[test]
fn sound_evidence_passes_every_gate() {
    let report = evaluate_gates(&ready());
    assert!(report.passed, "{:?}", report.results);
    assert!(report.failures().is_empty());
}

#[test]
fn missing_evidence_fails_closed() {
    let report = evaluate_gates(&GateInput {
        run: None,
        expected_target_hash: None,
        merge_check: None,
        ..ready()
    });
    assert!(!report.passed);
    let names: Vec<String> = report.failures().into_iter().map(|g| g.name).collect();
    assert!(names.contains(&"run".to_string()));
    assert!(names.contains(&"tests".to_string()));
    assert!(names.contains(&"blocked".to_string()));
    assert!(names.contains(&"conflicts".to_string()));
}

#[test]
fn a_required_diff_gates_a_promotion() {
    let mut input = ready();
    input.require_diff = true;
    assert!(!evaluate_gates(&input).passed);
    input.diff_passed = Some(true);
    assert!(evaluate_gates(&input).passed);
    input.diff_rejected = Some("stale".to_string());
    assert!(!evaluate_gates(&input).passed);
}

#[test]
fn breaking_changes_and_conflicts_gate_a_promotion() {
    let mut input = ready();
    input.breaking_schema_changes = vec!["m.c: removed".to_string()];
    assert!(!evaluate_gates(&input).passed);
    input.allow_breaking_schema = true;
    assert!(evaluate_gates(&input).passed);
    input.merge_check = Some(MergeOutcome {
        hash: None,
        conflicts: vec![Conflict {
            path: "p".to_string(),
            message: "m".to_string(),
        }],
    });
    let failures = evaluate_gates(&input).failures();
    assert_eq!(failures.len(), 1);
    assert_eq!(failures[0].detail, "p: m");
}

#[test]
fn a_moved_target_gates_a_promotion() {
    let mut input = ready();
    input.actual_target_hash = Some("bbb".to_string());
    let failures = evaluate_gates(&input).failures();
    assert_eq!(failures.len(), 1);
    assert_eq!(
        failures[0].detail,
        "target advanced since planning (expected aaa, found bbb)"
    );
    // Without a recorded base nothing is verified, which is said.
    input.expected_target_hash = None;
    let report = evaluate_gates(&input);
    assert!(report.passed);
    assert!(report
        .results
        .iter()
        .any(|gate| gate.detail == "no recorded base hash — target freshness not verified"));
}
