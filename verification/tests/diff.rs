use phlo_transform_engine::adapter::ColumnInfo;
use phlo_transform_engine::diff::{
    cell, change_predicate, column_changed_query, compare_column_lists, diff, evaluate_policy,
    first_cell_i64, keyed_counts, keyed_counts_query, measure, parse_i64, partition_delta,
    partition_queries, plan_data, relation_sql, row_count_query, Answer, DataAnswer, DataPlan,
    DiffRequest, DiffStrategy, FractionReading, RowSummary,
};
use phlo_transform_engine::error::{AdapterError, EngineError};
use phlo_transform_engine::names::NameMap;
use phlo_transform_engine::workspace::{ColumnTolerance, DiffPolicy, Relation};

fn request(keyed: bool) -> DiffRequest {
    DiffRequest {
        model: "assay.results".to_string(),
        candidate_relation: Relation {
            catalog: None,
            schema: "cand".to_string(),
            table: "results".to_string(),
        },
        base_relation: Relation {
            catalog: None,
            schema: "base".to_string(),
            table: "results".to_string(),
        },
        candidate_ref: Some("feature".to_string()),
        base_ref: Some("main".to_string()),
        candidate_version: None,
        base_version: None,
        key_columns: if keyed {
            vec!["id".to_string()]
        } else {
            Vec::new()
        },
        columns: vec!["value".to_string()],
        strategy: DiffStrategy::Keyed,
        policy: DiffPolicy::default(),
        sample_percent: None,
        renames: NameMap::new(),
    }
}

/// The share of rows that changed, held against a bound.
fn fraction(summary: &RowSummary, bound: f64) -> FractionReading {
    let total = summary.base_rows.max(1) as f64;
    let share = (summary.added + summary.removed + summary.modified) as f64 / total;
    FractionReading {
        within: share <= bound,
        text: format!("{share:.4}"),
    }
}

#[test]
fn policy_thresholds_pass_and_fail() {
    let policy = DiffPolicy {
        max_added_rows: Some(10),
        max_removed_rows: Some(0),
        max_modified_rows: Some(5),
        max_changed_fraction: Some("0.05".to_string()),
        require_keyed_diff: true,
        require_full_diff: false,
        tolerances: NameMap::new(),
    };
    let summary = RowSummary {
        base_rows: 100,
        candidate_rows: 100,
        added: 2,
        removed: 0,
        modified: 2,
        unchanged: 90,
        ..Default::default()
    };
    let share = fraction(&summary, 0.05);
    assert!(evaluate_policy(&policy, &request(true), &summary, &share)
        .iter()
        .all(|result| result.passed));
    assert!(evaluate_policy(&policy, &request(false), &summary, &share)
        .iter()
        .any(|result| !result.passed));
}

#[test]
fn keyless_policies_fail_closed() {
    // Without a stable key, added/removed/modified are never measured: a
    // threshold evaluated against unmeasured zeros must fail, not pass
    // vacuously.
    let policy = DiffPolicy {
        max_added_rows: Some(10),
        max_changed_fraction: Some("0.5".to_string()),
        require_full_diff: true,
        ..Default::default()
    };
    let summary = RowSummary::default();
    let share = fraction(&summary, 0.5);
    let mut keyless = request(false);
    keyless.strategy = DiffStrategy::Full;
    let results = evaluate_policy(&policy, &keyless, &summary, &share);
    assert_eq!(results.len(), 3);
    for result in &results {
        assert!(!result.passed, "{} should fail", result.policy);
    }
    // With keys and a keyed/full strategy the same policies measure.
    let keyed = request(true);
    let results = evaluate_policy(&policy, &keyed, &summary, &share);
    assert!(results.iter().all(|result| result.passed));
}

#[test]
fn partition_coverage_cannot_satisfy_row_thresholds() {
    // A partition diff reports changed partitions, not row counts: the same
    // fail-closed rule applies.
    let policy = DiffPolicy {
        max_added_rows: Some(0),
        ..Default::default()
    };
    let mut partitioned = request(true);
    partitioned.strategy = DiffStrategy::Partition {
        columns: vec!["d".to_string()],
    };
    let summary = RowSummary::default();
    let results = evaluate_policy(&policy, &partitioned, &summary, &fraction(&summary, 0.0));
    assert_eq!(results.len(), 1);
    assert!(!results[0].passed);
}

fn info(name: &str) -> ColumnInfo {
    ColumnInfo {
        name: name.to_string(),
        data_type: "bigint".to_string(),
        nullable: true,
    }
}

#[test]
fn column_compare_reports_type_and_nullability_together() {
    // A column that changed type AND nullability reports both changes.
    let candidate = vec![ColumnInfo {
        name: "id".to_string(),
        data_type: "bigint".to_string(),
        nullable: true,
    }];
    let base = vec![ColumnInfo {
        name: "id".to_string(),
        data_type: "varchar".to_string(),
        nullable: false,
    }];
    let changes = compare_column_lists(&candidate, &base, &NameMap::new());
    assert_eq!(changes.len(), 2);
    assert_eq!(changes[0].kind, "changed");
    assert_eq!(changes[1].kind, "nullability");
    assert_eq!(changes[1].detail, "not null -> nullable");
    // Losing a NOT NULL guarantee breaks downstream consumers.
    assert_eq!(changes[1].safety, "error");
}

#[test]
fn declared_rename_reports_renamed_not_removed_and_added() {
    let candidate = vec![info("id"), info("new_col")];
    let base = vec![info("id"), info("old_col")];
    let mut renames = NameMap::new();
    renames.insert("new_col".to_string(), "old_col".to_string());
    let changes = compare_column_lists(&candidate, &base, &renames);
    assert_eq!(changes.len(), 1);
    assert_eq!(changes[0].kind, "renamed");
    assert_eq!(changes[0].column, "new_col");
    // A declared rename proves intent, not compatibility: consumers selecting
    // the old name break, so it is a breaking change.
    assert_eq!(changes[0].safety, "full_rebuild_required");

    // Without the declaration the same pair is a breaking removal.
    let changes = compare_column_lists(&candidate, &base, &NameMap::new());
    assert!(changes.iter().any(|change| change.kind == "removed"));
    assert!(changes.iter().any(|change| change.kind == "added"));
}

#[test]
fn ambiguous_rename_resolves_nothing() {
    // Two new columns claiming the same old name: resolve neither. The removal
    // stays breaking and both additions report, plus an ambiguity diagnostic
    // explains why.
    let candidate = vec![info("id"), info("new_a"), info("new_b")];
    let base = vec![info("id"), info("old_col")];
    let mut renames = NameMap::new();
    renames.insert("new_a".to_string(), "old_col".to_string());
    renames.insert("new_b".to_string(), "old_col".to_string());
    let changes = compare_column_lists(&candidate, &base, &renames);
    let removed = changes
        .iter()
        .find(|change| change.column == "old_col" && change.kind == "removed")
        .expect("old_col removal");
    assert_eq!(removed.safety, "full_rebuild_required");
    for new in ["new_a", "new_b"] {
        let added = changes
            .iter()
            .find(|change| change.column == new && change.kind == "added")
            .unwrap_or_else(|| panic!("{new} must report added"));
        assert_eq!(added.safety, "safe");
    }
    assert!(changes
        .iter()
        .any(|change| change.kind == "rename_ambiguous" && change.column == "old_col"));
}

#[test]
fn stale_rename_neither_hides_addition_nor_removal() {
    // `old_col` was never a base column: the declaration explains nothing, and
    // the genuinely-new `new_col` still reports added.
    let candidate = vec![info("id"), info("new_col")];
    let base = vec![info("id")];
    let mut renames = NameMap::new();
    renames.insert("new_col".to_string(), "old_col".to_string());
    let changes = compare_column_lists(&candidate, &base, &renames);
    assert_eq!(changes.len(), 1);
    assert_eq!(changes[0].kind, "added");
    assert_eq!(changes[0].column, "new_col");

    // `new_col` already existed on the base side: the declaration is ambiguous,
    // so `old_col`'s disappearance stays a breaking removal.
    let candidate = vec![info("id"), info("new_col")];
    let base = vec![info("id"), info("new_col"), info("old_col")];
    let changes = compare_column_lists(&candidate, &base, &renames);
    assert_eq!(changes.len(), 1);
    assert_eq!(changes[0].kind, "removed");
    assert_eq!(changes[0].column, "old_col");
}

#[test]
fn tolerance_predicate_uses_numeric_bounds() {
    let tolerance = ColumnTolerance {
        absolute: Some("0.001".to_string()),
        relative: Some("0.01".to_string()),
    };
    let predicate = change_predicate("value", Some(&tolerance));
    assert!(predicate.contains("abs("));
    assert!(predicate.contains("greatest("));
}

#[test]
fn sampling_wraps_the_relation() {
    let mut request = request(true);
    request.strategy = DiffStrategy::Sampled;
    request.sample_percent = Some("10".to_string());
    let sql = relation_sql(&request.candidate_relation, &request);
    assert!(sql.contains("TABLESAMPLE BERNOULLI"));
}

#[test]
fn queries_are_written_out_in_full() {
    assert_eq!(
        row_count_query("\"s\".\"t\""),
        "SELECT count(*) FROM \"s\".\"t\""
    );
    let keyed = keyed_counts_query(&request(true), "b", "c");
    assert!(keyed.contains("FULL OUTER JOIN"), "{keyed}");
    assert!(keyed.contains("\"id\""), "{keyed}");
    let partitions = partition_queries("b", "c", &vec!["d".to_string()]);
    assert!(partitions.added.contains("\"d\""), "{}", partitions.added);
}

#[test]
fn answers_are_read_as_numbers() {
    let row = |cells: &[&str]| -> Vec<String> { cells.iter().map(|c| c.to_string()).collect() };
    assert_eq!(first_cell_i64(&vec![row(&["42"])]).unwrap(), 42);
    assert_eq!(first_cell_i64(&vec![row(&["-7"])]).unwrap(), -7);
    assert_eq!(
        first_cell_i64(&Vec::new()).unwrap_err().message_text(),
        EngineError::Adapter(AdapterError::new(
            "MALFORMED_RESULT",
            "count query returned no rows"
        ))
        .message_text()
    );
    assert!(first_cell_i64(&vec![row(&["many"])])
        .unwrap_err()
        .message_text()
        .contains("non-numeric value `many`"));
    assert!(cell(&row(&["1"]), 3)
        .unwrap_err()
        .message_text()
        .contains("no column 3"));
    assert_eq!(
        keyed_counts(&vec![row(&["1", "2", "3", "4"])]).unwrap(),
        (1, 2, 3, 4)
    );
    assert_eq!(parse_i64("9223372036854775807"), Some(i64::MAX));
    assert_eq!(parse_i64("9223372036854775808"), None);
}

#[test]
fn partitions_are_compared_by_count() {
    let entry = |name: &str, rows: i64| (name.to_string(), rows);
    let delta = partition_delta(
        &vec![entry("a", 1), entry("b", 2)],
        &vec![entry("b", 3), entry("c", 1)],
    );
    assert_eq!(delta.added, ["c"]);
    assert_eq!(delta.removed, ["a"]);
    assert_eq!(delta.changed, ["b"]);
}

#[test]
fn a_keyed_diff_reports_what_it_measured() {
    let rows = |cells: &[&str]| Answer::Rows(vec![cells.iter().map(|c| c.to_string()).collect()]);
    let mut request = request(true);
    request.policy.max_removed_rows = Some(0);
    let measured = measure(
        &request,
        &rows(&["10"]),
        &rows(&["11"]),
        &DataAnswer::Keyed {
            counts: rows(&["2", "1", "3", "6"]),
            columns: vec![rows(&["3"])],
        },
    )
    .unwrap();
    let share = fraction(&measured.summary, 1.0);
    let report = diff(
        &request,
        measured,
        &Some(vec![info("id"), info("value")]),
        &Some(vec![info("id")]),
        &share,
        "t0",
        "t1",
    );
    assert_eq!(report.row_summary.delta, 1);
    assert_eq!(report.row_summary.added, 2);
    assert_eq!(report.row_summary.removed, 1);
    assert_eq!(report.column_changes.get("value"), Some(&3));
    assert!(!report.passed);
    assert_eq!(report.schema_changes[0].kind, "added");
    assert_eq!(report.diff_id.len(), 36);
    assert_eq!(report.candidate_relation, "cand.results");
}

#[test]
fn the_comparison_follows_the_strategy_and_the_keys() {
    let mut asked = request(true);
    match plan_data(&asked, "b", "c") {
        DataPlan::Keyed { counts, columns } => {
            assert_eq!(counts, keyed_counts_query(&asked, "b", "c"));
            assert_eq!(columns.len(), asked.columns.len());
            assert_eq!(
                columns.first().cloned(),
                asked
                    .columns
                    .first()
                    .map(|column| column_changed_query(&asked, "b", "c", column))
            );
        }
        other => panic!("{other:?}"),
    }
    asked.strategy = DiffStrategy::Partition {
        columns: vec!["d".to_string()],
    };
    assert_eq!(
        plan_data(&asked, "b", "c"),
        DataPlan::Partitions {
            columns: vec!["d".to_string()],
            queries: partition_queries("b", "c", &vec!["d".to_string()]),
        }
    );
    asked.strategy = DiffStrategy::Full;
    asked.key_columns = Vec::new();
    assert_eq!(plan_data(&asked, "b", "c"), DataPlan::Counts);
}
