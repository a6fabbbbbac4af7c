use phlo_transform_engine::adapter::ColumnInfo;
use phlo_transform_engine::branch_diff::{
    branch_diff, dataset_status, materialized_for_environment, plan_deep_diff, resolve_datasets,
    survey, BranchDiffRequest, DatasetKind, DatasetReading, DatasetStatus, Occasion, SideRecords,
};
use phlo_transform_engine::diff::Answer;
use phlo_transform_engine::error::AdapterError;
use phlo_transform_engine::names::NameMap;
use phlo_transform_engine::state::{MaterializedRecord, SeedRecord};
use phlo_transform_engine::workspace::{
    Assertion, Compilation, CompiledModel, DataType, Defaults, Materialization, ModelConfig,
    ModelSchema, ModelVersion, Nullability, Relation, SchemaColumn, VersionDetail,
};

fn version(hash: &str) -> ModelVersion {
    ModelVersion {
        hash: hash.to_string(),
        sql_hash: String::new(),
        config_hash: String::new(),
        contract_hash: String::new(),
        dependency_hash: String::new(),
        source_state_hash: String::new(),
        compiler_version: String::new(),
        target_hash: String::new(),
    }
}

fn workspace() -> Compilation {
    let column = |name: &str| SchemaColumn {
        name: name.to_string(),
        data_type: DataType::BigInt,
        nullability: Nullability::Unknown,
    };
    Compilation {
        ok: true,
        models: vec![CompiledModel {
            id: "m".to_string(),
            target: Relation {
                catalog: Some("cat".to_string()),
                schema: "s".to_string(),
                table: "m".to_string(),
            },
            config: ModelConfig {
                materialization: Materialization::Table,
                incremental: None,
                diff: None,
            },
            version: version("v2"),
            version_detail: VersionDetail {
                dependencies: NameMap::new(),
                sources: NameMap::new(),
            },
            schema: ModelSchema {
                known: true,
                columns: vec![column("id"), column("value")],
            },
            contract: None,
            assertions: vec![Assertion::Unique {
                columns: vec!["id".to_string()],
            }],
            model_dependencies: vec!["up".to_string()],
            source_dependencies: Vec::new(),
            compiled_sql: String::new(),
        }],
        seeds: Vec::new(),
        tests: Vec::new(),
        defaults: Defaults {
            catalog: None,
            schema: None,
        },
        topological_order: None,
        diagnostics: Vec::new(),
        lineage_hash: String::new(),
        compiler_semantics_version: String::new(),
    }
}

fn record(hash: &str, target: &str) -> MaterializedRecord {
    MaterializedRecord {
        model_id: "m".to_string(),
        environment: None,
        version: version(hash),
        detail: None,
        target: target.to_string(),
        incremental_strategy: None,
        incremental_key: None,
        adapter: None,
        output_identity: None,
        contract: None,
        effective_key: None,
        run_id: String::new(),
        materialized_at: String::new(),
    }
}

fn side(record: MaterializedRecord) -> SideRecords {
    let mut models = NameMap::new();
    models.insert("m".to_string(), record);
    SideRecords {
        models,
        seeds: NameMap::new(),
    }
}

fn request(deep: bool) -> BranchDiffRequest {
    BranchDiffRequest {
        candidate_ref: "ci/x".to_string(),
        base_ref: "main".to_string(),
        candidate_catalog: Some("phlo_x".to_string()),
        base_catalog: None,
        deep,
        default_schema: None,
    }
}

fn count(n: &str) -> Answer {
    Answer::Rows(vec![vec![n.to_string()]])
}

fn column(name: &str) -> ColumnInfo {
    ColumnInfo {
        name: name.to_string(),
        data_type: "bigint".to_string(),
        nullable: true,
    }
}

fn reading() -> DatasetReading {
    DatasetReading {
        candidate_exists: true,
        base_exists: true,
        candidate_snapshot: None,
        base_snapshot: None,
        candidate_columns: vec![column("id"), column("value")],
        base_columns: vec![column("id")],
        candidate_count: count("12"),
        base_count: count("10"),
    }
}

#[test]
fn statuses_follow_existence_and_versions() {
    let some = |text: &str| Some(text.to_string());
    let none = None;
    assert_eq!(
        dataset_status(true, false, &none, &none, &none, &none),
        DatasetStatus::Added
    );
    assert_eq!(
        dataset_status(false, true, &none, &none, &none, &none),
        DatasetStatus::Removed
    );
    assert_eq!(
        dataset_status(false, false, &none, &none, &none, &none),
        DatasetStatus::Absent
    );
    assert_eq!(
        dataset_status(true, true, &some("a"), &some("b"), &none, &none),
        DatasetStatus::Changed
    );
    assert_eq!(
        dataset_status(true, true, &some("a"), &none, &none, &none),
        DatasetStatus::Changed
    );
    assert_eq!(
        dataset_status(true, true, &none, &some("b"), &none, &none),
        DatasetStatus::Unchanged
    );
    assert_eq!(
        dataset_status(true, true, &none, &some("b"), &some("1"), &some("2")),
        DatasetStatus::Changed
    );
}

#[test]
fn a_changed_model_is_compared_in_full() {
    let compilation = workspace();
    let candidate = side(record("v2", "phlo_x.s.m"));
    let base = side(record("v1", "cat.s.m"));
    let plans = resolve_datasets(&compilation, &request(true), &candidate, &base);
    assert_eq!(plans.len(), 1);
    assert_eq!(plans[0].kind, DatasetKind::Model);
    assert_eq!(plans[0].upstream, ["up"]);
    let survey = survey(&plans, &vec![reading()]).unwrap();
    assert_eq!(survey.datasets[0].status, DatasetStatus::Changed);
    assert_eq!(survey.rows[0].delta, Some(2));
    assert_eq!(survey.schema_changes[0].changes[0].kind, "added");
    let deep = plan_deep_diff(&compilation, &request(true), &plans[0], &reading()).unwrap();
    assert_eq!(deep.key_columns, ["id"]);
    assert_eq!(deep.columns, ["value"]);
    assert_eq!(deep.candidate_relation.display(), "phlo_x.s.m");
    assert!(plan_deep_diff(&compilation, &request(false), &plans[0], &reading()).is_none());
    let report = branch_diff(
        &request(true),
        survey,
        &Vec::new(),
        Occasion {
            candidate_hash: Some("bbb".to_string()),
            base_hash: None,
            started_at: "t0".to_string(),
            finished_at: "t1".to_string(),
        },
    );
    assert!(report.passed && report.deep);
    assert_eq!(report.candidate_hash.as_deref(), Some("bbb"));
}

#[test]
fn a_failed_count_fails_the_comparison() {
    let compilation = workspace();
    let plans = resolve_datasets(
        &compilation,
        &request(false),
        &side(record("v2", "phlo_x.s.m")),
        &side(record("v1", "cat.s.m")),
    );
    let mut broken = reading();
    broken.candidate_count = Answer::Failed(AdapterError::new("X", "down"));
    broken.base_count = count("many");
    let error = survey(&plans, &vec![broken]).unwrap_err();
    assert!(error.message_text().contains("down"));
}

#[test]
fn records_outlive_the_workspace() {
    let mut compilation = workspace();
    compilation.models.clear();
    let mut base = side(record("v1", "cat.s.m"));
    base.seeds.insert(
        "raw".to_string(),
        SeedRecord {
            name: "raw".to_string(),
            environment: None,
            content_hash: "h".to_string(),
            target: "cat.s.raw".to_string(),
            run_id: String::new(),
            loaded_at: String::new(),
        },
    );
    let empty = SideRecords {
        models: NameMap::new(),
        seeds: NameMap::new(),
    };
    let plans = resolve_datasets(&compilation, &request(false), &empty, &base);
    assert_eq!(plans.len(), 2);
    assert_eq!(plans[0].dataset, "m");
    assert_eq!(plans[0].candidate_relation, None);
    assert_eq!(plans[1].kind, DatasetKind::Seed);
}

#[test]
fn the_default_environment_speaks_for_main() {
    let own = vec![record("own", "cat.s.m")];
    let default = vec![record("default", "cat.s.m")];
    let main = materialized_for_environment("main", &own, &default);
    assert_eq!(main.get("m").unwrap().version.hash, "own");
    let fallback = materialized_for_environment("main", &Vec::new(), &default);
    assert_eq!(fallback.get("m").unwrap().version.hash, "default");
    assert!(materialized_for_environment("ci/x", &Vec::new(), &default).is_empty());
}
