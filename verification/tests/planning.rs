use phlo_transform_engine::changed::changed_models;
use phlo_transform_engine::error::EngineError;
use phlo_transform_engine::graph::{
    dependency_closure, dependency_closure_excluding, dependents, requiring_model,
};
use phlo_transform_engine::names::{NameMap, NameSet};
use phlo_transform_engine::plan::{
    diff_reasons, Membership, ModelObservation, Observations, Plan, PlanAction, PlanOptions,
    Planner, ReasonKind, SeedObservation,
};
use phlo_transform_engine::planner::Selection;
use phlo_transform_engine::state::{MaterializedRecord, SeedRecord};
use phlo_transform_engine::util::sha256_hex;
use phlo_transform_engine::workspace::{
    Compilation, CompiledModel, CompiledSeed, CompiledTest, Defaults, Materialization, ModelConfig,
    ModelSchema, ModelVersion, Relation, SourceId, VersionDetail,
};

fn version(hash: &str) -> ModelVersion {
    ModelVersion {
        hash: hash.to_string(),
        sql_hash: "sql".to_string(),
        config_hash: "config".to_string(),
        contract_hash: "contract".to_string(),
        dependency_hash: "dependency".to_string(),
        source_state_hash: "source".to_string(),
        compiler_version: "compiler".to_string(),
        target_hash: "target".to_string(),
    }
}

fn model(id: &str, dependencies: &[&str]) -> CompiledModel {
    CompiledModel {
        id: id.to_string(),
        target: Relation {
            catalog: Some("cat".to_string()),
            schema: "s".to_string(),
            table: id.to_string(),
        },
        config: ModelConfig {
            materialization: Materialization::Table,
            incremental: None,
            diff: None,
        },
        version: version(&format!("v-{id}")),
        version_detail: VersionDetail {
            dependencies: NameMap::new(),
            sources: NameMap::new(),
        },
        schema: ModelSchema {
            known: false,
            columns: Vec::new(),
        },
        contract: None,
        assertions: Vec::new(),
        model_dependencies: dependencies.iter().map(|d| d.to_string()).collect(),
        source_dependencies: Vec::new(),
        compiled_sql: format!("select '{id}'"),
    }
}

/// `a` <- `b` <- `c`, and `d` on its own.
fn workspace() -> Compilation {
    let names = ["a", "b", "c", "d"];
    Compilation {
        ok: true,
        models: vec![
            model("a", &[]),
            model("b", &["a"]),
            model("c", &["b"]),
            model("d", &[]),
        ],
        seeds: Vec::new(),
        tests: vec![CompiledTest {
            id: "t".to_string(),
            generated: false,
            targets: vec!["b".to_string()],
            sources: Vec::new(),
            compiled_sql: "select 1".to_string(),
        }],
        defaults: Defaults {
            catalog: None,
            schema: None,
        },
        topological_order: Some(names.iter().map(|n| n.to_string()).collect()),
        diagnostics: Vec::new(),
        lineage_hash: "lineage".to_string(),
        compiler_semantics_version: "7".to_string(),
    }
}

fn record(id: &str) -> MaterializedRecord {
    MaterializedRecord {
        model_id: id.to_string(),
        environment: None,
        version: version(&format!("v-{id}")),
        detail: None,
        target: format!("cat.s.{id}"),
        incremental_strategy: None,
        incremental_key: None,
        adapter: Some("trino".to_string()),
        output_identity: None,
        contract: None,
        effective_key: Some(Vec::new()),
        run_id: "run".to_string(),
        materialized_at: "2026-01-01T00:00:00Z".to_string(),
    }
}

fn seen(exists: bool, current: Option<MaterializedRecord>) -> ModelObservation {
    ModelObservation {
        exists,
        current,
        same_version: Vec::new(),
        output_identity: None,
        schema: None,
        watermark: None,
    }
}

fn observations(entries: Vec<(&str, ModelObservation)>) -> Observations {
    let mut models = NameMap::new();
    for (name, observation) in entries {
        models.insert(name.to_string(), observation);
    }
    Observations {
        models,
        seeds: NameMap::new(),
    }
}

fn plan_of(ids: &[&str], observed: &Observations) -> Plan {
    let ids: Vec<String> = ids.iter().map(|id| id.to_string()).collect();
    Planner::new("trino".to_string(), true)
        .plan(
            &workspace(),
            &Selection::of(&ids),
            &None,
            &PlanOptions { force: false },
            observed,
        )
        .unwrap()
}

#[test]
fn a_selection_pulls_in_what_it_reads() {
    let closure = dependency_closure(&workspace(), &vec!["b".to_string()]);
    assert_eq!(closure.to_vec(), ["a", "b"]);
    let mut selected = NameSet::new();
    selected.insert("c");
    let mut excluded = NameSet::new();
    excluded.insert("b");
    let closure = dependency_closure_excluding(&workspace(), &selected, &excluded);
    assert_eq!(closure.to_vec(), ["c"]);
    assert_eq!(dependents(&workspace(), "a"), ["b"]);
    assert_eq!(
        requiring_model(&workspace(), "a", &selected).as_deref(),
        Some("c")
    );
    assert_eq!(requiring_model(&workspace(), "d", &selected), None);
}

#[test]
fn plans_list_dependencies_first_and_say_why() {
    let plan = plan_of(&["c"], &observations(Vec::new()));
    let ids: Vec<&str> = plan.models.iter().map(|m| m.id.as_str()).collect();
    assert_eq!(ids, ["a", "b", "c"]);
    assert!(plan.models.iter().all(|m| m.action == PlanAction::Build));
    assert_eq!(plan.models[0].membership, Membership::Dependency);
    assert_eq!(
        plan.models[0].reasons[0].kind,
        ReasonKind::SelectedDependency
    );
    assert_eq!(
        plan.models[0].reasons[0].detail,
        "required by selected model c"
    );
    assert_eq!(plan.models[2].membership, Membership::Selected);
    assert_eq!(plan.selection.matched, ["c"]);
    assert_eq!(plan.selection.required, ["a", "b"]);
    assert_eq!(plan.tests.len(), 1);
    assert_eq!(plan.build_count(), 3);
    assert_eq!(plan.model_count(), 3);
    assert_eq!(plan.test_count(), 1);
    assert_eq!(plan.id.len(), 36);
    assert!(plan.models.iter().all(|m| !m.reasons.is_empty()));
    assert_eq!(plan.models[0].sql_hash, sha256_hex("select 'a'"));
    assert!(plan.models[1]
        .reasons
        .iter()
        .any(|r| r.kind == ReasonKind::UpstreamRebuild && r.subject.as_deref() == Some("a")));
}

#[test]
fn a_skip_needs_an_existing_unchanged_relation() {
    let unchanged = plan_of(&["a"], &observations(vec![("a", seen(true, Some(record("a"))))]));
    assert_eq!(unchanged.models[0].action, PlanAction::Skip);
    let missing = plan_of(&["a"], &observations(vec![("a", seen(false, Some(record("a"))))]));
    assert_eq!(missing.models[0].action, PlanAction::Build);
    let mut moved = record("a");
    moved.version.hash = "other".to_string();
    moved.version.sql_hash = "other".to_string();
    let moved = plan_of(&["a"], &observations(vec![("a", seen(true, Some(moved)))]));
    assert_eq!(moved.models[0].action, PlanAction::Build);
    assert!(moved.models[0]
        .reasons
        .iter()
        .any(|r| r.kind == ReasonKind::SqlSemanticChange));
    assert!(diff_reasons(&model("a", &[]), &record("a")).is_empty());
}

#[test]
fn a_forced_plan_builds_everything() {
    let plan = Planner::new("trino".to_string(), true)
        .plan(
            &workspace(),
            &Selection::of(&vec!["a".to_string()]),
            &None,
            &PlanOptions { force: true },
            &observations(vec![("a", seen(true, Some(record("a"))))]),
        )
        .unwrap();
    assert_eq!(plan.models[0].action, PlanAction::Build);
    assert!(plan.models[0]
        .reasons
        .iter()
        .any(|r| r.kind == ReasonKind::Forced));
}

#[test]
fn a_broken_workspace_blocks_its_plan() {
    let mut broken = workspace();
    broken.ok = false;
    let plan = Planner::new("trino".to_string(), false)
        .plan(
            &broken,
            &Selection::of(&vec!["a".to_string()]),
            &None,
            &PlanOptions { force: false },
            &observations(Vec::new()),
        )
        .unwrap();
    assert!(plan.blocked);
    assert_eq!(plan.models[0].action, PlanAction::Unknown);
}

#[test]
fn an_excluded_dependency_must_exist() {
    let mut selection = Selection::of(&vec!["b".to_string()]);
    selection.excluded = vec!["a".to_string()];
    let planner = Planner::new("trino".to_string(), false);
    let options = PlanOptions { force: false };
    let error = planner
        .plan(
            &workspace(),
            &selection,
            &None,
            &options,
            &observations(Vec::new()),
        )
        .unwrap_err();
    assert_eq!(
        error,
        EngineError::InvalidPlan(
            "b depends on excluded model a, and cat.s.a has never been materialised".to_string()
        )
    );
    let plan = planner
        .plan(
            &workspace(),
            &selection,
            &None,
            &options,
            &observations(vec![("a", seen(true, None))]),
        )
        .unwrap();
    assert_eq!(
        plan.warnings,
        ["b depends on excluded model a; it will read the existing materialisation"]
    );
    assert_eq!(plan.models.len(), 1);
}

#[test]
fn a_plan_goes_stale_with_its_workspace() {
    let plan = plan_of(&["a"], &observations(Vec::new()));
    assert_eq!(plan.staleness(&workspace()), None);
    let mut moved = workspace();
    moved.models[0].version.hash = "other".to_string();
    assert!(plan.staleness(&moved).is_some());
    let mut gone = workspace();
    gone.models.remove(0);
    assert!(plan.staleness(&gone).is_some());
}

#[test]
fn seeds_are_planned_for_what_models_read() {
    let mut compilation = workspace();
    compilation.models[0].source_dependencies = vec![SourceId {
        catalog: None,
        schema: None,
        table: "events".to_string(),
    }];
    compilation.seeds = vec![CompiledSeed {
        name: "events".to_string(),
        path: "seeds/events.csv".to_string(),
        content_hash: "h1".to_string(),
        catalog: None,
        schema: None,
        table: "events".to_string(),
    }];
    let planner = Planner::new("duckdb".to_string(), true);
    let ids = vec!["a".to_string()];
    let plan = planner
        .plan(
            &compilation,
            &Selection::of(&ids),
            &None,
            &PlanOptions { force: false },
            &observations(Vec::new()),
        )
        .unwrap();
    assert_eq!(plan.seeds.len(), 1);
    assert_eq!(plan.seeds[0].target, "main.events");
    assert_eq!(plan.seeds[0].action, PlanAction::Build);

    let mut observed = observations(Vec::new());
    observed.seeds.insert(
        "events".to_string(),
        SeedObservation {
            exists: true,
            current: Some(SeedRecord {
                name: "events".to_string(),
                environment: None,
                content_hash: "h1".to_string(),
                target: "main.events".to_string(),
                run_id: "r".to_string(),
                loaded_at: "2026-01-01T00:00:00Z".to_string(),
            }),
        },
    );
    let plan = planner
        .plan(
            &compilation,
            &Selection::of(&ids),
            &None,
            &PlanOptions { force: false },
            &observed,
        )
        .unwrap();
    assert_eq!(plan.seeds[0].action, PlanAction::Skip);
}

#[test]
fn without_state_every_model_counts_as_changed() {
    assert_eq!(
        changed_models(&workspace(), &None).to_vec(),
        ["a", "b", "c", "d"]
    );
    let mut recorded = NameMap::new();
    recorded.insert("a".to_string(), record("a"));
    recorded.insert("b".to_string(), record("b"));
    recorded.insert("d".to_string(), record("d"));
    let changed = changed_models(&workspace(), &Some(recorded)).to_vec();
    assert!(changed.contains(&"c".to_string()));
    assert!(!changed.contains(&"a".to_string()));
}
