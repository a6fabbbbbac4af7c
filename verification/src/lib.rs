//! Phlo Transform engine: planning, execution, state, diffing and promotion
//! of SQL models, as verified decisions over plain data.
//!
//! The library decides; it never talks to a warehouse, a catalog server, a
//! database or a file system. Whatever those report is handed in as plain
//! values, and whatever has to happen is handed back the same way.

pub mod adapter;
pub mod artifacts;
pub mod audit;
pub mod audit_laws;
pub mod branch_diff;
pub mod branch_laws;
pub mod changed;
pub mod contract_laws;
pub mod contracts;
pub mod diff;
pub mod diff_laws;
pub mod environment;
pub mod environment_laws;
pub mod error;
pub mod events;
pub mod failure;
pub mod gate_laws;
pub mod gates;
pub mod graph;
pub mod lineage_diff;
pub mod names;
pub mod nessie;
pub mod order;
pub mod plan;
pub mod plan_laws;
pub mod planner;
pub mod planner_laws;
pub mod promotion;
pub mod promotion_laws;
pub mod record_laws;
pub mod resume;
pub mod resume_laws;
pub mod run;
pub mod run_laws;
pub mod runner;
pub mod runner_laws;
pub mod schedule;
pub mod schedule_laws;
pub mod schema_laws;
pub mod seqs;
pub mod source_state;
pub mod state;
pub mod store;
pub mod text;
pub mod util;
pub mod workspace;

pub use adapter::{CatalogRequest, CatalogStatus, ColumnInfo, QueryResult};
pub use artifacts::{
    ArtifactWriter, CandidateProvenance, DiffArtifact, EnvironmentArtifact, GraphArtifactFile,
    LineageArtifact, LineageDiffArtifact, LineageEnvironment, ManifestArtifact,
    OpenLineageArtifact, PlanArtifact, PromotionArtifact, RunArtifact, SCHEMA_VERSION,
};
pub use audit::{
    audited_diff, audited_lineage, compiled_catalog, contract_breaking_changes,
    environment_artifact_name, write_environment_artifacts, AuditEvidence, LineageEvidence,
};
pub use branch_diff::{
    branch_diff, materialized_for_environment, model_keys, retarget, seeds_for_environment,
    BranchDiffReport, BranchDiffRequest, DatasetDiff, DatasetKind, DatasetStatus, ModelRowDiff,
    ModelSchemaDiff,
};
pub use changed::changed_models;
pub use contracts::{
    breaking_contract_changes, contract_diff, effective_key, key_change, ContractChange,
    ContractSafety, RecordedKey,
};
pub use diff::{
    diff, DiffReport, DiffRequest, DiffStrategy, PolicyResult, RowSummary, SchemaChange,
};
pub use environment::{catalog_name, ensure_environment, EnvironmentSetup, EnvironmentSpec};
pub use error::{AdapterError, EngineError};
pub use events::{EngineEvent, ExecutionStatus};
pub use failure::{Attempt, Failure, FailureCategory, RetryPolicy};
pub use gates::{evaluate_gates, GateInput, GateReport, GateResult};
pub use graph::dependency_closure;
pub use plan::{
    diff_reasons, Membership, Plan, PlanAction, PlanOptions, PlanReason, PlanSelection,
    PlannedModel, PlannedSeed, PlannedTest, Planner, ReasonKind,
};
pub use promotion::{promote, PromotionRecord, PromotionRequest};
pub use run::{ModelResult, RunCounts, RunOptions, RunResult, SeedResult, TestResult};
pub use runner::Runner;
pub use source_state::{
    adapter_default_schema, collect_source_states, relation_for_source, seed_for_relation,
    seed_relation,
};
pub use state::{
    MaterializedRecord, ModelRunRecord, RunRecord, RunSummary, SeedRecord, SeedRunRecord,
    StoredPlan, StoredRun, TestRunRecord,
};
pub use store::{find_unique_run, StateTables};
pub use workspace::DiffPolicy;
