//! Structured branch comparison.
//!
//! A branch diff compares the materialised datasets of two references: a
//! candidate (usually a development branch) against a base (usually `main`).
//! It is model-aware: dataset status is decided from recorded materialisations
//! plus live relation-existence checks, schema changes are column-level, and
//! row counts come from warehouse-side queries.
//!
//! Dataset status rules (a Nessie branch inherits base tables, so a relation
//! visible on both sides with no candidate record is `unchanged`: the data
//! physically is the base's):
//!
//! ```text
//! candidate only                 -> added
//! base only                      -> removed
//! neither                        -> absent
//! both, recorded versions differ -> changed
//! both, otherwise                -> unchanged
//! ```
//!
//! Where no candidate version is recorded, the physical snapshots of the two
//! relations are the fallback signal: a dataset on both sides is `changed` when
//! both report one and they differ.

use vstd::prelude::*;

use crate::adapter::{ColumnInfo, ColumnInfoView};
use crate::diff::{
    column_changes, compare_column_lists, number_of, row_delta, Answer, AnswerView, DiffReport,
    DiffReportView, DiffRequest, DiffRequestView, DiffStrategy, DiffStrategyView, SchemaChange,
    SchemaChangeView,
};
use crate::error::{EngineError, EngineErrorView};
use crate::names::{
    ascending_names, has_name, lemma_with_members, named, with_members, with_name, NameMap, NameSet,
};
use crate::order::{
    lemma_text_order, lemma_the_listing, list_items, listed, order_texts, text_order, the_listing,
};
use crate::seqs::{
    first_where, gather, lemma_first_ends, lemma_first_step, lemma_gather_ends, lemma_gather_step,
};
use crate::source_state::{borrowed, or_else};
use crate::state::{MaterializedRecord, MaterializedRecordView, SeedRecord, SeedRecordView};
use crate::text::{holds, none_of, one_of, put, put_all, same, same_option, DeepClone};
use crate::workspace::{
    model_named, no_policy, parsed_relation, relation_text, seed_named, seed_target, Assertion,
    AssertionView, Compilation, CompilationView, CompiledModel, CompiledModelView, CompiledSeed,
    CompiledSeedView, DiffPolicy, DiffPolicyView, IncrementalStrategy, IncrementalStrategyView,
    Relation, RelationView, SchemaColumn, SchemaColumnView,
};

verus! {

/// What a dataset is.
#[derive(Clone, Copy, Debug, PartialEq, Eq, Structural)]
pub enum DatasetKind {
    Model,
    Seed,
}

impl DeepView for DatasetKind {
    type V = DatasetKind;

    open spec fn deep_view(&self) -> DatasetKind {
        *self
    }
}

impl DeepClone for DatasetKind {
    fn deep_clone(&self) -> (copy: Self) {
        *self
    }
}

/// How a dataset differs between the base and the candidate.
#[derive(Clone, Copy, Debug, PartialEq, Eq, Structural)]
pub enum DatasetStatus {
    /// Materialised on the candidate only.
    Added,
    /// Materialised on the base only.
    Removed,
    /// Present on both; recorded versions differ, or snapshots where no candidate
    /// version is recorded.
    Changed,
    /// Present on both with equal (or inherited) content.
    Unchanged,
    /// In the workspace but materialised on neither side.
    Absent,
}

impl DeepView for DatasetStatus {
    type V = DatasetStatus;

    open spec fn deep_view(&self) -> DatasetStatus {
        *self
    }
}

impl DeepClone for DatasetStatus {
    fn deep_clone(&self) -> (copy: Self) {
        *self
    }
}

/// One dataset's branch comparison.
#[derive(Clone, Debug, PartialEq, Eq)]
pub struct DatasetDiff {
    pub dataset: String,
    pub kind: DatasetKind,
    pub status: DatasetStatus,
    pub candidate_version: Option<String>,
    pub base_version: Option<String>,
    pub candidate_relation: Option<String>,
    pub base_relation: Option<String>,
    /// Upstream model dependencies: the lineage hook for graph diffs.
    pub upstream: Vec<String>,
}

/// The contents of a [`DatasetDiff`].
pub struct DatasetDiffView {
    pub dataset: Seq<char>,
    pub kind: DatasetKind,
    pub status: DatasetStatus,
    pub candidate_version: Option<Seq<char>>,
    pub base_version: Option<Seq<char>>,
    pub candidate_relation: Option<Seq<char>>,
    pub base_relation: Option<Seq<char>>,
    pub upstream: Seq<Seq<char>>,
}

impl DeepView for DatasetDiff {
    type V = DatasetDiffView;

    open spec fn deep_view(&self) -> DatasetDiffView {
        DatasetDiffView {
            dataset: self.dataset@,
            kind: self.kind,
            status: self.status,
            candidate_version: self.candidate_version.deep_view(),
            base_version: self.base_version.deep_view(),
            candidate_relation: self.candidate_relation.deep_view(),
            base_relation: self.base_relation.deep_view(),
            upstream: self.upstream.deep_view(),
        }
    }
}

impl DeepClone for DatasetDiff {
    fn deep_clone(&self) -> (copy: Self) {
        DatasetDiff {
            dataset: self.dataset.deep_clone(),
            kind: self.kind,
            status: self.status,
            candidate_version: self.candidate_version.deep_clone(),
            base_version: self.base_version.deep_clone(),
            candidate_relation: self.candidate_relation.deep_clone(),
            base_relation: self.base_relation.deep_clone(),
            upstream: self.upstream.deep_clone(),
        }
    }
}

/// Column-level changes for one model.
#[derive(Clone, Debug, PartialEq, Eq)]
pub struct ModelSchemaDiff {
    pub model: String,
    pub changes: Vec<SchemaChange>,
}

/// The contents of a [`ModelSchemaDiff`].
pub struct ModelSchemaDiffView {
    pub model: Seq<char>,
    pub changes: Seq<SchemaChangeView>,
}

impl DeepView for ModelSchemaDiff {
    type V = ModelSchemaDiffView;

    open spec fn deep_view(&self) -> ModelSchemaDiffView {
        ModelSchemaDiffView {
            model: self.model@,
            changes: self.changes.deep_view(),
        }
    }
}

impl DeepClone for ModelSchemaDiff {
    fn deep_clone(&self) -> (copy: Self) {
        ModelSchemaDiff {
            model: self.model.deep_clone(),
            changes: self.changes.deep_clone(),
        }
    }
}

/// Row-count comparison for one dataset.
#[derive(Clone, Debug, PartialEq, Eq)]
pub struct ModelRowDiff {
    pub dataset: String,
    pub base_rows: Option<i64>,
    pub candidate_rows: Option<i64>,
    pub delta: Option<i64>,
}

/// The contents of a [`ModelRowDiff`].
pub struct ModelRowDiffView {
    pub dataset: Seq<char>,
    pub base_rows: Option<i64>,
    pub candidate_rows: Option<i64>,
    pub delta: Option<i64>,
}

impl DeepView for ModelRowDiff {
    type V = ModelRowDiffView;

    open spec fn deep_view(&self) -> ModelRowDiffView {
        ModelRowDiffView {
            dataset: self.dataset@,
            base_rows: self.base_rows.deep_view(),
            candidate_rows: self.candidate_rows.deep_view(),
            delta: self.delta.deep_view(),
        }
    }
}

impl DeepClone for ModelRowDiff {
    fn deep_clone(&self) -> (copy: Self) {
        ModelRowDiff {
            dataset: self.dataset.deep_clone(),
            base_rows: self.base_rows.deep_clone(),
            candidate_rows: self.candidate_rows.deep_clone(),
            delta: self.delta.deep_clone(),
        }
    }
}

/// A request to compare two references.
#[derive(Clone, Debug, PartialEq, Eq)]
pub struct BranchDiffRequest {
    /// The candidate reference (usually the development branch).
    pub candidate_ref: String,
    /// The base reference (usually `main`).
    pub base_ref: String,
    /// Catalog applied to compiled targets on the candidate when no recorded
    /// materialisation target exists. `None` keeps the compiled catalog.
    pub candidate_catalog: Option<String>,
    /// Same for the base side.
    pub base_catalog: Option<String>,
    /// Run keyed value diffs on changed models that declare keys. Without
    /// this the report carries row counts only.
    pub deep: bool,
    /// Fallback schema for seed targets that have no recorded load.
    pub default_schema: Option<String>,
}

/// The contents of a [`BranchDiffRequest`].
pub struct BranchDiffRequestView {
    pub candidate_ref: Seq<char>,
    pub base_ref: Seq<char>,
    pub candidate_catalog: Option<Seq<char>>,
    pub base_catalog: Option<Seq<char>>,
    pub deep: bool,
    pub default_schema: Option<Seq<char>>,
}

impl DeepView for BranchDiffRequest {
    type V = BranchDiffRequestView;

    open spec fn deep_view(&self) -> BranchDiffRequestView {
        BranchDiffRequestView {
            candidate_ref: self.candidate_ref@,
            base_ref: self.base_ref@,
            candidate_catalog: self.candidate_catalog.deep_view(),
            base_catalog: self.base_catalog.deep_view(),
            deep: self.deep,
            default_schema: self.default_schema.deep_view(),
        }
    }
}

impl DeepClone for BranchDiffRequest {
    fn deep_clone(&self) -> (copy: Self) {
        BranchDiffRequest {
            candidate_ref: self.candidate_ref.deep_clone(),
            base_ref: self.base_ref.deep_clone(),
            candidate_catalog: self.candidate_catalog.deep_clone(),
            base_catalog: self.base_catalog.deep_clone(),
            deep: self.deep,
            default_schema: self.default_schema.deep_clone(),
        }
    }
}

/// A structured branch comparison.
#[derive(Clone, Debug, PartialEq, Eq)]
pub struct BranchDiffReport {
    pub candidate_ref: String,
    pub base_ref: String,
    /// The commits the two references pointed at when they were compared,
    /// where that is known.
    pub candidate_hash: Option<String>,
    pub base_hash: Option<String>,
    /// Every dataset in the union of the workspace and recorded
    /// materialisations, sorted by name.
    pub datasets: Vec<DatasetDiff>,
    /// Column-level changes for datasets present on at least one side.
    pub schema_changes: Vec<ModelSchemaDiff>,
    /// Row counts for datasets present on at least one side.
    pub rows: Vec<ModelRowDiff>,
    /// Deep per-model data diffs for changed models (only when `deep`).
    pub diffs: Vec<DiffReport>,
    /// Whether value-level diffs ran. A shallow report compared schema and row
    /// counts only: no data-diff policies were evaluated, so it cannot satisfy
    /// a required data-diff audit.
    pub deep: bool,
    /// All deep diffs passed their policies (vacuously true without `deep`).
    pub passed: bool,
    pub started_at: String,
    pub finished_at: String,
}

/// The contents of a [`BranchDiffReport`].
pub struct BranchDiffReportView {
    pub candidate_ref: Seq<char>,
    pub base_ref: Seq<char>,
    pub candidate_hash: Option<Seq<char>>,
    pub base_hash: Option<Seq<char>>,
    pub datasets: Seq<DatasetDiffView>,
    pub schema_changes: Seq<ModelSchemaDiffView>,
    pub rows: Seq<ModelRowDiffView>,
    pub diffs: Seq<DiffReportView>,
    pub deep: bool,
    pub passed: bool,
    pub started_at: Seq<char>,
    pub finished_at: Seq<char>,
}

impl DeepView for BranchDiffReport {
    type V = BranchDiffReportView;

    open spec fn deep_view(&self) -> BranchDiffReportView {
        BranchDiffReportView {
            candidate_ref: self.candidate_ref@,
            base_ref: self.base_ref@,
            candidate_hash: self.candidate_hash.deep_view(),
            base_hash: self.base_hash.deep_view(),
            datasets: self.datasets.deep_view(),
            schema_changes: self.schema_changes.deep_view(),
            rows: self.rows.deep_view(),
            diffs: self.diffs.deep_view(),
            deep: self.deep,
            passed: self.passed,
            started_at: self.started_at@,
            finished_at: self.finished_at@,
        }
    }
}

impl DeepClone for BranchDiffReport {
    fn deep_clone(&self) -> (copy: Self) {
        BranchDiffReport {
            candidate_ref: self.candidate_ref.deep_clone(),
            base_ref: self.base_ref.deep_clone(),
            candidate_hash: self.candidate_hash.deep_clone(),
            base_hash: self.base_hash.deep_clone(),
            datasets: self.datasets.deep_clone(),
            schema_changes: self.schema_changes.deep_clone(),
            rows: self.rows.deep_clone(),
            diffs: self.diffs.deep_clone(),
            deep: self.deep,
            passed: self.passed,
            started_at: self.started_at.deep_clone(),
            finished_at: self.finished_at.deep_clone(),
        }
    }
}

/// The materialisations of a reference by model name; a name recorded twice
/// speaks by its last record.
pub open spec fn records_by_name(records: Seq<MaterializedRecordView>) -> Seq<
    (Seq<char>, MaterializedRecordView),
>
    decreases records.len(),
{
    if records.len() == 0 {
        Seq::empty()
    } else {
        with_name(records_by_name(records.drop_last()), records.last().model_id, records.last())
    }
}

/// The seed loads of a reference by seed name.
pub open spec fn loads_by_name(records: Seq<SeedRecordView>) -> Seq<(Seq<char>, SeedRecordView)>
    decreases records.len(),
{
    if records.len() == 0 {
        Seq::empty()
    } else {
        with_name(loads_by_name(records.drop_last()), records.last().name, records.last())
    }
}

/// Indexes materialisations by model name.
pub fn index_records(records: &Vec<MaterializedRecord>) -> (r: NameMap<MaterializedRecord>)
    ensures
        r.deep_view() == records_by_name(records.deep_view()),
{
    let mut r: NameMap<MaterializedRecord> = NameMap::new();
    let ghost views = records.deep_view();
    assert(views.take(0) =~= Seq::<MaterializedRecordView>::empty());
    for i in 0..records.len()
        invariant
            views == records.deep_view(),
            r.deep_view() == records_by_name(views.take(i as int)),
    {
        assert(views.take(i as int + 1).drop_last() =~= views.take(i as int));
        r.insert(records[i].model_id.clone(), records[i].deep_clone());
    }
    assert(views.take(views.len() as int) =~= views);
    r
}

/// Indexes seed loads by seed name.
pub fn index_loads(records: &Vec<SeedRecord>) -> (r: NameMap<SeedRecord>)
    ensures
        r.deep_view() == loads_by_name(records.deep_view()),
{
    let mut r: NameMap<SeedRecord> = NameMap::new();
    let ghost views = records.deep_view();
    assert(views.take(0) =~= Seq::<SeedRecordView>::empty());
    for i in 0..records.len()
        invariant
            views == records.deep_view(),
            r.deep_view() == loads_by_name(views.take(i as int)),
    {
        assert(views.take(i as int + 1).drop_last() =~= views.take(i as int));
        r.insert(records[i].name.clone(), records[i].deep_clone());
    }
    assert(views.take(views.len() as int) =~= views);
    r
}

/// The materialisations that speak for a reference: its own, and for `main`
/// those of the default environment where it has none of its own.
pub fn materialized_for_environment(
    reference: &str,
    own: &Vec<MaterializedRecord>,
    default: &Vec<MaterializedRecord>,
) -> (r: NameMap<MaterializedRecord>)
    ensures
        r.deep_view() == records_by_name(
            if reference@ == "main"@ {
                default.deep_view() + own.deep_view()
            } else {
                own.deep_view()
            },
        ),
{
    if same(reference, "main") {
        let mut all: Vec<MaterializedRecord> = default.deep_clone();
        put_all(&mut all, own.deep_clone());
        index_records(&all)
    } else {
        index_records(own)
    }
}

/// The seed loads that speak for a reference.
pub fn seeds_for_environment(
    reference: &str,
    own: &Vec<SeedRecord>,
    default: &Vec<SeedRecord>,
) -> (r: NameMap<SeedRecord>)
    ensures
        r.deep_view() == loads_by_name(
            if reference@ == "main"@ {
                default.deep_view() + own.deep_view()
            } else {
                own.deep_view()
            },
        ),
{
    if same(reference, "main") {
        let mut all: Vec<SeedRecord> = default.deep_clone();
        put_all(&mut all, own.deep_clone());
        index_loads(&all)
    } else {
        index_loads(own)
    }
}

/// What is recorded of one side of a comparison.
#[derive(Clone, Debug, PartialEq, Eq)]
pub struct SideRecords {
    /// By model name.
    pub models: NameMap<MaterializedRecord>,
    /// By seed name.
    pub seeds: NameMap<SeedRecord>,
}

/// The contents of a [`SideRecords`].
pub struct SideRecordsView {
    pub models: Seq<(Seq<char>, MaterializedRecordView)>,
    pub seeds: Seq<(Seq<char>, SeedRecordView)>,
}

impl DeepView for SideRecords {
    type V = SideRecordsView;

    open spec fn deep_view(&self) -> SideRecordsView {
        SideRecordsView {
            models: self.models.deep_view(),
            seeds: self.seeds.deep_view(),
        }
    }
}

impl DeepClone for SideRecords {
    fn deep_clone(&self) -> (copy: Self) {
        SideRecords {
            models: self.models.deep_clone(),
            seeds: self.seeds.deep_clone(),
        }
    }
}

/// The names of entries.
pub open spec fn names_in<W>(entries: Seq<(Seq<char>, W)>) -> Seq<Seq<char>> {
    Seq::new(entries.len(), |i: int| entries[i].0)
}

/// Every dataset: the models and seeds of the workspace and whatever is
/// recorded on either side, so that a model deleted from the workspace still
/// shows up through its records.
pub open spec fn dataset_names(
    compilation: CompilationView,
    candidate: SideRecordsView,
    base: SideRecordsView,
) -> Seq<Seq<char>> {
    let models = Seq::new(compilation.models.len(), |i: int| compilation.models[i].id);
    let seeds = Seq::new(compilation.seeds.len(), |i: int| compilation.seeds[i].name);
    with_members(
        with_members(
            with_members(
                with_members(
                    with_members(with_members(Seq::empty(), models), seeds),
                    names_in(candidate.models),
                ),
                names_in(base.models),
            ),
            names_in(candidate.seeds),
        ),
        names_in(base.seeds),
    )
}

/// The version recorded for a dataset on one side: a model's version hash,
/// else a seed's content hash.
pub open spec fn recorded_version(side: SideRecordsView, name: Seq<char>) -> Option<Seq<char>> {
    match named(side.models, name) {
        Some(record) => Some(record.version.hash),
        None => match named(side.seeds, name) {
            Some(record) => Some(record.content_hash),
            None => None,
        },
    }
}

/// A compiled target at a reference's catalog.
pub open spec fn retargeted(target: RelationView, catalog: Option<Seq<char>>) -> RelationView {
    match catalog {
        Some(name) => RelationView { catalog: Some(name), ..target },
        None => target,
    }
}

/// Re-point a compiled target at a reference's catalog.
pub fn retarget(target: &Relation, catalog: Option<&str>) -> (r: Relation)
    ensures
        r.deep_view() == retargeted(target.deep_view(), catalog.deep_view()),
{
    match catalog {
        Some(name) => Relation {
            catalog: Some(name.to_owned()),
            schema: target.schema.clone(),
            table: target.table.clone(),
        },
        None => target.deep_clone(),
    }
}

/// The relation that a record names, where it reads as one.
pub open spec fn recorded_model_relation(
    side: SideRecordsView,
    name: Seq<char>,
) -> Option<RelationView> {
    match named(side.models, name) {
        Some(record) => parsed_relation(record.target),
        None => None,
    }
}

/// The relation that a seed's record names, where it reads as one.
pub open spec fn recorded_seed_relation(
    side: SideRecordsView,
    name: Seq<char>,
) -> Option<RelationView> {
    match named(side.seeds, name) {
        Some(record) => parsed_relation(record.target),
        None => None,
    }
}

/// Where a dataset is on one side: where its record says, else where the
/// workspace would put it under that side's catalog.
pub open spec fn dataset_relation(
    side: SideRecordsView,
    name: Seq<char>,
    model: Option<CompiledModelView>,
    seed: Option<CompiledSeedView>,
    catalog: Option<Seq<char>>,
    default_schema: Option<Seq<char>>,
) -> Option<RelationView> {
    or_else(
        recorded_model_relation(side, name),
        or_else(
            recorded_seed_relation(side, name),
            match model {
                Some(m) => Some(retargeted(m.target, catalog)),
                None => match seed {
                    Some(s) => Some(
                        seed_target(
                            s,
                            catalog,
                            match default_schema {
                                Some(schema) => schema,
                                None => "public"@,
                            },
                        ),
                    ),
                    None => None,
                },
            },
        ),
    )
}

/// A dataset before anything is known of its relations.
#[derive(Clone, Debug, PartialEq, Eq)]
pub struct DatasetPlan {
    pub dataset: String,
    pub kind: DatasetKind,
    pub candidate_version: Option<String>,
    pub base_version: Option<String>,
    pub candidate_relation: Option<Relation>,
    pub base_relation: Option<Relation>,
    pub upstream: Vec<String>,
}

/// The contents of a [`DatasetPlan`].
pub struct DatasetPlanView {
    pub dataset: Seq<char>,
    pub kind: DatasetKind,
    pub candidate_version: Option<Seq<char>>,
    pub base_version: Option<Seq<char>>,
    pub candidate_relation: Option<RelationView>,
    pub base_relation: Option<RelationView>,
    pub upstream: Seq<Seq<char>>,
}

impl DeepView for DatasetPlan {
    type V = DatasetPlanView;

    open spec fn deep_view(&self) -> DatasetPlanView {
        DatasetPlanView {
            dataset: self.dataset@,
            kind: self.kind,
            candidate_version: self.candidate_version.deep_view(),
            base_version: self.base_version.deep_view(),
            candidate_relation: self.candidate_relation.deep_view(),
            base_relation: self.base_relation.deep_view(),
            upstream: self.upstream.deep_view(),
        }
    }
}

impl DeepClone for DatasetPlan {
    fn deep_clone(&self) -> (copy: Self) {
        DatasetPlan {
            dataset: self.dataset.deep_clone(),
            kind: self.kind,
            candidate_version: self.candidate_version.deep_clone(),
            base_version: self.base_version.deep_clone(),
            candidate_relation: self.candidate_relation.deep_clone(),
            base_relation: self.base_relation.deep_clone(),
            upstream: self.upstream.deep_clone(),
        }
    }
}

/// A dataset as the workspace and the records on both sides describe it.
pub open spec fn dataset_plan(
    compilation: CompilationView,
    request: BranchDiffRequestView,
    candidate: SideRecordsView,
    base: SideRecordsView,
    name: Seq<char>,
) -> DatasetPlanView {
    let model = model_named(compilation.models, name);
    let seed = seed_named(compilation.seeds, name);
    DatasetPlanView {
        dataset: name,
        kind: if model is None && (seed is Some || has_name(candidate.seeds, name) || has_name(
            base.seeds,
            name,
        )) {
            DatasetKind::Seed
        } else {
            DatasetKind::Model
        },
        candidate_version: recorded_version(candidate, name),
        base_version: recorded_version(base, name),
        candidate_relation: dataset_relation(
            candidate,
            name,
            model,
            seed,
            request.candidate_catalog,
            request.default_schema,
        ),
        base_relation: dataset_relation(
            base,
            name,
            model,
            seed,
            request.base_catalog,
            request.default_schema,
        ),
        upstream: match model {
            Some(m) => m.model_dependencies,
            None => Seq::empty(),
        },
    }
}

fn model_ids(compilation: &Compilation) -> (r: Vec<String>)
    ensures
        r.deep_view() == Seq::new(
            compilation.deep_view().models.len(),
            |i: int| compilation.deep_view().models[i].id,
        ),
{
    let mut r: Vec<String> = Vec::new();
    for i in 0..compilation.models.len()
        invariant
            r@.len() == i,
            forall|k: int| 0 <= k < i ==> (#[trigger] r@[k])@ == compilation.models@[k].id@,
    {
        r.push(compilation.models[i].id.clone());
    }
    assert(r.deep_view() =~= Seq::new(
        compilation.deep_view().models.len(),
        |i: int| compilation.deep_view().models[i].id,
    ));
    r
}

fn seed_names_of(compilation: &Compilation) -> (r: Vec<String>)
    ensures
        r.deep_view() == Seq::new(
            compilation.deep_view().seeds.len(),
            |i: int| compilation.deep_view().seeds[i].name,
        ),
{
    let mut r: Vec<String> = Vec::new();
    for i in 0..compilation.seeds.len()
        invariant
            r@.len() == i,
            forall|k: int| 0 <= k < i ==> (#[trigger] r@[k])@ == compilation.seeds@[k].name@,
    {
        r.push(compilation.seeds[i].name.clone());
    }
    assert(r.deep_view() =~= Seq::new(
        compilation.deep_view().seeds.len(),
        |i: int| compilation.deep_view().seeds[i].name,
    ));
    r
}

/// The keys of a map as a list.
pub fn keys_of<T: DeepView>(map: &NameMap<T>) -> (r: Vec<String>)
    ensures
        r.deep_view() == names_in(map.deep_view()),
{
    let n: usize = map.len();
    let mut r: Vec<String> = Vec::new();
    for i in 0..n
        invariant
            n == map.deep_view().len(),
            r@.len() == i,
            forall|k: int| 0 <= k < i ==> (#[trigger] r@[k])@ == map.deep_view()[k].0,
    {
        r.push(map.key_at(i).clone());
    }
    assert(r.deep_view() =~= names_in(map.deep_view()));
    r
}

fn version_on(side: &SideRecords, name: &str) -> (r: Option<String>)
    ensures
        r.deep_view() == recorded_version(side.deep_view(), name@),
{
    match side.models.get(name) {
        Some(record) => Some(record.version.hash.clone()),
        None => match side.seeds.get(name) {
            Some(record) => Some(record.content_hash.clone()),
            None => None,
        },
    }
}

fn relation_on(
    side: &SideRecords,
    name: &str,
    model: Option<&CompiledModel>,
    seed: Option<&CompiledSeed>,
    catalog: Option<&str>,
    default_schema: Option<&str>,
) -> (r: Option<Relation>)
    ensures
        r.deep_view() == dataset_relation(
            side.deep_view(),
            name@,
            model.deep_view(),
            seed.deep_view(),
            catalog.deep_view(),
            default_schema.deep_view(),
        ),
{
    if let Some(record) = side.models.get(name) {
        if let Some(relation) = Relation::parse(record.target.as_str()) {
            return Some(relation);
        }
    }
    if let Some(record) = side.seeds.get(name) {
        if let Some(relation) = Relation::parse(record.target.as_str()) {
            return Some(relation);
        }
    }
    match model {
        Some(m) => Some(retarget(&m.target, catalog)),
        None => match seed {
            Some(s) => {
                let schema: &str = match default_schema {
                    Some(schema) => schema,
                    None => "public",
                };
                Some(s.relation(catalog, schema))
            },
            None => None,
        },
    }
}

fn plan_dataset(
    compilation: &Compilation,
    request: &BranchDiffRequest,
    candidate: &SideRecords,
    base: &SideRecords,
    name: &String,
) -> (r: DatasetPlan)
    ensures
        r.deep_view() == dataset_plan(
            compilation.deep_view(),
            request.deep_view(),
            candidate.deep_view(),
            base.deep_view(),
            name@,
        ),
{
    let model: Option<&CompiledModel> = compilation.model(name.as_str());
    let seed: Option<&CompiledSeed> = compilation.seed(name.as_str());
    let is_seed: bool = model.is_none() && (seed.is_some() || candidate.seeds.contains_key(
        name.as_str(),
    ) || base.seeds.contains_key(name.as_str()));
    let default_schema: Option<&str> = borrowed(&request.default_schema);
    DatasetPlan {
        dataset: name.clone(),
        kind: if is_seed {
            DatasetKind::Seed
        } else {
            DatasetKind::Model
        },
        candidate_version: version_on(candidate, name.as_str()),
        base_version: version_on(base, name.as_str()),
        candidate_relation: relation_on(
            candidate,
            name.as_str(),
            model,
            seed,
            borrowed(&request.candidate_catalog),
            default_schema,
        ),
        base_relation: relation_on(
            base,
            name.as_str(),
            model,
            seed,
            borrowed(&request.base_catalog),
            default_schema,
        ),
        upstream: match model {
            Some(m) => m.model_dependencies.deep_clone(),
            None => none_of(),
        },
    }
}

/// Every dataset of a comparison, in name order, with where it is on either
/// side and what is recorded of it.
pub fn resolve_datasets(
    compilation: &Compilation,
    request: &BranchDiffRequest,
    candidate: &SideRecords,
    base: &SideRecords,
) -> (r: Vec<DatasetPlan>)
    ensures
        ({
            let names = dataset_names(
                compilation.deep_view(),
                candidate.deep_view(),
                base.deep_view(),
            );
            r.deep_view() == Seq::new(
                names.len(),
                |i: int|
                    dataset_plan(
                        compilation.deep_view(),
                        request.deep_view(),
                        candidate.deep_view(),
                        base.deep_view(),
                        names[i],
                    ),
            )
        }),
{
    let mut names: NameSet = NameSet::new();
    names.extend(&model_ids(compilation));
    names.extend(&seed_names_of(compilation));
    names.extend(&keys_of(&candidate.models));
    names.extend(&keys_of(&base.models));
    names.extend(&keys_of(&candidate.seeds));
    names.extend(&keys_of(&base.seeds));
    let list: Vec<String> = names.to_vec();
    let ghost all = dataset_names(
        compilation.deep_view(),
        candidate.deep_view(),
        base.deep_view(),
    );
    assert(list.deep_view() == all);
    let mut r: Vec<DatasetPlan> = Vec::new();
    for i in 0..list.len()
        invariant
            all == list.deep_view(),
            r@.len() == i,
            forall|k: int|
                0 <= k < i ==> (#[trigger] r@[k]).deep_view() == dataset_plan(
                    compilation.deep_view(),
                    request.deep_view(),
                    candidate.deep_view(),
                    base.deep_view(),
                    all[k],
                ),
    {
        r.push(plan_dataset(compilation, request, candidate, base, &list[i]));
    }
    assert(r.deep_view() =~= Seq::new(
        all.len(),
        |i: int|
            dataset_plan(
                compilation.deep_view(),
                request.deep_view(),
                candidate.deep_view(),
                base.deep_view(),
                all[i],
            ),
    ));
    r
}

/// How a dataset differs, from where it exists, which versions are recorded
/// and, where the candidate has no recorded version, what the adapter's
/// snapshots say. Without evidence of change it is unchanged; a dataset that
/// the candidate wrote over an unknown base cannot be proven unchanged.
pub open spec fn status_of_dataset(
    candidate_exists: bool,
    base_exists: bool,
    candidate_version: Option<Seq<char>>,
    base_version: Option<Seq<char>>,
    candidate_snapshot: Option<Seq<char>>,
    base_snapshot: Option<Seq<char>>,
) -> DatasetStatus {
    if candidate_exists && !base_exists {
        DatasetStatus::Added
    } else if !candidate_exists && base_exists {
        DatasetStatus::Removed
    } else if !candidate_exists {
        DatasetStatus::Absent
    } else {
        match candidate_version {
            Some(_) => if candidate_version != base_version {
                DatasetStatus::Changed
            } else {
                DatasetStatus::Unchanged
            },
            None => if candidate_snapshot is Some && base_snapshot is Some && candidate_snapshot
                != base_snapshot {
                DatasetStatus::Changed
            } else {
                DatasetStatus::Unchanged
            },
        }
    }
}

pub fn dataset_status(
    candidate_exists: bool,
    base_exists: bool,
    candidate_version: &Option<String>,
    base_version: &Option<String>,
    candidate_snapshot: &Option<String>,
    base_snapshot: &Option<String>,
) -> (r: DatasetStatus)
    ensures
        r == status_of_dataset(
            candidate_exists,
            base_exists,
            candidate_version.deep_view(),
            base_version.deep_view(),
            candidate_snapshot.deep_view(),
            base_snapshot.deep_view(),
        ),
{
    if candidate_exists && !base_exists {
        DatasetStatus::Added
    } else if !candidate_exists && base_exists {
        DatasetStatus::Removed
    } else if !candidate_exists {
        DatasetStatus::Absent
    } else if candidate_version.is_some() {
        if same_option(candidate_version, base_version) {
            DatasetStatus::Unchanged
        } else {
            DatasetStatus::Changed
        }
    } else if candidate_snapshot.is_some() && base_snapshot.is_some() && !same_option(
        candidate_snapshot,
        base_snapshot,
    ) {
        DatasetStatus::Changed
    } else {
        DatasetStatus::Unchanged
    }
}

/// What the warehouse reports of a dataset. A side that does not exist is not
/// looked at any further.
#[derive(Clone, Debug, PartialEq, Eq)]
pub struct DatasetReading {
    pub candidate_exists: bool,
    pub base_exists: bool,
    pub candidate_snapshot: Option<String>,
    pub base_snapshot: Option<String>,
    /// The columns, empty where they could not be read.
    pub candidate_columns: Vec<ColumnInfo>,
    pub base_columns: Vec<ColumnInfo>,
    /// The answers to the row-count queries.
    pub candidate_count: Answer,
    pub base_count: Answer,
}

/// The contents of a [`DatasetReading`].
pub struct DatasetReadingView {
    pub candidate_exists: bool,
    pub base_exists: bool,
    pub candidate_snapshot: Option<Seq<char>>,
    pub base_snapshot: Option<Seq<char>>,
    pub candidate_columns: Seq<ColumnInfoView>,
    pub base_columns: Seq<ColumnInfoView>,
    pub candidate_count: AnswerView,
    pub base_count: AnswerView,
}

impl DeepView for DatasetReading {
    type V = DatasetReadingView;

    open spec fn deep_view(&self) -> DatasetReadingView {
        DatasetReadingView {
            candidate_exists: self.candidate_exists,
            base_exists: self.base_exists,
            candidate_snapshot: self.candidate_snapshot.deep_view(),
            base_snapshot: self.base_snapshot.deep_view(),
            candidate_columns: self.candidate_columns.deep_view(),
            base_columns: self.base_columns.deep_view(),
            candidate_count: self.candidate_count.deep_view(),
            base_count: self.base_count.deep_view(),
        }
    }
}

impl DeepClone for DatasetReading {
    fn deep_clone(&self) -> (copy: Self) {
        DatasetReading {
            candidate_exists: self.candidate_exists,
            base_exists: self.base_exists,
            candidate_snapshot: self.candidate_snapshot.deep_clone(),
            base_snapshot: self.base_snapshot.deep_clone(),
            candidate_columns: self.candidate_columns.deep_clone(),
            base_columns: self.base_columns.deep_clone(),
            candidate_count: self.candidate_count.deep_clone(),
            base_count: self.base_count.deep_clone(),
        }
    }
}

/// Whether a side of a dataset exists: it has a relation, and the warehouse
/// has that relation.
pub open spec fn side_exists(relation: Option<RelationView>, reported: bool) -> bool {
    relation is Some && reported
}

/// The text of an optional relation.
pub open spec fn optional_text(relation: Option<RelationView>) -> Option<Seq<char>> {
    match relation {
        Some(given) => Some(relation_text(given)),
        None => None,
    }
}

/// A dataset compared.
pub open spec fn dataset_diff(
    plan: DatasetPlanView,
    reading: DatasetReadingView,
) -> DatasetDiffView {
    DatasetDiffView {
        dataset: plan.dataset,
        kind: plan.kind,
        status: status_of_dataset(
            side_exists(plan.candidate_relation, reading.candidate_exists),
            side_exists(plan.base_relation, reading.base_exists),
            plan.candidate_version,
            plan.base_version,
            reading.candidate_snapshot,
            reading.base_snapshot,
        ),
        candidate_version: plan.candidate_version,
        base_version: plan.base_version,
        candidate_relation: optional_text(plan.candidate_relation),
        base_relation: optional_text(plan.base_relation),
        upstream: plan.upstream,
    }
}

/// The columns of a side, none where it does not exist.
pub open spec fn live_columns(exists: bool, columns: Seq<ColumnInfoView>) -> Seq<ColumnInfoView> {
    if exists {
        columns
    } else {
        Seq::empty()
    }
}

/// The column-level changes of a dataset that is present on at least one side.
pub open spec fn dataset_schema(plan: DatasetPlanView, reading: DatasetReadingView) -> Seq<
    ModelSchemaDiffView,
> {
    let candidate = live_columns(
        side_exists(plan.candidate_relation, reading.candidate_exists),
        reading.candidate_columns,
    );
    let base = live_columns(
        side_exists(plan.base_relation, reading.base_exists),
        reading.base_columns,
    );
    if candidate.len() == 0 && base.len() == 0 {
        Seq::empty()
    } else {
        let changes = column_changes(candidate, base, Seq::empty());
        if changes.len() == 0 {
            Seq::empty()
        } else {
            seq![ModelSchemaDiffView { model: plan.dataset, changes }]
        }
    }
}

/// The row count of a side; nothing where it does not exist.
pub open spec fn live_count(exists: bool, answer: AnswerView) -> Result<
    Option<i64>,
    EngineErrorView,
> {
    if !exists {
        Ok(None)
    } else {
        match number_of(answer) {
            Ok(n) => Ok(Some(n)),
            Err(error) => Err(error),
        }
    }
}

/// The row counts of a dataset that is present on at least one side; the first
/// count that fails, the candidate's before the base's, fails the whole.
pub open spec fn dataset_rows(plan: DatasetPlanView, reading: DatasetReadingView) -> Result<
    Seq<ModelRowDiffView>,
    EngineErrorView,
> {
    match (
        live_count(
            side_exists(plan.candidate_relation, reading.candidate_exists),
            reading.candidate_count,
        ),
        live_count(side_exists(plan.base_relation, reading.base_exists), reading.base_count),
    ) {
        (Err(error), _) => Err(error),
        (_, Err(error)) => Err(error),
        (Ok(candidate), Ok(base)) => if candidate is None && base is None {
            Ok(Seq::empty())
        } else {
            Ok(
                seq![
                    ModelRowDiffView {
                        dataset: plan.dataset,
                        base_rows: base,
                        candidate_rows: candidate,
                        delta: if candidate is Some && base is Some {
                            Some(row_delta(candidate->0, base->0))
                        } else {
                            None
                        },
                    },
                ],
            )
        },
    }
}

/// The row counts of the first `k` datasets.
pub open spec fn rows_upto(
    plans: Seq<DatasetPlanView>,
    readings: Seq<DatasetReadingView>,
    k: nat,
) -> Result<Seq<ModelRowDiffView>, EngineErrorView>
    decreases k,
{
    if k == 0 {
        Ok(Seq::empty())
    } else {
        match rows_upto(plans, readings, (k - 1) as nat) {
            Err(error) => Err(error),
            Ok(before) => match dataset_rows(plans[k - 1], readings[k - 1]) {
                Err(error) => Err(error),
                Ok(rows) => Ok(before + rows),
            },
        }
    }
}

/// The schema changes of the first `k` datasets.
pub open spec fn schemas_upto(
    plans: Seq<DatasetPlanView>,
    readings: Seq<DatasetReadingView>,
    k: nat,
) -> Seq<ModelSchemaDiffView>
    decreases k,
{
    if k == 0 {
        Seq::empty()
    } else {
        schemas_upto(plans, readings, (k - 1) as nat) + dataset_schema(
            plans[k - 1],
            readings[k - 1],
        )
    }
}

/// What comparing every dataset came to, before any value is compared.
#[derive(Clone, Debug, PartialEq, Eq)]
pub struct Survey {
    pub datasets: Vec<DatasetDiff>,
    pub schema_changes: Vec<ModelSchemaDiff>,
    pub rows: Vec<ModelRowDiff>,
}

/// The contents of a [`Survey`].
pub struct SurveyView {
    pub datasets: Seq<DatasetDiffView>,
    pub schema_changes: Seq<ModelSchemaDiffView>,
    pub rows: Seq<ModelRowDiffView>,
}

impl DeepView for Survey {
    type V = SurveyView;

    open spec fn deep_view(&self) -> SurveyView {
        SurveyView {
            datasets: self.datasets.deep_view(),
            schema_changes: self.schema_changes.deep_view(),
            rows: self.rows.deep_view(),
        }
    }
}

impl DeepClone for Survey {
    fn deep_clone(&self) -> (copy: Self) {
        Survey {
            datasets: self.datasets.deep_clone(),
            schema_changes: self.schema_changes.deep_clone(),
            rows: self.rows.deep_clone(),
        }
    }
}

fn optional_display(relation: &Option<Relation>) -> (r: Option<String>)
    ensures
        r.deep_view() == optional_text(relation.deep_view()),
{
    match relation {
        Some(given) => Some(given.display()),
        None => None,
    }
}

fn compare_dataset(plan: &DatasetPlan, reading: &DatasetReading) -> (r: DatasetDiff)
    ensures
        r.deep_view() == dataset_diff(plan.deep_view(), reading.deep_view()),
{
    DatasetDiff {
        dataset: plan.dataset.clone(),
        kind: plan.kind,
        status: dataset_status(
            plan.candidate_relation.is_some() && reading.candidate_exists,
            plan.base_relation.is_some() && reading.base_exists,
            &plan.candidate_version,
            &plan.base_version,
            &reading.candidate_snapshot,
            &reading.base_snapshot,
        ),
        candidate_version: plan.candidate_version.deep_clone(),
        base_version: plan.base_version.deep_clone(),
        candidate_relation: optional_display(&plan.candidate_relation),
        base_relation: optional_display(&plan.base_relation),
        upstream: plan.upstream.deep_clone(),
    }
}

fn columns_if(exists: bool, columns: &Vec<ColumnInfo>) -> (r: Vec<ColumnInfo>)
    ensures
        r.deep_view() == live_columns(exists, columns.deep_view()),
{
    if exists {
        columns.deep_clone()
    } else {
        none_of()
    }
}

fn compare_schema(plan: &DatasetPlan, reading: &DatasetReading) -> (r: Vec<ModelSchemaDiff>)
    ensures
        r.deep_view() == dataset_schema(plan.deep_view(), reading.deep_view()),
{
    let candidate: Vec<ColumnInfo> = columns_if(
        plan.candidate_relation.is_some() && reading.candidate_exists,
        &reading.candidate_columns,
    );
    let base: Vec<ColumnInfo> = columns_if(
        plan.base_relation.is_some() && reading.base_exists,
        &reading.base_columns,
    );
    assert(candidate.deep_view().len() == candidate@.len());
    assert(base.deep_view().len() == base@.len());
    let renames: NameMap<String> = NameMap::new();
    let changes: Vec<SchemaChange> = compare_column_lists(&candidate, &base, &renames);
    assert(changes.deep_view().len() == changes@.len());
    if changes.len() == 0 {
        none_of()
    } else {
        one_of(ModelSchemaDiff { model: plan.dataset.clone(), changes })
    }
}

fn count_if(exists: bool, answer: &Answer) -> (r: Result<Option<i64>, EngineError>)
    ensures
        match live_count(exists, answer.deep_view()) {
            Ok(count) => r matches Ok(n) && n == count,
            Err(error) => r matches Err(e) && e.deep_view() == error,
        },
{
    if !exists {
        return Ok(None);
    }
    match answer {
        Answer::Rows(rows) => match crate::diff::first_cell_i64(rows) {
            Ok(n) => Ok(Some(n)),
            Err(error) => Err(error),
        },
        Answer::Failed(error) => Err(EngineError::Adapter(error.deep_clone())),
    }
}

fn compare_rows(plan: &DatasetPlan, reading: &DatasetReading) -> (r: Result<
    Vec<ModelRowDiff>,
    EngineError,
>)
    ensures
        match dataset_rows(plan.deep_view(), reading.deep_view()) {
            Ok(rows) => r matches Ok(v) && v.deep_view() == rows,
            Err(error) => r matches Err(e) && e.deep_view() == error,
        },
{
    let candidate: Option<i64> = match count_if(
        plan.candidate_relation.is_some() && reading.candidate_exists,
        &reading.candidate_count,
    ) {
        Ok(count) => count,
        Err(error) => {
            return Err(error);
        },
    };
    let base: Option<i64> = match count_if(
        plan.base_relation.is_some() && reading.base_exists,
        &reading.base_count,
    ) {
        Ok(count) => count,
        Err(error) => {
            return Err(error);
        },
    };
    if candidate.is_none() && base.is_none() {
        return Ok(none_of());
    }
    let delta: Option<i64> = match (candidate, base) {
        (Some(c), Some(b)) => Some(crate::diff::subtract(c, b)),
        _ => None,
    };
    Ok(
        one_of(
            ModelRowDiff {
                dataset: plan.dataset.clone(),
                base_rows: base,
                candidate_rows: candidate,
                delta,
            },
        ),
    )
}

proof fn lemma_rows_fail(plans: Seq<DatasetPlanView>, readings: Seq<DatasetReadingView>, i: nat)
    requires
        i <= plans.len(),
        rows_upto(plans, readings, i) is Err,
    ensures
        rows_upto(plans, readings, plans.len()) == rows_upto(plans, readings, i),
    decreases plans.len() - i,
{
    if i < plans.len() {
        lemma_rows_fail(plans, readings, i + 1);
    }
}

/// Compares every dataset's existence, schema and row counts.
pub fn survey(plans: &Vec<DatasetPlan>, readings: &Vec<DatasetReading>) -> (r: Result<
    Survey,
    EngineError,
>)
    requires
        readings@.len() == plans@.len(),
    ensures
        match rows_upto(plans.deep_view(), readings.deep_view(), plans@.len()) {
            Err(error) => r matches Err(e) && e.deep_view() == error,
            Ok(rows) => r matches Ok(s) && s.deep_view() == (SurveyView {
                datasets: Seq::new(
                    plans@.len(),
                    |i: int| dataset_diff(plans.deep_view()[i], readings.deep_view()[i]),
                ),
                schema_changes: schemas_upto(
                    plans.deep_view(),
                    readings.deep_view(),
                    plans@.len(),
                ),
                rows,
            }),
        },
{
    let ghost ps = plans.deep_view();
    let ghost rs = readings.deep_view();
    let mut datasets: Vec<DatasetDiff> = Vec::new();
    let mut schema_changes: Vec<ModelSchemaDiff> = none_of();
    let mut rows: Vec<ModelRowDiff> = none_of();
    for i in 0..plans.len()
        invariant
            readings@.len() == plans@.len(),
            ps == plans.deep_view(),
            rs == readings.deep_view(),
            datasets@.len() == i,
            forall|k: int|
                0 <= k < i ==> (#[trigger] datasets@[k]).deep_view() == dataset_diff(ps[k], rs[k]),
            schema_changes.deep_view() == schemas_upto(ps, rs, i as nat),
            rows_upto(ps, rs, i as nat) == Ok::<Seq<ModelRowDiffView>, EngineErrorView>(
                rows.deep_view(),
            ),
    {
        assert(ps[i as int] == plans@[i as int].deep_view());
        assert(rs[i as int] == readings@[i as int].deep_view());
        datasets.push(compare_dataset(&plans[i], &readings[i]));
        put_all(&mut schema_changes, compare_schema(&plans[i], &readings[i]));
        match compare_rows(&plans[i], &readings[i]) {
            Ok(more) => put_all(&mut rows, more),
            Err(error) => {
                proof {
                    lemma_rows_fail(ps, rs, (i + 1) as nat);
                }
                return Err(error);
            },
        }
    }
    assert(datasets.deep_view() =~= Seq::new(
        plans@.len(),
        |i: int| dataset_diff(ps[i], rs[i]),
    ));
    Ok(Survey { datasets, schema_changes, rows })
}

/// Picks a uniqueness assertion.
pub open spec fn is_unique() -> spec_fn(AssertionView) -> bool {
    |assertion: AssertionView| assertion is Unique
}

/// A dataset's stable key columns: the incremental key, else the first
/// declared uniqueness assertion.
pub open spec fn stable_keys(model: CompiledModelView) -> Seq<Seq<char>> {
    match model.config.incremental {
        Some(IncrementalStrategyView::Key { columns }) => columns,
        _ => match first_where(model.assertions, is_unique()) {
            Some(AssertionView::Unique { columns }) => columns,
            _ => Seq::empty(),
        },
    }
}

/// A dataset's stable key columns: the incremental key, else a declared
/// uniqueness assertion.
pub fn model_keys(model: &CompiledModel) -> (r: Vec<String>)
    ensures
        r.deep_view() == stable_keys(model.deep_view()),
{
    if let Some(IncrementalStrategy::Key { columns }) = &model.config.incremental {
        return columns.deep_clone();
    }
    let items: &Vec<Assertion> = &model.assertions;
    let ghost views = items.deep_view();
    let ghost p = is_unique();
    proof {
        lemma_first_ends(views, p);
    }
    for i in 0..items.len()
        invariant
            views == items.deep_view(),
            p == is_unique(),
            items.deep_view() == model.deep_view().assertions,
            !(model.deep_view().config.incremental is Some
                && model.deep_view().config.incremental->0 is Key),
            first_where(views, p) == first_where(views.skip(i as int), p),
    {
        proof {
            lemma_first_step(views, i as int, p);
        }
        assert(views[i as int] == items@[i as int].deep_view());
        if let Assertion::Unique { columns } = &items[i] {
            return columns.deep_clone();
        }
    }
    proof {
        lemma_first_ends(views, p);
    }
    none_of()
}

/// Engine-side view of a model's declared diff policy: none declared asks for
/// nothing.
pub open spec fn policy_of(declared: Option<DiffPolicyView>) -> DiffPolicyView {
    match declared {
        Some(policy) => policy,
        None => no_policy(),
    }
}

fn diff_policy(declared: &Option<DiffPolicy>) -> (r: DiffPolicy)
    ensures
        r.deep_view() == policy_of(declared.deep_view()),
{
    match declared {
        Some(policy) => policy.deep_clone(),
        None => DiffPolicy::default(),
    }
}

/// Keeps the name of a column that is no key.
pub open spec fn if_no_key(keys: Seq<Seq<char>>) -> spec_fn(SchemaColumnView) -> Seq<Seq<char>> {
    |column: SchemaColumnView|
        if keys.contains(column.name) {
            Seq::empty()
        } else {
            seq![column.name]
        }
}

/// The value diff that a changed dataset needs: one by key, where it is a
/// model that declares keys or a diff policy and both sides exist. A declared
/// policy is never silently skipped.
pub open spec fn deep_request(
    compilation: CompilationView,
    request: BranchDiffRequestView,
    plan: DatasetPlanView,
    reading: DatasetReadingView,
) -> Option<DiffRequestView> {
    let model = model_named(compilation.models, plan.dataset);
    if !request.deep || dataset_diff(plan, reading).status != DatasetStatus::Changed || model
        is None || (stable_keys(model->0).len() == 0 && model->0.config.diff is None) {
        None
    } else {
        let keys = stable_keys(model->0);
        Some(
            DiffRequestView {
                model: plan.dataset,
                candidate_relation: plan.candidate_relation->0,
                base_relation: plan.base_relation->0,
                candidate_ref: Some(request.candidate_ref),
                base_ref: Some(request.base_ref),
                candidate_version: plan.candidate_version,
                base_version: plan.base_version,
                key_columns: keys,
                columns: if model->0.schema.known {
                    gather(model->0.schema.columns, if_no_key(keys))
                } else {
                    Seq::empty()
                },
                strategy: DiffStrategyView::Keyed,
                policy: policy_of(model->0.config.diff),
                sample_percent: None,
                renames: Seq::empty(),
            },
        )
    }
}

fn value_columns(items: &Vec<SchemaColumn>, keys: &Vec<String>) -> (r: Vec<String>)
    ensures
        r.deep_view() == gather(items.deep_view(), if_no_key(keys.deep_view())),
{
    let list: &[String] = keys.as_slice();
    assert(list.deep_view() =~= keys.deep_view());
    let ghost views = items.deep_view();
    let ghost f = if_no_key(keys.deep_view());
    proof {
        lemma_gather_ends(views, f);
    }
    let mut r: Vec<String> = none_of();
    for i in 0..items.len()
        invariant
            views == items.deep_view(),
            f == if_no_key(keys.deep_view()),
            list.deep_view() == keys.deep_view(),
            r.deep_view() == gather(views.take(i as int), f),
    {
        proof {
            lemma_gather_step(views, i as int, f);
        }
        let ghost before = r.deep_view();
        assert(views[i as int] == items@[i as int].deep_view());
        if !holds(list, items[i].name.as_str()) {
            put(&mut r, items[i].name.clone());
        }
        assert(r.deep_view() =~= before + f(views[i as int]));
    }
    r
}

/// The value diff that a dataset needs, if any.
pub fn plan_deep_diff(
    compilation: &Compilation,
    request: &BranchDiffRequest,
    plan: &DatasetPlan,
    reading: &DatasetReading,
) -> (r: Option<DiffRequest>)
    ensures
        r.deep_view() == deep_request(
            compilation.deep_view(),
            request.deep_view(),
            plan.deep_view(),
            reading.deep_view(),
        ),
{
    if !request.deep {
        return None;
    }
    let status: DatasetStatus = compare_dataset(plan, reading).status;
    if status != DatasetStatus::Changed {
        return None;
    }
    let model: &CompiledModel = match compilation.model(plan.dataset.as_str()) {
        Some(model) => model,
        None => {
            return None;
        },
    };
    let key_columns: Vec<String> = model_keys(model);
    assert(key_columns.deep_view().len() == key_columns@.len());
    if key_columns.len() == 0 && model.config.diff.is_none() {
        return None;
    }
    let columns: Vec<String> = if model.schema.known {
        value_columns(&model.schema.columns, &key_columns)
    } else {
        none_of()
    };
    match (&plan.candidate_relation, &plan.base_relation) {
        (Some(candidate_relation), Some(base_relation)) => Some(
            DiffRequest {
                model: plan.dataset.clone(),
                candidate_relation: candidate_relation.deep_clone(),
                base_relation: base_relation.deep_clone(),
                candidate_ref: Some(request.candidate_ref.clone()),
                base_ref: Some(request.base_ref.clone()),
                candidate_version: plan.candidate_version.deep_clone(),
                base_version: plan.base_version.deep_clone(),
                key_columns,
                columns,
                strategy: DiffStrategy::Keyed,
                policy: diff_policy(&model.config.diff),
                sample_percent: None,
                renames: NameMap::new(),
            },
        ),
        _ => None,
    }
}

/// The models of reports.
pub open spec fn report_models(diffs: Seq<DiffReportView>) -> Seq<Seq<char>> {
    Seq::new(diffs.len(), |i: int| diffs[i].model)
}

/// Reports in the order of their models.
pub open spec fn by_model(diffs: Seq<DiffReportView>) -> Seq<DiffReportView> {
    listed(diffs, the_listing(diffs.len(), text_order(report_models(diffs))))
}

/// Whether every report passed.
pub open spec fn reports_passed(diffs: Seq<DiffReportView>) -> bool {
    forall|i: int| 0 <= i < diffs.len() ==> (#[trigger] diffs[i]).passed
}

fn sort_reports(diffs: &Vec<DiffReport>) -> (r: Vec<DiffReport>)
    ensures
        r.deep_view() == by_model(diffs.deep_view()),
{
    let mut models: Vec<String> = Vec::new();
    for i in 0..diffs.len()
        invariant
            models@.len() == i,
            forall|k: int| 0 <= k < i ==> (#[trigger] models@[k])@ == diffs@[k].model@,
    {
        models.push(diffs[i].model.clone());
    }
    assert(models.deep_view() =~= report_models(diffs.deep_view()));
    let listing: Vec<usize> = order_texts(&models);
    proof {
        lemma_text_order(models.deep_view());
        lemma_the_listing(listing@, models@.len(), text_order(models.deep_view()));
    }
    list_items(diffs, &listing)
}

fn every_report_passed(diffs: &Vec<DiffReport>) -> (r: bool)
    ensures
        r == reports_passed(diffs.deep_view()),
{
    let ghost views = diffs.deep_view();
    for i in 0..diffs.len()
        invariant
            views == diffs.deep_view(),
            forall|k: int| 0 <= k < i ==> (#[trigger] views[k]).passed,
    {
        assert(views[i as int] == diffs@[i as int].deep_view());
        if !diffs[i].passed {
            return false;
        }
    }
    true
}

/// The report of a branch comparison.
pub open spec fn branch_report(
    request: BranchDiffRequestView,
    survey: SurveyView,
    diffs: Seq<DiffReportView>,
    candidate_hash: Option<Seq<char>>,
    base_hash: Option<Seq<char>>,
    started_at: Seq<char>,
    finished_at: Seq<char>,
) -> BranchDiffReportView {
    BranchDiffReportView {
        candidate_ref: request.candidate_ref,
        base_ref: request.base_ref,
        candidate_hash,
        base_hash,
        datasets: survey.datasets,
        schema_changes: survey.schema_changes,
        rows: survey.rows,
        diffs: by_model(diffs),
        deep: request.deep,
        passed: reports_passed(by_model(diffs)),
        started_at,
        finished_at,
    }
}

/// The commits that the two references pointed at, and when they were
/// compared.
pub struct Occasion {
    pub candidate_hash: Option<String>,
    pub base_hash: Option<String>,
    pub started_at: String,
    pub finished_at: String,
}

/// The report of a branch comparison, from the survey of its datasets and the
/// value diffs that were made.
pub fn branch_diff(
    request: &BranchDiffRequest,
    survey: Survey,
    diffs: &Vec<DiffReport>,
    occasion: Occasion,
) -> (r: BranchDiffReport)
    ensures
        r.deep_view() == branch_report(
            request.deep_view(),
            survey.deep_view(),
            diffs.deep_view(),
            occasion.candidate_hash.deep_view(),
            occasion.base_hash.deep_view(),
            occasion.started_at@,
            occasion.finished_at@,
        ),
{
    let sorted: Vec<DiffReport> = sort_reports(diffs);
    let passed: bool = every_report_passed(&sorted);
    BranchDiffReport {
        candidate_ref: request.candidate_ref.clone(),
        base_ref: request.base_ref.clone(),
        candidate_hash: occasion.candidate_hash,
        base_hash: occasion.base_hash,
        datasets: survey.datasets,
        schema_changes: survey.schema_changes,
        rows: survey.rows,
        diffs: sorted,
        deep: request.deep,
        passed,
        started_at: occasion.started_at,
        finished_at: occasion.finished_at,
    }
}

/// The datasets of a comparison come in name order, each once, and hold every
/// model and seed of the workspace and everything recorded on either side.
pub proof fn law_datasets_come_in_name_order(
    compilation: CompilationView,
    candidate: SideRecordsView,
    base: SideRecordsView,
)
    ensures
        ascending_names(dataset_names(compilation, candidate, base)),
        forall|i: int|
            0 <= i < compilation.models.len() ==> dataset_names(
                compilation,
                candidate,
                base,
            ).contains((#[trigger] compilation.models[i]).id),
        forall|i: int|
            0 <= i < compilation.seeds.len() ==> dataset_names(
                compilation,
                candidate,
                base,
            ).contains((#[trigger] compilation.seeds[i]).name),
        forall|i: int|
            0 <= i < candidate.models.len() ==> dataset_names(
                compilation,
                candidate,
                base,
            ).contains((#[trigger] candidate.models[i]).0),
        forall|i: int|
            0 <= i < base.models.len() ==> dataset_names(compilation, candidate, base).contains(
                (#[trigger] base.models[i]).0,
            ),
        forall|i: int|
            0 <= i < candidate.seeds.len() ==> dataset_names(
                compilation,
                candidate,
                base,
            ).contains((#[trigger] candidate.seeds[i]).0),
        forall|i: int|
            0 <= i < base.seeds.len() ==> dataset_names(compilation, candidate, base).contains(
                (#[trigger] base.seeds[i]).0,
            ),
{
    let models = Seq::new(compilation.models.len(), |i: int| compilation.models[i].id);
    let seeds = Seq::new(compilation.seeds.len(), |i: int| compilation.seeds[i].name);
    let first = with_members(Seq::empty(), models);
    let second = with_members(first, seeds);
    let third = with_members(second, names_in(candidate.models));
    let fourth = with_members(third, names_in(base.models));
    let fifth = with_members(fourth, names_in(candidate.seeds));
    lemma_with_members(Seq::empty(), models);
    lemma_with_members(first, seeds);
    lemma_with_members(second, names_in(candidate.models));
    lemma_with_members(third, names_in(base.models));
    lemma_with_members(fourth, names_in(candidate.seeds));
    lemma_with_members(fifth, names_in(base.seeds));
    assert forall|i: int| 0 <= i < compilation.models.len() implies models.contains(
        (#[trigger] compilation.models[i]).id,
    ) by {
        assert(models[i] == compilation.models[i].id);
    }
    assert forall|i: int| 0 <= i < compilation.seeds.len() implies seeds.contains(
        (#[trigger] compilation.seeds[i]).name,
    ) by {
        assert(seeds[i] == compilation.seeds[i].name);
    }
    assert forall|i: int| 0 <= i < candidate.models.len() implies names_in(
        candidate.models,
    ).contains((#[trigger] candidate.models[i]).0) by {
        assert(names_in(candidate.models)[i] == candidate.models[i].0);
    }
    assert forall|i: int| 0 <= i < base.models.len() implies names_in(base.models).contains(
        (#[trigger] base.models[i]).0,
    ) by {
        assert(names_in(base.models)[i] == base.models[i].0);
    }
    assert forall|i: int| 0 <= i < candidate.seeds.len() implies names_in(
        candidate.seeds,
    ).contains((#[trigger] candidate.seeds[i]).0) by {
        assert(names_in(candidate.seeds)[i] == candidate.seeds[i].0);
    }
    assert forall|i: int| 0 <= i < base.seeds.len() implies names_in(base.seeds).contains(
        (#[trigger] base.seeds[i]).0,
    ) by {
        assert(names_in(base.seeds)[i] == base.seeds[i].0);
    }
}

/// A dataset counts as unchanged only where it exists on both sides, and the
/// versions recorded for it agree or the candidate has recorded none.
pub proof fn law_unchanged_needs_both_sides(
    plan: DatasetPlanView,
    reading: DatasetReadingView,
)
    ensures
        dataset_diff(plan, reading).status == DatasetStatus::Unchanged ==> reading.candidate_exists
            && reading.base_exists && (plan.candidate_version is None || plan.candidate_version
            == plan.base_version),
{
}

/// A changed model that declares a diff policy or a key is always compared by
/// value in deep mode.
pub proof fn law_declared_policies_are_evaluated(
    compilation: CompilationView,
    request: BranchDiffRequestView,
    plan: DatasetPlanView,
    reading: DatasetReadingView,
)
    requires
        request.deep,
        dataset_diff(plan, reading).status == DatasetStatus::Changed,
        model_named(compilation.models, plan.dataset) matches Some(model) && (
        model.config.diff is Some || stable_keys(model).len() > 0),
    ensures
        deep_request(compilation, request, plan, reading) is Some,
{
}

} // verus!
