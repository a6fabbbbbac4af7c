//! Plans: what is to be done to each model and seed, and why.
//!
//! Planning is state-aware: each model's desired content-addressed version is
//! compared against the version recorded for the target environment, and
//! every build, skip and reuse decision carries structured [`PlanReason`]s
//! that explain why, down to which dependency version or source state changed
//! where the recorded detail is available.

use vstd::prelude::*;

use crate::error::{Diagnostic, DiagnosticView};
use crate::names::{has_name, named, NameMap};
use crate::seqs::{
    count_where, first_where, gather, last_where, lemma_count_ends, lemma_count_step,
    lemma_first_ends, lemma_first_step, lemma_gather_ends, lemma_gather_step, lemma_last_ends,
    lemma_last_step,
};
use crate::state::{MaterializedRecord, MaterializedRecordView, SeedRecord, SeedRecordView};
use crate::text::{
    cat2, cat3, cat4, cat5, cat7, chars_of, join, join_text, none_of, one_of, put, put_all, same,
    same_option, short, short_text, text_of, DeepClone,
};
use crate::workspace::{
    model_named, relation_text, type_label, Compilation, CompiledModel, CompiledModelView,
    CompiledSeed, CompiledSeedView, SchemaChangeSafety, SchemaColumn, SchemaColumnView,
};

verus! {

/// What the planner intends to do to a model's physical relation.
#[derive(Clone, Copy, Debug, PartialEq, Eq, Structural)]
pub enum PlanAction {
    /// Build or rebuild the physical relation.
    Build,
    /// The desired version is already materialised in this environment.
    Skip,
    /// The desired version can be reused from a compatible materialisation.
    Cached,
    /// Compilation errors block a decision.
    Unknown,
}

impl DeepView for PlanAction {
    type V = PlanAction;

    open spec fn deep_view(&self) -> PlanAction {
        *self
    }
}

impl DeepClone for PlanAction {
    fn deep_clone(&self) -> (copy: Self) {
        *self
    }
}

impl Default for PlanAction {
    fn default() -> (action: Self)
        ensures
            action == PlanAction::Unknown,
    {
        PlanAction::Unknown
    }
}

/// The action a stored code denotes; an unknown code denotes `Unknown`.
pub open spec fn action_of_code(value: Seq<char>) -> PlanAction {
    if value == "build"@ {
        PlanAction::Build
    } else if value == "skip"@ {
        PlanAction::Skip
    } else if value == "cached"@ {
        PlanAction::Cached
    } else {
        PlanAction::Unknown
    }
}

impl PlanAction {
    pub open spec fn code_text(self) -> Seq<char> {
        match self {
            PlanAction::Build => "build"@,
            PlanAction::Skip => "skip"@,
            PlanAction::Cached => "cached"@,
            PlanAction::Unknown => "unknown"@,
        }
    }

    /// Stable machine-readable code.
    pub fn as_str(self) -> (r: &'static str)
        ensures
            r@ == self.code_text(),
    {
        match self {
            PlanAction::Build => "build",
            PlanAction::Skip => "skip",
            PlanAction::Cached => "cached",
            PlanAction::Unknown => "unknown",
        }
    }

    /// Parse a code produced by `as_str` (used when reconstructing a stored
    /// plan for resume). Unknown values map to `Unknown`.
    pub fn parse(value: &str) -> (r: Self)
        ensures
            r == action_of_code(value@),
    {
        if same(value, "build") {
            PlanAction::Build
        } else if same(value, "skip") {
            PlanAction::Skip
        } else if same(value, "cached") {
            PlanAction::Cached
        } else {
            PlanAction::Unknown
        }
    }
}

/// An action reads back as itself from its code.
pub proof fn law_action_reads_back(action: PlanAction)
    ensures
        action_of_code(action.code_text()) == action,
{
    reveal_strlit("build");
    reveal_strlit("skip");
    reveal_strlit("cached");
    reveal_strlit("unknown");
    assert("build"@[0] == 'b' && "skip"@[0] == 's' && "cached"@[0] == 'c' && "unknown"@[0] == 'u');
}

/// The kind of a [`PlanReason`]: stable for programmatic consumers.
#[derive(Clone, Copy, Debug, PartialEq, Eq, Structural)]
pub enum ReasonKind {
    /// The canonical SQL changed.
    SqlSemanticChange,
    /// Semantics-affecting configuration changed.
    ConfigChange,
    /// Contract or assertions changed.
    ContractChange,
    /// A dependency's recorded version input changed.
    DependencyChange,
    /// An upstream model in this plan will also build.
    UpstreamRebuild,
    /// An observed source state changed.
    SourceChange,
    /// The physical target relation changed.
    TargetChange,
    /// The compiler semantics version changed.
    CompilerSemanticsChange,
    /// Incremental strategy or key changed; forces a full rebuild.
    IncrementalChange,
    /// The output schema changes incompatibly.
    SchemaChange,
    /// The target relation does not exist.
    MissingRelation,
    /// Nothing is recorded for this environment.
    UnknownState,
    /// The identical version is materialised in another environment.
    CacheReuse,
    /// `--force` was requested.
    Forced,
    /// The recorded version matches the desired version.
    Unchanged,
    /// Included because a selected model depends on it.
    SelectedDependency,
    /// Included because a `+` expansion term matched it.
    SelectionExpansion,
    /// No state store was available to compare against.
    StateUnavailable,
    /// Selected because a Git-aware change provider marked it changed
    /// (selection provenance, not a rebuild decision).
    GitChange,
    /// An identical version exists in another environment but cannot be
    /// safely reused here.
    CacheMiss,
    /// The recorded materialisation was produced by a different adapter.
    AdapterChange,
    /// The physical relation no longer holds the recorded materialisation.
    OutputDrift,
    /// Re-executed (or reused) as part of a resumed or retried run.
    ResumedRun,
}

impl DeepView for ReasonKind {
    type V = ReasonKind;

    open spec fn deep_view(&self) -> ReasonKind {
        *self
    }
}

impl DeepClone for ReasonKind {
    fn deep_clone(&self) -> (copy: Self) {
        *self
    }
}

impl ReasonKind {
    pub open spec fn code_text(self) -> Seq<char> {
        match self {
            ReasonKind::SqlSemanticChange => "sql_semantic_change"@,
            ReasonKind::ConfigChange => "config_change"@,
            ReasonKind::ContractChange => "contract_change"@,
            ReasonKind::DependencyChange => "dependency_change"@,
            ReasonKind::UpstreamRebuild => "upstream_rebuild"@,
            ReasonKind::SourceChange => "source_change"@,
            ReasonKind::TargetChange => "target_change"@,
            ReasonKind::CompilerSemanticsChange => "compiler_semantics_change"@,
            ReasonKind::IncrementalChange => "incremental_change"@,
            ReasonKind::SchemaChange => "schema_change"@,
            ReasonKind::MissingRelation => "missing_relation"@,
            ReasonKind::UnknownState => "unknown_state"@,
            ReasonKind::CacheReuse => "cache_reuse"@,
            ReasonKind::CacheMiss => "cache_miss"@,
            ReasonKind::AdapterChange => "adapter_change"@,
            ReasonKind::OutputDrift => "output_drift"@,
            ReasonKind::Forced => "forced"@,
            ReasonKind::Unchanged => "unchanged"@,
            ReasonKind::SelectedDependency => "selected_dependency"@,
            ReasonKind::SelectionExpansion => "selection_expansion"@,
            ReasonKind::StateUnavailable => "state_unavailable"@,
            ReasonKind::GitChange => "git_change"@,
            ReasonKind::ResumedRun => "resumed_run"@,
        }
    }

    /// Stable machine-readable code.
    pub fn code(self) -> (r: &'static str)
        ensures
            r@ == self.code_text(),
    {
        match self {
            ReasonKind::SqlSemanticChange => "sql_semantic_change",
            ReasonKind::ConfigChange => "config_change",
            ReasonKind::ContractChange => "contract_change",
            ReasonKind::DependencyChange => "dependency_change",
            ReasonKind::UpstreamRebuild => "upstream_rebuild",
            ReasonKind::SourceChange => "source_change",
            ReasonKind::TargetChange => "target_change",
            ReasonKind::CompilerSemanticsChange => "compiler_semantics_change",
            ReasonKind::IncrementalChange => "incremental_change",
            ReasonKind::SchemaChange => "schema_change",
            ReasonKind::MissingRelation => "missing_relation",
            ReasonKind::UnknownState => "unknown_state",
            ReasonKind::CacheReuse => "cache_reuse",
            ReasonKind::CacheMiss => "cache_miss",
            ReasonKind::AdapterChange => "adapter_change",
            ReasonKind::OutputDrift => "output_drift",
            ReasonKind::Forced => "forced",
            ReasonKind::Unchanged => "unchanged",
            ReasonKind::SelectedDependency => "selected_dependency",
            ReasonKind::SelectionExpansion => "selection_expansion",
            ReasonKind::StateUnavailable => "state_unavailable",
            ReasonKind::GitChange => "git_change",
            ReasonKind::ResumedRun => "resumed_run",
        }
    }
}

/// One structured reason attached to a planned model or seed.
#[derive(Clone, Debug, PartialEq, Eq)]
pub struct PlanReason {
    /// Stable reason kind.
    pub kind: ReasonKind,
    /// Human-readable explanation.
    pub detail: String,
    /// The model or source this reason is about, when relevant.
    pub subject: Option<String>,
}

/// The contents of a [`PlanReason`].
pub struct PlanReasonView {
    pub kind: ReasonKind,
    pub detail: Seq<char>,
    pub subject: Option<Seq<char>>,
}

impl DeepView for PlanReason {
    type V = PlanReasonView;

    open spec fn deep_view(&self) -> PlanReasonView {
        PlanReasonView {
            kind: self.kind,
            detail: self.detail@,
            subject: self.subject.deep_view(),
        }
    }
}

impl DeepClone for PlanReason {
    fn deep_clone(&self) -> (copy: Self) {
        PlanReason {
            kind: self.kind,
            detail: self.detail.deep_clone(),
            subject: self.subject.deep_clone(),
        }
    }
}

/// A reason about nothing in particular.
pub open spec fn plain(kind: ReasonKind, detail: Seq<char>) -> PlanReasonView {
    PlanReasonView { kind, detail, subject: None }
}

/// A reason about a model or source.
pub open spec fn regarding(
    kind: ReasonKind,
    detail: Seq<char>,
    subject: Seq<char>,
) -> PlanReasonView {
    PlanReasonView { kind, detail, subject: Some(subject) }
}

impl PlanReason {
    /// A reason about nothing in particular.
    pub fn simple(kind: ReasonKind, detail: String) -> (r: Self)
        ensures
            r.deep_view() == plain(kind, detail@),
    {
        PlanReason { kind, detail, subject: None }
    }

    /// A reason about a model or source.
    pub fn about(kind: ReasonKind, detail: String, subject: String) -> (r: Self)
        ensures
            r.deep_view() == regarding(kind, detail@, subject@),
    {
        PlanReason { kind, detail, subject: Some(subject) }
    }
}

/// How a model entered the plan.
#[derive(Clone, Copy, Debug, PartialEq, Eq, Structural)]
pub enum Membership {
    /// Matched a selector term directly (or the default all-selection).
    Selected,
    /// Pulled in by a `+` expansion term.
    Expanded,
    /// Not selected: included because a planned model depends on it.
    Dependency,
}

impl DeepView for Membership {
    type V = Membership;

    open spec fn deep_view(&self) -> Membership {
        *self
    }
}

impl DeepClone for Membership {
    fn deep_clone(&self) -> (copy: Self) {
        *self
    }
}

/// Options that shape a plan beyond the selection itself.
#[derive(Clone, Copy, Debug, PartialEq, Eq, Structural)]
pub struct PlanOptions {
    /// Rebuild every planned model regardless of recorded state.
    pub force: bool,
}

impl DeepView for PlanOptions {
    type V = PlanOptions;

    open spec fn deep_view(&self) -> PlanOptions {
        *self
    }
}

impl DeepClone for PlanOptions {
    fn deep_clone(&self) -> (copy: Self) {
        *self
    }
}

impl Default for PlanOptions {
    fn default() -> (options: Self)
        ensures
            options.force == false,
    {
        PlanOptions { force: false }
    }
}

/// A model in a plan.
#[derive(Clone, Debug, PartialEq, Eq)]
pub struct PlannedModel {
    pub id: String,
    pub target: String,
    pub materialization: String,
    pub action: PlanAction,
    /// Why this action was chosen; never empty for decided models.
    pub reasons: Vec<PlanReason>,
    /// How the model entered the plan.
    pub membership: Membership,
    pub exists: bool,
    pub incremental: Option<String>,
    pub full_rebuild: bool,
    pub watermark: Option<String>,
    pub desired_version: String,
    pub current_version: Option<String>,
    pub dependencies: Vec<String>,
    pub sources: Vec<String>,
    pub sql_hash: String,
    pub compiled_sql: String,
}

/// The contents of a [`PlannedModel`].
pub struct PlannedModelView {
    pub id: Seq<char>,
    pub target: Seq<char>,
    pub materialization: Seq<char>,
    pub action: PlanAction,
    pub reasons: Seq<PlanReasonView>,
    pub membership: Membership,
    pub exists: bool,
    pub incremental: Option<Seq<char>>,
    pub full_rebuild: bool,
    pub watermark: Option<Seq<char>>,
    pub desired_version: Seq<char>,
    pub current_version: Option<Seq<char>>,
    pub dependencies: Seq<Seq<char>>,
    pub sources: Seq<Seq<char>>,
    pub sql_hash: Seq<char>,
    pub compiled_sql: Seq<char>,
}

impl DeepView for PlannedModel {
    type V = PlannedModelView;

    open spec fn deep_view(&self) -> PlannedModelView {
        PlannedModelView {
            id: self.id@,
            target: self.target@,
            materialization: self.materialization@,
            action: self.action,
            reasons: self.reasons.deep_view(),
            membership: self.membership,
            exists: self.exists,
            incremental: self.incremental.deep_view(),
            full_rebuild: self.full_rebuild,
            watermark: self.watermark.deep_view(),
            desired_version: self.desired_version@,
            current_version: self.current_version.deep_view(),
            dependencies: self.dependencies.deep_view(),
            sources: self.sources.deep_view(),
            sql_hash: self.sql_hash@,
            compiled_sql: self.compiled_sql@,
        }
    }
}

impl DeepClone for PlannedModel {
    fn deep_clone(&self) -> (copy: Self) {
        PlannedModel {
            id: self.id.deep_clone(),
            target: self.target.deep_clone(),
            materialization: self.materialization.deep_clone(),
            action: self.action,
            reasons: self.reasons.deep_clone(),
            membership: self.membership,
            exists: self.exists,
            incremental: self.incremental.deep_clone(),
            full_rebuild: self.full_rebuild,
            watermark: self.watermark.deep_clone(),
            desired_version: self.desired_version.deep_clone(),
            current_version: self.current_version.deep_clone(),
            dependencies: self.dependencies.deep_clone(),
            sources: self.sources.deep_clone(),
            sql_hash: self.sql_hash.deep_clone(),
            compiled_sql: self.compiled_sql.deep_clone(),
        }
    }
}

/// A seed in a plan: the CSV gets loaded into `target` before models build.
#[derive(Clone, Debug, PartialEq, Eq)]
pub struct PlannedSeed {
    pub name: String,
    pub target: String,
    /// Workspace-relative CSV path.
    pub path: String,
    pub action: PlanAction,
    /// The CSV's content hash: the seed's version.
    pub desired_version: String,
    /// Why the seed will (re)load.
    pub reasons: Vec<PlanReason>,
}

/// The contents of a [`PlannedSeed`].
pub struct PlannedSeedView {
    pub name: Seq<char>,
    pub target: Seq<char>,
    pub path: Seq<char>,
    pub action: PlanAction,
    pub desired_version: Seq<char>,
    pub reasons: Seq<PlanReasonView>,
}

impl DeepView for PlannedSeed {
    type V = PlannedSeedView;

    open spec fn deep_view(&self) -> PlannedSeedView {
        PlannedSeedView {
            name: self.name@,
            target: self.target@,
            path: self.path@,
            action: self.action,
            desired_version: self.desired_version@,
            reasons: self.reasons.deep_view(),
        }
    }
}

impl DeepClone for PlannedSeed {
    fn deep_clone(&self) -> (copy: Self) {
        PlannedSeed {
            name: self.name.deep_clone(),
            target: self.target.deep_clone(),
            path: self.path.deep_clone(),
            action: self.action,
            desired_version: self.desired_version.deep_clone(),
            reasons: self.reasons.deep_clone(),
        }
    }
}

/// A test in a plan.
#[derive(Clone, Debug, PartialEq, Eq)]
pub struct PlannedTest {
    pub id: String,
    pub generated: bool,
    pub targets: Vec<String>,
    pub sources: Vec<String>,
}

/// The contents of a [`PlannedTest`].
pub struct PlannedTestView {
    pub id: Seq<char>,
    pub generated: bool,
    pub targets: Seq<Seq<char>>,
    pub sources: Seq<Seq<char>>,
}

impl DeepView for PlannedTest {
    type V = PlannedTestView;

    open spec fn deep_view(&self) -> PlannedTestView {
        PlannedTestView {
            id: self.id@,
            generated: self.generated,
            targets: self.targets.deep_view(),
            sources: self.sources.deep_view(),
        }
    }
}

impl DeepClone for PlannedTest {
    fn deep_clone(&self) -> (copy: Self) {
        PlannedTest {
            id: self.id.deep_clone(),
            generated: self.generated,
            targets: self.targets.deep_clone(),
            sources: self.sources.deep_clone(),
        }
    }
}

/// How the resolved selection shaped a plan.
#[derive(Clone, Debug, PartialEq, Eq)]
pub struct PlanSelection {
    /// The include terms as written.
    pub terms: Vec<String>,
    /// The exclude terms as written.
    pub exclude: Vec<String>,
    /// Models matched by a term directly.
    pub matched: Vec<String>,
    /// Models pulled in by `+` expansion.
    pub expanded: Vec<String>,
    /// Models pulled in by dependency closure.
    pub required: Vec<String>,
}

/// The contents of a [`PlanSelection`].
pub struct PlanSelectionView {
    pub terms: Seq<Seq<char>>,
    pub exclude: Seq<Seq<char>>,
    pub matched: Seq<Seq<char>>,
    pub expanded: Seq<Seq<char>>,
    pub required: Seq<Seq<char>>,
}

impl DeepView for PlanSelection {
    type V = PlanSelectionView;

    open spec fn deep_view(&self) -> PlanSelectionView {
        PlanSelectionView {
            terms: self.terms.deep_view(),
            exclude: self.exclude.deep_view(),
            matched: self.matched.deep_view(),
            expanded: self.expanded.deep_view(),
            required: self.required.deep_view(),
        }
    }
}

impl DeepClone for PlanSelection {
    fn deep_clone(&self) -> (copy: Self) {
        PlanSelection {
            terms: self.terms.deep_clone(),
            exclude: self.exclude.deep_clone(),
            matched: self.matched.deep_clone(),
            expanded: self.expanded.deep_clone(),
            required: self.required.deep_clone(),
        }
    }
}

/// A Git-derived change set: the base it was taken against and the paths that
/// differ.
#[derive(Clone, Debug, PartialEq, Eq)]
pub struct GitChanges {
    pub base: String,
    pub paths: Vec<String>,
}

/// The contents of a [`GitChanges`].
pub struct GitChangesView {
    pub base: Seq<char>,
    pub paths: Seq<Seq<char>>,
}

impl DeepView for GitChanges {
    type V = GitChangesView;

    open spec fn deep_view(&self) -> GitChangesView {
        GitChangesView {
            base: self.base@,
            paths: self.paths.deep_view(),
        }
    }
}

impl DeepClone for GitChanges {
    fn deep_clone(&self) -> (copy: Self) {
        GitChanges {
            base: self.base.deep_clone(),
            paths: self.paths.deep_clone(),
        }
    }
}

/// An inspectable, state-aware plan.
#[derive(Clone, Debug, PartialEq, Eq)]
pub struct Plan {
    pub id: String,
    pub created_at: String,
    pub environment: Option<String>,
    pub adapter: String,
    pub compiler_semantics_version: String,
    /// True when compilation errors block execution.
    pub blocked: bool,
    /// The selection that produced this plan.
    pub selection: PlanSelection,
    /// The Git-derived change set, when the plan was built from one.
    pub git: Option<GitChanges>,
    /// Non-fatal conditions worth surfacing.
    pub warnings: Vec<String>,
    /// Seeds the planned models read, in load order.
    pub seeds: Vec<PlannedSeed>,
    pub models: Vec<PlannedModel>,
    pub tests: Vec<PlannedTest>,
    pub diagnostics: Vec<Diagnostic>,
}

/// The contents of a [`Plan`].
pub struct PlanView {
    pub id: Seq<char>,
    pub created_at: Seq<char>,
    pub environment: Option<Seq<char>>,
    pub adapter: Seq<char>,
    pub compiler_semantics_version: Seq<char>,
    pub blocked: bool,
    pub selection: PlanSelectionView,
    pub git: Option<GitChangesView>,
    pub warnings: Seq<Seq<char>>,
    pub seeds: Seq<PlannedSeedView>,
    pub models: Seq<PlannedModelView>,
    pub tests: Seq<PlannedTestView>,
    pub diagnostics: Seq<DiagnosticView>,
}

impl DeepView for Plan {
    type V = PlanView;

    open spec fn deep_view(&self) -> PlanView {
        PlanView {
            id: self.id@,
            created_at: self.created_at@,
            environment: self.environment.deep_view(),
            adapter: self.adapter@,
            compiler_semantics_version: self.compiler_semantics_version@,
            blocked: self.blocked,
            selection: self.selection.deep_view(),
            git: self.git.deep_view(),
            warnings: self.warnings.deep_view(),
            seeds: self.seeds.deep_view(),
            models: self.models.deep_view(),
            tests: self.tests.deep_view(),
            diagnostics: self.diagnostics.deep_view(),
        }
    }
}

impl DeepClone for Plan {
    fn deep_clone(&self) -> (copy: Self) {
        Plan {
            id: self.id.deep_clone(),
            created_at: self.created_at.deep_clone(),
            environment: self.environment.deep_clone(),
            adapter: self.adapter.deep_clone(),
            compiler_semantics_version: self.compiler_semantics_version.deep_clone(),
            blocked: self.blocked,
            selection: self.selection.deep_clone(),
            git: self.git.deep_clone(),
            warnings: self.warnings.deep_clone(),
            seeds: self.seeds.deep_clone(),
            models: self.models.deep_clone(),
            tests: self.tests.deep_clone(),
            diagnostics: self.diagnostics.deep_clone(),
        }
    }
}

/// Picks the models that are to be built.
pub open spec fn is_build() -> spec_fn(PlannedModelView) -> bool {
    |model: PlannedModelView| model.action == PlanAction::Build
}

/// Picks the planned models that a compilation no longer matches.
pub open spec fn is_stale(models: Seq<CompiledModelView>) -> spec_fn(PlannedModelView) -> bool {
    |planned: PlannedModelView|
        match model_named(models, planned.id) {
            None => true,
            Some(model) => model.version.hash != planned.desired_version,
        }
}

/// Why a plan no longer matches a compilation: its first stale model is gone
/// or has changed.
pub open spec fn staleness_of(
    planned: Seq<PlannedModelView>,
    models: Seq<CompiledModelView>,
) -> Option<Seq<char>> {
    match first_where(planned, is_stale(models)) {
        None => None,
        Some(first) => Some(
            if model_named(models, first.id) is None {
                "model `"@ + first.id + "` no longer exists"@
            } else {
                "model `"@ + first.id + "` changed since the plan was created"@
            },
        ),
    }
}

impl Plan {
    pub fn model_count(&self) -> (n: usize)
        ensures
            n == self.deep_view().models.len(),
    {
        assert(self.models.deep_view().len() == self.models@.len());
        self.models.len()
    }

    pub fn test_count(&self) -> (n: usize)
        ensures
            n == self.deep_view().tests.len(),
    {
        assert(self.tests.deep_view().len() == self.tests@.len());
        self.tests.len()
    }

    /// How many models the plan builds.
    pub fn build_count(&self) -> (n: usize)
        ensures
            n == count_where(self.deep_view().models, is_build()),
    {
        let ghost views = self.models.deep_view();
        let ghost p = is_build();
        proof {
            lemma_count_ends(views, p);
        }
        let mut n: usize = 0;
        for i in 0..self.models.len()
            invariant
                views == self.models.deep_view(),
                p == is_build(),
                n <= i,
                n == count_where(views.take(i as int), p),
        {
            proof {
                lemma_count_step(views, i as int, p);
            }
            if self.models[i].action == PlanAction::Build {
                n = n + 1;
            }
        }
        n
    }

    /// Verify that the plan still matches a freshly compiled workspace.
    pub fn staleness(&self, compilation: &Compilation) -> (r: Option<String>)
        ensures
            r.deep_view() == staleness_of(
                self.deep_view().models,
                compilation.deep_view().models,
            ),
    {
        let ghost views = self.models.deep_view();
        let ghost p = is_stale(compilation.deep_view().models);
        proof {
            lemma_first_ends(views, p);
        }
        for i in 0..self.models.len()
            invariant
                views == self.models.deep_view(),
                p == is_stale(compilation.deep_view().models),
                first_where(views, p) == first_where(views.skip(i as int), p),
        {
            proof {
                lemma_first_step(views, i as int, p);
            }
            let planned: &PlannedModel = &self.models[i];
            assert(planned.deep_view() == views[i as int]);
            match compilation.model(planned.id.as_str()) {
                None => {
                    return Some(cat3("model `", planned.id.as_str(), "` no longer exists"));
                },
                Some(model) => {
                    if !same(model.version.hash.as_str(), planned.desired_version.as_str()) {
                        return Some(
                            cat3(
                                "model `",
                                planned.id.as_str(),
                                "` changed since the plan was created",
                            ),
                        );
                    }
                },
            }
        }
        proof {
            lemma_first_ends(views, p);
        }
        None
    }
}

/// A plan that is not stale names only models that exist at the very version
/// the plan desired.
pub proof fn law_fresh_plan_matches_the_workspace(
    planned: Seq<PlannedModelView>,
    models: Seq<CompiledModelView>,
    i: int,
)
    requires
        staleness_of(planned, models) is None,
        0 <= i < planned.len(),
    ensures
        model_named(models, planned[i].id) matches Some(model) && model.version.hash
            == planned[i].desired_version,
{
    crate::seqs::lemma_first_found(planned, is_stale(models));
    assert(!is_stale(models)(planned[i]));
}

/// The text before the first note in parentheses.
pub open spec fn before_note(s: Seq<char>) -> Seq<char>
    decreases s.len(),
{
    if s.len() == 0 {
        s
    } else if s.len() >= 2 && s[0] == ' ' && s[1] == '(' {
        Seq::empty()
    } else {
        seq![s[0]] + before_note(s.drop_first())
    }
}

fn without_note(s: &str) -> (r: String)
    ensures
        r@ == before_note(s@),
{
    let chars: Vec<char> = chars_of(s);
    let mut i: usize = 0;
    assert(s@.skip(0) =~= s@);
    assert(s@.take(0) + before_note(s@.skip(0)) =~= before_note(s@));
    while i < chars.len() && !(i + 1 < chars.len() && chars[i] == ' ' && chars[i + 1] == '(')
        invariant
            chars@ == s@,
            i <= chars@.len(),
            s@.take(i as int) + before_note(s@.skip(i as int)) == before_note(s@),
        decreases chars@.len() - i,
    {
        let ghost rest = s@.skip(i as int);
        assert(rest.drop_first() =~= s@.skip(i as int + 1));
        assert(rest[0] == s@[i as int]);
        assert(rest.len() >= 2 ==> rest[1] == s@[i as int + 1]);
        assert(before_note(rest) == seq![rest[0]] + before_note(s@.skip(i as int + 1)));
        assert(s@.take(i as int + 1) + before_note(s@.skip(i as int + 1)) =~= s@.take(i as int)
            + before_note(rest));
        i = i + 1;
    }
    proof {
        let rest = s@.skip(i as int);
        if i < s@.len() {
            assert(rest[0] == s@[i as int] && rest[1] == s@[i as int + 1]);
        }
        assert(before_note(rest) =~= Seq::<char>::empty());
        assert(s@.subrange(0, i as int) =~= before_note(s@));
    }
    text_of(chars.as_slice(), 0, i)
}

/// Reports a dependency whose recorded version differs, or which is new.
pub open spec fn moved_dependency(recorded: Seq<(Seq<char>, Seq<char>)>) -> spec_fn(
    (Seq<char>, Seq<char>),
) -> Seq<Seq<char>> {
    |entry: (Seq<char>, Seq<char>)|
        match named(recorded, entry.0) {
            Some(was) => if was != entry.1 {
                seq![entry.0]
            } else {
                Seq::empty()
            },
            None => seq![entry.0 + " (new dependency)"@],
        }
}

/// Reports a recorded dependency that is gone.
pub open spec fn dropped_dependency(desired: Seq<(Seq<char>, Seq<char>)>) -> spec_fn(
    (Seq<char>, Seq<char>),
) -> Seq<Seq<char>> {
    |entry: (Seq<char>, Seq<char>)|
        if has_name(desired, entry.0) {
            Seq::empty()
        } else {
            seq![entry.0 + " (removed)"@]
        }
}

/// The dependencies that moved between a recorded and a desired version.
pub open spec fn moved_dependencies(
    recorded: Seq<(Seq<char>, Seq<char>)>,
    desired: Seq<(Seq<char>, Seq<char>)>,
) -> Seq<Seq<char>> {
    gather(desired, moved_dependency(recorded)) + gather(recorded, dropped_dependency(desired))
}

/// Why a dependency hash changed, in terms of which dependency's version
/// moved.
pub open spec fn dependency_reason(
    model: CompiledModelView,
    current: MaterializedRecordView,
) -> PlanReasonView {
    match current.detail {
        None => plain(
            ReasonKind::DependencyChange,
            "upstream version changed (recorded before dependency detail was tracked)"@,
        ),
        Some(detail) => {
            let changed = moved_dependencies(
                detail.dependencies,
                model.version_detail.dependencies,
            );
            if changed.len() == 0 {
                plain(ReasonKind::DependencyChange, "upstream version inputs changed"@)
            } else {
                regarding(
                    ReasonKind::DependencyChange,
                    "upstream version changed: "@ + join_text(changed, ", "@),
                    before_note(changed[0]),
                )
            }
        },
    }
}

fn moved_names(recorded: &NameMap<String>, desired: &NameMap<String>) -> (r: Vec<String>)
    ensures
        r.deep_view() == gather(desired.deep_view(), moved_dependency(recorded.deep_view())),
{
    let ghost views = desired.deep_view();
    let ghost f = moved_dependency(recorded.deep_view());
    proof {
        lemma_gather_ends(views, f);
    }
    let mut r: Vec<String> = none_of();
    let n: usize = desired.len();
    for i in 0..n
        invariant
            n == views.len(),
            views == desired.deep_view(),
            f == moved_dependency(recorded.deep_view()),
            r.deep_view() == gather(views.take(i as int), f),
    {
        proof {
            lemma_gather_step(views, i as int, f);
        }
        let ghost before = r.deep_view();
        let name: &String = desired.key_at(i);
        let now: &String = desired.value_at(i);
        match recorded.get(name.as_str()) {
            Some(was) => {
                if !same(was.as_str(), now.as_str()) {
                    put(&mut r, name.clone());
                }
            },
            None => put(&mut r, cat2(name.as_str(), " (new dependency)")),
        }
        assert(r.deep_view() =~= before + f(views[i as int]));
    }
    r
}

fn dropped_names(recorded: &NameMap<String>, desired: &NameMap<String>) -> (r: Vec<String>)
    ensures
        r.deep_view() == gather(recorded.deep_view(), dropped_dependency(desired.deep_view())),
{
    let ghost views = recorded.deep_view();
    let ghost f = dropped_dependency(desired.deep_view());
    proof {
        lemma_gather_ends(views, f);
    }
    let mut r: Vec<String> = none_of();
    let n: usize = recorded.len();
    for i in 0..n
        invariant
            n == views.len(),
            views == recorded.deep_view(),
            f == dropped_dependency(desired.deep_view()),
            r.deep_view() == gather(views.take(i as int), f),
    {
        proof {
            lemma_gather_step(views, i as int, f);
        }
        let ghost before = r.deep_view();
        let name: &String = recorded.key_at(i);
        if !desired.contains_key(name.as_str()) {
            put(&mut r, cat2(name.as_str(), " (removed)"));
        }
        assert(r.deep_view() =~= before + f(views[i as int]));
    }
    r
}

/// Explain a changed dependency hash in terms of which dependency's version
/// input moved, using the detail recorded at materialisation time.
pub fn dependency_diff_reason(model: &CompiledModel, current: &MaterializedRecord) -> (r:
    PlanReason)
    ensures
        r.deep_view() == dependency_reason(model.deep_view(), current.deep_view()),
{
    match &current.detail {
        None => PlanReason::simple(
            ReasonKind::DependencyChange,
            "upstream version changed (recorded before dependency detail was tracked)".to_owned(),
        ),
        Some(detail) => {
            let desired: &NameMap<String> = &model.version_detail.dependencies;
            let mut changed: Vec<String> = moved_names(&detail.dependencies, desired);
            put_all(&mut changed, dropped_names(&detail.dependencies, desired));
            assert(changed.deep_view().len() == changed@.len());
            if changed.len() == 0 {
                PlanReason::simple(
                    ReasonKind::DependencyChange,
                    "upstream version inputs changed".to_owned(),
                )
            } else {
                let list: &[String] = changed.as_slice();
                assert(list.deep_view() =~= changed.deep_view());
                assert(changed.deep_view()[0] == changed@[0]@);
                PlanReason::about(
                    ReasonKind::DependencyChange,
                    cat2("upstream version changed: ", join(list, ", ").as_str()),
                    without_note(changed[0].as_str()),
                )
            }
        },
    }
}

/// A source state for display: its recognisable prefix.
pub open spec fn state_text(state: Seq<char>) -> Seq<char> {
    if state.len() == 0 {
        "unobserved"@
    } else {
        short_text(state, 20)
    }
}

/// Source states can be long hashes; show a recognisable prefix.
fn short_state(state: &str) -> (r: String)
    ensures
        r@ == state_text(state@),
{
    if state.is_empty() {
        "unobserved".to_owned()
    } else {
        short(state, 20)
    }
}

/// Reports a source whose state moved, or which was first observed.
pub open spec fn moved_source(recorded: Seq<(Seq<char>, Seq<char>)>) -> spec_fn(
    (Seq<char>, Seq<char>),
) -> Seq<PlanReasonView> {
    |entry: (Seq<char>, Seq<char>)|
        match named(recorded, entry.0) {
            Some(was) => if was != entry.1 {
                seq![
                    regarding(
                        ReasonKind::SourceChange,
                        "source "@ + entry.0 + " changed ("@ + state_text(was) + " → "@
                            + state_text(entry.1) + ")"@,
                        entry.0,
                    ),
                ]
            } else {
                Seq::empty()
            },
            None => seq![
                regarding(
                    ReasonKind::SourceChange,
                    "source "@ + entry.0 + " first observed ("@ + state_text(entry.1) + ")"@,
                    entry.0,
                ),
            ],
        }
}

/// Reports a recorded source that is gone.
pub open spec fn dropped_source(desired: Seq<(Seq<char>, Seq<char>)>) -> spec_fn(
    (Seq<char>, Seq<char>),
) -> Seq<PlanReasonView> {
    |entry: (Seq<char>, Seq<char>)|
        if has_name(desired, entry.0) {
            Seq::empty()
        } else {
            seq![
                regarding(
                    ReasonKind::SourceChange,
                    "source "@ + entry.0 + " removed"@,
                    entry.0,
                ),
            ]
        }
}

/// One reason per source whose state moved since materialisation.
pub open spec fn source_reasons(
    model: CompiledModelView,
    current: MaterializedRecordView,
) -> Seq<PlanReasonView> {
    match current.detail {
        None => seq![
            plain(
                ReasonKind::SourceChange,
                "a source state changed (recorded before source detail was tracked)"@,
            ),
        ],
        Some(detail) => {
            let desired = model.version_detail.sources;
            let found = gather(desired, moved_source(detail.sources)) + gather(
                detail.sources,
                dropped_source(desired),
            );
            if found.len() == 0 {
                seq![plain(ReasonKind::SourceChange, "source states changed"@)]
            } else {
                found
            }
        },
    }
}

fn moved_sources(recorded: &NameMap<String>, desired: &NameMap<String>) -> (r: Vec<PlanReason>)
    ensures
        r.deep_view() == gather(desired.deep_view(), moved_source(recorded.deep_view())),
{
    let ghost views = desired.deep_view();
    let ghost f = moved_source(recorded.deep_view());
    proof {
        lemma_gather_ends(views, f);
    }
    let mut r: Vec<PlanReason> = none_of();
    let n: usize = desired.len();
    for i in 0..n
        invariant
            n == views.len(),
            views == desired.deep_view(),
            f == moved_source(recorded.deep_view()),
            r.deep_view() == gather(views.take(i as int), f),
    {
        proof {
            lemma_gather_step(views, i as int, f);
        }
        let ghost before = r.deep_view();
        let name: &String = desired.key_at(i);
        let now: &String = desired.value_at(i);
        match recorded.get(name.as_str()) {
            Some(was) => {
                if !same(was.as_str(), now.as_str()) {
                    let detail: String = cat7(
                        "source ",
                        name.as_str(),
                        " changed (",
                        short_state(was.as_str()).as_str(),
                        " → ",
                        short_state(now.as_str()).as_str(),
                        ")",
                    );
                    put(&mut r, PlanReason::about(ReasonKind::SourceChange, detail, name.clone()));
                }
            },
            None => {
                let detail: String = cat5(
                    "source ",
                    name.as_str(),
                    " first observed (",
                    short_state(now.as_str()).as_str(),
                    ")",
                );
                put(&mut r, PlanReason::about(ReasonKind::SourceChange, detail, name.clone()));
            },
        }
        assert(r.deep_view() =~= before + f(views[i as int]));
    }
    r
}

fn dropped_sources(recorded: &NameMap<String>, desired: &NameMap<String>) -> (r: Vec<PlanReason>)
    ensures
        r.deep_view() == gather(recorded.deep_view(), dropped_source(desired.deep_view())),
{
    let ghost views = recorded.deep_view();
    let ghost f = dropped_source(desired.deep_view());
    proof {
        lemma_gather_ends(views, f);
    }
    let mut r: Vec<PlanReason> = none_of();
    let n: usize = recorded.len();
    for i in 0..n
        invariant
            n == views.len(),
            views == recorded.deep_view(),
            f == dropped_source(desired.deep_view()),
            r.deep_view() == gather(views.take(i as int), f),
    {
        proof {
            lemma_gather_step(views, i as int, f);
        }
        let ghost before = r.deep_view();
        let name: &String = recorded.key_at(i);
        if !desired.contains_key(name.as_str()) {
            let detail: String = cat3("source ", name.as_str(), " removed");
            put(&mut r, PlanReason::about(ReasonKind::SourceChange, detail, name.clone()));
        }
        assert(r.deep_view() =~= before + f(views[i as int]));
    }
    r
}

/// One reason per source whose observed state moved since materialisation.
pub fn source_diff_reasons(model: &CompiledModel, current: &MaterializedRecord) -> (r: Vec<
    PlanReason,
>)
    ensures
        r.deep_view() == source_reasons(model.deep_view(), current.deep_view()),
{
    match &current.detail {
        None => one_of(
            PlanReason::simple(
                ReasonKind::SourceChange,
                "a source state changed (recorded before source detail was tracked)".to_owned(),
            ),
        ),
        Some(detail) => {
            let desired: &NameMap<String> = &model.version_detail.sources;
            let mut found: Vec<PlanReason> = moved_sources(&detail.sources, desired);
            put_all(&mut found, dropped_sources(&detail.sources, desired));
            assert(found.deep_view().len() == found@.len());
            if found.len() == 0 {
                one_of(
                    PlanReason::simple(
                        ReasonKind::SourceChange,
                        "source states changed".to_owned(),
                    ),
                )
            } else {
                found
            }
        },
    }
}

/// `reason` where something changed, nothing where not.
pub open spec fn when(
    changed: bool,
    kind: ReasonKind,
    detail: Seq<char>,
) -> Seq<PlanReasonView> {
    if changed {
        seq![plain(kind, detail)]
    } else {
        Seq::empty()
    }
}

fn note(reasons: &mut Vec<PlanReason>, changed: bool, kind: ReasonKind, detail: &str)
    ensures
        final(reasons).deep_view() == old(reasons).deep_view() + when(changed, kind, detail@),
{
    let ghost before = reasons.deep_view();
    if changed {
        put(reasons, PlanReason::simple(kind, detail.to_owned()));
    }
    assert(reasons.deep_view() =~= before + when(changed, kind, detail@));
}

/// One reason per component in which a model's desired version differs from
/// the recorded one.
pub open spec fn version_reasons(
    model: CompiledModelView,
    current: MaterializedRecordView,
) -> Seq<PlanReasonView> {
    let was = current.version;
    let now = model.version;
    when(
        was.sql_hash != now.sql_hash,
        ReasonKind::SqlSemanticChange,
        "SQL semantics changed"@,
    ) + when(
        was.config_hash != now.config_hash,
        ReasonKind::ConfigChange,
        "configuration changed"@,
    ) + when(
        was.contract_hash != now.contract_hash,
        ReasonKind::ContractChange,
        "contract or assertions changed"@,
    ) + (if was.dependency_hash != now.dependency_hash {
        seq![dependency_reason(model, current)]
    } else {
        Seq::empty()
    }) + (if was.source_state_hash != now.source_state_hash {
        source_reasons(model, current)
    } else {
        Seq::empty()
    }) + when(
        was.target_hash != now.target_hash,
        ReasonKind::TargetChange,
        "physical target changed (was "@ + current.target + ", now "@ + relation_text(model.target)
            + ")"@,
    ) + when(
        was.compiler_version != now.compiler_version,
        ReasonKind::CompilerSemanticsChange,
        "compiler semantics changed"@,
    )
}

/// Compare a model's desired version against the recorded materialisation and
/// produce one reason per differing component. Shared by planning and by
/// explanations, so that both describe change identically.
pub fn diff_reasons(model: &CompiledModel, current: &MaterializedRecord) -> (reasons: Vec<
    PlanReason,
>)
    ensures
        reasons.deep_view() == version_reasons(model.deep_view(), current.deep_view()),
{
    let was = &current.version;
    let now = &model.version;
    let mut reasons: Vec<PlanReason> = none_of();
    note(
        &mut reasons,
        !same(was.sql_hash.as_str(), now.sql_hash.as_str()),
        ReasonKind::SqlSemanticChange,
        "SQL semantics changed",
    );
    note(
        &mut reasons,
        !same(was.config_hash.as_str(), now.config_hash.as_str()),
        ReasonKind::ConfigChange,
        "configuration changed",
    );
    note(
        &mut reasons,
        !same(was.contract_hash.as_str(), now.contract_hash.as_str()),
        ReasonKind::ContractChange,
        "contract or assertions changed",
    );
    let ghost so_far = reasons.deep_view();
    if !same(was.dependency_hash.as_str(), now.dependency_hash.as_str()) {
        put(&mut reasons, dependency_diff_reason(model, current));
        assert(reasons.deep_view() =~= so_far + seq![
            dependency_reason(model.deep_view(), current.deep_view()),
        ]);
    } else {
        assert(reasons.deep_view() =~= so_far + Seq::<PlanReasonView>::empty());
    }
    let ghost so_far = reasons.deep_view();
    if !same(was.source_state_hash.as_str(), now.source_state_hash.as_str()) {
        put_all(&mut reasons, source_diff_reasons(model, current));
    } else {
        assert(reasons.deep_view() =~= so_far + Seq::<PlanReasonView>::empty());
    }
    let moved: String = cat5(
        "physical target changed (was ",
        current.target.as_str(),
        ", now ",
        model.target.display().as_str(),
        ")",
    );
    note(
        &mut reasons,
        !same(was.target_hash.as_str(), now.target_hash.as_str()),
        ReasonKind::TargetChange,
        moved.as_str(),
    );
    note(
        &mut reasons,
        !same(was.compiler_version.as_str(), now.compiler_version.as_str()),
        ReasonKind::CompilerSemanticsChange,
        "compiler semantics changed",
    );
    proof {
        let c = current.deep_view();
        let m = model.deep_view();
        assert(Seq::<PlanReasonView>::empty() + when(
            c.version.sql_hash != m.version.sql_hash,
            ReasonKind::SqlSemanticChange,
            "SQL semantics changed"@,
        ) =~= when(
            c.version.sql_hash != m.version.sql_hash,
            ReasonKind::SqlSemanticChange,
            "SQL semantics changed"@,
        ));
    }
    reasons
}

/// Versions that agree in every component give no reason to rebuild.
pub proof fn law_equal_components_give_no_reason(
    model: CompiledModelView,
    current: MaterializedRecordView,
)
    requires
        current.version.sql_hash == model.version.sql_hash,
        current.version.config_hash == model.version.config_hash,
        current.version.contract_hash == model.version.contract_hash,
        current.version.dependency_hash == model.version.dependency_hash,
        current.version.source_state_hash == model.version.source_state_hash,
        current.version.target_hash == model.version.target_hash,
        current.version.compiler_version == model.version.compiler_version,
    ensures
        version_reasons(model, current).len() == 0,
{
}

/// What the warehouse and the state store report of a model.
#[derive(Clone, Debug, PartialEq, Eq)]
pub struct ModelObservation {
    /// Whether the target relation exists.
    pub exists: bool,
    /// The materialisation recorded for the target environment.
    pub current: Option<MaterializedRecord>,
    /// Every materialisation recorded at the desired version, whatever its
    /// environment.
    pub same_version: Vec<MaterializedRecord>,
    /// The target's physical identity right now, where it can be proved.
    pub output_identity: Option<String>,
    /// The target's columns right now and how the desired schema changes them,
    /// where they could be read.
    pub schema: Option<SchemaObservation>,
    /// The last successful time-window watermark.
    pub watermark: Option<String>,
}

/// The contents of a [`ModelObservation`].
pub struct ModelObservationView {
    pub exists: bool,
    pub current: Option<MaterializedRecordView>,
    pub same_version: Seq<MaterializedRecordView>,
    pub output_identity: Option<Seq<char>>,
    pub schema: Option<SchemaObservationView>,
    pub watermark: Option<Seq<char>>,
}

impl DeepView for ModelObservation {
    type V = ModelObservationView;

    open spec fn deep_view(&self) -> ModelObservationView {
        ModelObservationView {
            exists: self.exists,
            current: self.current.deep_view(),
            same_version: self.same_version.deep_view(),
            output_identity: self.output_identity.deep_view(),
            schema: self.schema.deep_view(),
            watermark: self.watermark.deep_view(),
        }
    }
}

impl DeepClone for ModelObservation {
    fn deep_clone(&self) -> (copy: Self) {
        ModelObservation {
            exists: self.exists,
            current: self.current.deep_clone(),
            same_version: self.same_version.deep_clone(),
            output_identity: self.output_identity.deep_clone(),
            schema: self.schema.deep_clone(),
            watermark: self.watermark.deep_clone(),
        }
    }
}

/// The columns of a relation in place, and how a desired schema changes them.
#[derive(Clone, Debug, PartialEq, Eq)]
pub struct SchemaObservation {
    pub columns: Vec<SchemaColumn>,
    pub safety: SchemaChangeSafety,
}

/// The contents of a [`SchemaObservation`].
pub struct SchemaObservationView {
    pub columns: Seq<SchemaColumnView>,
    pub safety: SchemaChangeSafety,
}

impl DeepView for SchemaObservation {
    type V = SchemaObservationView;

    open spec fn deep_view(&self) -> SchemaObservationView {
        SchemaObservationView {
            columns: self.columns.deep_view(),
            safety: self.safety,
        }
    }
}

impl DeepClone for SchemaObservation {
    fn deep_clone(&self) -> (copy: Self) {
        SchemaObservation {
            columns: self.columns.deep_clone(),
            safety: self.safety,
        }
    }
}

/// A model of which nothing is known.
pub open spec fn unobserved_model() -> ModelObservationView {
    ModelObservationView {
        exists: false,
        current: None,
        same_version: Seq::empty(),
        output_identity: None,
        schema: None,
        watermark: None,
    }
}

/// What the warehouse and the state store report of a seed.
#[derive(Clone, Debug, PartialEq, Eq)]
pub struct SeedObservation {
    /// Whether the seed's relation exists.
    pub exists: bool,
    /// The load recorded for the target environment.
    pub current: Option<SeedRecord>,
}

/// The contents of a [`SeedObservation`].
pub struct SeedObservationView {
    pub exists: bool,
    pub current: Option<SeedRecordView>,
}

impl DeepView for SeedObservation {
    type V = SeedObservationView;

    open spec fn deep_view(&self) -> SeedObservationView {
        SeedObservationView {
            exists: self.exists,
            current: self.current.deep_view(),
        }
    }
}

impl DeepClone for SeedObservation {
    fn deep_clone(&self) -> (copy: Self) {
        SeedObservation {
            exists: self.exists,
            current: self.current.deep_clone(),
        }
    }
}

/// Everything a plan is decided from that the workspace itself does not hold.
#[derive(Clone, Debug, PartialEq, Eq)]
pub struct Observations {
    /// By model name.
    pub models: NameMap<ModelObservation>,
    /// By seed name.
    pub seeds: NameMap<SeedObservation>,
}

/// The contents of a [`Observations`].
pub struct ObservationsView {
    pub models: Seq<(Seq<char>, ModelObservationView)>,
    pub seeds: Seq<(Seq<char>, SeedObservationView)>,
}

impl DeepView for Observations {
    type V = ObservationsView;

    open spec fn deep_view(&self) -> ObservationsView {
        ObservationsView {
            models: self.models.deep_view(),
            seeds: self.seeds.deep_view(),
        }
    }
}

impl DeepClone for Observations {
    fn deep_clone(&self) -> (copy: Self) {
        Observations {
            models: self.models.deep_clone(),
            seeds: self.seeds.deep_clone(),
        }
    }
}

/// Decides plans for one adapter, with or without a state store.
#[derive(Clone, Debug, PartialEq, Eq)]
pub struct Planner {
    /// The adapter's name.
    pub adapter: String,
    /// Whether there is a state store to compare against.
    pub has_state: bool,
}

/// The contents of a [`Planner`].
pub struct PlannerView {
    pub adapter: Seq<char>,
    pub has_state: bool,
}

impl DeepView for Planner {
    type V = PlannerView;

    open spec fn deep_view(&self) -> PlannerView {
        PlannerView {
            adapter: self.adapter@,
            has_state: self.has_state,
        }
    }
}

impl DeepClone for Planner {
    fn deep_clone(&self) -> (copy: Self) {
        Planner {
            adapter: self.adapter.deep_clone(),
            has_state: self.has_state,
        }
    }
}

/// What is done about a seed: its content hash and target are its version.
pub open spec fn seed_decision(
    has_state: bool,
    seed: CompiledSeedView,
    target: Seq<char>,
    exists: bool,
    current: Option<SeedRecordView>,
    force: bool,
) -> (PlanAction, Seq<PlanReasonView>) {
    if force {
        (PlanAction::Build, seq![plain(ReasonKind::Forced, "reload forced by --force"@)])
    } else if !exists {
        (
            PlanAction::Build,
            seq![
                plain(
                    ReasonKind::MissingRelation,
                    "seed relation "@ + target + " does not exist"@,
                ),
            ],
        )
    } else {
        match current {
            Some(record) => if record.content_hash == seed.content_hash && record.target
                == target {
                (PlanAction::Skip, seq![plain(ReasonKind::Unchanged, "seed content unchanged"@)])
            } else {
                (
                    PlanAction::Build,
                    seq![
                        plain(
                            ReasonKind::SourceChange,
                            "seed "@ + seed.name + " content changed"@,
                        ),
                    ],
                )
            },
            None => (
                PlanAction::Build,
                seq![
                    plain(
                        ReasonKind::UnknownState,
                        if has_state {
                            "no seed load recorded for this environment"@
                        } else {
                            "no state store; cannot compare against a recorded load"@
                        },
                    ),
                ],
            ),
        }
    }
}

/// Picks the materialisations of other environments.
pub open spec fn if_elsewhere(environment: Option<Seq<char>>) -> spec_fn(
    MaterializedRecordView,
) -> Seq<MaterializedRecordView> {
    |record: MaterializedRecordView|
        if record.environment != environment {
            seq![record]
        } else {
            Seq::empty()
        }
}

/// Picks the materialisations of one relation by one adapter.
pub open spec fn if_same_relation(target: Seq<char>, adapter: Seq<char>) -> spec_fn(
    MaterializedRecordView,
) -> Seq<MaterializedRecordView> {
    |record: MaterializedRecordView|
        if record.target == target && record.adapter == Some(adapter) {
            seq![record]
        } else {
            Seq::empty()
        }
}

/// Picks a materialisation whose recorded physical identity is the live one.
pub open spec fn still_live(live: Option<Seq<char>>) -> spec_fn(MaterializedRecordView) -> bool {
    |record: MaterializedRecordView|
        record.output_identity is Some && record.output_identity == live
}

/// How an environment is called in explanations.
pub open spec fn environment_text(environment: Option<Seq<char>>) -> Seq<char> {
    match environment {
        Some(name) => name,
        None => "the default environment"@,
    }
}

/// What is done about a model that nothing is recorded for in this
/// environment. The exact version elsewhere is reused only where its record
/// names this very relation, was written by this adapter, and its strong
/// output identity is still what the relation reports.
pub open spec fn unrecorded_decision(
    planner: PlannerView,
    model: CompiledModelView,
    observed: ModelObservationView,
    environment: Option<Seq<char>>,
) -> (PlanAction, Seq<PlanReasonView>) {
    let target = relation_text(model.target);
    let elsewhere = gather(observed.same_version, if_elsewhere(environment));
    let candidates = gather(elsewhere, if_same_relation(target, planner.adapter));
    let live = observed.output_identity;
    if planner.has_state && candidates.len() > 0 {
        match first_where(candidates, still_live(live)) {
            Some(hit) => (
                PlanAction::Cached,
                seq![
                    regarding(
                        ReasonKind::CacheReuse,
                        "exact desired version exists in "@ + environment_text(hit.environment)
                            + " on the same relation (run "@ + short_text(hit.run_id, 12) + ")"@,
                        environment_text(hit.environment),
                    ),
                ],
            ),
            None => {
                let source = environment_text(candidates[0].environment);
                (
                    PlanAction::Build,
                    seq![
                        regarding(
                            ReasonKind::CacheMiss,
                            match live {
                                Some(now) => "identical version recorded in "@ + source + " but "@
                                    + target + " now reports output `"@ + now
                                    + "` — another writer owns the relation; rebuilding"@,
                                None => "identical version recorded in "@ + source + " but "@
                                    + target + " has no verifiable output identity; rebuilding"@,
                            },
                            source,
                        ),
                    ],
                )
            },
        }
    } else if planner.has_state && elsewhere.len() > 0 {
        let hit = elsewhere[0];
        let source = environment_text(hit.environment);
        (
            PlanAction::Build,
            seq![
                regarding(
                    ReasonKind::CacheMiss,
                    if hit.adapter != Some(planner.adapter) {
                        "identical version exists in "@ + source
                            + " but was materialised by adapter `"@ + (match hit.adapter {
                            Some(name) => name,
                            None => "<unrecorded>"@,
                        }) + "` (this run uses `"@ + planner.adapter
                            + "`); metadata-only, rebuilding"@
                    } else {
                        "identical version exists in "@ + source + " at "@ + hit.target
                            + " but that relation is not the one here ("@ + target
                            + "); metadata-only, rebuilding"@
                    },
                    source,
                ),
            ],
        )
    } else if planner.has_state {
        (
            PlanAction::Build,
            seq![plain(ReasonKind::UnknownState, "no version recorded for this environment"@)],
        )
    } else {
        (
            PlanAction::Build,
            seq![
                plain(
                    ReasonKind::StateUnavailable,
                    "no state store; cannot compare against a recorded version"@,
                ),
            ],
        )
    }
}

/// What is done about a model that has a recorded materialisation. A record of
/// another adapter, of no known adapter, or whose output is no longer in place
/// vouches for nothing.
pub open spec fn recorded_decision(
    adapter: Seq<char>,
    model: CompiledModelView,
    current: MaterializedRecordView,
    live: Option<Seq<char>>,
) -> (PlanAction, Seq<PlanReasonView>) {
    match current.adapter {
        None => (
            PlanAction::Build,
            seq![
                plain(
                    ReasonKind::AdapterChange,
                    "materialisation was recorded before adapter identity was tracked; cannot verify it was produced by `"@
                        + adapter + "`"@,
                ),
            ],
        ),
        Some(recorded) => if recorded != adapter {
            (
                PlanAction::Build,
                seq![
                    plain(
                        ReasonKind::AdapterChange,
                        "materialised by adapter `"@ + recorded + "`; current adapter is `"@
                            + adapter + "`"@,
                    ),
                ],
            )
        } else if current.output_identity is Some && current.output_identity != live {
            (
                PlanAction::Build,
                seq![
                    plain(
                        ReasonKind::OutputDrift,
                        relation_text(model.target) + " no longer holds the recorded output"@ + (
                        match live {
                            Some(now) => " (now `"@ + now + "`)"@,
                            None => Seq::empty(),
                        }) + " — another writer owns the relation"@,
                    ),
                ],
            )
        } else if current.version.hash == model.version.hash {
            (
                PlanAction::Skip,
                seq![
                    plain(ReasonKind::Unchanged, "SQL, config, contract and inputs unchanged"@),
                ],
            )
        } else {
            let reasons = version_reasons(model, current);
            (
                PlanAction::Build,
                if reasons.len() == 0 {
                    seq![
                        plain(
                            ReasonKind::UnknownState,
                            "version hash changed but no component differs"@,
                        ),
                    ]
                } else {
                    reasons
                },
            )
        },
    }
}

/// What is done about a model.
pub open spec fn model_decision(
    planner: PlannerView,
    model: CompiledModelView,
    observed: ModelObservationView,
    environment: Option<Seq<char>>,
    force: bool,
) -> (PlanAction, Seq<PlanReasonView>) {
    if force {
        (PlanAction::Build, seq![plain(ReasonKind::Forced, "rebuild forced by --force"@)])
    } else if !observed.exists {
        (
            PlanAction::Build,
            seq![
                plain(
                    ReasonKind::MissingRelation,
                    "target relation "@ + relation_text(model.target) + " does not exist"@,
                ),
            ],
        )
    } else {
        match observed.current {
            None => unrecorded_decision(planner, model, observed, environment),
            Some(current) => recorded_decision(
                planner.adapter,
                model,
                current,
                observed.output_identity,
            ),
        }
    }
}

/// A decision made of one reason.
fn decided(action: PlanAction, reason: PlanReason) -> (r: (PlanAction, Vec<PlanReason>))
    ensures
        r.0 == action,
        r.1.deep_view() == seq![reason.deep_view()],
{
    (action, one_of(reason))
}

fn environment_name(environment: &Option<String>) -> (r: String)
    ensures
        r@ == environment_text(environment.deep_view()),
{
    match environment {
        Some(name) => name.clone(),
        None => "the default environment".to_owned(),
    }
}

fn records_elsewhere(records: &Vec<MaterializedRecord>, environment: &Option<String>) -> (r: Vec<
    MaterializedRecord,
>)
    ensures
        r.deep_view() == gather(records.deep_view(), if_elsewhere(environment.deep_view())),
{
    let ghost views = records.deep_view();
    let ghost f = if_elsewhere(environment.deep_view());
    proof {
        lemma_gather_ends(views, f);
    }
    let mut r: Vec<MaterializedRecord> = none_of();
    for i in 0..records.len()
        invariant
            views == records.deep_view(),
            f == if_elsewhere(environment.deep_view()),
            r.deep_view() == gather(views.take(i as int), f),
    {
        proof {
            lemma_gather_step(views, i as int, f);
        }
        let ghost before = r.deep_view();
        assert(views[i as int] == records@[i as int].deep_view());
        if !same_option(&records[i].environment, environment) {
            put(&mut r, records[i].deep_clone());
        }
        assert(r.deep_view() =~= before + f(views[i as int]));
    }
    r
}

fn records_of_relation(records: &Vec<MaterializedRecord>, target: &str, adapter: &str) -> (r: Vec<
    MaterializedRecord,
>)
    ensures
        r.deep_view() == gather(records.deep_view(), if_same_relation(target@, adapter@)),
{
    let ghost views = records.deep_view();
    let ghost f = if_same_relation(target@, adapter@);
    proof {
        lemma_gather_ends(views, f);
    }
    let mut r: Vec<MaterializedRecord> = none_of();
    for i in 0..records.len()
        invariant
            views == records.deep_view(),
            f == if_same_relation(target@, adapter@),
            r.deep_view() == gather(views.take(i as int), f),
    {
        proof {
            lemma_gather_step(views, i as int, f);
        }
        let ghost before = r.deep_view();
        assert(views[i as int] == records@[i as int].deep_view());
        let by_adapter: bool = match &records[i].adapter {
            Some(name) => same(name.as_str(), adapter),
            None => false,
        };
        if by_adapter && same(records[i].target.as_str(), target) {
            put(&mut r, records[i].deep_clone());
        }
        assert(r.deep_view() =~= before + f(views[i as int]));
    }
    r
}

fn find_live<'a>(records: &'a Vec<MaterializedRecord>, live: &Option<String>) -> (r: Option<
    &'a MaterializedRecord,
>)
    ensures
        r.deep_view() == first_where(records.deep_view(), still_live(live.deep_view())),
{
    let ghost views = records.deep_view();
    let ghost p = still_live(live.deep_view());
    proof {
        lemma_first_ends(views, p);
    }
    for i in 0..records.len()
        invariant
            views == records.deep_view(),
            p == still_live(live.deep_view()),
            first_where(views, p) == first_where(views.skip(i as int), p),
    {
        proof {
            lemma_first_step(views, i as int, p);
        }
        assert(views[i as int] == records@[i as int].deep_view());
        if records[i].output_identity.is_some() && same_option(&records[i].output_identity, live) {
            return Some(&records[i]);
        }
    }
    proof {
        lemma_first_ends(views, p);
    }
    None
}

impl Planner {
    pub fn new(adapter: String, has_state: bool) -> (planner: Self)
        ensures
            planner.adapter@ == adapter@,
            planner.has_state == has_state,
    {
        Planner { adapter, has_state }
    }

    /// The seed analogue of [`Planner::decide`]: content hash and target are
    /// the seed's version.
    pub fn decide_seed(
        &self,
        seed: &CompiledSeed,
        target: &str,
        exists: bool,
        current: Option<&SeedRecord>,
        options: &PlanOptions,
    ) -> (r: (PlanAction, Vec<PlanReason>))
        ensures
            (r.0, r.1.deep_view()) == seed_decision(
                self.has_state,
                seed.deep_view(),
                target@,
                exists,
                current.deep_view(),
                options.force,
            ),
    {
        if options.force {
            return decided(
                PlanAction::Build,
                PlanReason::simple(ReasonKind::Forced, "reload forced by --force".to_owned()),
            );
        }
        if !exists {
            return decided(
                PlanAction::Build,
                PlanReason::simple(
                    ReasonKind::MissingRelation,
                    cat3("seed relation ", target, " does not exist"),
                ),
            );
        }
        match current {
            Some(record) => {
                if same(record.content_hash.as_str(), seed.content_hash.as_str()) && same(
                    record.target.as_str(),
                    target,
                ) {
                    decided(
                        PlanAction::Skip,
                        PlanReason::simple(
                            ReasonKind::Unchanged,
                            "seed content unchanged".to_owned(),
                        ),
                    )
                } else {
                    decided(
                        PlanAction::Build,
                        PlanReason::simple(
                            ReasonKind::SourceChange,
                            cat3("seed ", seed.name.as_str(), " content changed"),
                        ),
                    )
                }
            },
            None => decided(
                PlanAction::Build,
                PlanReason::simple(
                    ReasonKind::UnknownState,
                    if self.has_state {
                        "no seed load recorded for this environment".to_owned()
                    } else {
                        "no state store; cannot compare against a recorded load".to_owned()
                    },
                ),
            ),
        }
    }

    fn decide_unrecorded(
        &self,
        model: &CompiledModel,
        observed: &ModelObservation,
        environment: &Option<String>,
    ) -> (r: (PlanAction, Vec<PlanReason>))
        ensures
            (r.0, r.1.deep_view()) == unrecorded_decision(
                self.deep_view(),
                model.deep_view(),
                observed.deep_view(),
                environment.deep_view(),
            ),
    {
        if !self.has_state {
            return decided(
                PlanAction::Build,
                PlanReason::simple(
                    ReasonKind::StateUnavailable,
                    "no state store; cannot compare against a recorded version".to_owned(),
                ),
            );
        }
        let target: String = model.target.display();
        let elsewhere: Vec<MaterializedRecord> = records_elsewhere(
            &observed.same_version,
            environment,
        );
        let candidates: Vec<MaterializedRecord> = records_of_relation(
            &elsewhere,
            target.as_str(),
            self.adapter.as_str(),
        );
        assert(elsewhere.deep_view().len() == elsewhere@.len());
        assert(candidates.deep_view().len() == candidates@.len());
        if candidates.len() > 0 {
            if let Some(hit) = find_live(&candidates, &observed.output_identity) {
                let source: String = environment_name(&hit.environment);
                let detail: String = cat5(
                    "exact desired version exists in ",
                    source.as_str(),
                    " on the same relation (run ",
                    short(hit.run_id.as_str(), 12).as_str(),
                    ")",
                );
                return decided(
                    PlanAction::Cached,
                    PlanReason::about(ReasonKind::CacheReuse, detail, source),
                );
            }
            assert(candidates.deep_view()[0] == candidates@[0].deep_view());
            let source: String = environment_name(&candidates[0].environment);
            let detail: String = match &observed.output_identity {
                Some(now) => cat7(
                    "identical version recorded in ",
                    source.as_str(),
                    " but ",
                    target.as_str(),
                    " now reports output `",
                    now.as_str(),
                    "` — another writer owns the relation; rebuilding",
                ),
                None => cat5(
                    "identical version recorded in ",
                    source.as_str(),
                    " but ",
                    target.as_str(),
                    " has no verifiable output identity; rebuilding",
                ),
            };
            return decided(
                PlanAction::Build,
                PlanReason::about(ReasonKind::CacheMiss, detail, source),
            );
        }
        if elsewhere.len() > 0 {
            assert(elsewhere.deep_view()[0] == elsewhere@[0].deep_view());
            let hit: &MaterializedRecord = &elsewhere[0];
            let source: String = environment_name(&hit.environment);
            let by_us: bool = match &hit.adapter {
                Some(name) => same(name.as_str(), self.adapter.as_str()),
                None => false,
            };
            let detail: String = if !by_us {
                let writer: String = match &hit.adapter {
                    Some(name) => name.clone(),
                    None => "<unrecorded>".to_owned(),
                };
                cat7(
                    "identical version exists in ",
                    source.as_str(),
                    " but was materialised by adapter `",
                    writer.as_str(),
                    "` (this run uses `",
                    self.adapter.as_str(),
                    "`); metadata-only, rebuilding",
                )
            } else {
                cat7(
                    "identical version exists in ",
                    source.as_str(),
                    " at ",
                    hit.target.as_str(),
                    " but that relation is not the one here (",
                    target.as_str(),
                    "); metadata-only, rebuilding",
                )
            };
            return decided(
                PlanAction::Build,
                PlanReason::about(ReasonKind::CacheMiss, detail, source),
            );
        }
        decided(
            PlanAction::Build,
            PlanReason::simple(
                ReasonKind::UnknownState,
                "no version recorded for this environment".to_owned(),
            ),
        )
    }

    fn decide_recorded(
        &self,
        model: &CompiledModel,
        current: &MaterializedRecord,
        live: &Option<String>,
    ) -> (r: (PlanAction, Vec<PlanReason>))
        ensures
            (r.0, r.1.deep_view()) == recorded_decision(
                self.adapter@,
                model.deep_view(),
                current.deep_view(),
                live.deep_view(),
            ),
    {
        match &current.adapter {
            None => {
                return decided(
                    PlanAction::Build,
                    PlanReason::simple(
                        ReasonKind::AdapterChange,
                        cat3(
                            "materialisation was recorded before adapter identity was tracked; cannot verify it was produced by `",
                            self.adapter.as_str(),
                            "`",
                        ),
                    ),
                );
            },
            Some(recorded) => {
                if !same(recorded.as_str(), self.adapter.as_str()) {
                    return decided(
                        PlanAction::Build,
                        PlanReason::simple(
                            ReasonKind::AdapterChange,
                            cat5(
                                "materialised by adapter `",
                                recorded.as_str(),
                                "`; current adapter is `",
                                self.adapter.as_str(),
                                "`",
                            ),
                        ),
                    );
                }
            },
        }
        if current.output_identity.is_some() && !same_option(&current.output_identity, live) {
            let now: String = match live {
                Some(now) => cat3(" (now `", now.as_str(), "`)"),
                None => String::new(),
            };
            return decided(
                PlanAction::Build,
                PlanReason::simple(
                    ReasonKind::OutputDrift,
                    cat4(
                        model.target.display().as_str(),
                        " no longer holds the recorded output",
                        now.as_str(),
                        " — another writer owns the relation",
                    ),
                ),
            );
        }
        if same(current.version.hash.as_str(), model.version.hash.as_str()) {
            return decided(
                PlanAction::Skip,
                PlanReason::simple(
                    ReasonKind::Unchanged,
                    "SQL, config, contract and inputs unchanged".to_owned(),
                ),
            );
        }
        let reasons: Vec<PlanReason> = diff_reasons(model, current);
        assert(reasons.deep_view().len() == reasons@.len());
        if reasons.len() == 0 {
            decided(
                PlanAction::Build,
                PlanReason::simple(
                    ReasonKind::UnknownState,
                    "version hash changed but no component differs".to_owned(),
                ),
            )
        } else {
            (PlanAction::Build, reasons)
        }
    }

    /// Decides what is done about a model, and why.
    pub fn decide(
        &self,
        model: &CompiledModel,
        observed: &ModelObservation,
        environment: &Option<String>,
        options: &PlanOptions,
    ) -> (r: (PlanAction, Vec<PlanReason>))
        ensures
            (r.0, r.1.deep_view()) == model_decision(
                self.deep_view(),
                model.deep_view(),
                observed.deep_view(),
                environment.deep_view(),
                options.force,
            ),
    {
        if options.force {
            return decided(
                PlanAction::Build,
                PlanReason::simple(ReasonKind::Forced, "rebuild forced by --force".to_owned()),
            );
        }
        if !observed.exists {
            return decided(
                PlanAction::Build,
                PlanReason::simple(
                    ReasonKind::MissingRelation,
                    cat3(
                        "target relation ",
                        model.target.display().as_str(),
                        " does not exist",
                    ),
                ),
            );
        }
        match &observed.current {
            None => self.decide_unrecorded(model, observed, environment),
            Some(current) => self.decide_recorded(model, current, &observed.output_identity),
        }
    }
}

/// Every decision comes with at least one reason.
pub proof fn law_decisions_carry_reasons(
    planner: PlannerView,
    model: CompiledModelView,
    observed: ModelObservationView,
    environment: Option<Seq<char>>,
    force: bool,
)
    ensures
        model_decision(planner, model, observed, environment, force).1.len() > 0,
{
}

/// A model is skipped only where its relation exists, this adapter recorded
/// the desired version for the environment, and no recorded output identity
/// contradicts what is in place; and force always builds.
pub proof fn law_skip_needs_proof(
    planner: PlannerView,
    model: CompiledModelView,
    observed: ModelObservationView,
    environment: Option<Seq<char>>,
    force: bool,
)
    ensures
        force ==> model_decision(planner, model, observed, environment, force).0
            == PlanAction::Build,
        model_decision(planner, model, observed, environment, force).0 == PlanAction::Skip ==> {
            &&& observed.exists
            &&& observed.current matches Some(current) && current.version.hash
                == model.version.hash && current.adapter == Some(planner.adapter) && (
            current.output_identity is Some ==> current.output_identity
                == observed.output_identity)
        },
{
}

/// A version is reused from another environment only where a record at that
/// version names this very relation, was written by this adapter, and its
/// output identity is the one in place.
pub proof fn law_reuse_needs_a_live_output(
    planner: PlannerView,
    model: CompiledModelView,
    observed: ModelObservationView,
    environment: Option<Seq<char>>,
    force: bool,
)
    ensures
        model_decision(planner, model, observed, environment, force).0 == PlanAction::Cached ==> {
            &&& observed.exists && observed.current is None && planner.has_state
            &&& exists|i: int|
                0 <= i < observed.same_version.len() && {
                    let record = #[trigger] observed.same_version[i];
                    record.environment != environment && record.target == relation_text(
                        model.target,
                    ) && record.adapter == Some(planner.adapter) && record.output_identity is Some
                        && record.output_identity == observed.output_identity
                }
        },
{
    if model_decision(planner, model, observed, environment, force).0 == PlanAction::Cached {
        let target = relation_text(model.target);
        let elsewhere = gather(observed.same_version, if_elsewhere(environment));
        let candidates = gather(elsewhere, if_same_relation(target, planner.adapter));
        let live = observed.output_identity;
        crate::seqs::lemma_first_found(candidates, still_live(live));
        let hit = first_where(candidates, still_live(live))->0;
        crate::seqs::lemma_gather_member(elsewhere, if_same_relation(target, planner.adapter), hit);
        let i = choose|i: int|
            0 <= i < elsewhere.len() && if_same_relation(target, planner.adapter)(
                #[trigger] elsewhere[i],
            ).contains(hit);
        assert(elsewhere[i] == hit);
        assert(elsewhere.contains(hit));
        crate::seqs::lemma_gather_member(observed.same_version, if_elsewhere(environment), hit);
        let j = choose|j: int|
            0 <= j < observed.same_version.len() && if_elsewhere(environment)(
                #[trigger] observed.same_version[j],
            ).contains(hit);
        assert(observed.same_version[j] == hit);
    }
}

/// Picks the column of a given name.
pub open spec fn is_schema_column(name: Seq<char>) -> spec_fn(SchemaColumnView) -> bool {
    |column: SchemaColumnView| column.name == name
}

fn find_schema_column<'a>(columns: &'a Vec<SchemaColumn>, name: &str) -> (r: Option<
    &'a SchemaColumn,
>)
    ensures
        r.deep_view() == last_where(columns.deep_view(), is_schema_column(name@)),
{
    let ghost views = columns.deep_view();
    let ghost p = is_schema_column(name@);
    proof {
        lemma_last_ends(views, p);
    }
    let mut found: Option<&SchemaColumn> = None;
    for i in 0..columns.len()
        invariant
            views == columns.deep_view(),
            p == is_schema_column(name@),
            found.deep_view() == last_where(views.take(i as int), p),
    {
        proof {
            lemma_last_step(views, i as int, p);
        }
        if same(columns[i].name.as_str(), name) {
            found = Some(&columns[i]);
        }
    }
    proof {
        lemma_last_ends(views, p);
    }
    found
}

/// Describes a desired column that is new or has another type.
pub open spec fn column_piece(current: Seq<SchemaColumnView>) -> spec_fn(SchemaColumnView) -> Seq<
    Seq<char>,
> {
    |column: SchemaColumnView|
        match last_where(current, is_schema_column(column.name)) {
            None => seq!["added "@ + column.name],
            Some(was) => if was.data_type != column.data_type {
                seq![
                    column.name + ": "@ + type_label(was.data_type) + " → "@ + type_label(
                        column.data_type,
                    ),
                ]
            } else {
                Seq::empty()
            },
        }
}

/// Describes a column in place that is no longer desired.
pub open spec fn removed_piece(desired: Seq<SchemaColumnView>) -> spec_fn(SchemaColumnView) -> Seq<
    Seq<char>,
> {
    |column: SchemaColumnView|
        if last_where(desired, is_schema_column(column.name)) is None {
            seq!["removed "@ + column.name]
        } else {
            Seq::empty()
        }
}

/// A classified schema change in one line.
pub open spec fn schema_change_text(
    desired: Seq<SchemaColumnView>,
    current: Seq<SchemaColumnView>,
    safety: SchemaChangeSafety,
) -> Seq<char> {
    let pieces = gather(desired, column_piece(current)) + gather(current, removed_piece(desired));
    let label = match safety {
        SchemaChangeSafety::FullRebuildRequired => "schema change requires a full rebuild"@,
        SchemaChangeSafety::Error => "incompatible schema change"@,
        _ => "output schema changed"@,
    };
    if pieces.len() == 0 {
        label
    } else {
        label + ": "@ + join_text(pieces, ", "@)
    }
}

fn column_pieces(desired: &Vec<SchemaColumn>, current: &Vec<SchemaColumn>) -> (r: Vec<String>)
    ensures
        r.deep_view() == gather(desired.deep_view(), column_piece(current.deep_view())),
{
    let ghost views = desired.deep_view();
    let ghost f = column_piece(current.deep_view());
    proof {
        lemma_gather_ends(views, f);
    }
    let mut r: Vec<String> = none_of();
    for i in 0..desired.len()
        invariant
            views == desired.deep_view(),
            f == column_piece(current.deep_view()),
            r.deep_view() == gather(views.take(i as int), f),
    {
        proof {
            lemma_gather_step(views, i as int, f);
        }
        let ghost before = r.deep_view();
        let column: &SchemaColumn = &desired[i];
        assert(views[i as int] == column.deep_view());
        match find_schema_column(current, column.name.as_str()) {
            None => put(&mut r, cat2("added ", column.name.as_str())),
            Some(was) => {
                if !was.data_type.same_as(&column.data_type) {
                    put(
                        &mut r,
                        cat5(
                            column.name.as_str(),
                            ": ",
                            was.data_type.label().as_str(),
                            " → ",
                            column.data_type.label().as_str(),
                        ),
                    );
                }
            },
        }
        assert(r.deep_view() =~= before + f(views[i as int]));
    }
    r
}

fn removed_pieces(desired: &Vec<SchemaColumn>, current: &Vec<SchemaColumn>) -> (r: Vec<String>)
    ensures
        r.deep_view() == gather(current.deep_view(), removed_piece(desired.deep_view())),
{
    let ghost views = current.deep_view();
    let ghost f = removed_piece(desired.deep_view());
    proof {
        lemma_gather_ends(views, f);
    }
    let mut r: Vec<String> = none_of();
    for i in 0..current.len()
        invariant
            views == current.deep_view(),
            f == removed_piece(desired.deep_view()),
            r.deep_view() == gather(views.take(i as int), f),
    {
        proof {
            lemma_gather_step(views, i as int, f);
        }
        let ghost before = r.deep_view();
        let column: &SchemaColumn = &current[i];
        assert(views[i as int] == column.deep_view());
        if find_schema_column(desired, column.name.as_str()).is_none() {
            put(&mut r, cat2("removed ", column.name.as_str()));
        }
        assert(r.deep_view() =~= before + f(views[i as int]));
    }
    r
}

/// A compact description of a classified schema change.
pub fn schema_change_detail(
    desired: &Vec<SchemaColumn>,
    current: &Vec<SchemaColumn>,
    safety: SchemaChangeSafety,
) -> (r: String)
    ensures
        r@ == schema_change_text(desired.deep_view(), current.deep_view(), safety),
{
    let mut pieces: Vec<String> = column_pieces(desired, current);
    put_all(&mut pieces, removed_pieces(desired, current));
    let label: &str = match safety {
        SchemaChangeSafety::FullRebuildRequired => "schema change requires a full rebuild",
        SchemaChangeSafety::Error => "incompatible schema change",
        _ => "output schema changed",
    };
    assert(pieces.deep_view().len() == pieces@.len());
    if pieces.len() == 0 {
        label.to_owned()
    } else {
        let list: &[String] = pieces.as_slice();
        assert(list.deep_view() =~= pieces.deep_view());
        cat3(label, ": ", join(list, ", ").as_str())
    }
}

} // verus!
