//! Planning: turn a compilation and a selection into inspectable work.
//!
//! A plan is always dependency-closed: every model that the selection needs
//! is planned, even when it was not matched directly. Excluded models are
//! never pulled back in by closure: a model whose dependency is excluded plans
//! against the existing materialisation, and the plan records a warning.

use vstd::prelude::*;

use crate::error::{EngineError, EngineErrorView};
use crate::graph::{closure_of, dependency_closure_excluding, deps_of, is_nearest, requiring_model};
use crate::names::{named, with_name, NameMap, NameSet};
use crate::plan::{
    model_decision, plain, regarding, schema_change_detail, schema_change_text, seed_decision,
    unobserved_model, Membership, ModelObservation, ModelObservationView, Observations,
    ObservationsView, Plan, PlanAction, PlanOptions, PlanReason, PlanReasonView, PlanSelection,
    PlanSelectionView, PlanView, PlannedModel, PlannedModelView, PlannedSeed, PlannedSeedView,
    PlannedTest, PlannedTestView, Planner, PlannerView, ReasonKind,
};
use crate::seqs::{
    first_where, gather, lemma_first_ends, lemma_first_step, lemma_gather_ends, lemma_gather_step,
};
use crate::source_state::{
    backing_seed, schema_for, schema_in_force, seed_behind, seed_place, seed_relation, Places,
    PlacesView,
};
use crate::state::{MaterializedRecord, MaterializedRecordView, SeedRecord};
use crate::text::{
    cat2, cat3, cat5, cat6, join, join_text, none_of, one_of, put, put_all, same, same_option,
    DeepClone,
};
use crate::util::{fresh_id, is_timestamp, is_uuid_text, now_rfc3339, sha256_hex, sha256_text};
use crate::workspace::{
    model_named, relation_text, source_text, strategy_columns, strategy_text, Compilation,
    CompilationView, CompiledModel, CompiledModelView, CompiledSeed, CompiledSeedView,
    CompiledTest, CompiledTestView, IncrementalStrategy, IncrementalStrategyView, Materialization,
    SchemaChangeSafety, SourceId, SourceIdView,
};

verus! {

/// Why a change provider marked a model changed.
#[derive(Clone, Debug, PartialEq, Eq)]
pub struct ChangeCause {
    pub detail: String,
    pub path: String,
}

/// The contents of a [`ChangeCause`].
pub struct ChangeCauseView {
    pub detail: Seq<char>,
    pub path: Seq<char>,
}

impl DeepView for ChangeCause {
    type V = ChangeCauseView;

    open spec fn deep_view(&self) -> ChangeCauseView {
        ChangeCauseView {
            detail: self.detail@,
            path: self.path@,
        }
    }
}

impl DeepClone for ChangeCause {
    fn deep_clone(&self) -> (copy: Self) {
        ChangeCause {
            detail: self.detail.deep_clone(),
            path: self.path.deep_clone(),
        }
    }
}

/// How a selection came to hold a model.
#[derive(Clone, Debug, PartialEq, Eq)]
pub struct SelectionMember {
    /// A term matched it directly.
    pub direct: bool,
    /// The terms whose expansion reached it.
    pub expanded: Vec<String>,
}

/// The contents of a [`SelectionMember`].
pub struct SelectionMemberView {
    pub direct: bool,
    pub expanded: Seq<Seq<char>>,
}

impl DeepView for SelectionMember {
    type V = SelectionMemberView;

    open spec fn deep_view(&self) -> SelectionMemberView {
        SelectionMemberView {
            direct: self.direct,
            expanded: self.expanded.deep_view(),
        }
    }
}

impl DeepClone for SelectionMember {
    fn deep_clone(&self) -> (copy: Self) {
        SelectionMember {
            direct: self.direct,
            expanded: self.expanded.deep_clone(),
        }
    }
}

/// A resolved selection of models.
#[derive(Clone, Debug, PartialEq, Eq)]
pub struct Selection {
    /// By model name.
    pub members: NameMap<SelectionMember>,
    pub excluded: Vec<String>,
    /// What marked a model changed, by model name.
    pub causes: NameMap<Vec<ChangeCause>>,
    /// The include terms as written.
    pub terms: Vec<String>,
    /// The exclude terms as written.
    pub exclude_terms: Vec<String>,
}

/// The contents of a [`Selection`].
pub struct SelectionView {
    pub members: Seq<(Seq<char>, SelectionMemberView)>,
    pub excluded: Seq<Seq<char>>,
    pub causes: Seq<(Seq<char>, Seq<ChangeCauseView>)>,
    pub terms: Seq<Seq<char>>,
    pub exclude_terms: Seq<Seq<char>>,
}

impl DeepView for Selection {
    type V = SelectionView;

    open spec fn deep_view(&self) -> SelectionView {
        SelectionView {
            members: self.members.deep_view(),
            excluded: self.excluded.deep_view(),
            causes: self.causes.deep_view(),
            terms: self.terms.deep_view(),
            exclude_terms: self.exclude_terms.deep_view(),
        }
    }
}

impl DeepClone for Selection {
    fn deep_clone(&self) -> (copy: Self) {
        Selection {
            members: self.members.deep_clone(),
            excluded: self.excluded.deep_clone(),
            causes: self.causes.deep_clone(),
            terms: self.terms.deep_clone(),
            exclude_terms: self.exclude_terms.deep_clone(),
        }
    }
}

/// A directly matched member.
pub open spec fn direct_member() -> SelectionMemberView {
    SelectionMemberView { direct: true, expanded: Seq::empty() }
}

/// The members of a selection that names models outright.
pub open spec fn direct_members(ids: Seq<Seq<char>>) -> Seq<(Seq<char>, SelectionMemberView)>
    decreases ids.len(),
{
    if ids.len() == 0 {
        Seq::empty()
    } else {
        with_name(direct_members(ids.drop_last()), ids.last(), direct_member())
    }
}

/// The selection that names models outright.
pub open spec fn selection_of(ids: Seq<Seq<char>>) -> SelectionView {
    SelectionView {
        members: direct_members(ids),
        excluded: Seq::empty(),
        causes: Seq::empty(),
        terms: ids,
        exclude_terms: Seq::empty(),
    }
}

impl Selection {
    /// The selection of exactly these models.
    pub fn of(ids: &Vec<String>) -> (selection: Self)
        ensures
            selection.deep_view() == selection_of(ids.deep_view()),
    {
        let mut members: NameMap<SelectionMember> = NameMap::new();
        let ghost views = ids.deep_view();
        assert(views.take(0) =~= Seq::<Seq<char>>::empty());
        for i in 0..ids.len()
            invariant
                views == ids.deep_view(),
                members.deep_view() == direct_members(views.take(i as int)),
        {
            assert(views.take(i as int + 1).drop_last() =~= views.take(i as int));
            let member: SelectionMember = SelectionMember { direct: true, expanded: none_of() };
            members.insert(ids[i].clone(), member);
        }
        assert(views.take(views.len() as int) =~= views);
        Selection {
            members,
            excluded: none_of(),
            causes: NameMap::new(),
            terms: ids.deep_clone(),
            exclude_terms: none_of(),
        }
    }
}

/// Everything a plan depends on.
pub struct PlanSetting {
    pub planner: PlannerView,
    pub compilation: CompilationView,
    pub selection: SelectionView,
    pub environment: Option<Seq<char>>,
    pub force: bool,
    pub observed: ObservationsView,
}

/// The names of a selection's members.
pub open spec fn member_names(members: Seq<(Seq<char>, SelectionMemberView)>) -> Seq<Seq<char>> {
    Seq::new(members.len(), |i: int| members[i].0)
}

/// The excluded names, in order.
pub open spec fn excluded_names(excluded: Seq<Seq<char>>) -> Seq<Seq<char>> {
    crate::names::with_members(Seq::empty(), excluded)
}

impl PlanSetting {
    /// Compilation errors block every decision.
    pub open spec fn blocked(self) -> bool {
        !self.compilation.ok
    }

    pub open spec fn models(self) -> Seq<CompiledModelView> {
        self.compilation.models
    }

    pub open spec fn excluded(self) -> Seq<Seq<char>> {
        excluded_names(self.selection.excluded)
    }

    /// The models that are planned: the selection, closed under dependencies.
    pub open spec fn planned(self) -> Seq<Seq<char>> {
        closure_of(self.models(), member_names(self.selection.members), self.excluded())
    }

    /// What is observed of a model.
    pub open spec fn seen(self, id: Seq<char>) -> ModelObservationView {
        match named(self.observed.models, id) {
            Some(observation) => observation,
            None => unobserved_model(),
        }
    }

    /// The record that a model's version is compared against.
    pub open spec fn record(self, id: Seq<char>) -> Option<MaterializedRecordView> {
        if self.blocked() || !self.planner.has_state {
            None
        } else {
            self.seen(id).current
        }
    }

    /// What is observed of a model, as far as a state store vouches for it.
    pub open spec fn trusted(self, id: Seq<char>) -> ModelObservationView {
        ModelObservationView { current: self.record(id), ..self.seen(id) }
    }

    /// Where unqualified names resolve.
    pub open spec fn places(self) -> PlacesView {
        PlacesView {
            catalog: self.compilation.defaults.catalog,
            schema: schema_in_force(self.compilation.defaults.schema, self.planner.adapter),
            adapter: self.planner.adapter,
        }
    }
}

/// Keeps a planned model that produces a relation. Ephemeral models are
/// inlined into their dependents and are never planned or executed.
pub open spec fn if_executable(s: PlanSetting) -> spec_fn(Seq<char>) -> Seq<Seq<char>> {
    |id: Seq<char>|
        if s.planned().contains(id) && model_named(s.models(), id) is Some && model_named(
            s.models(),
            id,
        )->0.config.materialization != Materialization::Ephemeral {
            seq![id]
        } else {
            Seq::empty()
        }
}

/// The models of the plan, dependencies first.
pub open spec fn plan_order(s: PlanSetting) -> Seq<Seq<char>> {
    gather(
        match s.compilation.topological_order {
            Some(order) => order,
            None => s.planned(),
        },
        if_executable(s),
    )
}

/// Keeps a dependency of `id` that was excluded although it is a relation.
pub open spec fn if_excluded(s: PlanSetting, id: Seq<char>) -> spec_fn(Seq<char>) -> Seq<
    (Seq<char>, Seq<char>),
> {
    |dep: Seq<char>|
        if s.excluded().contains(dep) && model_named(s.models(), dep) is Some && model_named(
            s.models(),
            dep,
        )->0.config.materialization != Materialization::Ephemeral {
            seq![(id, dep)]
        } else {
            Seq::empty()
        }
}

/// The excluded relations that a planned model reads.
pub open spec fn excluded_reads_of(s: PlanSetting) -> spec_fn(Seq<char>) -> Seq<
    (Seq<char>, Seq<char>),
> {
    |id: Seq<char>|
        match model_named(s.models(), id) {
            Some(model) => gather(model.model_dependencies, if_excluded(s, id)),
            None => Seq::empty(),
        }
}

/// Every planned model that reads an excluded relation, with that relation.
pub open spec fn excluded_reads(s: PlanSetting) -> Seq<(Seq<char>, Seq<char>)> {
    gather(s.planned(), excluded_reads_of(s))
}

/// Picks a read of an excluded relation that does not exist.
pub open spec fn never_materialised(s: PlanSetting) -> spec_fn((Seq<char>, Seq<char>)) -> bool {
    |pair: (Seq<char>, Seq<char>)| !s.blocked() && !s.seen(pair.1).exists
}

/// The complaint about a read of an excluded relation that does not exist.
pub open spec fn missing_text(s: PlanSetting, pair: (Seq<char>, Seq<char>)) -> Seq<char> {
    pair.0 + " depends on excluded model "@ + pair.1 + ", and "@ + relation_text(
        model_named(s.models(), pair.1)->0.target,
    ) + " has never been materialised"@
}

/// The warning about a read of an excluded relation.
pub open spec fn warning_text(pair: (Seq<char>, Seq<char>)) -> Seq<char> {
    pair.0 + " depends on excluded model "@ + pair.1
        + "; it will read the existing materialisation"@
}

/// The sources that a planned model reads.
pub open spec fn sources_of(s: PlanSetting) -> spec_fn(Seq<char>) -> Seq<SourceIdView> {
    |id: Seq<char>|
        match model_named(s.models(), id) {
            Some(model) => model.source_dependencies,
            None => Seq::empty(),
        }
}

/// Whether every model a test reads is planned.
pub open spec fn test_planned(s: PlanSetting, test: CompiledTestView) -> bool {
    forall|i: int| 0 <= i < test.targets.len() ==> s.planned().contains(#[trigger] test.targets[i])
}

/// The sources that a planned test reads.
pub open spec fn test_sources(s: PlanSetting) -> spec_fn(CompiledTestView) -> Seq<SourceIdView> {
    |test: CompiledTestView|
        if test_planned(s, test) {
            test.sources
        } else {
            Seq::empty()
        }
}

/// Every source the plan reads: through its models, ephemeral ones included
/// because their reads are inlined into dependents, and through its tests.
pub open spec fn plan_sources(s: PlanSetting) -> Seq<SourceIdView> {
    gather(s.planned(), sources_of(s)) + gather(s.compilation.tests, test_sources(s))
}

/// The seeds behind sources, by name.
pub open spec fn seeds_behind(s: PlanSetting, sources: Seq<SourceIdView>) -> Seq<
    (Seq<char>, CompiledSeedView),
>
    decreases sources.len(),
{
    if sources.len() == 0 {
        Seq::empty()
    } else {
        let before = seeds_behind(s, sources.drop_last());
        match backing_seed(sources.last(), s.compilation.seeds, s.places()) {
            Some(seed) => with_name(before, seed.name, seed),
            None => before,
        }
    }
}

/// A seed as planned.
pub open spec fn planned_seed(s: PlanSetting, seed: CompiledSeedView) -> PlannedSeedView {
    let places = s.places();
    let target = relation_text(
        seed_place(seed, places.catalog, places.schema, places.adapter),
    );
    let (exists, current) = match named(s.observed.seeds, seed.name) {
        Some(observation) => (
            observation.exists,
            if s.planner.has_state {
                observation.current
            } else {
                None
            },
        ),
        None => (false, None),
    };
    let (action, reasons) = if s.blocked() {
        (PlanAction::Unknown, Seq::<PlanReasonView>::empty())
    } else {
        seed_decision(s.planner.has_state, seed, target, exists, current, s.force)
    };
    PlannedSeedView {
        name: seed.name,
        target,
        path: seed.path,
        action,
        desired_version: seed.content_hash,
        reasons,
    }
}

/// The seeds of the plan, in name order.
pub open spec fn planned_seeds(s: PlanSetting) -> Seq<PlannedSeedView> {
    let needed = seeds_behind(s, plan_sources(s));
    Seq::new(needed.len(), |i: int| planned_seed(s, needed[i].1))
}

/// How a model entered the plan.
pub open spec fn membership_of(s: PlanSetting, id: Seq<char>) -> Membership {
    match named(s.selection.members, id) {
        Some(member) => if member.direct {
            Membership::Selected
        } else {
            Membership::Expanded
        },
        None => Membership::Dependency,
    }
}

/// The reason a change cause gives.
pub open spec fn cause_reason(cause: ChangeCauseView) -> PlanReasonView {
    regarding(ReasonKind::GitChange, "selected because "@ + cause.detail, cause.path)
}

/// The reason an expansion term gives.
pub open spec fn expansion_reason(term: Seq<char>) -> PlanReasonView {
    regarding(ReasonKind::SelectionExpansion, "selected by `"@ + term + "`"@, term)
}

/// Why a model is in the plan at all; `required_by` names the selected model
/// that pulls it in, where it is a mere dependency.
pub open spec fn entry_reasons(
    s: PlanSetting,
    id: Seq<char>,
    required_by: Option<Seq<char>>,
) -> Seq<PlanReasonView> {
    match membership_of(s, id) {
        Membership::Selected => match named(s.selection.causes, id) {
            Some(causes) => Seq::new(causes.len(), |i: int| cause_reason(causes[i])),
            None => Seq::empty(),
        },
        Membership::Expanded => {
            let terms = named(s.selection.members, id)->0.expanded;
            Seq::new(terms.len(), |i: int| expansion_reason(terms[i]))
        },
        Membership::Dependency => match required_by {
            Some(name) => seq![
                regarding(
                    ReasonKind::SelectedDependency,
                    "required by selected model "@ + name,
                    name,
                ),
            ],
            None => seq![plain(ReasonKind::SelectedDependency, "required by the selection"@)],
        },
    }
}

/// What is done about a model of the plan.
pub open spec fn decision_at(s: PlanSetting, id: Seq<char>) -> (PlanAction, Seq<PlanReasonView>) {
    if s.blocked() {
        (PlanAction::Unknown, Seq::empty())
    } else {
        model_decision(
            s.planner,
            model_named(s.models(), id)->0,
            s.trusted(id),
            s.environment,
            s.force,
        )
    }
}

/// Names an upstream that is built in this same plan.
pub open spec fn if_rebuilt(s: PlanSetting, ahead: Seq<Seq<char>>) -> spec_fn(Seq<char>) -> Seq<
    PlanReasonView,
> {
    |dep: Seq<char>|
        if ahead.contains(dep) && decision_at(s, dep).0 == PlanAction::Build {
            seq![
                regarding(
                    ReasonKind::UpstreamRebuild,
                    "upstream "@ + dep + " will rebuild in this plan"@,
                    dep,
                ),
            ]
        } else {
            Seq::empty()
        }
}

/// The code of an optional strategy.
pub open spec fn strategy_code(strategy: Option<IncrementalStrategyView>) -> Option<Seq<char>> {
    match strategy {
        Some(given) => Some(strategy_text(given)),
        None => None,
    }
}

/// The columns of an optional strategy, comma-joined; nothing where there are
/// none.
pub open spec fn strategy_key(strategy: Option<IncrementalStrategyView>) -> Option<Seq<char>> {
    match strategy {
        Some(given) => {
            let key = join_text(strategy_columns(given), ","@);
            if key.len() == 0 {
                None
            } else {
                Some(key)
            }
        },
        None => None,
    }
}

/// What a built incremental model's strategy asks for: whether it needs a full
/// rebuild, and why. Without a record there is nothing to add to.
pub open spec fn incremental_change(
    model: CompiledModelView,
    record: Option<MaterializedRecordView>,
) -> (bool, Seq<PlanReasonView>) {
    if model.config.materialization != Materialization::Incremental {
        (false, Seq::empty())
    } else {
        match record {
            None => (true, Seq::empty()),
            Some(current) => {
                let strategy = strategy_code(model.config.incremental);
                if current.incremental_strategy != strategy || current.incremental_key
                    != strategy_key(model.config.incremental) {
                    (
                        true,
                        seq![
                            plain(
                                ReasonKind::IncrementalChange,
                                if current.incremental_strategy is Some && strategy is Some
                                    && current.incremental_strategy != strategy {
                                    "incremental strategy changed ("@
                                        + current.incremental_strategy->0 + " → "@ + strategy->0
                                        + "); full rebuild"@
                                } else {
                                    "incremental strategy or key changed; full rebuild"@
                                },
                            ),
                        ],
                    )
                } else {
                    (false, Seq::empty())
                }
            },
        }
    }
}

/// What a built model's schema change asks for: whether it needs a full
/// rebuild, and why.
pub open spec fn schema_change(
    model: CompiledModelView,
    observed: ModelObservationView,
) -> (bool, Seq<PlanReasonView>) {
    if observed.exists && model.schema.known && observed.schema is Some
        && observed.schema->0.safety != SchemaChangeSafety::Safe {
        let safety = observed.schema->0.safety;
        (
            safety == SchemaChangeSafety::FullRebuildRequired || safety
                == SchemaChangeSafety::Error,
            seq![
                plain(
                    ReasonKind::SchemaChange,
                    schema_change_text(model.schema.columns, observed.schema->0.columns, safety),
                ),
            ],
        )
    } else {
        (false, Seq::empty())
    }
}

/// The names of sources.
pub open spec fn source_names(sources: Seq<SourceIdView>) -> Seq<Seq<char>> {
    Seq::new(sources.len(), |i: int| source_text(sources[i]))
}

/// A model as planned; `ahead` holds the models of the plan up to and
/// including it.
pub open spec fn planned_model(
    s: PlanSetting,
    id: Seq<char>,
    ahead: Seq<Seq<char>>,
    required_by: Option<Seq<char>>,
) -> PlannedModelView {
    let model = model_named(s.models(), id)->0;
    let (action, change) = decision_at(s, id);
    let builds = action == PlanAction::Build;
    let (strategy_rebuild, strategy_reasons) = if builds {
        incremental_change(model, s.record(id))
    } else {
        (false, Seq::empty())
    };
    let (schema_rebuild, schema_reasons) = if builds {
        schema_change(model, s.seen(id))
    } else {
        (false, Seq::empty())
    };
    let upstream = if builds {
        gather(model.model_dependencies, if_rebuilt(s, ahead))
    } else {
        Seq::empty()
    };
    PlannedModelView {
        id: model.id,
        target: relation_text(model.target),
        materialization: model.config.materialization.text(),
        action,
        reasons: entry_reasons(s, id, required_by) + change + upstream + strategy_reasons
            + schema_reasons,
        membership: membership_of(s, id),
        exists: !s.blocked() && s.seen(id).exists,
        incremental: strategy_code(model.config.incremental),
        full_rebuild: strategy_rebuild || schema_rebuild,
        watermark: if s.planner.has_state && model.config.incremental is Some
            && model.config.incremental->0 is TimeWindow {
            s.seen(id).watermark
        } else {
            None
        },
        desired_version: model.version.hash,
        current_version: match s.record(id) {
            Some(record) => Some(record.version.hash),
            None => None,
        },
        dependencies: model.model_dependencies,
        sources: source_names(model.source_dependencies),
        sql_hash: sha256_text(model.compiled_sql),
        compiled_sql: model.compiled_sql,
    }
}

/// Whether `required` names, for each model of the order that is a mere
/// dependency, the nearest selected model that pulls it in.
pub open spec fn explains(
    s: PlanSetting,
    order: Seq<Seq<char>>,
    required: Seq<Option<Seq<char>>>,
) -> bool {
    required.len() == order.len() && forall|i: int|
        0 <= i < order.len() && membership_of(s, order[i]) == Membership::Dependency ==> is_nearest(
            s.models(),
            order[i],
            member_names(s.selection.members),
            #[trigger] required[i],
        )
}

/// The models of the plan.
pub open spec fn planned_models(
    s: PlanSetting,
    order: Seq<Seq<char>>,
    required: Seq<Option<Seq<char>>>,
) -> Seq<PlannedModelView> {
    Seq::new(order.len(), |i: int| planned_model(s, order[i], order.take(i + 1), required[i]))
}

/// Keeps a test all of whose targets are planned.
pub open spec fn planned_test(s: PlanSetting) -> spec_fn(CompiledTestView) -> Seq<
    PlannedTestView,
> {
    |test: CompiledTestView|
        if test_planned(s, test) {
            seq![
                PlannedTestView {
                    id: test.id,
                    generated: test.generated,
                    targets: test.targets,
                    sources: source_names(test.sources),
                },
            ]
        } else {
            Seq::empty()
        }
}

/// Keeps a model of one membership.
pub open spec fn if_member(s: PlanSetting, kind: Membership) -> spec_fn(Seq<char>) -> Seq<
    Seq<char>,
> {
    |id: Seq<char>|
        if membership_of(s, id) == kind {
            seq![id]
        } else {
            Seq::empty()
        }
}

/// How the selection shaped the plan.
pub open spec fn selection_report(s: PlanSetting, order: Seq<Seq<char>>) -> PlanSelectionView {
    PlanSelectionView {
        terms: s.selection.terms,
        exclude: s.selection.exclude_terms,
        matched: gather(order, if_member(s, Membership::Selected)),
        expanded: gather(order, if_member(s, Membership::Expanded)),
        required: gather(order, if_member(s, Membership::Dependency)),
    }
}

/// Whether `plan` is the plan for a setting, whatever its identifier and time
/// of creation.
pub open spec fn is_plan(s: PlanSetting, plan: PlanView) -> bool {
    let order = plan_order(s);
    let reads = excluded_reads(s);
    exists|required: Seq<Option<Seq<char>>>| #[trigger]
        explains(s, order, required) && plan == (PlanView {
            id: plan.id,
            created_at: plan.created_at,
            environment: s.environment,
            adapter: s.planner.adapter,
            compiler_semantics_version: s.compilation.compiler_semantics_version,
            blocked: s.blocked(),
            selection: selection_report(s, order),
            git: None,
            warnings: Seq::new(reads.len(), |i: int| warning_text(reads[i])),
            seeds: planned_seeds(s),
            models: planned_models(s, order, required),
            tests: gather(s.compilation.tests, planned_test(s)),
            diagnostics: s.compilation.diagnostics,
        })
}

/// What plans are decided from, at run time.
struct Setting<'a> {
    planner: &'a Planner,
    compilation: &'a Compilation,
    selection: &'a Selection,
    environment: &'a Option<String>,
    force: bool,
    observed: &'a Observations,
    members: NameSet,
    excluded: NameSet,
    planned: NameSet,
    places: Places,
    unseen: ModelObservation,
}

impl Setting<'_> {
    spec fn spec(self) -> PlanSetting {
        PlanSetting {
            planner: self.planner.deep_view(),
            compilation: self.compilation.deep_view(),
            selection: self.selection.deep_view(),
            environment: self.environment.deep_view(),
            force: self.force,
            observed: self.observed.deep_view(),
        }
    }

    spec fn ok(self) -> bool {
        let s = self.spec();
        &&& self.members.deep_view() == member_names(s.selection.members)
        &&& self.excluded.deep_view() == s.excluded()
        &&& self.planned.deep_view() == s.planned()
        &&& self.places.deep_view() == s.places()
        &&& self.unseen.deep_view() == unobserved_model()
    }

    fn seen(&self, id: &str) -> (r: &ModelObservation)
        requires
            self.ok(),
        ensures
            r.deep_view() == self.spec().seen(id@),
    {
        match self.observed.models.get(id) {
            Some(observation) => observation,
            None => &self.unseen,
        }
    }

    fn executable(&self, id: &str) -> (r: bool)
        requires
            self.ok(),
        ensures
            r == (if_executable(self.spec())(id@) == seq![id@]),
            !r ==> if_executable(self.spec())(id@) == Seq::<Seq<char>>::empty(),
    {
        let r: bool = self.planned.contains(id) && match self.compilation.model(id) {
            Some(model) => model.config.materialization != Materialization::Ephemeral,
            None => false,
        };
        proof {
            if !r {
                assert(if_executable(self.spec())(id@).len() == 0);
                assert(seq![id@].len() == 1);
            }
        }
        r
    }

    fn order(&self) -> (r: Vec<String>)
        requires
            self.ok(),
        ensures
            r.deep_view() == plan_order(self.spec()),
    {
        let base: Vec<String> = match &self.compilation.topological_order {
            Some(order) => order.deep_clone(),
            None => self.planned.to_vec(),
        };
        let ghost views = base.deep_view();
        let ghost f = if_executable(self.spec());
        proof {
            lemma_gather_ends(views, f);
        }
        let mut r: Vec<String> = none_of();
        for i in 0..base.len()
            invariant
                views == base.deep_view(),
                f == if_executable(self.spec()),
                self.ok(),
                r.deep_view() == gather(views.take(i as int), f),
        {
            proof {
                lemma_gather_step(views, i as int, f);
            }
            let ghost before = r.deep_view();
            if self.executable(base[i].as_str()) {
                put(&mut r, base[i].clone());
            }
            assert(r.deep_view() =~= before + f(views[i as int]));
        }
        r
    }

    fn reads_excluded(&self, id: &str) -> (r: Vec<(String, String)>)
        requires
            self.ok(),
        ensures
            r.deep_view() == excluded_reads_of(self.spec())(id@),
    {
        let deps: Vec<String> = match self.compilation.model(id) {
            Some(model) => model.model_dependencies.deep_clone(),
            None => {
                return none_of();
            },
        };
        let ghost views = deps.deep_view();
        let ghost f = if_excluded(self.spec(), id@);
        proof {
            lemma_gather_ends(views, f);
        }
        let mut r: Vec<(String, String)> = none_of();
        for i in 0..deps.len()
            invariant
                views == deps.deep_view(),
                f == if_excluded(self.spec(), id@),
                self.ok(),
                r.deep_view() == gather(views.take(i as int), f),
        {
            proof {
                lemma_gather_step(views, i as int, f);
            }
            let ghost before = r.deep_view();
            let dep: &String = &deps[i];
            let relation: bool = self.excluded.contains(dep.as_str())
                && match self.compilation.model(dep.as_str()) {
                Some(model) => model.config.materialization != Materialization::Ephemeral,
                None => false,
            };
            if relation {
                put(&mut r, (id.to_owned(), dep.clone()));
            }
            assert(r.deep_view() =~= before + f(views[i as int]));
        }
        r
    }

    fn all_reads_excluded(&self) -> (r: Vec<(String, String)>)
        requires
            self.ok(),
        ensures
            r.deep_view() == excluded_reads(self.spec()),
    {
        let ids: Vec<String> = self.planned.to_vec();
        let ghost views = ids.deep_view();
        let ghost f = excluded_reads_of(self.spec());
        proof {
            lemma_gather_ends(views, f);
        }
        let mut r: Vec<(String, String)> = none_of();
        for i in 0..ids.len()
            invariant
                views == ids.deep_view(),
                f == excluded_reads_of(self.spec()),
                self.ok(),
                r.deep_view() == gather(views.take(i as int), f),
        {
            proof {
                lemma_gather_step(views, i as int, f);
            }
            let ghost before = r.deep_view();
            put_all(&mut r, self.reads_excluded(ids[i].as_str()));
            assert(r.deep_view() =~= before + f(views[i as int]));
        }
        r
    }

    fn find_missing<'b>(&self, reads: &'b Vec<(String, String)>) -> (r: Option<
        &'b (String, String),
    >)
        requires
            self.ok(),
        ensures
            r.deep_view() == first_where(reads.deep_view(), never_materialised(self.spec())),
    {
        let ghost views = reads.deep_view();
        let ghost p = never_materialised(self.spec());
        proof {
            lemma_first_ends(views, p);
        }
        for i in 0..reads.len()
            invariant
                views == reads.deep_view(),
                p == never_materialised(self.spec()),
                self.ok(),
                first_where(views, p) == first_where(views.skip(i as int), p),
        {
            proof {
                lemma_first_step(views, i as int, p);
            }
            let pair: &(String, String) = &reads[i];
            assert(views[i as int] == pair.deep_view());
            if self.compilation.ok && !self.seen(pair.1.as_str()).exists {
                return Some(pair);
            }
        }
        proof {
            lemma_first_ends(views, p);
        }
        None
    }

    fn warnings(&self, reads: &Vec<(String, String)>) -> (r: Vec<String>)
        ensures
            r.deep_view() == Seq::new(
                reads.deep_view().len(),
                |i: int| warning_text(reads.deep_view()[i]),
            ),
    {
        let mut r: Vec<String> = Vec::new();
        for i in 0..reads.len()
            invariant
                r@.len() == i,
                forall|j: int|
                    0 <= j < i ==> (#[trigger] r@[j])@ == warning_text(reads@[j].deep_view()),
        {
            let pair: &(String, String) = &reads[i];
            r.push(
                crate::text::cat4(
                    pair.0.as_str(),
                    " depends on excluded model ",
                    pair.1.as_str(),
                    "; it will read the existing materialisation",
                ),
            );
        }
        assert(r.deep_view() =~= Seq::new(
            reads.deep_view().len(),
            |i: int| warning_text(reads.deep_view()[i]),
        ));
        r
    }

    fn model_sources(&self) -> (r: Vec<SourceId>)
        requires
            self.ok(),
        ensures
            r.deep_view() == gather(self.spec().planned(), sources_of(self.spec())),
    {
        let ids: Vec<String> = self.planned.to_vec();
        let ghost views = ids.deep_view();
        let ghost f = sources_of(self.spec());
        proof {
            lemma_gather_ends(views, f);
        }
        let mut r: Vec<SourceId> = none_of();
        for i in 0..ids.len()
            invariant
                views == ids.deep_view(),
                f == sources_of(self.spec()),
                self.ok(),
                r.deep_view() == gather(views.take(i as int), f),
        {
            proof {
                lemma_gather_step(views, i as int, f);
            }
            let ghost before = r.deep_view();
            match self.compilation.model(ids[i].as_str()) {
                Some(model) => put_all(&mut r, model.source_dependencies.deep_clone()),
                None => {},
            }
            assert(r.deep_view() =~= before + f(views[i as int]));
        }
        r
    }

    fn plans_test(&self, test: &CompiledTest) -> (r: bool)
        requires
            self.ok(),
        ensures
            r == test_planned(self.spec(), test.deep_view()),
    {
        let ghost targets = test.targets.deep_view();
        for i in 0..test.targets.len()
            invariant
                self.ok(),
                targets == test.targets.deep_view(),
                forall|j: int|
                    0 <= j < i ==> self.spec().planned().contains(#[trigger] targets[j]),
        {
            if !self.planned.contains(test.targets[i].as_str()) {
                assert(!self.spec().planned().contains(test.deep_view().targets[i as int]));
                return false;
            }
        }
        true
    }

    fn all_test_sources(&self) -> (r: Vec<SourceId>)
        requires
            self.ok(),
        ensures
            r.deep_view() == gather(self.spec().compilation.tests, test_sources(self.spec())),
    {
        let tests: &Vec<CompiledTest> = &self.compilation.tests;
        let ghost views = tests.deep_view();
        let ghost f = test_sources(self.spec());
        proof {
            lemma_gather_ends(views, f);
        }
        let mut r: Vec<SourceId> = none_of();
        for i in 0..tests.len()
            invariant
                views == tests.deep_view(),
                f == test_sources(self.spec()),
                self.ok(),
                r.deep_view() == gather(views.take(i as int), f),
        {
            proof {
                lemma_gather_step(views, i as int, f);
            }
            let ghost before = r.deep_view();
            assert(views[i as int] == tests@[i as int].deep_view());
            if self.plans_test(&tests[i]) {
                put_all(&mut r, tests[i].sources.deep_clone());
            }
            assert(r.deep_view() =~= before + f(views[i as int]));
        }
        r
    }

    fn needed_seeds(&self) -> (r: NameMap<CompiledSeed>)
        requires
            self.ok(),
        ensures
            r.deep_view() == seeds_behind(self.spec(), plan_sources(self.spec())),
    {
        let mut sources: Vec<SourceId> = self.model_sources();
        put_all(&mut sources, self.all_test_sources());
        let ghost views = sources.deep_view();
        let mut r: NameMap<CompiledSeed> = NameMap::new();
        assert(views.take(0) =~= Seq::<SourceIdView>::empty());
        for i in 0..sources.len()
            invariant
                self.ok(),
                views == sources.deep_view(),
                r.deep_view() == seeds_behind(self.spec(), views.take(i as int)),
        {
            assert(views.take(i as int + 1).drop_last() =~= views.take(i as int));
            assert(views.take(i as int + 1).last() == sources@[i as int].deep_view());
            match seed_behind(&sources[i], &self.compilation.seeds, &self.places) {
                Some(seed) => r.insert(seed.name.clone(), seed.deep_clone()),
                None => {},
            }
        }
        assert(views.take(views.len() as int) =~= views);
        r
    }

    fn plan_seed(&self, seed: &CompiledSeed) -> (r: PlannedSeed)
        requires
            self.ok(),
        ensures
            r.deep_view() == planned_seed(self.spec(), seed.deep_view()),
    {
        let target: String = seed_relation(
            seed,
            crate::source_state::borrowed(&self.places.catalog),
            crate::source_state::borrowed(&self.places.schema),
            self.places.adapter.as_str(),
        ).display();
        let (action, reasons) = if !self.compilation.ok {
            (PlanAction::Unknown, none_of())
        } else {
            let options: PlanOptions = PlanOptions { force: self.force };
            match self.observed.seeds.get(seed.name.as_str()) {
                Some(observation) => {
                    let current: Option<&SeedRecord> = if self.planner.has_state {
                        observation.current.as_ref()
                    } else {
                        None
                    };
                    self.planner.decide_seed(
                        seed,
                        target.as_str(),
                        observation.exists,
                        current,
                        &options,
                    )
                },
                None => self.planner.decide_seed(seed, target.as_str(), false, None, &options),
            }
        };
        PlannedSeed {
            name: seed.name.clone(),
            target,
            path: seed.path.clone(),
            action,
            desired_version: seed.content_hash.clone(),
            reasons,
        }
    }

    fn seeds(&self) -> (r: Vec<PlannedSeed>)
        requires
            self.ok(),
        ensures
            r.deep_view() == planned_seeds(self.spec()),
    {
        let needed: NameMap<CompiledSeed> = self.needed_seeds();
        let n: usize = needed.len();
        let mut r: Vec<PlannedSeed> = Vec::new();
        for i in 0..n
            invariant
                self.ok(),
                n == needed.deep_view().len(),
                r@.len() == i,
                forall|j: int|
                    0 <= j < i ==> (#[trigger] r@[j]).deep_view() == planned_seed(
                        self.spec(),
                        needed.deep_view()[j].1,
                    ),
        {
            r.push(self.plan_seed(needed.value_at(i)));
        }
        assert(r.deep_view() =~= planned_seeds(self.spec()));
        r
    }

    fn membership(&self, id: &str) -> (r: Membership)
        requires
            self.ok(),
        ensures
            r == membership_of(self.spec(), id@),
    {
        match self.selection.members.get(id) {
            Some(member) => if member.direct {
                Membership::Selected
            } else {
                Membership::Expanded
            },
            None => Membership::Dependency,
        }
    }

    fn entry(&self, id: &str, required_by: &Option<String>) -> (r: Vec<PlanReason>)
        requires
            self.ok(),
        ensures
            r.deep_view() == entry_reasons(self.spec(), id@, required_by.deep_view()),
    {
        match self.membership(id) {
            Membership::Selected => match self.selection.causes.get(id) {
                Some(causes) => {
                    let mut r: Vec<PlanReason> = Vec::new();
                    for i in 0..causes.len()
                        invariant
                            r@.len() == i,
                            forall|j: int|
                                0 <= j < i ==> (#[trigger] r@[j]).deep_view() == cause_reason(
                                    causes@[j].deep_view(),
                                ),
                    {
                        r.push(
                            PlanReason::about(
                                ReasonKind::GitChange,
                                cat2("selected because ", causes[i].detail.as_str()),
                                causes[i].path.clone(),
                            ),
                        );
                    }
                    let ghost views = causes.deep_view();
                    assert(r.deep_view() =~= Seq::new(
                        views.len(),
                        |i: int| cause_reason(views[i]),
                    ));
                    r
                },
                None => none_of(),
            },
            Membership::Expanded => match self.selection.members.get(id) {
                Some(member) => {
                    let terms: &Vec<String> = &member.expanded;
                    let mut r: Vec<PlanReason> = Vec::new();
                    for i in 0..terms.len()
                        invariant
                            r@.len() == i,
                            forall|j: int|
                                0 <= j < i ==> (#[trigger] r@[j]).deep_view() == expansion_reason(
                                    terms@[j]@,
                                ),
                    {
                        r.push(
                            PlanReason::about(
                                ReasonKind::SelectionExpansion,
                                cat3("selected by `", terms[i].as_str(), "`"),
                                terms[i].clone(),
                            ),
                        );
                    }
                    let ghost views = terms.deep_view();
                    assert(r.deep_view() =~= Seq::new(
                        views.len(),
                        |i: int| expansion_reason(views[i]),
                    ));
                    r
                },
                None => none_of(),
            },
            Membership::Dependency => match required_by {
                Some(name) => one_of(
                    PlanReason::about(
                        ReasonKind::SelectedDependency,
                        cat2("required by selected model ", name.as_str()),
                        name.clone(),
                    ),
                ),
                None => one_of(
                    PlanReason::simple(
                        ReasonKind::SelectedDependency,
                        "required by the selection".to_owned(),
                    ),
                ),
            },
        }
    }

    fn record(&self, id: &str) -> (r: Option<MaterializedRecord>)
        requires
            self.ok(),
        ensures
            r.deep_view() == self.spec().record(id@),
    {
        if !self.compilation.ok || !self.planner.has_state {
            None
        } else {
            self.seen(id).current.deep_clone()
        }
    }

    fn decide(&self, id: &str, model: &CompiledModel) -> (r: (PlanAction, Vec<PlanReason>))
        requires
            self.ok(),
            model_named(self.spec().models(), id@) == Some(model.deep_view()),
        ensures
            (r.0, r.1.deep_view()) == decision_at(self.spec(), id@),
    {
        if !self.compilation.ok {
            return (PlanAction::Unknown, none_of());
        }
        let seen: &ModelObservation = self.seen(id);
        let trusted: ModelObservation = ModelObservation {
            exists: seen.exists,
            current: self.record(id),
            same_version: seen.same_version.deep_clone(),
            output_identity: seen.output_identity.deep_clone(),
            schema: seen.schema.deep_clone(),
            watermark: seen.watermark.deep_clone(),
        };
        assert(trusted.deep_view() == self.spec().trusted(id@));
        let options: PlanOptions = PlanOptions { force: self.force };
        self.planner.decide(model, &trusted, self.environment, &options)
    }

    fn upstream(&self, model: &CompiledModel, ahead: &Vec<String>, builds: &Vec<bool>) -> (r: Vec<
        PlanReason,
    >)
        requires
            self.ok(),
            builds@.len() == ahead@.len(),
            forall|i: int|
                0 <= i < ahead@.len() ==> (#[trigger] builds@[i]) == (decision_at(
                    self.spec(),
                    ahead@[i]@,
                ).0 == PlanAction::Build),
        ensures
            r.deep_view() == gather(
                model.deep_view().model_dependencies,
                if_rebuilt(self.spec(), ahead.deep_view()),
            ),
    {
        let deps: &Vec<String> = &model.model_dependencies;
        let ghost views = deps.deep_view();
        let ghost f = if_rebuilt(self.spec(), ahead.deep_view());
        proof {
            lemma_gather_ends(views, f);
        }
        let mut r: Vec<PlanReason> = none_of();
        for i in 0..deps.len()
            invariant
                views == deps.deep_view(),
                f == if_rebuilt(self.spec(), ahead.deep_view()),
                builds@.len() == ahead@.len(),
                forall|i: int|
                    0 <= i < ahead@.len() ==> (#[trigger] builds@[i]) == (decision_at(
                        self.spec(),
                        ahead@[i]@,
                    ).0 == PlanAction::Build),
                r.deep_view() == gather(views.take(i as int), f),
        {
            proof {
                lemma_gather_step(views, i as int, f);
            }
            let ghost before = r.deep_view();
            let dep: &String = &deps[i];
            if self.builds_ahead(dep.as_str(), ahead, builds) {
                put(
                    &mut r,
                    PlanReason::about(
                        ReasonKind::UpstreamRebuild,
                        cat3("upstream ", dep.as_str(), " will rebuild in this plan"),
                        dep.clone(),
                    ),
                );
            }
            assert(r.deep_view() =~= before + f(views[i as int]));
        }
        r
    }

    fn builds_ahead(&self, dep: &str, ahead: &Vec<String>, builds: &Vec<bool>) -> (r: bool)
        requires
            builds@.len() == ahead@.len(),
            forall|i: int|
                0 <= i < ahead@.len() ==> (#[trigger] builds@[i]) == (decision_at(
                    self.spec(),
                    ahead@[i]@,
                ).0 == PlanAction::Build),
        ensures
            r == (ahead.deep_view().contains(dep@) && decision_at(self.spec(), dep@).0
                == PlanAction::Build),
    {
        let ghost names = ahead.deep_view();
        for i in 0..ahead.len()
            invariant
                names == ahead.deep_view(),
                builds@.len() == ahead@.len(),
                forall|k: int|
                    0 <= k < ahead@.len() ==> (#[trigger] builds@[k]) == (decision_at(
                        self.spec(),
                        ahead@[k]@,
                    ).0 == PlanAction::Build),
                forall|k: int| 0 <= k < i ==> (#[trigger] names[k]) != dep@,
        {
            if same(ahead[i].as_str(), dep) {
                assert(names[i as int] == dep@);
                return builds[i];
            }
        }
        false
    }

    fn strategy(&self, model: &CompiledModel, record: &Option<MaterializedRecord>) -> (r: (
        bool,
        Vec<PlanReason>,
    ))
        ensures
            (r.0, r.1.deep_view()) == incremental_change(model.deep_view(), record.deep_view()),
    {
        if model.config.materialization != Materialization::Incremental {
            return (false, none_of());
        }
        match record {
            None => (true, none_of()),
            Some(current) => {
                let strategy: Option<String> = strategy_code_of(&model.config.incremental);
                let key: Option<String> = strategy_key_of(&model.config.incremental);
                let same_strategy: bool = same_option(&current.incremental_strategy, &strategy);
                if same_strategy && same_option(&current.incremental_key, &key) {
                    return (false, none_of());
                }
                let detail: String = match (&current.incremental_strategy, &strategy) {
                    (Some(was), Some(now)) => if !same_strategy {
                        cat5(
                            "incremental strategy changed (",
                            was.as_str(),
                            " → ",
                            now.as_str(),
                            "); full rebuild",
                        )
                    } else {
                        "incremental strategy or key changed; full rebuild".to_owned()
                    },
                    _ => "incremental strategy or key changed; full rebuild".to_owned(),
                };
                (true, one_of(PlanReason::simple(ReasonKind::IncrementalChange, detail)))
            },
        }
    }

    fn schema(&self, model: &CompiledModel, observed: &ModelObservation) -> (r: (
        bool,
        Vec<PlanReason>,
    ))
        ensures
            (r.0, r.1.deep_view()) == schema_change(model.deep_view(), observed.deep_view()),
    {
        if observed.exists && model.schema.known {
            if let Some(schema) = &observed.schema {
                if schema.safety != SchemaChangeSafety::Safe {
                    let detail: String = schema_change_detail(
                        &model.schema.columns,
                        &schema.columns,
                        schema.safety,
                    );
                    let rebuild: bool = matches!(
                        schema.safety,
                        SchemaChangeSafety::FullRebuildRequired | SchemaChangeSafety::Error
                    );
                    return (
                        rebuild,
                        one_of(PlanReason::simple(ReasonKind::SchemaChange, detail)),
                    );
                }
            }
        }
        (false, none_of())
    }

    fn plan_model(
        &self,
        id: &str,
        model: &CompiledModel,
        decision: (PlanAction, Vec<PlanReason>),
        ahead: &Vec<String>,
        builds: &Vec<bool>,
        required_by: &Option<String>,
    ) -> (r: PlannedModel)
        requires
            self.ok(),
            model_named(self.spec().models(), id@) == Some(model.deep_view()),
            (decision.0, decision.1.deep_view()) == decision_at(self.spec(), id@),
            builds@.len() == ahead@.len(),
            forall|i: int|
                0 <= i < ahead@.len() ==> (#[trigger] builds@[i]) == (decision_at(
                    self.spec(),
                    ahead@[i]@,
                ).0 == PlanAction::Build),
        ensures
            r.deep_view() == planned_model(
                self.spec(),
                id@,
                ahead.deep_view(),
                required_by.deep_view(),
            ),
    {
        let (action, change) = decision;
        let record: Option<MaterializedRecord> = self.record(id);
        let seen: &ModelObservation = self.seen(id);
        let mut reasons: Vec<PlanReason> = self.entry(id, required_by);
        put_all(&mut reasons, change);
        let build: bool = action == PlanAction::Build;
        let upstream: Vec<PlanReason> = if build {
            self.upstream(model, ahead, builds)
        } else {
            none_of()
        };
        put_all(&mut reasons, upstream);
        let (strategy_rebuild, strategy_reasons) = if build {
            self.strategy(model, &record)
        } else {
            (false, none_of())
        };
        put_all(&mut reasons, strategy_reasons);
        let (schema_rebuild, schema_reasons) = if build {
            self.schema(model, seen)
        } else {
            (false, none_of())
        };
        put_all(&mut reasons, schema_reasons);
        let watermark: Option<String> = if self.planner.has_state {
            match &model.config.incremental {
                Some(IncrementalStrategy::TimeWindow { .. }) => seen.watermark.deep_clone(),
                _ => None,
            }
        } else {
            None
        };
        let current_version: Option<String> = match &record {
            Some(current) => Some(current.version.hash.clone()),
            None => None,
        };
        PlannedModel {
            id: model.id.clone(),
            target: model.target.display(),
            materialization: model.config.materialization.name(),
            action,
            reasons,
            membership: self.membership(id),
            exists: self.compilation.ok && seen.exists,
            incremental: strategy_code_of(&model.config.incremental),
            full_rebuild: strategy_rebuild || schema_rebuild,
            watermark,
            desired_version: model.version.hash.clone(),
            current_version,
            dependencies: model.model_dependencies.deep_clone(),
            sources: names_of_sources(&model.source_dependencies),
            sql_hash: sha256_hex(model.compiled_sql.as_str()),
            compiled_sql: model.compiled_sql.clone(),
        }
    }

    fn tests(&self) -> (r: Vec<PlannedTest>)
        requires
            self.ok(),
        ensures
            r.deep_view() == gather(self.spec().compilation.tests, planned_test(self.spec())),
    {
        let tests: &Vec<CompiledTest> = &self.compilation.tests;
        let ghost views = tests.deep_view();
        let ghost f = planned_test(self.spec());
        proof {
            lemma_gather_ends(views, f);
        }
        let mut r: Vec<PlannedTest> = none_of();
        for i in 0..tests.len()
            invariant
                views == tests.deep_view(),
                f == planned_test(self.spec()),
                self.ok(),
                r.deep_view() == gather(views.take(i as int), f),
        {
            proof {
                lemma_gather_step(views, i as int, f);
            }
            let ghost before = r.deep_view();
            let test: &CompiledTest = &tests[i];
            assert(views[i as int] == test.deep_view());
            if self.plans_test(test) {
                put(
                    &mut r,
                    PlannedTest {
                        id: test.id.clone(),
                        generated: test.generated,
                        targets: test.targets.deep_clone(),
                        sources: names_of_sources(&test.sources),
                    },
                );
            }
            assert(r.deep_view() =~= before + f(views[i as int]));
        }
        r
    }

    fn of_membership(&self, order: &Vec<String>, kind: Membership) -> (r: Vec<String>)
        requires
            self.ok(),
        ensures
            r.deep_view() == gather(order.deep_view(), if_member(self.spec(), kind)),
    {
        let ghost views = order.deep_view();
        let ghost f = if_member(self.spec(), kind);
        proof {
            lemma_gather_ends(views, f);
        }
        let mut r: Vec<String> = none_of();
        for i in 0..order.len()
            invariant
                views == order.deep_view(),
                f == if_member(self.spec(), kind),
                self.ok(),
                r.deep_view() == gather(views.take(i as int), f),
        {
            proof {
                lemma_gather_step(views, i as int, f);
            }
            let ghost before = r.deep_view();
            if self.membership(order[i].as_str()) == kind {
                put(&mut r, order[i].clone());
            }
            assert(r.deep_view() =~= before + f(views[i as int]));
        }
        r
    }

    fn required_by(&self, id: &str) -> (r: Option<String>)
        requires
            self.ok(),
        ensures
            membership_of(self.spec(), id@) == Membership::Dependency ==> is_nearest(
                self.spec().models(),
                id@,
                member_names(self.spec().selection.members),
                r.deep_view(),
            ),
    {
        match self.membership(id) {
            Membership::Dependency => requiring_model(self.compilation, id, &self.members),
            _ => None,
        }
    }
}

/// The code of an optional strategy.
pub fn strategy_code_of(strategy: &Option<IncrementalStrategy>) -> (r: Option<String>)
    ensures
        r.deep_view() == strategy_code(strategy.deep_view()),
{
    match strategy {
        Some(given) => Some(given.code()),
        None => None,
    }
}

/// The columns of an optional strategy, comma-joined.
pub fn strategy_key_of(strategy: &Option<IncrementalStrategy>) -> (r: Option<String>)
    ensures
        r.deep_view() == strategy_key(strategy.deep_view()),
{
    match strategy {
        Some(given) => {
            let columns: Vec<String> = given.columns();
            let list: &[String] = columns.as_slice();
            assert(list.deep_view() =~= columns.deep_view());
            let key: String = join(list, ",");
            if key.as_str().is_empty() {
                None
            } else {
                Some(key)
            }
        },
        None => None,
    }
}

/// The names of sources.
pub fn names_of_sources(sources: &Vec<SourceId>) -> (r: Vec<String>)
    ensures
        r.deep_view() == source_names(sources.deep_view()),
{
    let mut r: Vec<String> = Vec::new();
    for i in 0..sources.len()
        invariant
            r@.len() == i,
            forall|j: int| 0 <= j < i ==> (#[trigger] r@[j])@ == source_text(sources@[j].deep_view()),
    {
        r.push(sources[i].logical_name());
    }
    assert(r.deep_view() =~= source_names(sources.deep_view()));
    r
}

fn names_of_members(members: &NameMap<SelectionMember>) -> (r: NameSet)
    ensures
        r.deep_view() == member_names(members.deep_view()),
{
    let n: usize = members.len();
    let mut list: Vec<String> = Vec::new();
    for i in 0..n
        invariant
            n == members.deep_view().len(),
            list@.len() == i,
            forall|j: int| 0 <= j < i ==> (#[trigger] list@[j])@ == members.deep_view()[j].0,
    {
        list.push(members.key_at(i).clone());
    }
    let mut r: NameSet = NameSet::new();
    r.extend(&list);
    let k: usize = r.len();
    proof {
        let names = member_names(members.deep_view());
        assert(list.deep_view() =~= names);
        assert(crate::names::ascending_names(names)) by {
            assert forall|i: int, j: int| 0 <= i < j < names.len() implies crate::text::lex_lt(
                #[trigger] names[i],
                #[trigger] names[j],
            ) by {
                let entries = members.deep_view();
                assert(crate::text::lex_lt(entries[i].0, entries[j].0));
            }
        }
        crate::names::lemma_with_members(Seq::empty(), names);
        assert forall|name: Seq<char>| #[trigger] r.deep_view().contains(name) <==> names.contains(
            name,
        ) by {
            assert(!Seq::<Seq<char>>::empty().contains(name));
        }
        crate::graph::lemma_same_members(r.deep_view(), names);
    }
    r
}

impl Planner {
    /// Build a plan for a resolved selection.
    ///
    /// The plan is dependency-closed: every transitive workspace dependency of
    /// a selected model is planned too, except excluded models, which stay
    /// excluded and leave a warning. A model that reads an excluded relation
    /// which has never been materialised cannot be planned. Ephemeral models
    /// are inlined into dependents at compile time and are never planned.
    pub fn plan(
        &self,
        compilation: &Compilation,
        selection: &Selection,
        environment: &Option<String>,
        options: &PlanOptions,
        observed: &Observations,
    ) -> (r: Result<Plan, EngineError>)
        ensures
            ({
                let s = PlanSetting {
                    planner: self.deep_view(),
                    compilation: compilation.deep_view(),
                    selection: selection.deep_view(),
                    environment: environment.deep_view(),
                    force: options.force,
                    observed: observed.deep_view(),
                };
                match first_where(excluded_reads(s), never_materialised(s)) {
                    Some(pair) => r matches Err(error) && error.deep_view()
                        == EngineErrorView::InvalidPlan(missing_text(s, pair)),
                    None => r matches Ok(plan) && is_plan(s, plan.deep_view()) && is_uuid_text(
                        plan.id@,
                    ) && is_timestamp(plan.created_at@),
                }
            }),
    {
        let members: NameSet = names_of_members(&selection.members);
        let mut excluded: NameSet = NameSet::new();
        excluded.extend(&selection.excluded);
        let planned: NameSet = dependency_closure_excluding(compilation, &members, &excluded);
        let schema: Option<String> = match schema_for(
            crate::source_state::borrowed(&compilation.defaults.schema),
            self.adapter.as_str(),
        ) {
            Some(name) => Some(name.to_owned()),
            None => None,
        };
        let setting = Setting {
            planner: self,
            compilation,
            selection,
            environment,
            force: options.force,
            observed,
            members,
            excluded,
            planned,
            places: Places {
                catalog: compilation.defaults.catalog.deep_clone(),
                schema,
                adapter: self.adapter.clone(),
            },
            unseen: ModelObservation {
                exists: false,
                current: None,
                same_version: none_of(),
                output_identity: None,
                schema: None,
                watermark: None,
            },
        };
        let ghost s = setting.spec();
        assert(setting.ok());
        let reads: Vec<(String, String)> = setting.all_reads_excluded();
        if let Some(pair) = setting.find_missing(&reads) {
            proof {
                crate::seqs::lemma_first_found(excluded_reads(s), never_materialised(s));
                lemma_excluded_read_known(s, pair.deep_view());
            }
            let target: String = match compilation.model(pair.1.as_str()) {
                Some(model) => model.target.display(),
                None => String::new(),
            };
            return Err(
                EngineError::InvalidPlan(
                    cat6(
                        pair.0.as_str(),
                        " depends on excluded model ",
                        pair.1.as_str(),
                        ", and ",
                        target.as_str(),
                        " has never been materialised",
                    ),
                ),
            );
        }
        let warnings: Vec<String> = setting.warnings(&reads);
        let seeds: Vec<PlannedSeed> = setting.seeds();
        let order: Vec<String> = setting.order();
        let ghost names = order.deep_view();
        let mut models: Vec<PlannedModel> = Vec::new();
        let mut ahead: Vec<String> = none_of();
        let mut builds: Vec<bool> = Vec::new();
        let ghost mut required: Seq<Option<Seq<char>>> = Seq::empty();
        for i in 0..order.len()
            invariant
                setting.ok(),
                s == setting.spec(),
                setting.compilation == compilation,
                names == order.deep_view(),
                names == plan_order(s),
                models@.len() == i,
                required.len() == i,
                ahead.deep_view() == names.take(i as int),
                builds@.len() == i,
                ahead@.len() == i,
                forall|j: int|
                    0 <= j < i ==> (#[trigger] builds@[j]) == (decision_at(s, ahead@[j]@).0
                        == PlanAction::Build),
                forall|j: int|
                    0 <= j < i ==> (#[trigger] models@[j]).deep_view() == planned_model(
                        s,
                        names[j],
                        names.take(j + 1),
                        required[j],
                    ),
                forall|j: int|
                    0 <= j < i && membership_of(s, names[j]) == Membership::Dependency
                        ==> is_nearest(
                        s.models(),
                        names[j],
                        member_names(s.selection.members),
                        #[trigger] required[j],
                    ),
        {
            let id: &String = &order[i];
            proof {
                lemma_order_known(s, i as int);
            }
            assert(names[i as int] == id@);
            if let Some(model) = compilation.model(id.as_str()) {
                let decision: (PlanAction, Vec<PlanReason>) = setting.decide(id.as_str(), model);
                let build: bool = decision.0 == PlanAction::Build;
                let required_by: Option<String> = setting.required_by(id.as_str());
                put(&mut ahead, id.clone());
                builds.push(build);
                assert(names.take(i as int + 1) =~= names.take(i as int).push(id@));
                assert(ahead.deep_view().len() == ahead@.len());
                assert forall|j: int| 0 <= j < ahead@.len() implies (#[trigger] builds@[j]) == (
                decision_at(s, ahead@[j]@).0 == PlanAction::Build) by {
                    assert(ahead.deep_view()[j] == ahead@[j]@);
                    assert(ahead.deep_view()[j] == names[j]);
                    if j < i {
                        assert(names.take(i as int)[j] == names[j]);
                    }
                }
                let model: PlannedModel = setting.plan_model(
                    id.as_str(),
                    model,
                    decision,
                    &ahead,
                    &builds,
                    &required_by,
                );
                models.push(model);
                proof {
                    required = required.push(required_by.deep_view());
                }
            }
        }
        proof {
            assert(explains(s, names, required));
            assert(models.deep_view() =~= planned_models(s, names, required));
        }
        let selection_report: PlanSelection = PlanSelection {
            terms: selection.terms.deep_clone(),
            exclude: selection.exclude_terms.deep_clone(),
            matched: setting.of_membership(&order, Membership::Selected),
            expanded: setting.of_membership(&order, Membership::Expanded),
            required: setting.of_membership(&order, Membership::Dependency),
        };
        let plan: Plan = Plan {
            id: fresh_id(),
            created_at: now_rfc3339(),
            environment: environment.deep_clone(),
            adapter: self.adapter.clone(),
            compiler_semantics_version: compilation.compiler_semantics_version.clone(),
            blocked: !compilation.ok,
            selection: selection_report,
            git: None,
            warnings,
            seeds,
            models,
            tests: setting.tests(),
            diagnostics: compilation.diagnostics.deep_clone(),
        };
        Ok(plan)
    }
}

proof fn lemma_order_known(s: PlanSetting, i: int)
    requires
        0 <= i < plan_order(s).len(),
    ensures
        model_named(s.models(), plan_order(s)[i]) is Some,
        s.planned().contains(plan_order(s)[i]),
        model_named(s.models(), plan_order(s)[i])->0.config.materialization
            != Materialization::Ephemeral,
{
    let base = match s.compilation.topological_order {
        Some(order) => order,
        None => s.planned(),
    };
    let f = if_executable(s);
    let id = plan_order(s)[i];
    assert(plan_order(s).contains(id));
    crate::seqs::lemma_gather_member(base, f, id);
    let k = choose|k: int| 0 <= k < base.len() && f(#[trigger] base[k]).contains(id);
    assert(f(base[k]).contains(id));
    let got = f(base[k]);
    let m = choose|m: int| 0 <= m < got.len() && got[m] == id;
    assert(got.len() > 0);
    assert(got == seq![base[k]]);
}

proof fn lemma_excluded_read_known(s: PlanSetting, pair: (Seq<char>, Seq<char>))
    requires
        excluded_reads(s).contains(pair),
    ensures
        model_named(s.models(), pair.1) is Some,
{
    let f = excluded_reads_of(s);
    crate::seqs::lemma_gather_member(s.planned(), f, pair);
    let k = choose|k: int|
        0 <= k < s.planned().len() && f(#[trigger] s.planned()[k]).contains(pair);
    let id = s.planned()[k];
    let deps = model_named(s.models(), id)->0.model_dependencies;
    assert(f(id).contains(pair));
    assert(model_named(s.models(), id) is Some);
    let g = if_excluded(s, id);
    crate::seqs::lemma_gather_member(deps, g, pair);
    let m = choose|m: int| 0 <= m < deps.len() && g(#[trigger] deps[m]).contains(pair);
    let got = g(deps[m]);
    let n = choose|n: int| 0 <= n < got.len() && got[n] == pair;
    assert(got == seq![(id, deps[m])]);
}

/// Every model of a plan exists, is required by the selection and is not
/// ephemeral.
pub proof fn law_plan_holds_required_relations(s: PlanSetting, i: int)
    requires
        0 <= i < plan_order(s).len(),
    ensures
        s.planned().contains(plan_order(s)[i]),
        model_named(s.models(), plan_order(s)[i]) is Some,
        model_named(s.models(), plan_order(s)[i])->0.config.materialization
            != Materialization::Ephemeral,
{
    lemma_order_known(s, i);
}

/// Every model of a plan that is not blocked carries at least one reason; in a
/// blocked plan nothing is decided.
pub proof fn law_planned_models_carry_reasons(
    s: PlanSetting,
    id: Seq<char>,
    ahead: Seq<Seq<char>>,
    required_by: Option<Seq<char>>,
)
    ensures
        !s.blocked() ==> planned_model(s, id, ahead, required_by).reasons.len() > 0,
        s.blocked() ==> planned_model(s, id, ahead, required_by).action == PlanAction::Unknown,
{
    if !s.blocked() {
        crate::plan::law_decisions_carry_reasons(
            s.planner,
            model_named(s.models(), id)->0,
            s.trusted(id),
            s.environment,
            s.force,
        );
    }
}

/// Whether an order lists what each model reads ahead of it.
pub open spec fn dependencies_first(
    models: Seq<CompiledModelView>,
    order: Seq<Seq<char>>,
) -> bool {
    forall|p: int, q: int|
        0 <= p < order.len() && 0 <= q < order.len() && deps_of(
            models,
            #[trigger] order[p],
        ).contains(#[trigger] order[q]) ==> q < p
}

/// What is kept of a list stays in its order: the positions it comes from ascend.
proof fn lemma_kept_in_order(items: Seq<Seq<char>>, f: spec_fn(Seq<char>) -> Seq<Seq<char>>) -> (at:
    Seq<int>)
    requires
        forall|x: Seq<char>| #[trigger] f(x) == seq![x] || f(x) == Seq::<Seq<char>>::empty(),
    ensures
        at.len() == gather(items, f).len(),
        forall|i: int|
            0 <= i < at.len() ==> 0 <= #[trigger] at[i] < items.len() && items[at[i]] == gather(
                items,
                f,
            )[i],
        forall|i: int, j: int| 0 <= i < j < at.len() ==> #[trigger] at[i] < #[trigger] at[j],
    decreases items.len(),
{
    if items.len() == 0 {
        Seq::empty()
    } else {
        let rest = items.drop_last();
        let before = lemma_kept_in_order(rest, f);
        let kept = gather(rest, f);
        assert(f(items.last()) == seq![items.last()] || f(items.last()) == Seq::<
            Seq<char>,
        >::empty());
        if f(items.last()) == seq![items.last()] {
            let at = before.push(items.len() - 1);
            assert(gather(items, f) =~= kept.push(items.last()));
            assert forall|i: int| 0 <= i < at.len() implies 0 <= #[trigger] at[i] < items.len()
                && items[at[i]] == gather(items, f)[i] by {
                if i < before.len() {
                    assert(at[i] == before[i]);
                    assert(rest[before[i]] == kept[i]);
                }
            }
            at
        } else {
            assert(gather(items, f) =~= kept);
            assert forall|i: int| 0 <= i < before.len() implies 0 <= #[trigger] before[i]
                < items.len() && items[before[i]] == gather(items, f)[i] by {
                assert(rest[before[i]] == kept[i]);
            }
            before
        }
    }
}

/// A plan lists what each of its models reads ahead of it, as the workspace's
/// order does.
pub proof fn law_plans_list_dependencies_first(s: PlanSetting)
    requires
        s.compilation.topological_order matches Some(order) && dependencies_first(
            s.models(),
            order,
        ),
    ensures
        dependencies_first(s.models(), plan_order(s)),
{
    let items = s.compilation.topological_order->0;
    let f = if_executable(s);
    let order = plan_order(s);
    let at = lemma_kept_in_order(items, f);
    assert forall|p: int, q: int|
        0 <= p < order.len() && 0 <= q < order.len() && deps_of(
            s.models(),
            #[trigger] order[p],
        ).contains(#[trigger] order[q]) implies q < p by {
        assert(items[at[p]] == order[p] && items[at[q]] == order[q]);
        assert(at[q] < at[p]);
        if p < q {
            assert(at[p] < at[q]);
        }
    }
}

} // verus!
