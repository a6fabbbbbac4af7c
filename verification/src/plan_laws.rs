//! What plans promise: when a model or seed is built, skipped or reused, what
//! the reasons of a decision mean, and what a plan says of each of its models.

use vstd::prelude::*;

use crate::names::{ascending, has_name, lemma_name_unique, named};
use crate::plan::{
    dependency_reason, dropped_dependency, dropped_source, if_elsewhere, if_same_relation,
    is_stale, model_decision, moved_dependencies, moved_dependency, moved_source, seed_decision,
    source_reasons, staleness_of, still_live, version_reasons,
    ModelObservationView, PlanAction, PlanReasonView, PlannedModelView, PlannerView, ReasonKind,
};
use crate::seqs::{first_where, gather, lemma_first_found, lemma_gather_member};
use crate::state::{MaterializedRecordView, SeedRecordView};
use crate::workspace::{
    is_model, model_named, relation_text, CompiledModelView, CompiledSeedView,
};

verus! {

/// Whether some reason is of a kind.
pub open spec fn gives(reasons: Seq<PlanReasonView>, kind: ReasonKind) -> bool {
    exists|i: int| 0 <= i < reasons.len() && (#[trigger] reasons[i]).kind == kind
}

pub proof fn lemma_gives_joined(a: Seq<PlanReasonView>, b: Seq<PlanReasonView>, kind: ReasonKind)
    ensures
        gives(a + b, kind) <==> gives(a, kind) || gives(b, kind),
{
    if gives(a, kind) {
        let i = choose|i: int| 0 <= i < a.len() && (#[trigger] a[i]).kind == kind;
        assert((a + b)[i].kind == kind);
    }
    if gives(b, kind) {
        let i = choose|i: int| 0 <= i < b.len() && (#[trigger] b[i]).kind == kind;
        assert((a + b)[a.len() + i].kind == kind);
    }
    if gives(a + b, kind) {
        let i = choose|i: int| 0 <= i < (a + b).len() && (#[trigger] (a + b)[i]).kind == kind;
        if i < a.len() {
            assert(a[i].kind == kind);
        } else {
            assert(b[i - a.len()].kind == kind);
        }
    }
}

proof fn lemma_gives_one(reason: PlanReasonView, kind: ReasonKind)
    ensures
        gives(seq![reason], kind) <==> reason.kind == kind,
{
    if reason.kind == kind {
        assert(seq![reason][0].kind == kind);
    }
}

/// Whether a record elsewhere vouches for what is in place here.
pub open spec fn vouches(
    record: MaterializedRecordView,
    adapter: Seq<char>,
    target: Seq<char>,
    environment: Option<Seq<char>>,
    live: Option<Seq<char>>,
) -> bool {
    &&& record.environment != environment
    &&& record.target == target
    &&& record.adapter == Some(adapter)
    &&& record.output_identity is Some
    &&& record.output_identity == live
}

/// An unforced model whose relation exists is skipped exactly where this adapter
/// recorded the desired version for the environment and the record's output, if
/// it names one, is still in place. It is reused from another environment
/// exactly where nothing is recorded here and a record there vouches for what is
/// in place. Every other model is built.
pub proof fn law_models_are_built_unless_proved_current(
    planner: PlannerView,
    model: CompiledModelView,
    observed: ModelObservationView,
    environment: Option<Seq<char>>,
    force: bool,
)
    ensures
        ({
            let action = model_decision(planner, model, observed, environment, force).0;
            let live = observed.output_identity;
            &&& action == PlanAction::Skip <==> {
                &&& !force
                &&& observed.exists
                &&& observed.current is Some
                &&& observed.current->0.adapter == Some(planner.adapter)
                &&& observed.current->0.version.hash == model.version.hash
                &&& observed.current->0.output_identity is None
                    || observed.current->0.output_identity == live
            }
            &&& action == PlanAction::Cached <==> {
                &&& !force
                &&& observed.exists
                &&& observed.current is None
                &&& planner.has_state
                &&& exists|i: int|
                    0 <= i < observed.same_version.len() && vouches(
                        #[trigger] observed.same_version[i],
                        planner.adapter,
                        relation_text(model.target),
                        environment,
                        live,
                    )
            }
            &&& action == PlanAction::Skip || action == PlanAction::Cached || action
                == PlanAction::Build
        }),
{
    let action = model_decision(planner, model, observed, environment, force).0;
    let target = relation_text(model.target);
    let live = observed.output_identity;
    let rows = observed.same_version;
    let elsewhere = gather(rows, if_elsewhere(environment));
    let here = if_same_relation(target, planner.adapter);
    let candidates = gather(elsewhere, here);
    lemma_first_found(candidates, still_live(live));
    if action == PlanAction::Cached {
        crate::plan::law_reuse_needs_a_live_output(planner, model, observed, environment, force);
        let i = choose|i: int|
            0 <= i < rows.len() && {
                let record = #[trigger] rows[i];
                record.environment != environment && record.target == target && record.adapter
                    == Some(planner.adapter) && record.output_identity is Some
                    && record.output_identity == live
            };
        assert(vouches(rows[i], planner.adapter, target, environment, live));
    }
    if exists|i: int|
        0 <= i < rows.len() && vouches(
            #[trigger] rows[i],
            planner.adapter,
            target,
            environment,
            live,
        ) {
        let i = choose|i: int|
            0 <= i < rows.len() && vouches(
                #[trigger] rows[i],
                planner.adapter,
                target,
                environment,
                live,
            );
        let hit = rows[i];
        assert(if_elsewhere(environment)(hit)[0] == hit);
        assert(if_elsewhere(environment)(rows[i]).contains(hit));
        lemma_gather_member(rows, if_elsewhere(environment), hit);
        let j = choose|j: int| 0 <= j < elsewhere.len() && elsewhere[j] == hit;
        assert(here(hit)[0] == hit);
        assert(here(elsewhere[j]).contains(hit));
        lemma_gather_member(elsewhere, here, hit);
        let k = choose|k: int| 0 <= k < candidates.len() && candidates[k] == hit;
        assert(still_live(live)(candidates[k]));
    }
}

/// What the reasons of a decision mean: force, a missing relation, a record of
/// another adapter, an output that is no longer in place, an unchanged version,
/// or one that is recorded elsewhere, each exactly where it is the case.
pub proof fn law_reasons_mean_what_they_say(
    planner: PlannerView,
    model: CompiledModelView,
    observed: ModelObservationView,
    environment: Option<Seq<char>>,
    force: bool,
)
    ensures
        ({
            let (action, reasons) = model_decision(planner, model, observed, environment, force);
            let open = !force && observed.exists;
            let recorded = open && observed.current is Some;
            let current = observed.current->0;
            let ours = recorded && current.adapter == Some(planner.adapter);
            let drifted = ours && current.output_identity is Some && current.output_identity
                != observed.output_identity;
            &&& gives(reasons, ReasonKind::Forced) <==> force
            &&& gives(reasons, ReasonKind::MissingRelation) <==> !force && !observed.exists
            &&& gives(reasons, ReasonKind::AdapterChange) <==> recorded && current.adapter != Some(
                planner.adapter,
            )
            &&& gives(reasons, ReasonKind::OutputDrift) <==> drifted
            &&& gives(reasons, ReasonKind::Unchanged) <==> action == PlanAction::Skip
            &&& gives(reasons, ReasonKind::CacheReuse) <==> action == PlanAction::Cached
            &&& gives(reasons, ReasonKind::CacheMiss) <==> open && observed.current is None
                && planner.has_state && action == PlanAction::Build && exists|i: int|
                0 <= i < observed.same_version.len()
                    && (#[trigger] observed.same_version[i]).environment != environment
            &&& gives(reasons, ReasonKind::StateUnavailable) <==> open && observed.current is None
                && !planner.has_state
            &&& ours && !drifted && current.version.hash != model.version.hash ==> (
            reasons == version_reasons(model, current) || (version_reasons(model, current).len()
                == 0 && gives(reasons, ReasonKind::UnknownState)))
        }),
{
    let (action, reasons) = model_decision(planner, model, observed, environment, force);
    let rows = observed.same_version;
    let elsewhere = gather(rows, if_elsewhere(environment));
    let target = relation_text(model.target);
    let candidates = gather(elsewhere, if_same_relation(target, planner.adapter));
    lemma_first_found(candidates, still_live(observed.output_identity));
    if elsewhere.len() > 0 {
        lemma_gather_member(rows, if_elsewhere(environment), elsewhere[0]);
        assert(elsewhere.contains(elsewhere[0]));
        let i = choose|i: int|
            0 <= i < rows.len() && if_elsewhere(environment)(#[trigger] rows[i]).contains(
                elsewhere[0],
            );
        assert(rows[i].environment != environment);
    }
    if candidates.len() > 0 {
        lemma_gather_member(elsewhere, if_same_relation(target, planner.adapter), candidates[0]);
        assert(candidates.contains(candidates[0]));
    }
    if exists|i: int| 0 <= i < rows.len() && (#[trigger] rows[i]).environment != environment {
        let i = choose|i: int|
            0 <= i < rows.len() && (#[trigger] rows[i]).environment != environment;
        assert(if_elsewhere(environment)(rows[i])[0] == rows[i]);
        assert(if_elsewhere(environment)(rows[i]).contains(rows[i]));
        lemma_gather_member(rows, if_elsewhere(environment), rows[i]);
    }
    if !force && observed.exists && observed.current is Some {
        law_version_reasons_name_what_differs(model, observed.current->0);
    }
    if reasons.len() == 1 {
        assert(reasons =~= seq![reasons[0]]);
        lemma_gives_one(reasons[0], ReasonKind::Forced);
        lemma_gives_one(reasons[0], ReasonKind::MissingRelation);
        lemma_gives_one(reasons[0], ReasonKind::AdapterChange);
        lemma_gives_one(reasons[0], ReasonKind::OutputDrift);
        lemma_gives_one(reasons[0], ReasonKind::Unchanged);
        lemma_gives_one(reasons[0], ReasonKind::CacheReuse);
        lemma_gives_one(reasons[0], ReasonKind::CacheMiss);
        lemma_gives_one(reasons[0], ReasonKind::StateUnavailable);
        lemma_gives_one(reasons[0], ReasonKind::UnknownState);
    }
}

proof fn lemma_all_of_kind(reasons: Seq<PlanReasonView>, own: ReasonKind, kind: ReasonKind)
    requires
        reasons.len() > 0,
        forall|i: int| 0 <= i < reasons.len() ==> (#[trigger] reasons[i]).kind == own,
    ensures
        gives(reasons, kind) <==> kind == own,
{
    assert(reasons[0].kind == own);
}

proof fn lemma_source_reasons(model: CompiledModelView, current: MaterializedRecordView)
    ensures
        source_reasons(model, current).len() > 0,
        forall|i: int|
            0 <= i < source_reasons(model, current).len() ==> (#[trigger] source_reasons(
                model,
                current,
            )[i]).kind == ReasonKind::SourceChange,
{
    if current.detail is Some {
        let desired = model.version_detail.sources;
        let recorded = current.detail->0.sources;
        let a = gather(desired, moved_source(recorded));
        let b = gather(recorded, dropped_source(desired));
        assert forall|i: int| 0 <= i < (a + b).len() implies (#[trigger] (a + b)[i]).kind
            == ReasonKind::SourceChange by {
            let r = (a + b)[i];
            if i < a.len() {
                assert(a.contains(a[i]));
                lemma_gather_member(desired, moved_source(recorded), r);
            } else {
                assert(b.contains(b[i - a.len()]));
                lemma_gather_member(recorded, dropped_source(desired), r);
            }
        }
    }
}

/// A changed version is explained by the components that differ, each named
/// exactly where it does.
pub proof fn law_version_reasons_name_what_differs(
    model: CompiledModelView,
    current: MaterializedRecordView,
)
    ensures
        ({
            let reasons = version_reasons(model, current);
            let was = current.version;
            let now = model.version;
            &&& gives(reasons, ReasonKind::SqlSemanticChange) <==> was.sql_hash != now.sql_hash
            &&& gives(reasons, ReasonKind::ConfigChange) <==> was.config_hash != now.config_hash
            &&& gives(reasons, ReasonKind::ContractChange) <==> was.contract_hash
                != now.contract_hash
            &&& gives(reasons, ReasonKind::DependencyChange) <==> was.dependency_hash
                != now.dependency_hash
            &&& gives(reasons, ReasonKind::SourceChange) <==> was.source_state_hash
                != now.source_state_hash
            &&& gives(reasons, ReasonKind::TargetChange) <==> was.target_hash != now.target_hash
            &&& gives(reasons, ReasonKind::CompilerSemanticsChange) <==> was.compiler_version
                != now.compiler_version
            &&& !gives(reasons, ReasonKind::Forced)
            &&& !gives(reasons, ReasonKind::MissingRelation)
            &&& !gives(reasons, ReasonKind::AdapterChange)
            &&& !gives(reasons, ReasonKind::OutputDrift)
            &&& !gives(reasons, ReasonKind::Unchanged)
            &&& !gives(reasons, ReasonKind::CacheReuse)
            &&& !gives(reasons, ReasonKind::CacheMiss)
            &&& !gives(reasons, ReasonKind::StateUnavailable)
        }),
{
    lemma_version_reason(model, current, ReasonKind::SqlSemanticChange);
    lemma_version_reason(model, current, ReasonKind::ConfigChange);
    lemma_version_reason(model, current, ReasonKind::ContractChange);
    lemma_version_reason(model, current, ReasonKind::DependencyChange);
    lemma_version_reason(model, current, ReasonKind::SourceChange);
    lemma_version_reason(model, current, ReasonKind::TargetChange);
    lemma_version_reason(model, current, ReasonKind::CompilerSemanticsChange);
    lemma_version_reason(model, current, ReasonKind::Forced);
    lemma_version_reason(model, current, ReasonKind::MissingRelation);
    lemma_version_reason(model, current, ReasonKind::AdapterChange);
    lemma_version_reason(model, current, ReasonKind::OutputDrift);
    lemma_version_reason(model, current, ReasonKind::Unchanged);
    lemma_version_reason(model, current, ReasonKind::CacheReuse);
    lemma_version_reason(model, current, ReasonKind::CacheMiss);
    lemma_version_reason(model, current, ReasonKind::StateUnavailable);
}

proof fn lemma_version_reason(
    model: CompiledModelView,
    current: MaterializedRecordView,
    kind: ReasonKind,
)
    ensures
        ({
            let was = current.version;
            let now = model.version;
            gives(version_reasons(model, current), kind) <==> match kind {
                ReasonKind::SqlSemanticChange => was.sql_hash != now.sql_hash,
                ReasonKind::ConfigChange => was.config_hash != now.config_hash,
                ReasonKind::ContractChange => was.contract_hash != now.contract_hash,
                ReasonKind::DependencyChange => was.dependency_hash != now.dependency_hash,
                ReasonKind::SourceChange => was.source_state_hash != now.source_state_hash,
                ReasonKind::TargetChange => was.target_hash != now.target_hash,
                ReasonKind::CompilerSemanticsChange => was.compiler_version
                    != now.compiler_version,
                _ => false,
            }
        }),
{
    let was = current.version;
    let now = model.version;
    let a = crate::plan::when(
        was.sql_hash != now.sql_hash,
        ReasonKind::SqlSemanticChange,
        "SQL semantics changed"@,
    );
    let b = crate::plan::when(
        was.config_hash != now.config_hash,
        ReasonKind::ConfigChange,
        "configuration changed"@,
    );
    let c = crate::plan::when(
        was.contract_hash != now.contract_hash,
        ReasonKind::ContractChange,
        "contract or assertions changed"@,
    );
    let d = if was.dependency_hash != now.dependency_hash {
        seq![dependency_reason(model, current)]
    } else {
        Seq::empty()
    };
    let e = if was.source_state_hash != now.source_state_hash {
        source_reasons(model, current)
    } else {
        Seq::empty()
    };
    let f = crate::plan::when(
        was.target_hash != now.target_hash,
        ReasonKind::TargetChange,
        "physical target changed (was "@ + current.target + ", now "@ + relation_text(model.target)
            + ")"@,
    );
    let g = crate::plan::when(
        was.compiler_version != now.compiler_version,
        ReasonKind::CompilerSemanticsChange,
        "compiler semantics changed"@,
    );
    lemma_gives_joined(a, b, kind);
    lemma_gives_joined(a + b, c, kind);
    lemma_gives_joined(a + b + c, d, kind);
    lemma_gives_joined(a + b + c + d, e, kind);
    lemma_gives_joined(a + b + c + d + e, f, kind);
    lemma_gives_joined(a + b + c + d + e + f, g, kind);
    lemma_source_reasons(model, current);
    if e.len() > 0 {
        lemma_all_of_kind(e, ReasonKind::SourceChange, kind);
    }
    if a.len() > 0 {
        lemma_gives_one(a[0], kind);
    }
    if b.len() > 0 {
        lemma_gives_one(b[0], kind);
    }
    if c.len() > 0 {
        lemma_gives_one(c[0], kind);
    }
    if d.len() > 0 {
        lemma_gives_one(d[0], kind);
    }
    if f.len() > 0 {
        lemma_gives_one(f[0], kind);
    }
    if g.len() > 0 {
        lemma_gives_one(g[0], kind);
    }
}

/// Where the recorded source states are known, a changed version names a source
/// exactly where that source's state moved, is new, or is gone.
pub proof fn law_moved_sources_are_named(
    model: CompiledModelView,
    current: MaterializedRecordView,
    name: Seq<char>,
)
    requires
        current.detail is Some,
        ascending(current.detail->0.sources),
        ascending(model.version_detail.sources),
    ensures
        (exists|i: int|
            0 <= i < source_reasons(model, current).len() && (#[trigger] source_reasons(
                model,
                current,
            )[i]).subject == Some(name)) <==> named(model.version_detail.sources, name) != named(
            current.detail->0.sources,
            name,
        ),
{
    let desired = model.version_detail.sources;
    let recorded = current.detail->0.sources;
    let f = moved_source(recorded);
    let g = dropped_source(desired);
    let a = gather(desired, f);
    let b = gather(recorded, g);
    let all = source_reasons(model, current);
    if exists|i: int| 0 <= i < all.len() && (#[trigger] all[i]).subject == Some(name) {
        let i = choose|i: int| 0 <= i < all.len() && (#[trigger] all[i]).subject == Some(name);
        let r = all[i];
        if i < a.len() {
            assert(a[i] == r);
            assert(a.contains(r));
            lemma_gather_member(desired, f, r);
            let j = choose|j: int| 0 <= j < desired.len() && f(#[trigger] desired[j]).contains(r);
            lemma_name_unique(desired, j);
        } else {
            assert(b[i - a.len()] == r);
            assert(b.contains(r));
            lemma_gather_member(recorded, g, r);
            let j = choose|j: int| 0 <= j < recorded.len() && g(#[trigger] recorded[j]).contains(r);
            lemma_name_unique(recorded, j);
        }
    }
    if named(desired, name) != named(recorded, name) {
        if has_name(desired, name) {
            let j = choose|j: int| 0 <= j < desired.len() && (#[trigger] desired[j]).0 == name;
            lemma_name_unique(desired, j);
            let r = f(desired[j])[0];
            assert(f(desired[j]).contains(r));
            lemma_gather_member(desired, f, r);
            let k = choose|k: int| 0 <= k < a.len() && a[k] == r;
            assert((a + b)[k] == r);
            assert(all[k].subject == Some(name));
        } else {
            let j = choose|j: int| 0 <= j < recorded.len() && (#[trigger] recorded[j]).0 == name;
            let r = g(recorded[j])[0];
            assert(g(recorded[j]).contains(r));
            lemma_gather_member(recorded, g, r);
            let k = choose|k: int| 0 <= k < b.len() && b[k] == r;
            assert((a + b)[a.len() + k] == r);
            assert(all[a.len() + k].subject == Some(name));
        }
    }
}

/// The dependencies that a change is put down to are those whose version moved,
/// that are new, or that are gone; where there are none, nothing moved.
pub proof fn law_moved_dependencies_are_named(
    recorded: Seq<(Seq<char>, Seq<char>)>,
    desired: Seq<(Seq<char>, Seq<char>)>,
    name: Seq<char>,
)
    requires
        ascending(recorded),
        ascending(desired),
    ensures
        named(desired, name) is Some && named(recorded, name) is Some && named(desired, name)
            != named(recorded, name) ==> moved_dependencies(recorded, desired).contains(name),
        named(desired, name) is Some && named(recorded, name) is None ==> moved_dependencies(
            recorded,
            desired,
        ).contains(name + " (new dependency)"@),
        named(desired, name) is None && named(recorded, name) is Some ==> moved_dependencies(
            recorded,
            desired,
        ).contains(name + " (removed)"@),
        moved_dependencies(recorded, desired).len() == 0 ==> named(desired, name) == named(
            recorded,
            name,
        ),
        (forall|n: Seq<char>| #[trigger] named(desired, n) == named(recorded, n))
            ==> moved_dependencies(recorded, desired).len() == 0,
{
    let f = moved_dependency(recorded);
    let g = dropped_dependency(desired);
    let a = gather(desired, f);
    let b = gather(recorded, g);
    if has_name(desired, name) {
        let j = choose|j: int| 0 <= j < desired.len() && (#[trigger] desired[j]).0 == name;
        lemma_name_unique(desired, j);
        if named(desired, name) != named(recorded, name) {
            let r = f(desired[j])[0];
            assert(f(desired[j]).contains(r));
            lemma_gather_member(desired, f, r);
            let k = choose|k: int| 0 <= k < a.len() && a[k] == r;
            assert((a + b)[k] == r);
        }
    } else if has_name(recorded, name) {
        let j = choose|j: int| 0 <= j < recorded.len() && (#[trigger] recorded[j]).0 == name;
        let r = g(recorded[j])[0];
        assert(g(recorded[j]).contains(r));
        lemma_gather_member(recorded, g, r);
        let k = choose|k: int| 0 <= k < b.len() && b[k] == r;
        assert((a + b)[a.len() + k] == r);
    }
    if forall|n: Seq<char>| #[trigger] named(desired, n) == named(recorded, n) {
        if a.len() > 0 {
            assert(a.contains(a[0]));
            lemma_gather_member(desired, f, a[0]);
            let j = choose|j: int| 0 <= j < desired.len() && f(#[trigger] desired[j]).contains(
                a[0],
            );
            lemma_name_unique(desired, j);
            assert(named(desired, desired[j].0) == named(recorded, desired[j].0));
        }
        if b.len() > 0 {
            assert(b.contains(b[0]));
            lemma_gather_member(recorded, g, b[0]);
            let j = choose|j: int| 0 <= j < recorded.len() && g(#[trigger] recorded[j]).contains(
                b[0],
            );
            lemma_name_unique(recorded, j);
            assert(named(desired, recorded[j].0) == named(recorded, recorded[j].0));
        }
    }
}

/// A seed is skipped exactly where it is not forced, its relation exists, and the
/// recorded load has its content and its target; otherwise it is loaded, with the
/// first of force, a missing relation, no record, and changed content as reason.
pub proof fn law_seeds_are_loaded_unless_unchanged(
    has_state: bool,
    seed: CompiledSeedView,
    target: Seq<char>,
    exists_now: bool,
    current: Option<SeedRecordView>,
    force: bool,
)
    ensures
        ({
            let (action, reasons) = seed_decision(
                has_state,
                seed,
                target,
                exists_now,
                current,
                force,
            );
            let unchanged = current is Some && current->0.content_hash == seed.content_hash
                && current->0.target == target;
            &&& action == PlanAction::Skip <==> !force && exists_now && unchanged
            &&& action == PlanAction::Skip || action == PlanAction::Build
            &&& reasons.len() == 1
            &&& reasons[0].kind == ReasonKind::Forced <==> force
            &&& reasons[0].kind == ReasonKind::MissingRelation <==> !force && !exists_now
            &&& reasons[0].kind == ReasonKind::Unchanged <==> action == PlanAction::Skip
            &&& reasons[0].kind == ReasonKind::SourceChange <==> !force && exists_now && current
                is Some && !unchanged
            &&& reasons[0].kind == ReasonKind::UnknownState <==> !force && exists_now && current
                is None
        }),
{
}

/// A plan is stale exactly where one of its models is gone from the workspace or
/// stands there at another version.
pub proof fn law_plans_are_stale_where_a_model_moved(
    planned: Seq<PlannedModelView>,
    models: Seq<CompiledModelView>,
)
    ensures
        staleness_of(planned, models) is Some <==> exists|i: int|
            0 <= i < planned.len() && (model_named(models, (#[trigger] planned[i]).id) is None
                || model_named(models, planned[i].id)->0.version.hash
                != planned[i].desired_version),
{
    lemma_first_found(planned, is_stale(models));
    if first_where(planned, is_stale(models)) is Some {
        let a = first_where(planned, is_stale(models))->0;
        let i = choose|i: int| 0 <= i < planned.len() && planned[i] == a;
        assert(is_stale(models)(planned[i]));
    }
    if exists|i: int|
        0 <= i < planned.len() && (model_named(models, (#[trigger] planned[i]).id) is None
            || model_named(models, planned[i].id)->0.version.hash != planned[i].desired_version) {
        let i = choose|i: int|
            0 <= i < planned.len() && (model_named(models, (#[trigger] planned[i]).id) is None
                || model_named(models, planned[i].id)->0.version.hash
                != planned[i].desired_version);
        assert(is_stale(models)(planned[i]));
    }
}

/// A name finds a model of that name, wherever there is one.
pub proof fn law_models_are_found_by_name(models: Seq<CompiledModelView>, id: Seq<char>)
    ensures
        model_named(models, id) matches Some(model) ==> model.id == id && models.contains(model),
        model_named(models, id) is Some <==> exists|i: int|
            0 <= i < models.len() && (#[trigger] models[i]).id == id,
{
    lemma_first_found(models, is_model(id));
    if exists|i: int| 0 <= i < models.len() && (#[trigger] models[i]).id == id {
        let i = choose|i: int| 0 <= i < models.len() && (#[trigger] models[i]).id == id;
        assert(is_model(id)(models[i]));
    }
    if model_named(models, id) is Some {
        let a = model_named(models, id)->0;
        let i = choose|i: int| 0 <= i < models.len() && models[i] == a;
        assert(models[i].id == id);
    }
}

} // verus!
