//! What a plan promises of the models, seeds and tests that it lists.

use vstd::prelude::*;

use crate::graph::{deps_of, law_closure_holds_what_is_required, required};
use crate::names::{ascending, has_name, lemma_with_members, lemma_with_name, named};
use crate::plan::{
    model_decision, seed_decision, Membership, ModelObservationView, PlanAction, PlanReasonView,
    PlanView, ReasonKind,
};
use crate::plan_laws::law_models_are_found_by_name;
use crate::planner::{
    decision_at, direct_member, direct_members, entry_reasons, excluded_reads, excluded_reads_of, explains, if_excluded,
    if_executable, if_member, if_rebuilt, is_plan, law_plan_holds_required_relations, member_names,
    membership_of, never_materialised, plan_order, plan_sources, planned_model, planned_models, planned_seed,
    planned_test, seeds_behind, selection_of, sources_of, strategy_code, strategy_key, test_planned, PlanSetting,
};
use crate::seqs::{first_where, gather, lemma_first_found, lemma_gather_member};
use crate::source_state::backing_seed;
use crate::util::sha256_text;
use crate::workspace::{
    model_named, relation_text, CompiledSeedView, Materialization, SchemaChangeSafety, SourceIdView,
};

verus! {

/// Whether the selection requires a model that is a relation of its own.
pub open spec fn belongs(s: PlanSetting, id: Seq<char>) -> bool {
    &&& required(s.compilation.models, member_names(s.selection.members), s.excluded(), id)
    &&& model_named(s.compilation.models, id) is Some
    &&& model_named(s.compilation.models, id)->0.config.materialization
        != Materialization::Ephemeral
}

/// What is observed of a model, its record counting only with a state store.
pub open spec fn evidence_on(s: PlanSetting, id: Seq<char>) -> ModelObservationView {
    match named(s.observed.models, id) {
        Some(seen) => if s.planner.has_state {
            seen
        } else {
            ModelObservationView { current: None, ..seen }
        },
        None => ModelObservationView {
            exists: false,
            current: None,
            same_version: Seq::empty(),
            output_identity: None,
            schema: None,
            watermark: None,
        },
    }
}

proof fn lemma_planned(s: PlanSetting)
    ensures
        forall|id: Seq<char>| #[trigger]
            s.planned().contains(id) <==> required(
                s.compilation.models,
                member_names(s.selection.members),
                s.excluded(),
                id,
            ),
{
    law_closure_holds_what_is_required(
        s.models(),
        member_names(s.selection.members),
        s.excluded(),
    );
}

/// A plan lists exactly the relations that its selection requires, out of those
/// that the workspace puts in order.
pub proof fn law_plans_list_what_is_required(s: PlanSetting, plan: PlanView, id: Seq<char>)
    requires
        is_plan(s, plan),
    ensures
        (exists|i: int| 0 <= i < plan.models.len() && (#[trigger] plan.models[i]).id == id)
            <==> belongs(s, id) && (s.compilation.topological_order matches Some(order)
            ==> order.contains(id)),
{
    lemma_planned(s);
    let order = plan_order(s);
    let wanted = choose|wanted: Seq<Option<Seq<char>>>| #[trigger]
        explains(s, order, wanted) && plan.models == planned_models(s, order, wanted);
    let base = match s.compilation.topological_order {
        Some(order) => order,
        None => s.planned(),
    };
    let f = if_executable(s);
    if exists|i: int| 0 <= i < plan.models.len() && (#[trigger] plan.models[i]).id == id {
        let i = choose|i: int| 0 <= i < plan.models.len() && (#[trigger] plan.models[i]).id == id;
        law_plan_holds_required_relations(s, i);
        law_models_are_found_by_name(s.models(), order[i]);
        assert(plan.models[i] == planned_model(s, order[i], order.take(i + 1), wanted[i]));
        assert(order[i] == id);
        assert(order.contains(id));
        lemma_gather_member(base, f, id);
        let k = choose|k: int| 0 <= k < base.len() && f(#[trigger] base[k]).contains(id);
        assert(base[k] == id);
    }
    if belongs(s, id) && (s.compilation.topological_order matches Some(order) ==> order.contains(
        id,
    )) {
        assert(s.planned().contains(id));
        let k = choose|k: int| 0 <= k < base.len() && base[k] == id;
        assert(f(base[k])[0] == id);
        assert(f(base[k]).contains(id));
        lemma_gather_member(base, f, id);
        let i = choose|i: int| 0 <= i < order.len() && order[i] == id;
        law_models_are_found_by_name(s.models(), id);
        assert(plan.models[i].id == id);
    }
}

/// Each model of a plan is what the workspace holds under its name, and its
/// action is the one decided for it from what is observed.
pub proof fn law_planned_models_are_the_workspaces(s: PlanSetting, plan: PlanView, i: int)
    requires
        is_plan(s, plan),
        0 <= i < plan.models.len(),
    ensures
        ({
            let m = plan.models[i];
            let model = model_named(s.compilation.models, m.id)->0;
            let seen = evidence_on(s, m.id);
            &&& model_named(s.compilation.models, m.id) is Some
            &&& m.target == relation_text(model.target)
            &&& m.desired_version == model.version.hash
            &&& m.dependencies == model.model_dependencies
            &&& m.compiled_sql == model.compiled_sql
            &&& m.sql_hash == sha256_text(model.compiled_sql)
            &&& !s.compilation.ok ==> m.action == PlanAction::Unknown && !m.exists
                && !m.full_rebuild
            &&& s.compilation.ok ==> m.exists == seen.exists && m.action == model_decision(
                s.planner,
                model,
                seen,
                s.environment,
                s.force,
            ).0
            &&& m.current_version == (if s.compilation.ok && seen.current is Some {
                Some(seen.current->0.version.hash)
            } else {
                None
            })
            &&& m.membership == Membership::Dependency <==> !has_name(s.selection.members, m.id)
            &&& m.membership == Membership::Selected <==> has_name(s.selection.members, m.id)
                && named(s.selection.members, m.id)->0.direct
        }),
{
    let order = plan_order(s);
    let wanted = choose|wanted: Seq<Option<Seq<char>>>| #[trigger]
        explains(s, order, wanted) && plan.models == planned_models(s, order, wanted);
    law_plan_holds_required_relations(s, i);
    law_models_are_found_by_name(s.models(), order[i]);
    assert(plan.models[i] == planned_model(s, order[i], order.take(i + 1), wanted[i]));
    assert(s.trusted(order[i]) == ModelObservationView {
        current: s.record(order[i]),
        ..s.seen(order[i])
    });
    if s.compilation.ok {
        assert(s.trusted(order[i]) == evidence_on(s, order[i]));
    }
}

/// A model that is built is rebuilt in full exactly where it is incremental and
/// nothing is recorded to add to, its strategy or key is no longer the recorded
/// one, or the relation's schema changed beyond what can be added to.
pub proof fn law_full_rebuilds_have_a_cause(s: PlanSetting, plan: PlanView, i: int)
    requires
        is_plan(s, plan),
        0 <= i < plan.models.len(),
        s.compilation.ok,
    ensures
        ({
            let m = plan.models[i];
            let model = model_named(s.compilation.models, m.id)->0;
            let seen = evidence_on(s, m.id);
            let incremental = model.config.materialization == Materialization::Incremental;
            let stale_strategy = incremental && (seen.current is None || (
            seen.current->0.incremental_strategy != strategy_code(model.config.incremental)
                || seen.current->0.incremental_key != strategy_key(model.config.incremental)));
            let stale_schema = seen.exists && model.schema.known && seen.schema is Some && (
            seen.schema->0.safety == SchemaChangeSafety::FullRebuildRequired
                || seen.schema->0.safety == SchemaChangeSafety::Error);
            m.full_rebuild <==> m.action == PlanAction::Build && (stale_strategy || stale_schema)
        }),
{
    let order = plan_order(s);
    let wanted = choose|wanted: Seq<Option<Seq<char>>>| #[trigger]
        explains(s, order, wanted) && plan.models == planned_models(s, order, wanted);
    law_plan_holds_required_relations(s, i);
    law_models_are_found_by_name(s.models(), order[i]);
    assert(plan.models[i] == planned_model(s, order[i], order.take(i + 1), wanted[i]));
    assert(s.trusted(order[i]) == evidence_on(s, order[i]));
    assert(s.record(order[i]) == evidence_on(s, order[i]).current);
    assert(s.seen(order[i]).schema == evidence_on(s, order[i]).schema);
    assert(s.seen(order[i]).exists == evidence_on(s, order[i]).exists);
}

/// A watermark is handed on exactly to the models that work by a time window.
pub proof fn law_watermarks_are_for_time_windows(s: PlanSetting, plan: PlanView, i: int)
    requires
        is_plan(s, plan),
        0 <= i < plan.models.len(),
    ensures
        ({
            let m = plan.models[i];
            let strategy = model_named(s.compilation.models, m.id)->0.config.incremental;
            m.watermark == (if s.planner.has_state && strategy is Some && strategy->0
                is TimeWindow {
                evidence_on(s, m.id).watermark
            } else {
                None
            })
        }),
{
    let order = plan_order(s);
    let wanted = choose|wanted: Seq<Option<Seq<char>>>| #[trigger]
        explains(s, order, wanted) && plan.models == planned_models(s, order, wanted);
    law_plan_holds_required_relations(s, i);
    law_models_are_found_by_name(s.models(), order[i]);
    assert(plan.models[i] == planned_model(s, order[i], order.take(i + 1), wanted[i]));
}

/// Whether some reason of a kind is about `subject`.
pub open spec fn names_for(
    reasons: Seq<PlanReasonView>,
    kind: ReasonKind,
    subject: Seq<char>,
) -> bool {
    exists|k: int|
        0 <= k < reasons.len() && (#[trigger] reasons[k]).kind == kind && reasons[k].subject
            == Some(subject)
}

/// A model that is built names each of its dependencies that is built ahead of it
/// in the same plan.
pub proof fn law_upstream_rebuilds_are_named(s: PlanSetting, plan: PlanView, i: int, j: int)
    requires
        is_plan(s, plan),
        0 <= j < i < plan.models.len(),
        plan.models[i].action == PlanAction::Build,
        plan.models[j].action == PlanAction::Build,
        plan.models[i].dependencies.contains(plan.models[j].id),
    ensures
        names_for(plan.models[i].reasons, ReasonKind::UpstreamRebuild, plan.models[j].id),
{
    let order = plan_order(s);
    let wanted = choose|wanted: Seq<Option<Seq<char>>>| #[trigger]
        explains(s, order, wanted) && plan.models == planned_models(s, order, wanted);
    law_plan_holds_required_relations(s, i);
    law_plan_holds_required_relations(s, j);
    law_models_are_found_by_name(s.models(), order[i]);
    law_models_are_found_by_name(s.models(), order[j]);
    assert(plan.models[i] == planned_model(s, order[i], order.take(i + 1), wanted[i]));
    assert(plan.models[j] == planned_model(s, order[j], order.take(j + 1), wanted[j]));
    let dep = order[j];
    let ahead = order.take(i + 1);
    assert(ahead[j] == dep);
    assert(ahead.contains(dep));
    let model = model_named(s.models(), order[i])->0;
    let f = if_rebuilt(s, ahead);
    let deps = model.model_dependencies;
    let k = choose|k: int| 0 <= k < deps.len() && deps[k] == dep;
    let r = f(deps[k])[0];
    assert(r.kind == ReasonKind::UpstreamRebuild && r.subject == Some(dep));
    assert(f(deps[k]).contains(r));
    lemma_gather_member(deps, f, r);
    let upstream = gather(deps, f);
    let u = choose|u: int| 0 <= u < upstream.len() && upstream[u] == r;
    let before = entry_reasons(s, order[i], wanted[i]) + decision_at(s, order[i]).1;
    let at = before.len() + u;
    assert(plan.models[i].reasons[at as int] == r);
}

/// A test is planned exactly where every model that it reads is required, with
/// its models and sources as the workspace has them.
pub proof fn law_tests_are_planned_with_their_models(
    s: PlanSetting,
    plan: PlanView,
    k: int,
)
    requires
        is_plan(s, plan),
        0 <= k < s.compilation.tests.len(),
    ensures
        (forall|t: int|
            0 <= t < s.compilation.tests[k].targets.len() ==> required(
                s.compilation.models,
                member_names(s.selection.members),
                s.excluded(),
                #[trigger] s.compilation.tests[k].targets[t],
            )) ==> exists|i: int|
            0 <= i < plan.tests.len() && (#[trigger] plan.tests[i]).id == s.compilation.tests[k].id
                && plan.tests[i].targets == s.compilation.tests[k].targets
                && plan.tests[i].generated == s.compilation.tests[k].generated,
{
    lemma_planned(s);
    let test = s.compilation.tests[k];
    let f = planned_test(s);
    if forall|t: int|
        0 <= t < test.targets.len() ==> required(
            s.compilation.models,
            member_names(s.selection.members),
            s.excluded(),
            #[trigger] test.targets[t],
        ) {
        assert(test_planned(s, test));
        let p = f(test)[0];
        assert(f(s.compilation.tests[k]).contains(p));
        lemma_gather_member(s.compilation.tests, f, p);
        let i = choose|i: int| 0 <= i < plan.tests.len() && plan.tests[i] == p;
        assert(plan.tests[i].id == test.id);
    }
}

/// A planned test reads required models only.
pub proof fn law_planned_tests_read_planned_models(s: PlanSetting, plan: PlanView, i: int, t: int)
    requires
        is_plan(s, plan),
        0 <= i < plan.tests.len(),
        0 <= t < plan.tests[i].targets.len(),
    ensures
        required(
            s.compilation.models,
            member_names(s.selection.members),
            s.excluded(),
            plan.tests[i].targets[t],
        ),
        exists|k: int|
            0 <= k < s.compilation.tests.len() && (#[trigger] s.compilation.tests[k]).id
                == plan.tests[i].id && s.compilation.tests[k].targets == plan.tests[i].targets,
{
    lemma_planned(s);
    let f = planned_test(s);
    let p = plan.tests[i];
    assert(plan.tests.contains(p));
    lemma_gather_member(s.compilation.tests, f, p);
    let k = choose|k: int|
        0 <= k < s.compilation.tests.len() && f(#[trigger] s.compilation.tests[k]).contains(p);
    assert(s.compilation.tests[k].targets == p.targets);
    assert(s.planned().contains(s.compilation.tests[k].targets[t]));
}

proof fn lemma_seeds_behind(s: PlanSetting, sources: Seq<SourceIdView>, k: int)
    requires
        0 <= k < sources.len(),
    ensures
        ascending(seeds_behind(s, sources)),
        backing_seed(sources[k], s.compilation.seeds, s.places()) matches Some(seed) ==> has_name(
            seeds_behind(s, sources),
            seed.name,
        ),
    decreases sources.len(),
{
    lemma_seeds_ascend(s, sources);
    let rest = sources.drop_last();
    lemma_seeds_ascend(s, rest);
    let before = seeds_behind(s, rest);
    let found = backing_seed(sources[k], s.compilation.seeds, s.places());
    let last = backing_seed(sources.last(), s.compilation.seeds, s.places());
    if last is Some {
        lemma_with_name(before, last->0.name, last->0);
    }
    if k < rest.len() {
        lemma_seeds_behind(s, rest, k);
        assert(rest[k] == sources[k]);
        if found is Some {
            assert(named(before, found->0.name) is Some);
            assert(named(seeds_behind(s, sources), found->0.name) is Some);
        }
    } else if found is Some {
        assert(named(seeds_behind(s, sources), found->0.name) is Some);
    }
}

proof fn lemma_seeds_ascend(s: PlanSetting, sources: Seq<SourceIdView>)
    ensures
        ascending(seeds_behind(s, sources)),
    decreases sources.len(),
{
    if sources.len() > 0 {
        lemma_seeds_ascend(s, sources.drop_last());
        let last = backing_seed(sources.last(), s.compilation.seeds, s.places());
        if last is Some {
            lemma_with_name(seeds_behind(s, sources.drop_last()), last->0.name, last->0);
        }
    }
}

/// The seed behind a source that a required model reads is part of the plan.
pub proof fn law_seeds_behind_models_are_planned(
    s: PlanSetting,
    plan: PlanView,
    id: Seq<char>,
    source: SourceIdView,
)
    requires
        is_plan(s, plan),
        required(s.compilation.models, member_names(s.selection.members), s.excluded(), id),
        model_named(s.compilation.models, id) is Some,
        model_named(s.compilation.models, id)->0.source_dependencies.contains(source),
        backing_seed(source, s.compilation.seeds, s.places()) is Some,
    ensures
        exists|i: int|
            0 <= i < plan.seeds.len() && (#[trigger] plan.seeds[i]).name == backing_seed(
                source,
                s.compilation.seeds,
                s.places(),
            )->0.name,
{
    lemma_planned(s);
    let seed = backing_seed(source, s.compilation.seeds, s.places())->0;
    let f = sources_of(s);
    let planned = s.planned();
    assert(planned.contains(id));
    let k = choose|k: int| 0 <= k < planned.len() && planned[k] == id;
    assert(f(planned[k]).contains(source));
    lemma_gather_member(planned, f, source);
    let a = gather(planned, f);
    let n = choose|n: int| 0 <= n < a.len() && a[n] == source;
    let all = plan_sources(s);
    assert(all[n] == source);
    lemma_seeds_behind(s, all, n);
    let needed = seeds_behind(s, all);
    let i = choose|i: int| 0 <= i < needed.len() && (#[trigger] needed[i]).0 == seed.name;
    lemma_seed_names(s, all, i);
    assert(plan.seeds[i] == planned_seed(s, needed[i].1));
    assert(plan.seeds[i].name == seed.name);
}

proof fn lemma_seed_names(s: PlanSetting, sources: Seq<SourceIdView>, i: int)
    requires
        0 <= i < seeds_behind(s, sources).len(),
    ensures
        seeds_behind(s, sources)[i].1.name == seeds_behind(s, sources)[i].0,
        exists|k: int|
            0 <= k < sources.len() && backing_seed(
                #[trigger] sources[k],
                s.compilation.seeds,
                s.places(),
            ) == Some(seeds_behind(s, sources)[i].1),
    decreases sources.len(),
{
    let rest = sources.drop_last();
    let before = seeds_behind(s, rest);
    let last = backing_seed(sources.last(), s.compilation.seeds, s.places());
    let all = seeds_behind(s, sources);
    lemma_seeds_ascend(s, rest);
    lemma_seeds_ascend(s, sources);
    if last is Some {
        lemma_with_name(before, last->0.name, last->0);
        crate::names::lemma_name_unique(all, i);
        if all[i].0 == last->0.name {
            assert(sources[sources.len() - 1] == sources.last());
        } else {
            assert(named(before, all[i].0) == Some(all[i].1));
            let j = crate::names::name_index(before, all[i].0);
            assert(has_name(before, all[i].0));
            assert(before[j] == all[i]);
            lemma_seed_names(s, rest, j);
            let k = choose|k: int|
                0 <= k < rest.len() && backing_seed(
                    #[trigger] rest[k],
                    s.compilation.seeds,
                    s.places(),
                ) == Some(before[j].1);
            assert(sources[k] == rest[k]);
        }
    } else {
        lemma_seed_names(s, rest, i);
        let k = choose|k: int|
            0 <= k < rest.len() && backing_seed(
                #[trigger] rest[k],
                s.compilation.seeds,
                s.places(),
            ) == Some(before[i].1);
        assert(sources[k] == rest[k]);
    }
}

/// Each seed of a plan is a seed of the workspace at its content, with the action
/// decided from what is observed of it; a blocked plan decides nothing.
pub proof fn law_planned_seeds_are_the_workspaces(s: PlanSetting, plan: PlanView, i: int)
    requires
        is_plan(s, plan),
        0 <= i < plan.seeds.len(),
    ensures
        exists|seed: CompiledSeedView| #[trigger]
            s.compilation.seeds.contains(seed) && {
                let p = plan.seeds[i];
                let seen = named(s.observed.seeds, seed.name);
                let current = if s.planner.has_state && seen is Some {
                    seen->0.current
                } else {
                    None
                };
                &&& p.name == seed.name
                &&& p.path == seed.path
                &&& p.desired_version == seed.content_hash
                &&& p.action == (if s.compilation.ok {
                    seed_decision(
                        s.planner.has_state,
                        seed,
                        p.target,
                        seen is Some && seen->0.exists,
                        current,
                        s.force,
                    ).0
                } else {
                    PlanAction::Unknown
                })
            },
{
    let all = plan_sources(s);
    let needed = seeds_behind(s, all);
    lemma_seed_names(s, all, i);
    let seed = needed[i].1;
    assert(plan.seeds[i] == planned_seed(s, seed));
    let k = choose|k: int|
        0 <= k < all.len() && backing_seed(#[trigger] all[k], s.compilation.seeds, s.places())
            == Some(seed);
    crate::seqs::lemma_first_found(
        s.compilation.seeds,
        crate::source_state::loads_into(
            relation_text(
                crate::source_state::source_relation(all[k], s.places().catalog, s.places().schema),
            ),
            s.places().catalog,
            s.places().schema,
            s.places().adapter,
        ),
    );
    assert(s.compilation.seeds.contains(seed));
}

/// The reads of excluded relations that a plan warns of are exactly those that a
/// required model makes.
pub proof fn law_excluded_reads_are_reported(s: PlanSetting, id: Seq<char>, dep: Seq<char>)
    ensures
        excluded_reads(s).contains((id, dep)) <==> {
            &&& required(s.compilation.models, member_names(s.selection.members), s.excluded(), id)
            &&& deps_of(s.compilation.models, id).contains(dep)
            &&& s.excluded().contains(dep)
            &&& model_named(s.compilation.models, dep) is Some
            &&& model_named(s.compilation.models, dep)->0.config.materialization
                != Materialization::Ephemeral
        },
{
    lemma_planned(s);
    let f = excluded_reads_of(s);
    let g = if_excluded(s, id);
    let planned = s.planned();
    let deps = deps_of(s.models(), id);
    lemma_gather_member(planned, f, (id, dep));
    lemma_gather_member(deps, g, (id, dep));
    if excluded_reads(s).contains((id, dep)) {
        let k = choose|k: int| 0 <= k < planned.len() && f(#[trigger] planned[k]).contains(
            (id, dep),
        );
        let owner = planned[k];
        let h = if_excluded(s, owner);
        lemma_gather_member(deps_of(s.models(), owner), h, (id, dep));
        let m = choose|m: int|
            0 <= m < deps_of(s.models(), owner).len() && h(
                #[trigger] deps_of(s.models(), owner)[m],
            ).contains((id, dep));
        assert(h(deps_of(s.models(), owner)[m])[0] == (owner, deps_of(s.models(), owner)[m]));
        assert(owner == id);
        assert(deps_of(s.models(), owner)[m] == dep);
        assert(planned.contains(id));
    }
    if required(s.compilation.models, member_names(s.selection.members), s.excluded(), id)
        && deps.contains(dep) && s.excluded().contains(dep) && model_named(
        s.compilation.models,
        dep,
    ) is Some && model_named(s.compilation.models, dep)->0.config.materialization
        != Materialization::Ephemeral {
        let m = choose|m: int| 0 <= m < deps.len() && deps[m] == dep;
        assert(g(deps[m])[0] == (id, dep));
        assert(g(deps[m]).contains((id, dep)));
        assert(planned.contains(id));
        let k = choose|k: int| 0 <= k < planned.len() && planned[k] == id;
        assert(f(planned[k]).contains((id, dep)));
    }
}

/// A plan says which of its models were matched, expanded to, or merely required.
pub proof fn law_selection_reports_memberships(s: PlanSetting, plan: PlanView, i: int)
    requires
        is_plan(s, plan),
        0 <= i < plan.models.len(),
    ensures
        plan.models[i].membership == Membership::Selected <==> plan.selection.matched.contains(
            plan.models[i].id,
        ),
        plan.models[i].membership == Membership::Expanded <==> plan.selection.expanded.contains(
            plan.models[i].id,
        ),
        plan.models[i].membership == Membership::Dependency <==> plan.selection.required.contains(
            plan.models[i].id,
        ),
{
    let order = plan_order(s);
    let wanted = choose|wanted: Seq<Option<Seq<char>>>| #[trigger]
        explains(s, order, wanted) && plan.models == planned_models(s, order, wanted)
            && plan.selection == crate::planner::selection_report(s, order);
    law_plan_holds_required_relations(s, i);
    law_models_are_found_by_name(s.models(), order[i]);
    assert(plan.models[i] == planned_model(s, order[i], order.take(i + 1), wanted[i]));
    lemma_member_listed(s, order, i, Membership::Selected);
    lemma_member_listed(s, order, i, Membership::Expanded);
    lemma_member_listed(s, order, i, Membership::Dependency);
}

proof fn lemma_member_listed(s: PlanSetting, order: Seq<Seq<char>>, i: int, kind: Membership)
    requires
        0 <= i < order.len(),
    ensures
        gather(order, if_member(s, kind)).contains(order[i]) <==> membership_of(s, order[i])
            == kind,
{
    let f = if_member(s, kind);
    let id = order[i];
    lemma_gather_member(order, f, id);
    if membership_of(s, id) == kind {
        assert(f(order[i])[0] == id);
        assert(f(order[i]).contains(id));
    }
    if gather(order, f).contains(id) {
        let k = choose|k: int| 0 <= k < order.len() && f(#[trigger] order[k]).contains(id);
        assert(order[k] == id);
    }
}

/// A plan is made for the environment and adapter that it was asked for, and is
/// blocked exactly where the workspace does not compile.
pub proof fn law_plans_are_for_their_setting(s: PlanSetting, plan: PlanView)
    requires
        is_plan(s, plan),
    ensures
        plan.environment == s.environment,
        plan.adapter == s.planner.adapter,
        plan.blocked <==> !s.compilation.ok,
        plan.diagnostics == s.compilation.diagnostics,
        plan.warnings.len() == excluded_reads(s).len(),
        plan.selection.terms == s.selection.terms,
        plan.selection.exclude == s.selection.exclude_terms,
{
}

/// A selection cannot be planned exactly where a required model reads an excluded
/// relation that does not exist.
pub proof fn law_missing_excluded_relations_refuse_a_plan(s: PlanSetting)
    ensures
        first_where(excluded_reads(s), never_materialised(s)) is Some <==> s.compilation.ok
            && exists|k: int|
            0 <= k < excluded_reads(s).len() && !evidence_on(
                s,
                (#[trigger] excluded_reads(s)[k]).1,
            ).exists,
{
    let reads = excluded_reads(s);
    let p = never_materialised(s);
    lemma_first_found(reads, p);
    if first_where(reads, p) is Some {
        let a = first_where(reads, p)->0;
        let k = choose|k: int| 0 <= k < reads.len() && reads[k] == a;
        assert(!evidence_on(s, reads[k].1).exists);
    }
    if s.compilation.ok && exists|k: int|
        0 <= k < reads.len() && !evidence_on(s, (#[trigger] reads[k]).1).exists {
        let k = choose|k: int|
            0 <= k < reads.len() && !evidence_on(s, (#[trigger] reads[k]).1).exists;
        assert(p(reads[k]));
    }
}

/// The excluded models are those that the selection names as excluded.
pub proof fn law_exclusions_are_the_selections(s: PlanSetting, id: Seq<char>)
    ensures
        s.excluded().contains(id) <==> s.selection.excluded.contains(id),
        member_names(s.selection.members).contains(id) <==> has_name(s.selection.members, id),
{
    lemma_with_members(Seq::empty(), s.selection.excluded);
    assert(!Seq::<Seq<char>>::empty().contains(id));
    let members = s.selection.members;
    let names = member_names(members);
    if names.contains(id) {
        let k = choose|k: int| 0 <= k < names.len() && names[k] == id;
        assert(members[k].0 == id);
    }
    if has_name(members, id) {
        let k = choose|k: int| 0 <= k < members.len() && (#[trigger] members[k]).0 == id;
        assert(names[k] == id);
    }
}

/// A selection by name holds exactly the models named, each matched directly, and
/// excludes none.
pub proof fn law_selections_by_name_hold_those_models(ids: Seq<Seq<char>>, id: Seq<char>)
    ensures
        ascending(selection_of(ids).members),
        has_name(selection_of(ids).members, id) <==> ids.contains(id),
        named(selection_of(ids).members, id) matches Some(member) ==> member.direct,
        selection_of(ids).excluded.len() == 0,
        selection_of(ids).terms == ids,
    decreases ids.len(),
{
    if ids.len() > 0 {
        let rest = ids.drop_last();
        law_selections_by_name_hold_those_models(rest, id);
        let before = direct_members(rest);
        lemma_with_name(before, ids.last(), direct_member());
        let now = direct_members(ids);
        assert(named(now, id) == if id == ids.last() {
            Some(direct_member())
        } else {
            named(before, id)
        });
        if ids.contains(id) {
            let k = choose|k: int| 0 <= k < ids.len() && ids[k] == id;
            if k < rest.len() {
                assert(rest[k] == id);
            }
        }
        if rest.contains(id) {
            let k = choose|k: int| 0 <= k < rest.len() && rest[k] == id;
            assert(ids[k] == id);
        }
        assert(ids[ids.len() - 1] == ids.last());
        assert(has_name(now, id) <==> named(now, id) is Some);
        assert(has_name(before, id) <==> named(before, id) is Some);
    }
}

} // verus!
