//! Continuing runs: resuming an interrupted one, retrying the failed part of a
//! finished one.

use vstd::prelude::*;

use crate::error::{EngineError, EngineErrorView};
use crate::events::ExecutionStatus;
use crate::names::{with_members, NameSet};
use crate::plan::{
    plain, Plan, PlanAction, PlanReason, PlanSelection, PlanSelectionView, PlanView, PlannedModel,
    PlannedModelView, PlannedSeed, PlannedSeedView, PlannedTest, PlannedTestView, ReasonKind,
};
use crate::resume_laws::{failed_there, law_retries_take_up_what_fell_short, left_over};
use crate::runner::{reusable, seed_reusable, PriorRun, PriorRunView};
use crate::run::short_id;
use crate::seqs::{
    first_where, gather, last_where, lemma_first_ends, lemma_first_step, lemma_gather_ends,
    lemma_gather_step, lemma_last_ends, lemma_last_step,
};
use crate::state::{
    ModelRunRecord, ModelRunRecordView, RunRecord, RunRecordView, RunSummary, RunSummaryView,
    StoredPlan, StoredPlanModel, StoredPlanModelView, StoredPlanSeed, StoredPlanSeedView,
    StoredPlanView, StoredRun, StoredRunView, TestRunRecord, TestRunRecordView,
};
use crate::text::{
    cat2, cat3, cat5, cat7, decimal_text, decimal_usize, head_text, holds, none_of, one_of, put,
    put_all, same, same_option, DeepClone,
};
use crate::workspace::{
    model_named, seed_named, Compilation, CompilationView, CompiledTest, CompiledTestView,
};

verus! {

/// How an optional text is written for debugging.
pub uninterp spec fn debug_text(value: Option<Seq<char>>) -> Seq<char>;

/// The debug form of an optional string, as `format!` writes it with `{:?}`:
/// a function of the value alone.
#[verifier::external_body]
fn debug_option(value: &Option<String>) -> (r: String)
    ensures
        r@ == debug_text(value.deep_view()),
{
    format!("{:?}", value)
}

/// The full id of the one run that an id or prefix matches, given the runs
/// that it matches.
pub open spec fn resolved_run(
    matches: Seq<RunSummaryView>,
    id_or_prefix: Seq<char>,
) -> Result<Seq<char>, EngineErrorView> {
    if matches.len() == 0 {
        Err(EngineErrorView::InvalidPlan("no run matches `"@ + id_or_prefix + "`"@))
    } else if matches.len() == 1 {
        Ok(matches[0].run_id)
    } else {
        Err(
            EngineErrorView::InvalidPlan(
                "`"@ + id_or_prefix + "` matches "@ + decimal_text(matches.len())
                    + " runs; give a longer prefix"@,
            ),
        )
    }
}

/// Resolve a run id or unique prefix to a full run id.
pub fn resolve_run_id(matches: &Vec<RunSummary>, id_or_prefix: &str) -> (r: Result<
    String,
    EngineError,
>)
    ensures
        match resolved_run(matches.deep_view(), id_or_prefix@) {
            Ok(id) => r matches Ok(run_id) && run_id@ == id,
            Err(error) => r matches Err(e) && e.deep_view() == error,
        },
{
    assert(matches.deep_view().len() == matches@.len());
    if matches.len() == 0 {
        Err(EngineError::InvalidPlan(cat3("no run matches `", id_or_prefix, "`")))
    } else if matches.len() == 1 {
        assert(matches.deep_view()[0] == matches@[0].deep_view());
        Ok(matches[0].run_id.clone())
    } else {
        Err(
            EngineError::InvalidPlan(
                cat5(
                    "`",
                    id_or_prefix,
                    "` matches ",
                    decimal_usize(matches.len()).as_str(),
                    " runs; give a longer prefix",
                ),
            ),
        )
    }
}

/// The complaint that an environment is not the one a run targeted.
pub open spec fn wrong_environment(
    record: RunRecordView,
    verb: Seq<char>,
    environment: Option<Seq<char>>,
) -> Seq<char> {
    "run "@ + head_text(record.run_id, 8) + " targeted environment "@ + debug_text(
        record.environment,
    ) + "; refusing to "@ + verb + (" into "@ + debug_text(environment))
}

fn wrong_environment_text(record: &RunRecord, verb: &str, environment: &Option<String>) -> (r:
    String)
    ensures
        r@ == wrong_environment(record.deep_view(), verb@, environment.deep_view()),
{
    let tail: String = cat2(" into ", debug_option(environment).as_str());
    cat7(
        "run ",
        short_id(record.run_id.as_str()).as_str(),
        " targeted environment ",
        debug_option(&record.environment).as_str(),
        "; refusing to ",
        verb,
        tail.as_str(),
    )
}

/// The complaint that something a run executed is gone from the workspace.
pub open spec fn gone(
    run_id: Seq<char>,
    what: Seq<char>,
    name: Seq<char>,
) -> EngineErrorView {
    EngineErrorView::InvalidPlan(
        "run "@ + head_text(run_id, 8) + " is incompatible with the workspace: "@ + what + " `"@
            + name + "` no longer exists"@,
    )
}

fn gone_error(run_id: &str, what: &str, name: &str) -> (r: EngineError)
    ensures
        r.deep_view() == gone(run_id@, what@, name@),
{
    EngineError::InvalidPlan(
        cat7(
            "run ",
            short_id(run_id).as_str(),
            " is incompatible with the workspace: ",
            what,
            " `",
            name,
            "` no longer exists",
        ),
    )
}

/// A complaint about a run by its short id.
pub open spec fn about_run(run_id: Seq<char>, text: Seq<char>) -> EngineErrorView {
    EngineErrorView::InvalidPlan("run "@ + head_text(run_id, 8) + text)
}

fn run_error(run_id: &str, text: &str) -> (r: EngineError)
    ensures
        r.deep_view() == about_run(run_id@, text@),
{
    EngineError::InvalidPlan(cat3("run ", short_id(run_id).as_str(), text))
}

/// Picks a stored model that the workspace no longer has.
pub open spec fn model_gone(compilation: CompilationView) -> spec_fn(StoredPlanModelView) -> bool {
    |model: StoredPlanModelView| model_named(compilation.models, model.id) is None
}

/// Picks a stored seed that the workspace no longer has.
pub open spec fn seed_gone(compilation: CompilationView) -> spec_fn(StoredPlanSeedView) -> bool {
    |seed: StoredPlanSeedView| seed_named(compilation.seeds, seed.name) is None
}

/// The plan that a stored run can be resumed with, or why it cannot be
/// resumed. Resume continues an interrupted run, still running after a kill or
/// cancelled; a finished failed run is retried as a new run, so that its
/// history stays immutable. Every node the run executed must still exist; a
/// changed desired version is no obstacle, it only means that the stale
/// success cannot be reused.
pub open spec fn resumable(
    compilation: CompilationView,
    has_state: bool,
    stored: Option<StoredRunView>,
    id_or_prefix: Seq<char>,
    environment: Option<Seq<char>>,
) -> Result<StoredPlanView, EngineErrorView> {
    if !compilation.ok {
        Err(EngineErrorView::Compilation)
    } else if !has_state {
        Err(EngineErrorView::State("resume requires a state store"@))
    } else {
        match stored {
            None => Err(EngineErrorView::InvalidPlan("no run `"@ + id_or_prefix + "`"@)),
            Some(run) => match run.plan {
                None => Err(
                    about_run(
                        run.record.run_id,
                        " predates resumable run state; rerun its failed work with `--retry-failed`"@,
                    ),
                ),
                Some(manifest) => if run.record.status == ExecutionStatus::Passed {
                    Err(about_run(run.record.run_id, " already passed — nothing to resume"@))
                } else if run.record.status == ExecutionStatus::Failed {
                    Err(
                        about_run(
                            run.record.run_id,
                            " already finished — retry its failed work with `--retry-failed`"@,
                        ),
                    )
                } else if environment != run.record.environment {
                    Err(
                        EngineErrorView::InvalidPlan(
                            wrong_environment(run.record, "resume"@, environment),
                        ),
                    )
                } else if first_where(manifest.models, model_gone(compilation)) is Some {
                    Err(
                        gone(
                            run.record.run_id,
                            "model"@,
                            first_where(manifest.models, model_gone(compilation))->0.id,
                        ),
                    )
                } else if first_where(manifest.seeds, seed_gone(compilation)) is Some {
                    Err(
                        gone(
                            run.record.run_id,
                            "seed"@,
                            first_where(manifest.seeds, seed_gone(compilation))->0.name,
                        ),
                    )
                } else {
                    Ok(manifest)
                },
            },
        }
    }
}

fn find_gone_model<'a>(items: &'a Vec<StoredPlanModel>, compilation: &Compilation) -> (r: Option<
    &'a StoredPlanModel,
>)
    ensures
        r.deep_view() == first_where(items.deep_view(), model_gone(compilation.deep_view())),
{
    let ghost views = items.deep_view();
    let ghost p = model_gone(compilation.deep_view());
    proof {
        lemma_first_ends(views, p);
    }
    for i in 0..items.len()
        invariant
            views == items.deep_view(),
            p == model_gone(compilation.deep_view()),
            first_where(views, p) == first_where(views.skip(i as int), p),
    {
        proof {
            lemma_first_step(views, i as int, p);
        }
        assert(views[i as int] == items@[i as int].deep_view());
        if compilation.model(items[i].id.as_str()).is_none() {
            return Some(&items[i]);
        }
    }
    proof {
        lemma_first_ends(views, p);
    }
    None
}

fn find_gone_seed<'a>(items: &'a Vec<StoredPlanSeed>, compilation: &Compilation) -> (r: Option<
    &'a StoredPlanSeed,
>)
    ensures
        r.deep_view() == first_where(items.deep_view(), seed_gone(compilation.deep_view())),
{
    let ghost views = items.deep_view();
    let ghost p = seed_gone(compilation.deep_view());
    proof {
        lemma_first_ends(views, p);
    }
    for i in 0..items.len()
        invariant
            views == items.deep_view(),
            p == seed_gone(compilation.deep_view()),
            first_where(views, p) == first_where(views.skip(i as int), p),
    {
        proof {
            lemma_first_step(views, i as int, p);
        }
        assert(views[i as int] == items@[i as int].deep_view());
        if compilation.seed(items[i].name.as_str()).is_none() {
            return Some(&items[i]);
        }
    }
    proof {
        lemma_first_ends(views, p);
    }
    None
}

/// The plan that a stored run can be resumed with, or why it cannot be
/// resumed. The run keeps its original id.
pub fn resume(
    compilation: &Compilation,
    has_state: bool,
    stored: Option<&StoredRun>,
    id_or_prefix: &str,
    environment: &Option<String>,
) -> (r: Result<StoredPlan, EngineError>)
    ensures
        match resumable(
            compilation.deep_view(),
            has_state,
            stored.deep_view(),
            id_or_prefix@,
            environment.deep_view(),
        ) {
            Ok(manifest) => r matches Ok(plan) && plan.deep_view() == manifest,
            Err(error) => r matches Err(e) && e.deep_view() == error,
        },
{
    if !compilation.ok {
        return Err(EngineError::Compilation);
    }
    if !has_state {
        return Err(EngineError::State("resume requires a state store".to_owned()));
    }
    let run: &StoredRun = match stored {
        Some(run) => run,
        None => {
            return Err(EngineError::InvalidPlan(cat3("no run `", id_or_prefix, "`")));
        },
    };
    let run_id: &str = run.record.run_id.as_str();
    let manifest: &StoredPlan = match &run.plan {
        Some(manifest) => manifest,
        None => {
            return Err(
                run_error(
                    run_id,
                    " predates resumable run state; rerun its failed work with `--retry-failed`",
                ),
            );
        },
    };
    if run.record.status == ExecutionStatus::Passed {
        return Err(run_error(run_id, " already passed — nothing to resume"));
    }
    if run.record.status == ExecutionStatus::Failed {
        return Err(
            run_error(
                run_id,
                " already finished — retry its failed work with `--retry-failed`",
            ),
        );
    }
    if !same_option(environment, &run.record.environment) {
        return Err(
            EngineError::InvalidPlan(wrong_environment_text(&run.record, "resume", environment)),
        );
    }
    if let Some(model) = find_gone_model(&manifest.models, compilation) {
        return Err(gone_error(run_id, "model", model.id.as_str()));
    }
    if let Some(seed) = find_gone_seed(&manifest.seeds, compilation) {
        return Err(gone_error(run_id, "seed", seed.name.as_str()));
    }
    Ok(manifest.deep_clone())
}

/// Picks the stored model of a given name.
pub open spec fn stores_model(id: Seq<char>) -> spec_fn(StoredPlanModelView) -> bool {
    |model: StoredPlanModelView| model.id == id
}

/// Picks the stored seed of a given name.
pub open spec fn stores_seed(name: Seq<char>) -> spec_fn(StoredPlanSeedView) -> bool {
    |seed: StoredPlanSeedView| seed.name == name
}

/// How a model of a resumed run came to be there.
pub open spec fn provenance(prior: PriorRunView, id: Seq<char>, reused: bool) -> Seq<char> {
    if reused {
        "passed earlier in this run at the same version — reused"@
    } else {
        match crate::names::named(prior.models, id) {
            Some(record) => if record.status.terminal() {
                "resumed run; previous status was "@ + record.status.label_text()
            } else {
                "resumed run; execution was interrupted"@
            },
            None => "resumed run; model never started"@,
        }
    }
}

/// A freshly planned model within a resumed run. An earlier success is reused
/// only where the version it built is still desired and its relation is still
/// there; everything else executes exactly as freshly planned.
pub open spec fn resumed_model(
    model: PlannedModelView,
    prior: PriorRunView,
    manifest: StoredPlanView,
) -> PlannedModelView {
    let reused = model.exists && reusable(prior, model.id, model.desired_version);
    let stored = last_where(manifest.models, stores_model(model.id));
    let moved = !reused && stored is Some && stored->0.desired_version != model.desired_version;
    PlannedModelView {
        action: if reused {
            PlanAction::Skip
        } else {
            model.action
        },
        reasons: seq![plain(ReasonKind::ResumedRun, provenance(prior, model.id, reused))]
            + model.reasons + (if moved {
            seq![
                plain(
                    ReasonKind::ResumedRun,
                    "desired version changed since the original run"@,
                ),
            ]
        } else {
            Seq::empty()
        }),
        ..model
    }
}

/// A freshly planned seed within a resumed run; `exists` says whether its
/// relation is there.
pub open spec fn resumed_seed(
    seed: PlannedSeedView,
    exists: bool,
    prior: PriorRunView,
    manifest: StoredPlanView,
) -> PlannedSeedView {
    let stored = match last_where(manifest.seeds, stores_seed(seed.name)) {
        Some(found) => found.desired_version,
        None => Seq::empty(),
    };
    if exists && seed_reusable(prior, seed.name, stored, seed.desired_version) {
        PlannedSeedView {
            action: PlanAction::Skip,
            reasons: seq![
                plain(ReasonKind::ResumedRun, "loaded earlier in this run — reused"@),
            ] + seed.reasons,
            ..seed
        }
    } else {
        seed
    }
}

/// A fresh plan as the plan of a resumed run.
pub open spec fn resumed_plan(
    plan: PlanView,
    record: RunRecordView,
    manifest: StoredPlanView,
    prior: PriorRunView,
    seed_exists: Seq<bool>,
) -> PlanView {
    PlanView {
        id: record.plan_id,
        environment: record.environment,
        selection: PlanSelectionView {
            terms: seq!["--resume "@ + head_text(record.run_id, 8)],
            exclude: Seq::empty(),
            matched: Seq::empty(),
            expanded: Seq::empty(),
            required: Seq::empty(),
        },
        git: None,
        models: Seq::new(
            plan.models.len(),
            |i: int| resumed_model(plan.models[i], prior, manifest),
        ),
        seeds: Seq::new(
            plan.seeds.len(),
            |i: int| resumed_seed(plan.seeds[i], seed_exists[i], prior, manifest),
        ),
        ..plan
    }
}

fn find_stored_model<'a>(items: &'a Vec<StoredPlanModel>, id: &str) -> (r: Option<
    &'a StoredPlanModel,
>)
    ensures
        r.deep_view() == last_where(items.deep_view(), stores_model(id@)),
{
    let ghost views = items.deep_view();
    let ghost p = stores_model(id@);
    proof {
        lemma_last_ends(views, p);
    }
    let mut found: Option<&StoredPlanModel> = None;
    for i in 0..items.len()
        invariant
            views == items.deep_view(),
            p == stores_model(id@),
            found.deep_view() == last_where(views.take(i as int), p),
    {
        proof {
            lemma_last_step(views, i as int, p);
        }
        assert(views[i as int] == items@[i as int].deep_view());
        if same(items[i].id.as_str(), id) {
            found = Some(&items[i]);
        }
    }
    proof {
        lemma_last_ends(views, p);
    }
    found
}

fn find_stored_seed<'a>(items: &'a Vec<StoredPlanSeed>, name: &str) -> (r: Option<
    &'a StoredPlanSeed,
>)
    ensures
        r.deep_view() == last_where(items.deep_view(), stores_seed(name@)),
{
    let ghost views = items.deep_view();
    let ghost p = stores_seed(name@);
    proof {
        lemma_last_ends(views, p);
    }
    let mut found: Option<&StoredPlanSeed> = None;
    for i in 0..items.len()
        invariant
            views == items.deep_view(),
            p == stores_seed(name@),
            found.deep_view() == last_where(views.take(i as int), p),
    {
        proof {
            lemma_last_step(views, i as int, p);
        }
        assert(views[i as int] == items@[i as int].deep_view());
        if same(items[i].name.as_str(), name) {
            found = Some(&items[i]);
        }
    }
    proof {
        lemma_last_ends(views, p);
    }
    found
}

fn provenance_of(prior: &PriorRun, id: &str, reused: bool) -> (r: String)
    ensures
        r@ == provenance(prior.deep_view(), id@, reused),
{
    if reused {
        "passed earlier in this run at the same version — reused".to_owned()
    } else {
        match prior.models.get(id) {
            Some(record) => if record.status.is_terminal() {
                cat2("resumed run; previous status was ", record.status.label())
            } else {
                "resumed run; execution was interrupted".to_owned()
            },
            None => "resumed run; model never started".to_owned(),
        }
    }
}

fn resume_model(model: &PlannedModel, prior: &PriorRun, manifest: &StoredPlan) -> (r: PlannedModel)
    ensures
        r.deep_view() == resumed_model(
            model.deep_view(),
            prior.deep_view(),
            manifest.deep_view(),
        ),
{
    let reused: bool = model.exists && prior.reusable_model(
        model.id.as_str(),
        model.desired_version.as_str(),
    );
    let mut reasons: Vec<PlanReason> = one_of(
        PlanReason::simple(
            ReasonKind::ResumedRun,
            provenance_of(prior, model.id.as_str(), reused),
        ),
    );
    put_all(&mut reasons, model.reasons.deep_clone());
    let moved: bool = !reused && match find_stored_model(&manifest.models, model.id.as_str()) {
        Some(stored) => !same(stored.desired_version.as_str(), model.desired_version.as_str()),
        None => false,
    };
    let ghost so_far = reasons.deep_view();
    if moved {
        put(
            &mut reasons,
            PlanReason::simple(
                ReasonKind::ResumedRun,
                "desired version changed since the original run".to_owned(),
            ),
        );
    }
    let ghost want = resumed_model(model.deep_view(), prior.deep_view(), manifest.deep_view());
    assert(reasons.deep_view() =~= want.reasons);
    PlannedModel {
        action: if reused {
            PlanAction::Skip
        } else {
            model.action
        },
        reasons,
        ..model.deep_clone()
    }
}

fn resume_seed(
    seed: &PlannedSeed,
    exists: bool,
    prior: &PriorRun,
    manifest: &StoredPlan,
) -> (r: PlannedSeed)
    ensures
        r.deep_view() == resumed_seed(
            seed.deep_view(),
            exists,
            prior.deep_view(),
            manifest.deep_view(),
        ),
{
    let stored: String = match find_stored_seed(&manifest.seeds, seed.name.as_str()) {
        Some(found) => found.desired_version.clone(),
        None => {
            let none: String = String::new();
            assert(none@ =~= Seq::<char>::empty());
            none
        },
    };
    if exists && prior.reusable_seed(
        seed.name.as_str(),
        stored.as_str(),
        seed.desired_version.as_str(),
    ) {
        let mut reasons: Vec<PlanReason> = one_of(
            PlanReason::simple(
                ReasonKind::ResumedRun,
                "loaded earlier in this run — reused".to_owned(),
            ),
        );
        put_all(&mut reasons, seed.reasons.deep_clone());
        PlannedSeed { action: PlanAction::Skip, reasons, ..seed.deep_clone() }
    } else {
        seed.deep_clone()
    }
}

/// Turns a fresh plan for a stored run's models into the plan that resumes the
/// run. Every decision of the fresh plan stands; only what an earlier
/// invocation verifiably completed is overlaid on top. `seed_exists` says for
/// each planned seed whether its relation is there.
pub fn resume_plan(
    plan: &Plan,
    record: &RunRecord,
    manifest: &StoredPlan,
    prior: &PriorRun,
    seed_exists: &Vec<bool>,
) -> (r: Plan)
    requires
        seed_exists@.len() == plan.seeds@.len(),
    ensures
        r.deep_view() == resumed_plan(
            plan.deep_view(),
            record.deep_view(),
            manifest.deep_view(),
            prior.deep_view(),
            seed_exists@,
        ),
{
    let mut models: Vec<PlannedModel> = Vec::new();
    for i in 0..plan.models.len()
        invariant
            models@.len() == i,
            forall|k: int|
                0 <= k < i ==> (#[trigger] models@[k]).deep_view() == resumed_model(
                    plan.models@[k].deep_view(),
                    prior.deep_view(),
                    manifest.deep_view(),
                ),
    {
        models.push(resume_model(&plan.models[i], prior, manifest));
    }
    let mut seeds: Vec<PlannedSeed> = Vec::new();
    for i in 0..plan.seeds.len()
        invariant
            seed_exists@.len() == plan.seeds@.len(),
            seeds@.len() == i,
            forall|k: int|
                0 <= k < i ==> (#[trigger] seeds@[k]).deep_view() == resumed_seed(
                    plan.seeds@[k].deep_view(),
                    seed_exists@[k],
                    prior.deep_view(),
                    manifest.deep_view(),
                ),
    {
        seeds.push(resume_seed(&plan.seeds[i], seed_exists[i], prior, manifest));
    }
    let term: String = cat2("--resume ", short_id(record.run_id.as_str()).as_str());
    let ghost want = resumed_plan(
        plan.deep_view(),
        record.deep_view(),
        manifest.deep_view(),
        prior.deep_view(),
        seed_exists@,
    );
    assert(models.deep_view() =~= want.models);
    assert(seeds.deep_view() =~= want.seeds);
    Plan {
        id: record.plan_id.clone(),
        environment: record.environment.deep_clone(),
        selection: PlanSelection {
            terms: one_of(term),
            exclude: none_of(),
            matched: none_of(),
            expanded: none_of(),
            required: none_of(),
        },
        git: None,
        models,
        seeds,
        ..plan.deep_clone()
    }
}

/// A resumed run never trusts a stale success: a model is skipped on account
/// of an earlier pass only where that pass built the version still desired and
/// the relation is still there.
pub proof fn law_resume_never_trusts_a_stale_success(
    model: PlannedModelView,
    prior: PriorRunView,
    manifest: StoredPlanView,
)
    ensures
        resumed_model(model, prior, manifest).action != model.action ==> model.exists
            && reusable(prior, model.id, model.desired_version),
        !(model.exists && reusable(prior, model.id, model.desired_version)) ==> resumed_model(
            model,
            prior,
            manifest,
        ).action == model.action,
{
}

/// Keeps the name of a model whose execution never reached a satisfied end.
pub open spec fn if_unfinished() -> spec_fn(ModelRunRecordView) -> Seq<Seq<char>> {
    |record: ModelRunRecordView|
        if record.status == ExecutionStatus::Failed || record.status == ExecutionStatus::Blocked
            || record.status == ExecutionStatus::Cancelled {
            seq![record.model_id]
        } else {
            Seq::empty()
        }
}

/// Keeps the name of a test that was executed and failed. A blocked or
/// cancelled test never ran; it rides along when the models it reads are
/// rebuilt.
pub open spec fn if_failed_test() -> spec_fn(TestRunRecordView) -> Seq<Seq<char>> {
    |record: TestRunRecordView|
        if record.status == ExecutionStatus::Failed {
            seq![record.test_id]
        } else {
            Seq::empty()
        }
}

/// Picks a model name that the workspace does not have.
pub open spec fn name_gone(compilation: CompilationView) -> spec_fn(Seq<char>) -> bool {
    |id: Seq<char>| model_named(compilation.models, id) is None
}

/// Picks the test of a given name.
pub open spec fn is_test(id: Seq<char>) -> spec_fn(CompiledTestView) -> bool {
    |test: CompiledTestView| test.id == id
}

/// Picks a test name that the workspace does not have.
pub open spec fn test_gone(compilation: CompilationView) -> spec_fn(Seq<char>) -> bool {
    |id: Seq<char>| first_where(compilation.tests, is_test(id)) is None
}

/// `names` with those of `more` that it does not hold yet, in order.
pub open spec fn joined(names: Seq<Seq<char>>, more: Seq<Seq<char>>) -> Seq<Seq<char>>
    decreases more.len(),
{
    if more.len() == 0 {
        names
    } else {
        let before = joined(names, more.drop_last());
        if before.contains(more.last()) {
            before
        } else {
            before.push(more.last())
        }
    }
}

/// The models to select for a retry: the failed ones, then the targets of the
/// failed tests, so that those tests land in the plan.
pub open spec fn retry_names(
    failed: Seq<Seq<char>>,
    tests: Seq<CompiledTestView>,
    failed_tests: Seq<Seq<char>>,
) -> Seq<Seq<char>>
    decreases tests.len(),
{
    if tests.len() == 0 {
        failed
    } else {
        let before = retry_names(failed, tests.drop_last(), failed_tests);
        if failed_tests.contains(tests.last().id) {
            joined(before, tests.last().targets)
        } else {
            before
        }
    }
}

/// The part of a finished run that is to be retried.
#[derive(Clone, Debug, PartialEq, Eq)]
pub struct RetryPortion {
    /// The models that did not reach a satisfied end.
    pub models: Vec<String>,
    /// The tests that failed, in name order.
    pub tests: Vec<String>,
    /// The models to select.
    pub select: Vec<String>,
}

/// The contents of a [`RetryPortion`].
pub struct RetryPortionView {
    pub models: Seq<Seq<char>>,
    pub tests: Seq<Seq<char>>,
    pub select: Seq<Seq<char>>,
}

impl DeepView for RetryPortion {
    type V = RetryPortionView;

    open spec fn deep_view(&self) -> RetryPortionView {
        RetryPortionView {
            models: self.models.deep_view(),
            tests: self.tests.deep_view(),
            select: self.select.deep_view(),
        }
    }
}

impl DeepClone for RetryPortion {
    fn deep_clone(&self) -> (copy: Self) {
        RetryPortion {
            models: self.models.deep_clone(),
            tests: self.tests.deep_clone(),
            select: self.select.deep_clone(),
        }
    }
}

/// What is to be retried of a stored run, or why nothing can be.
pub open spec fn retriable(
    compilation: CompilationView,
    has_state: bool,
    stored: Option<StoredRunView>,
    id_or_prefix: Seq<char>,
    environment: Option<Seq<char>>,
    model_runs: Seq<ModelRunRecordView>,
    test_runs: Seq<TestRunRecordView>,
) -> Result<RetryPortionView, EngineErrorView> {
    if !compilation.ok {
        Err(EngineErrorView::Compilation)
    } else if !has_state {
        Err(EngineErrorView::State("retry requires a state store"@))
    } else {
        match stored {
            None => Err(EngineErrorView::InvalidPlan("no run `"@ + id_or_prefix + "`"@)),
            Some(run) => {
                let models = gather(model_runs, if_unfinished());
                let tests = with_members(Seq::empty(), gather(test_runs, if_failed_test()));
                if run.record.finished_at is None {
                    Err(
                        about_run(
                            run.record.run_id,
                            " did not finish — continue it with `--resume`"@,
                        ),
                    )
                } else if environment != run.record.environment {
                    Err(
                        EngineErrorView::InvalidPlan(
                            wrong_environment(run.record, "retry"@, environment),
                        ),
                    )
                } else if models.len() == 0 && tests.len() == 0 {
                    Err(
                        about_run(run.record.run_id, " has no failed or blocked work to retry"@),
                    )
                } else if first_where(models, name_gone(compilation)) is Some {
                    Err(
                        gone(
                            run.record.run_id,
                            "model"@,
                            first_where(models, name_gone(compilation))->0,
                        ),
                    )
                } else if first_where(tests, test_gone(compilation)) is Some {
                    Err(
                        gone(
                            run.record.run_id,
                            "test"@,
                            first_where(tests, test_gone(compilation))->0,
                        ),
                    )
                } else {
                    Ok(
                        RetryPortionView {
                            models,
                            tests,
                            select: retry_names(models, compilation.tests, tests),
                        },
                    )
                }
            },
        }
    }
}

fn unfinished_models(items: &Vec<ModelRunRecord>) -> (r: Vec<String>)
    ensures
        r.deep_view() == gather(items.deep_view(), if_unfinished()),
{
    let ghost views = items.deep_view();
    let ghost f = if_unfinished();
    proof {
        lemma_gather_ends(views, f);
    }
    let mut r: Vec<String> = none_of();
    for i in 0..items.len()
        invariant
            views == items.deep_view(),
            f == if_unfinished(),
            r.deep_view() == gather(views.take(i as int), f),
    {
        proof {
            lemma_gather_step(views, i as int, f);
        }
        let ghost before = r.deep_view();
        assert(views[i as int] == items@[i as int].deep_view());
        if matches!(
            items[i].status,
            ExecutionStatus::Failed | ExecutionStatus::Blocked | ExecutionStatus::Cancelled
        ) {
            put(&mut r, items[i].model_id.clone());
        }
        assert(r.deep_view() =~= before + f(views[i as int]));
    }
    r
}

fn failed_tests(items: &Vec<TestRunRecord>) -> (r: Vec<String>)
    ensures
        r.deep_view() == gather(items.deep_view(), if_failed_test()),
{
    let ghost views = items.deep_view();
    let ghost f = if_failed_test();
    proof {
        lemma_gather_ends(views, f);
    }
    let mut r: Vec<String> = none_of();
    for i in 0..items.len()
        invariant
            views == items.deep_view(),
            f == if_failed_test(),
            r.deep_view() == gather(views.take(i as int), f),
    {
        proof {
            lemma_gather_step(views, i as int, f);
        }
        let ghost before = r.deep_view();
        assert(views[i as int] == items@[i as int].deep_view());
        if items[i].status == ExecutionStatus::Failed {
            put(&mut r, items[i].test_id.clone());
        }
        assert(r.deep_view() =~= before + f(views[i as int]));
    }
    r
}

fn find_gone_name<'a>(items: &'a Vec<String>, compilation: &Compilation) -> (r: Option<&'a String>)
    ensures
        r.deep_view() == first_where(items.deep_view(), name_gone(compilation.deep_view())),
{
    let ghost views = items.deep_view();
    let ghost p = name_gone(compilation.deep_view());
    proof {
        lemma_first_ends(views, p);
    }
    for i in 0..items.len()
        invariant
            views == items.deep_view(),
            p == name_gone(compilation.deep_view()),
            first_where(views, p) == first_where(views.skip(i as int), p),
    {
        proof {
            lemma_first_step(views, i as int, p);
        }
        if compilation.model(items[i].as_str()).is_none() {
            return Some(&items[i]);
        }
    }
    proof {
        lemma_first_ends(views, p);
    }
    None
}

fn has_test(compilation: &Compilation, id: &str) -> (r: bool)
    ensures
        r == (first_where(compilation.deep_view().tests, is_test(id@)) is Some),
{
    let items: &Vec<CompiledTest> = &compilation.tests;
    let ghost views = items.deep_view();
    let ghost p = is_test(id@);
    proof {
        lemma_first_ends(views, p);
    }
    for i in 0..items.len()
        invariant
            views == items.deep_view(),
            p == is_test(id@),
            items.deep_view() == compilation.deep_view().tests,
            first_where(views, p) == first_where(views.skip(i as int), p),
    {
        proof {
            lemma_first_step(views, i as int, p);
        }
        assert(views[i as int] == items@[i as int].deep_view());
        if same(items[i].id.as_str(), id) {
            return true;
        }
    }
    proof {
        lemma_first_ends(views, p);
    }
    false
}

fn find_gone_test<'a>(items: &'a Vec<String>, compilation: &Compilation) -> (r: Option<&'a String>)
    ensures
        r.deep_view() == first_where(items.deep_view(), test_gone(compilation.deep_view())),
{
    let ghost views = items.deep_view();
    let ghost p = test_gone(compilation.deep_view());
    proof {
        lemma_first_ends(views, p);
    }
    for i in 0..items.len()
        invariant
            views == items.deep_view(),
            p == test_gone(compilation.deep_view()),
            first_where(views, p) == first_where(views.skip(i as int), p),
    {
        proof {
            lemma_first_step(views, i as int, p);
        }
        if !has_test(compilation, items[i].as_str()) {
            return Some(&items[i]);
        }
    }
    proof {
        lemma_first_ends(views, p);
    }
    None
}

fn join_names(names: &mut Vec<String>, more: &Vec<String>)
    ensures
        final(names).deep_view() == joined(old(names).deep_view(), more.deep_view()),
{
    let ghost start = names.deep_view();
    let ghost views = more.deep_view();
    assert(views.take(0) =~= Seq::<Seq<char>>::empty());
    for i in 0..more.len()
        invariant
            views == more.deep_view(),
            names.deep_view() == joined(start, views.take(i as int)),
    {
        assert(views.take(i as int + 1).drop_last() =~= views.take(i as int));
        let list: &[String] = names.as_slice();
        assert(list.deep_view() =~= names.deep_view());
        if !holds(list, more[i].as_str()) {
            put(names, more[i].clone());
        }
    }
    assert(views.take(views.len() as int) =~= views);
}

fn names_to_retry(failed: &Vec<String>, tests: &Vec<CompiledTest>, failed_tests: &Vec<String>) -> (r:
    Vec<String>)
    ensures
        r.deep_view() == retry_names(
            failed.deep_view(),
            tests.deep_view(),
            failed_tests.deep_view(),
        ),
{
    let mut r: Vec<String> = failed.deep_clone();
    let ghost views = tests.deep_view();
    let list: &[String] = failed_tests.as_slice();
    assert(list.deep_view() =~= failed_tests.deep_view());
    assert(views.take(0) =~= Seq::<CompiledTestView>::empty());
    for i in 0..tests.len()
        invariant
            views == tests.deep_view(),
            list.deep_view() == failed_tests.deep_view(),
            r.deep_view() == retry_names(
                failed.deep_view(),
                views.take(i as int),
                failed_tests.deep_view(),
            ),
    {
        assert(views.take(i as int + 1).drop_last() =~= views.take(i as int));
        assert(views[i as int] == tests@[i as int].deep_view());
        if holds(list, tests[i].id.as_str()) {
            join_names(&mut r, &tests[i].targets);
        }
    }
    assert(views.take(views.len() as int) =~= views);
    r
}

/// What is to be retried of a finished run, or why nothing can be. The retry
/// is a new run.
pub fn retry_failed(
    compilation: &Compilation,
    has_state: bool,
    stored: Option<&StoredRun>,
    id_or_prefix: &str,
    environment: &Option<String>,
    model_runs: &Vec<ModelRunRecord>,
    test_runs: &Vec<TestRunRecord>,
) -> (r: Result<RetryPortion, EngineError>)
    ensures
        match retriable(
            compilation.deep_view(),
            has_state,
            stored.deep_view(),
            id_or_prefix@,
            environment.deep_view(),
            model_runs.deep_view(),
            test_runs.deep_view(),
        ) {
            Ok(portion) => r matches Ok(p) && p.deep_view() == portion,
            Err(error) => r matches Err(e) && e.deep_view() == error,
        },
        r matches Ok(p) ==> forall|name: Seq<char>| #[trigger]
            p.models.deep_view().contains(name) <==> left_over(model_runs.deep_view(), name),
        r matches Ok(p) ==> forall|name: Seq<char>| #[trigger]
            p.tests.deep_view().contains(name) <==> failed_there(test_runs.deep_view(), name),
        r matches Ok(p) ==> forall|name: Seq<char>|
            left_over(model_runs.deep_view(), name) ==> #[trigger] p.select.deep_view().contains(
                name,
            ),
{
    if !compilation.ok {
        return Err(EngineError::Compilation);
    }
    if !has_state {
        return Err(EngineError::State("retry requires a state store".to_owned()));
    }
    let run: &StoredRun = match stored {
        Some(run) => run,
        None => {
            return Err(EngineError::InvalidPlan(cat3("no run `", id_or_prefix, "`")));
        },
    };
    let run_id: &str = run.record.run_id.as_str();
    if run.record.finished_at.is_none() {
        return Err(run_error(run_id, " did not finish — continue it with `--resume`"));
    }
    if !same_option(environment, &run.record.environment) {
        return Err(
            EngineError::InvalidPlan(wrong_environment_text(&run.record, "retry", environment)),
        );
    }
    let models: Vec<String> = unfinished_models(model_runs);
    let mut set: NameSet = NameSet::new();
    set.extend(&failed_tests(test_runs));
    let tests: Vec<String> = set.to_vec();
    assert(models.deep_view().len() == models@.len());
    assert(tests.deep_view().len() == tests@.len());
    if models.len() == 0 && tests.len() == 0 {
        return Err(run_error(run_id, " has no failed or blocked work to retry"));
    }
    if let Some(name) = find_gone_name(&models, compilation) {
        return Err(gone_error(run_id, "model", name.as_str()));
    }
    if let Some(name) = find_gone_test(&tests, compilation) {
        return Err(gone_error(run_id, "test", name.as_str()));
    }
    let select: Vec<String> = names_to_retry(&models, &compilation.tests, &tests);
    let portion: RetryPortion = RetryPortion { models, tests, select };
    proof {
        assert forall|name: Seq<char>|
            (#[trigger] portion.models.deep_view().contains(name) <==> left_over(
                model_runs.deep_view(),
                name,
            )) by {
            law_retries_take_up_what_fell_short(
                compilation.deep_view(),
                has_state,
                stored.deep_view(),
                id_or_prefix@,
                environment.deep_view(),
                model_runs.deep_view(),
                test_runs.deep_view(),
                portion.deep_view(),
                name,
            );
        }
        assert forall|name: Seq<char>|
            (#[trigger] portion.tests.deep_view().contains(name) <==> failed_there(
                test_runs.deep_view(),
                name,
            )) by {
            law_retries_take_up_what_fell_short(
                compilation.deep_view(),
                has_state,
                stored.deep_view(),
                id_or_prefix@,
                environment.deep_view(),
                model_runs.deep_view(),
                test_runs.deep_view(),
                portion.deep_view(),
                name,
            );
        }
        assert forall|name: Seq<char>|
            left_over(model_runs.deep_view(), name) implies #[trigger] portion.select.deep_view().contains(name) by {
            law_retries_take_up_what_fell_short(
                compilation.deep_view(),
                has_state,
                stored.deep_view(),
                id_or_prefix@,
                environment.deep_view(),
                model_runs.deep_view(),
                test_runs.deep_view(),
                portion.deep_view(),
                name,
            );
        }
    }
    Ok(portion)
}

/// Keeps the name of a model that the plan builds.
pub open spec fn if_built() -> spec_fn(PlannedModelView) -> Seq<Seq<char>> {
    |model: PlannedModelView|
        if model.action == PlanAction::Build {
            seq![model.id]
        } else {
            Seq::empty()
        }
}

/// Whether `list` holds any of `names`.
pub open spec fn any_of(names: Seq<Seq<char>>, list: Seq<Seq<char>>) -> bool {
    exists|i: int| 0 <= i < names.len() && list.contains(#[trigger] names[i])
}

/// Keeps a test that failed before, or that reads a model which is rebuilt:
/// its data changed, so a stale pass no longer holds.
pub open spec fn if_concerned(
    failed_tests: Seq<Seq<char>>,
    rebuilt: Seq<Seq<char>>,
) -> spec_fn(PlannedTestView) -> Seq<PlannedTestView> {
    |test: PlannedTestView|
        if failed_tests.contains(test.id) || any_of(test.targets, rebuilt) {
            seq![test]
        } else {
            Seq::empty()
        }
}

/// A plan for the failed portion of a run, its tests scoped to that portion;
/// an error where nothing is left to do.
pub open spec fn scoped_retry(
    plan: PlanView,
    failed_tests: Seq<Seq<char>>,
    run_id: Seq<char>,
) -> Result<PlanView, EngineErrorView> {
    let rebuilt = gather(plan.models, if_built());
    let tests = gather(plan.tests, if_concerned(failed_tests, rebuilt));
    if rebuilt.len() == 0 && tests.len() == 0 {
        Err(
            EngineErrorView::InvalidPlan(
                "the failed portion of run "@ + head_text(run_id, 8)
                    + " is already materialised — nothing to retry"@,
            ),
        )
    } else {
        Ok(PlanView { tests, ..plan })
    }
}

fn built_names(items: &Vec<PlannedModel>) -> (r: Vec<String>)
    ensures
        r.deep_view() == gather(items.deep_view(), if_built()),
{
    let ghost views = items.deep_view();
    let ghost f = if_built();
    proof {
        lemma_gather_ends(views, f);
    }
    let mut r: Vec<String> = none_of();
    for i in 0..items.len()
        invariant
            views == items.deep_view(),
            f == if_built(),
            r.deep_view() == gather(views.take(i as int), f),
    {
        proof {
            lemma_gather_step(views, i as int, f);
        }
        let ghost before = r.deep_view();
        assert(views[i as int] == items@[i as int].deep_view());
        if items[i].action == PlanAction::Build {
            put(&mut r, items[i].id.clone());
        }
        assert(r.deep_view() =~= before + f(views[i as int]));
    }
    r
}

fn any_held(names: &Vec<String>, list: &[String]) -> (r: bool)
    ensures
        r == any_of(names.deep_view(), list.deep_view()),
{
    let ghost views = names.deep_view();
    for i in 0..names.len()
        invariant
            views == names.deep_view(),
            forall|j: int| 0 <= j < i ==> !list.deep_view().contains(#[trigger] views[j]),
    {
        if holds(list, names[i].as_str()) {
            assert(list.deep_view().contains(views[i as int]));
            return true;
        }
    }
    false
}

fn concerned_tests(
    items: &Vec<PlannedTest>,
    failed_tests: &Vec<String>,
    rebuilt: &Vec<String>,
) -> (r: Vec<PlannedTest>)
    ensures
        r.deep_view() == gather(
            items.deep_view(),
            if_concerned(failed_tests.deep_view(), rebuilt.deep_view()),
        ),
{
    let failed: &[String] = failed_tests.as_slice();
    let built: &[String] = rebuilt.as_slice();
    assert(failed.deep_view() =~= failed_tests.deep_view());
    assert(built.deep_view() =~= rebuilt.deep_view());
    let ghost views = items.deep_view();
    let ghost f = if_concerned(failed_tests.deep_view(), rebuilt.deep_view());
    proof {
        lemma_gather_ends(views, f);
    }
    let mut r: Vec<PlannedTest> = none_of();
    for i in 0..items.len()
        invariant
            views == items.deep_view(),
            f == if_concerned(failed_tests.deep_view(), rebuilt.deep_view()),
            failed.deep_view() == failed_tests.deep_view(),
            built.deep_view() == rebuilt.deep_view(),
            r.deep_view() == gather(views.take(i as int), f),
    {
        proof {
            lemma_gather_step(views, i as int, f);
        }
        let ghost before = r.deep_view();
        assert(views[i as int] == items@[i as int].deep_view());
        if holds(failed, items[i].id.as_str()) || any_held(&items[i].targets, built) {
            put(&mut r, items[i].deep_clone());
        }
        assert(r.deep_view() =~= before + f(views[i as int]));
    }
    r
}

/// Scopes a fresh plan to the failed portion of a run.
pub fn scope_retry(plan: &Plan, failed_tests: &Vec<String>, run_id: &str) -> (r: Result<
    Plan,
    EngineError,
>)
    ensures
        match scoped_retry(plan.deep_view(), failed_tests.deep_view(), run_id@) {
            Ok(scoped) => r matches Ok(p) && p.deep_view() == scoped,
            Err(error) => r matches Err(e) && e.deep_view() == error,
        },
{
    let rebuilt: Vec<String> = built_names(&plan.models);
    let tests: Vec<PlannedTest> = concerned_tests(&plan.tests, failed_tests, &rebuilt);
    assert(rebuilt.deep_view().len() == rebuilt@.len());
    assert(tests.deep_view().len() == tests@.len());
    if rebuilt.len() == 0 && tests.len() == 0 {
        return Err(
            EngineError::InvalidPlan(
                cat3(
                    "the failed portion of run ",
                    short_id(run_id).as_str(),
                    " is already materialised — nothing to retry",
                ),
            ),
        );
    }
    Ok(Plan { tests, ..plan.deep_clone() })
}

} // verus!
