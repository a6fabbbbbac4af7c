//! What records promise: how the rows of runs change, which rows a read gives
//! back, when a model counts as changed, and how failures and datasets are
//! classified.

use vstd::prelude::*;

use crate::adapter::CatalogStatus;
use crate::audit::{
    environment_lookup, lineage_audit, EnvironmentLookupView, GitFactsView, LineageContextView,
    LineageReadingView, LineageStatus, SetupReadingView,
};
use crate::branch_diff::{dataset_diff, DatasetPlanView, DatasetReadingView, DatasetStatus};
use crate::changed::if_changed;
use crate::environment::{accepted_setup, catalog_is_owned, EnvironmentSetupView};
use crate::error::AdapterErrorView;
use crate::events::ExecutionStatus;
use crate::failure::{classified, is_sql_code, timed_out, Duration, FailureCategory};
use crate::names::named;
use crate::seqs::{gather, lemma_gather_member};
use crate::state::{
    MaterializedRecordView, ModelRunRecordView, RunSummaryView, SeedRunRecordView, StoredRunView,
    TestRunRecordView,
};
use crate::store::{
    bound_to, finished_as, label, materialized_as, materialized_under, models_of_run, reopened,
    run_summary, runs_amended, runs_starting, runs_under, seeds_of_run, tests_of_run,
    unless_model_run,
};
use crate::text::begins;
use crate::workspace::{relation_text, CompiledModelView, Materialization};

verus! {

/// Finishing a run changes that run alone: it has the status, the end and the
/// number of failures given, and everything else as it was.
pub proof fn law_finishing_changes_one_run(
    runs: Seq<StoredRunView>,
    run_id: Seq<char>,
    status: ExecutionStatus,
    finished_at: Seq<char>,
    failed_count: usize,
    i: int,
)
    requires
        0 <= i < runs.len(),
    ensures
        ({
            let after = runs_amended(runs, run_id, finished_as(status, finished_at, failed_count));
            &&& after.len() == runs.len()
            &&& runs[i].record.run_id != run_id ==> after[i] == runs[i]
            &&& runs[i].record.run_id == run_id ==> {
                &&& after[i].record.status == status
                &&& after[i].record.finished_at == Some(finished_at)
                &&& after[i].record.failed_count == failed_count
                &&& after[i].record.run_id == run_id
                &&& after[i].record.plan_id == runs[i].record.plan_id
                &&& after[i].record.environment == runs[i].record.environment
                &&& after[i].record.started_at == runs[i].record.started_at
                &&& after[i].record.reference_hash == runs[i].record.reference_hash
                &&& after[i].plan == runs[i].plan
            }
        }),
{
}

/// Reopening a run undoes its end: it is running and unfinished, and nothing
/// else of it, nor any other run, changes. Binding a run to a commit changes
/// nothing but that commit.
pub proof fn law_reopening_and_binding_change_one_run(
    runs: Seq<StoredRunView>,
    run_id: Seq<char>,
    hash: Seq<char>,
    i: int,
)
    requires
        0 <= i < runs.len(),
    ensures
        ({
            let open = runs_amended(runs, run_id, reopened());
            let bound = runs_amended(runs, run_id, bound_to(hash));
            &&& runs[i].record.run_id != run_id ==> open[i] == runs[i] && bound[i] == runs[i]
            &&& runs[i].record.run_id == run_id ==> {
                &&& open[i].record.status == ExecutionStatus::Running
                &&& open[i].record.finished_at is None
                &&& open[i].record.run_id == run_id
                &&& open[i].record.started_at == runs[i].record.started_at
                &&& open[i].plan == runs[i].plan
                &&& bound[i].record.reference_hash == Some(hash)
                &&& bound[i].record.status == runs[i].record.status
                &&& bound[i].record.finished_at == runs[i].record.finished_at
                &&& bound[i].record.failed_count == runs[i].record.failed_count
                &&& bound[i].plan == runs[i].plan
            }
        }),
{
}

/// A summary is found for a prefix exactly where a run whose id begins with it
/// is on record, and under an environment exactly where a run is recorded
/// under that label.
pub proof fn law_runs_are_found_by_prefix_and_label(
    runs: Seq<StoredRunView>,
    prefix: Seq<char>,
    environment: Option<Seq<char>>,
    summary: RunSummaryView,
)
    ensures
        gather(runs, runs_starting(prefix)).contains(summary) <==> exists|i: int|
            0 <= i < runs.len() && begins((#[trigger] runs[i]).record.run_id, prefix)
                && run_summary(runs[i]) == summary,
        gather(runs, runs_under(environment)).contains(summary) <==> exists|i: int|
            0 <= i < runs.len() && label((#[trigger] runs[i]).record.environment) == label(
                environment,
            ) && run_summary(runs[i]) == summary,
{
    let f = runs_starting(prefix);
    let g = runs_under(environment);
    lemma_gather_member(runs, f, summary);
    lemma_gather_member(runs, g, summary);
    assert forall|i: int| 0 <= i < runs.len() implies (f(#[trigger] runs[i]).contains(summary)
        <==> begins(runs[i].record.run_id, prefix) && run_summary(runs[i]) == summary) by {
        if begins(runs[i].record.run_id, prefix) {
            assert(f(runs[i])[0] == run_summary(runs[i]));
        }
    }
    assert forall|i: int| 0 <= i < runs.len() implies (g(#[trigger] runs[i]).contains(summary)
        <==> label(runs[i].record.environment) == label(environment) && run_summary(runs[i])
        == summary) by {
        if label(runs[i].record.environment) == label(environment) {
            assert(g(runs[i])[0] == run_summary(runs[i]));
        }
    }
}

/// The node records of a run are exactly the rows that name it.
pub proof fn law_node_records_are_those_of_the_run(
    models: Seq<ModelRunRecordView>,
    seeds: Seq<SeedRunRecordView>,
    tests: Seq<TestRunRecordView>,
    run_id: Seq<char>,
    model: ModelRunRecordView,
    seed: SeedRunRecordView,
    test: TestRunRecordView,
)
    ensures
        gather(models, models_of_run(run_id)).contains(model) <==> models.contains(model)
            && model.run_id == run_id,
        gather(seeds, seeds_of_run(run_id)).contains(seed) <==> seeds.contains(seed)
            && seed.run_id == run_id,
        gather(tests, tests_of_run(run_id)).contains(test) <==> tests.contains(test)
            && test.run_id == run_id,
{
    let f = models_of_run(run_id);
    let g = seeds_of_run(run_id);
    let h = tests_of_run(run_id);
    lemma_gather_member(models, f, model);
    lemma_gather_member(seeds, g, seed);
    lemma_gather_member(tests, h, test);
    if models.contains(model) && model.run_id == run_id {
        let k = choose|k: int| 0 <= k < models.len() && models[k] == model;
        assert(f(models[k])[0] == model);
        assert(f(models[k]).contains(model));
    }
    if seeds.contains(seed) && seed.run_id == run_id {
        let k = choose|k: int| 0 <= k < seeds.len() && seeds[k] == seed;
        assert(g(seeds[k])[0] == seed);
        assert(g(seeds[k]).contains(seed));
    }
    if tests.contains(test) && test.run_id == run_id {
        let k = choose|k: int| 0 <= k < tests.len() && tests[k] == test;
        assert(h(tests[k])[0] == test);
        assert(h(tests[k]).contains(test));
    }
}

/// Recording a node's outcome drops the row of that model in that run and keeps
/// every other.
pub proof fn law_recording_replaces_one_row(
    rows: Seq<ModelRunRecordView>,
    run_id: Seq<char>,
    model_id: Seq<char>,
    row: ModelRunRecordView,
)
    ensures
        gather(rows, unless_model_run(run_id, model_id)).contains(row) <==> rows.contains(row) && !(
        row.run_id == run_id && row.model_id == model_id),
{
    let f = unless_model_run(run_id, model_id);
    lemma_gather_member(rows, f, row);
    if rows.contains(row) && !(row.run_id == run_id && row.model_id == model_id) {
        let k = choose|k: int| 0 <= k < rows.len() && rows[k] == row;
        assert(f(rows[k])[0] == row);
        assert(f(rows[k]).contains(row));
    }
}

/// The materialisations read for a version are those of that hash, and those
/// read for an environment are those under its label.
pub proof fn law_materialisations_are_read_by_hash_and_label(
    rows: Seq<MaterializedRecordView>,
    hash: Seq<char>,
    environment: Option<Seq<char>>,
    row: MaterializedRecordView,
)
    ensures
        gather(rows, materialized_as(hash)).contains(row) <==> rows.contains(row)
            && row.version.hash == hash,
        gather(rows, materialized_under(environment)).contains(row) <==> rows.contains(row)
            && label(row.environment) == label(environment),
{
    let f = materialized_as(hash);
    let g = materialized_under(environment);
    lemma_gather_member(rows, f, row);
    lemma_gather_member(rows, g, row);
    if rows.contains(row) {
        let k = choose|k: int| 0 <= k < rows.len() && rows[k] == row;
        if row.version.hash == hash {
            assert(f(rows[k])[0] == row);
            assert(f(rows[k]).contains(row));
        }
        if label(row.environment) == label(environment) {
            assert(g(rows[k])[0] == row);
            assert(g(rows[k]).contains(row));
        }
    }
}

/// Whether the record of a model is of another version or another place than
/// the workspace wants it at.
pub open spec fn differs(model: CompiledModelView, record: MaterializedRecordView) -> bool {
    record.version.hash != model.version.hash || record.target != relation_text(model.target)
}

/// A name is among the changed ones exactly where a model of it that is not
/// inlined has no record, or one of another version or place.
pub proof fn law_changed_models_differ_from_their_records(
    models: Seq<CompiledModelView>,
    records: Seq<(Seq<char>, MaterializedRecordView)>,
    name: Seq<char>,
)
    ensures
        gather(models, if_changed(Some(records))).contains(name) <==> exists|i: int|
            0 <= i < models.len() && (#[trigger] models[i]).id == name
                && models[i].config.materialization != Materialization::Ephemeral && (named(
                records,
                name,
            ) is None || differs(models[i], named(records, name)->0)),
{
    let f = if_changed(Some(records));
    lemma_gather_member(models, f, name);
    assert forall|i: int| 0 <= i < models.len() implies (f(#[trigger] models[i]).contains(name)
        <==> models[i].id == name && models[i].config.materialization
        != Materialization::Ephemeral && (named(records, name) is None || differs(
        models[i],
        named(records, name)->0,
    ))) by {
        if crate::changed::has_changed(models[i], Some(records)) {
            assert(f(models[i])[0] == models[i].id);
        }
    }
}

/// An adapter's error is the query's exactly where its code blames the query,
/// and can be retried exactly where it says so and the query is not to blame;
/// a timeout never can.
pub proof fn law_failures_are_classified_by_their_code(
    error: AdapterErrorView,
    timeout: Duration,
    attempt: u32,
    at: Seq<char>,
)
    ensures
        classified(error, attempt, at).category == FailureCategory::Sql <==> is_sql_code(
            error.code,
        ),
        classified(error, attempt, at).category == FailureCategory::Adapter <==> !is_sql_code(
            error.code,
        ),
        classified(error, attempt, at).retryable <==> error.retryable && !is_sql_code(error.code),
        classified(error, attempt, at).adapter_code == Some(error.code),
        classified(error, attempt, at).adapter_message == Some(error.message),
        classified(error, attempt, at).attempt == attempt,
        timed_out(timeout, attempt, at).category == FailureCategory::Timeout,
        !timed_out(timeout, attempt, at).retryable,
        timed_out(timeout, attempt, at).attempt == attempt,
{
}

/// How a dataset differs: added or removed where only one side has it, absent
/// where neither has; where both have it, changed exactly where the candidate
/// recorded a version other than the base's, or recorded none and the two
/// snapshots, both known, differ.
pub proof fn law_datasets_are_compared_by_side(plan: DatasetPlanView, reading: DatasetReadingView)
    ensures
        ({
            let there = plan.candidate_relation is Some && reading.candidate_exists;
            let before = plan.base_relation is Some && reading.base_exists;
            let diff = dataset_diff(plan, reading);
            &&& diff.status == DatasetStatus::Added <==> there && !before
            &&& diff.status == DatasetStatus::Removed <==> !there && before
            &&& diff.status == DatasetStatus::Absent <==> !there && !before
            &&& diff.status == DatasetStatus::Changed <==> there && before && (
            (plan.candidate_version is Some && plan.candidate_version != plan.base_version) || (
            plan.candidate_version is None && reading.candidate_snapshot is Some
                && reading.base_snapshot is Some && reading.candidate_snapshot
                != reading.base_snapshot))
            &&& diff.dataset == plan.dataset && diff.kind == plan.kind
            &&& diff.candidate_version == plan.candidate_version
            &&& diff.base_version == plan.base_version
        }),
{
}

/// A catalog is owned exactly where it was created here, or was found again
/// under a record that owned the same catalog; an unmanaged one never is.
pub proof fn law_only_created_catalogs_are_owned(
    setup: EnvironmentSetupView,
    prior: Option<EnvironmentSetupView>,
)
    ensures
        catalog_is_owned(accepted_setup(setup, prior)) <==> setup.catalog_status
            == CatalogStatus::Created || (setup.catalog_status == CatalogStatus::Unverified
            && prior is Some && prior->0.catalog == setup.catalog && catalog_is_owned(prior->0)),
        accepted_setup(setup, prior).catalog == setup.catalog,
        accepted_setup(setup, prior).candidate == setup.candidate,
        accepted_setup(setup, prior).base == setup.base,
        setup.created_from is Some ==> accepted_setup(setup, prior).created_from
            == setup.created_from,
{
}

/// The newest record of a candidate speaks where it decodes to that candidate,
/// and fails the read where it does not; the files speak only where there is
/// no record.
pub proof fn law_the_newest_binding_speaks(
    candidate: Seq<char>,
    newest: Option<(Seq<char>, SetupReadingView)>,
    own: Option<EnvironmentSetupView>,
    slot: Option<EnvironmentSetupView>,
)
    ensures
        environment_lookup(candidate, newest, own, slot) is Err <==> newest is Some && (
        (newest->0).1 is Undecodable || (newest->0).1->setup.candidate.name != candidate),
        environment_lookup(candidate, newest, own, slot) matches Ok(
            EnvironmentLookupView::Recorded { setup, evidence_id },
        ) ==> newest == Some((evidence_id, SetupReadingView::Setup { setup }))
            && setup.candidate.name == candidate,
        newest is Some && environment_lookup(candidate, newest, own, slot) is Ok
            ==> environment_lookup(candidate, newest, own, slot)->Ok_0 is Recorded,
        newest is None && own is Some && own->0.candidate.name == candidate
            ==> environment_lookup(candidate, newest, own, slot) == Ok::<
            EnvironmentLookupView,
            crate::error::EngineErrorView,
        >(EnvironmentLookupView::Exported { setup: own->0 }),
        environment_lookup(candidate, newest, own, slot) matches Ok(
            EnvironmentLookupView::Exported { setup },
        ) ==> newest is None && setup.candidate.name == candidate && (own == Some(setup) || slot
            == Some(setup)),
{
}

/// Lineage evidence is current exactly where it is bound to this pair at these
/// commits with the candidate's present fingerprint, gives a reason exactly
/// where it is stale, and is missing exactly where there is none.
pub proof fn law_lineage_is_current_where_bound(
    reading: LineageReadingView,
    context: LineageContextView,
    git: GitFactsView,
)
    ensures
        lineage_audit(reading, context, git) is None <==> reading is Missing,
        lineage_audit(reading, context, git) matches Some(evidence) ==> (evidence.reason is Some
            <==> evidence.status == LineageStatus::Stale),
        (lineage_audit(reading, context, git) matches Some(evidence) && evidence.status
            == LineageStatus::Current) <==> {
            &&& reading is Found
            &&& reading->artifact.environment is Some
            &&& reading->artifact.environment->0.candidate_ref == context.candidate
            &&& reading->artifact.environment->0.target_ref == context.to
            &&& reading->artifact.environment->0.candidate_hash == context.candidate_hash
            &&& reading->artifact.environment->0.target_hash == context.target_hash
            &&& context.lineage_hash is Some
            &&& reading->artifact.candidate.lineage_hash == context.lineage_hash
        },
{
}

} // verus!
