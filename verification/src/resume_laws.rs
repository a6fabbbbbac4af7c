//! What continuing a run promises: which runs can be resumed or retried, what
//! a retry takes up again, and what a resumed run reuses.

use vstd::prelude::*;

use crate::error::EngineErrorView;
use crate::events::ExecutionStatus;
use crate::names::{ascending, lemma_with_members, lemma_with_name, named, with_members};
use crate::plan::{
    PlanAction, PlanView, PlannedModelView, PlannedSeedView, PlannedTestView, ReasonKind,
};
use crate::resume::{
    any_of, if_built, if_concerned, if_failed_test, if_unfinished, is_test, joined, model_gone,
    name_gone, resolved_run, resumable, resumed_model, resumed_plan, resumed_seed, retriable,
    retry_names, scoped_retry, seed_gone, stores_seed, test_gone, RetryPortionView,
};
use crate::runner::{models_by_name, seeds_by_name, PriorRunView};
use crate::seqs::{first_where, gather, last_where, lemma_first_found, lemma_gather_member};
use crate::state::{
    ModelRunRecordView, RunRecordView, RunSummaryView, SeedRunRecordView, StoredPlanView,
    StoredRunView, TestRunRecordView,
};
use crate::workspace::{
    is_model, is_seed, model_named, seed_named, CompilationView, CompiledTestView,
};

verus! {

/// Whether the execution of a model ended without a satisfied end.
pub open spec fn fell_short(record: ModelRunRecordView) -> bool {
    record.status == ExecutionStatus::Failed || record.status == ExecutionStatus::Blocked
        || record.status == ExecutionStatus::Cancelled
}

/// Whether a run's records say that a model fell short.
pub open spec fn left_over(model_runs: Seq<ModelRunRecordView>, name: Seq<char>) -> bool {
    exists|i: int|
        0 <= i < model_runs.len() && (#[trigger] model_runs[i]).model_id == name && fell_short(
            model_runs[i],
        )
}

/// Whether a run's records say that a test failed.
pub open spec fn failed_there(test_runs: Seq<TestRunRecordView>, name: Seq<char>) -> bool {
    exists|i: int|
        0 <= i < test_runs.len() && (#[trigger] test_runs[i]).test_id == name
            && test_runs[i].status == ExecutionStatus::Failed
}

/// Whether a run's records say of any model that it fell short, or of any test
/// that it failed.
pub open spec fn leaves_work(
    model_runs: Seq<ModelRunRecordView>,
    test_runs: Seq<TestRunRecordView>,
) -> bool {
    ||| exists|i: int| 0 <= i < model_runs.len() && fell_short(#[trigger] model_runs[i])
    ||| exists|i: int|
        0 <= i < test_runs.len() && (#[trigger] test_runs[i]).status == ExecutionStatus::Failed
}

/// Whether the workspace has a model of a name.
pub open spec fn has_model(compilation: CompilationView, name: Seq<char>) -> bool {
    exists|i: int|
        0 <= i < compilation.models.len() && (#[trigger] compilation.models[i]).id == name
}

/// Whether the workspace has a seed of a name.
pub open spec fn has_seed(compilation: CompilationView, name: Seq<char>) -> bool {
    exists|i: int|
        0 <= i < compilation.seeds.len() && (#[trigger] compilation.seeds[i]).name == name
}

/// Whether the workspace has a test of a name.
pub open spec fn tests_by(compilation: CompilationView, name: Seq<char>) -> bool {
    exists|i: int|
        0 <= i < compilation.tests.len() && (#[trigger] compilation.tests[i]).id == name
}

proof fn lemma_has_model(compilation: CompilationView, name: Seq<char>)
    ensures
        model_named(compilation.models, name) is Some <==> has_model(compilation, name),
{
    lemma_first_found(compilation.models, is_model(name));
    if has_model(compilation, name) {
        let i = choose|i: int|
            0 <= i < compilation.models.len() && (#[trigger] compilation.models[i]).id == name;
        assert(is_model(name)(compilation.models[i]));
    }
}

proof fn lemma_has_seed(compilation: CompilationView, name: Seq<char>)
    ensures
        seed_named(compilation.seeds, name) is Some <==> has_seed(compilation, name),
{
    lemma_first_found(compilation.seeds, is_seed(name));
    if has_seed(compilation, name) {
        let i = choose|i: int|
            0 <= i < compilation.seeds.len() && (#[trigger] compilation.seeds[i]).name == name;
        assert(is_seed(name)(compilation.seeds[i]));
    }
}

proof fn lemma_tests_by(compilation: CompilationView, name: Seq<char>)
    ensures
        first_where(compilation.tests, is_test(name)) is Some <==> tests_by(compilation, name),
{
    lemma_first_found(compilation.tests, is_test(name));
    if tests_by(compilation, name) {
        let i = choose|i: int|
            0 <= i < compilation.tests.len() && (#[trigger] compilation.tests[i]).id == name;
        assert(is_test(name)(compilation.tests[i]));
    }
}

/// The models that a run left over are those whose records say failed,
/// blocked or cancelled.
pub proof fn law_unfinished_models_fell_short(model_runs: Seq<ModelRunRecordView>, name: Seq<char>)
    ensures
        gather(model_runs, if_unfinished()).contains(name) <==> left_over(model_runs, name),
{
    let f = if_unfinished();
    lemma_gather_member(model_runs, f, name);
    if left_over(model_runs, name) {
        let i = choose|i: int|
            0 <= i < model_runs.len() && (#[trigger] model_runs[i]).model_id == name && fell_short(
                model_runs[i],
            );
        assert(f(model_runs[i])[0] == name);
        assert(f(model_runs[i]).contains(name));
    }
}

/// The failed tests of a run are those whose records say failed.
pub proof fn law_failed_tests_failed(test_runs: Seq<TestRunRecordView>, name: Seq<char>)
    ensures
        gather(test_runs, if_failed_test()).contains(name) <==> failed_there(test_runs, name),
{
    let f = if_failed_test();
    lemma_gather_member(test_runs, f, name);
    if failed_there(test_runs, name) {
        let i = choose|i: int|
            0 <= i < test_runs.len() && (#[trigger] test_runs[i]).test_id == name
                && test_runs[i].status == ExecutionStatus::Failed;
        assert(f(test_runs[i])[0] == name);
        assert(f(test_runs[i]).contains(name));
    }
}

proof fn lemma_joined_names(names: Seq<Seq<char>>, more: Seq<Seq<char>>, name: Seq<char>)
    ensures
        joined(names, more).contains(name) <==> names.contains(name) || more.contains(name),
    decreases more.len(),
{
    if more.len() > 0 {
        let rest = more.drop_last();
        lemma_joined_names(names, rest, name);
        let before = joined(names, rest);
        assert(more.contains(name) <==> rest.contains(name) || more.last() == name) by {
            if more.contains(name) {
                let k = choose|k: int| 0 <= k < more.len() && more[k] == name;
                if k < rest.len() {
                    assert(rest[k] == name);
                }
            }
            if rest.contains(name) {
                let k = choose|k: int| 0 <= k < rest.len() && rest[k] == name;
                assert(more[k] == name);
            }
            assert(more[more.len() - 1] == more.last());
        }
        if !before.contains(more.last()) {
            let after = before.push(more.last());
            assert(after.contains(name) <==> before.contains(name) || more.last() == name) by {
                if after.contains(name) {
                    let k = choose|k: int| 0 <= k < after.len() && after[k] == name;
                    if k < before.len() {
                        assert(before[k] == name);
                    }
                }
                if before.contains(name) {
                    let k = choose|k: int| 0 <= k < before.len() && before[k] == name;
                    assert(after[k] == name);
                }
                assert(after[before.len() as int] == more.last());
            }
        }
    }
}

/// The models that a retry selects are those given and the targets of the
/// failed tests, and no others.
pub proof fn law_retries_select_models_and_targets(
    failed: Seq<Seq<char>>,
    tests: Seq<CompiledTestView>,
    failed_tests: Seq<Seq<char>>,
    name: Seq<char>,
)
    ensures
        retry_names(failed, tests, failed_tests).contains(name) <==> failed.contains(name) || (
        exists|i: int|
            0 <= i < tests.len() && failed_tests.contains((#[trigger] tests[i]).id)
                && tests[i].targets.contains(name)),
    decreases tests.len(),
{
    if tests.len() > 0 {
        let rest = tests.drop_last();
        law_retries_select_models_and_targets(failed, rest, failed_tests, name);
        lemma_joined_names(
            retry_names(failed, rest, failed_tests),
            tests.last().targets,
            name,
        );
        assert(tests[tests.len() - 1] == tests.last());
        if exists|i: int|
            0 <= i < tests.len() && failed_tests.contains((#[trigger] tests[i]).id)
                && tests[i].targets.contains(name) {
            let i = choose|i: int|
                0 <= i < tests.len() && failed_tests.contains((#[trigger] tests[i]).id)
                    && tests[i].targets.contains(name);
            if i < rest.len() {
                assert(rest[i] == tests[i]);
            }
        }
        if exists|i: int|
            0 <= i < rest.len() && failed_tests.contains((#[trigger] rest[i]).id)
                && rest[i].targets.contains(name) {
            let i = choose|i: int|
                0 <= i < rest.len() && failed_tests.contains((#[trigger] rest[i]).id)
                    && rest[i].targets.contains(name);
            assert(rest[i] == tests[i]);
        }
    }
}

/// A model is taken up again exactly where its record in the run says failed,
/// blocked or cancelled, a test exactly where its record says failed; what is
/// selected is those models and the targets of those tests.
pub proof fn law_retries_take_up_what_fell_short(
    compilation: CompilationView,
    has_state: bool,
    stored: Option<StoredRunView>,
    id_or_prefix: Seq<char>,
    environment: Option<Seq<char>>,
    model_runs: Seq<ModelRunRecordView>,
    test_runs: Seq<TestRunRecordView>,
    portion: RetryPortionView,
    name: Seq<char>,
)
    requires
        retriable(
            compilation,
            has_state,
            stored,
            id_or_prefix,
            environment,
            model_runs,
            test_runs,
        ) == Ok::<RetryPortionView, EngineErrorView>(portion),
    ensures
        portion.models.contains(name) <==> left_over(model_runs, name),
        portion.tests.contains(name) <==> failed_there(test_runs, name),
        left_over(model_runs, name) ==> portion.select.contains(name),
        portion.select.contains(name) ==> left_over(model_runs, name) || exists|i: int|
            0 <= i < compilation.tests.len() && failed_there(
                test_runs,
                (#[trigger] compilation.tests[i]).id,
            ) && compilation.tests[i].targets.contains(name),
        forall|i: int|
            0 <= i < compilation.tests.len() && failed_there(
                test_runs,
                (#[trigger] compilation.tests[i]).id,
            ) && compilation.tests[i].targets.contains(name) ==> portion.select.contains(name),
{
    law_unfinished_models_fell_short(model_runs, name);
    let none: Seq<Seq<char>> = Seq::empty();
    let failed = gather(test_runs, if_failed_test());
    lemma_with_members(none, failed);
    assert forall|id: Seq<char>| #[trigger]
        portion.tests.contains(id) <==> failed_there(test_runs, id) by {
        law_failed_tests_failed(test_runs, id);
        assert(with_members(none, failed).contains(id) <==> failed.contains(id));
    }
    law_retries_select_models_and_targets(
        portion.models,
        compilation.tests,
        portion.tests,
        name,
    );
    assert forall|i: int|
        0 <= i < compilation.tests.len() && failed_there(
            test_runs,
            (#[trigger] compilation.tests[i]).id,
        ) && compilation.tests[i].targets.contains(name) implies portion.select.contains(
        name,
    ) by {
        assert(portion.tests.contains(compilation.tests[i].id));
    }
    if portion.select.contains(name) && !left_over(model_runs, name) {
        let i = choose|i: int|
            0 <= i < compilation.tests.len() && portion.tests.contains(
                (#[trigger] compilation.tests[i]).id,
            ) && compilation.tests[i].targets.contains(name);
        assert(failed_there(test_runs, compilation.tests[i].id));
    }
}

/// A run is retried exactly where the workspace compiles, state is kept, the
/// run is there and finished, it targeted the environment asked for, it left
/// something over, and the workspace still has what it left over.
pub proof fn law_retries_are_granted_to_finished_runs(
    compilation: CompilationView,
    has_state: bool,
    stored: Option<StoredRunView>,
    id_or_prefix: Seq<char>,
    environment: Option<Seq<char>>,
    model_runs: Seq<ModelRunRecordView>,
    test_runs: Seq<TestRunRecordView>,
)
    ensures
        retriable(
            compilation,
            has_state,
            stored,
            id_or_prefix,
            environment,
            model_runs,
            test_runs,
        ) is Ok <==> {
            &&& compilation.ok
            &&& has_state
            &&& stored is Some
            &&& stored->0.record.finished_at is Some
            &&& stored->0.record.environment == environment
            &&& leaves_work(model_runs, test_runs)
            &&& forall|name: Seq<char>|
                left_over(model_runs, name) ==> #[trigger] has_model(compilation, name)
            &&& forall|name: Seq<char>|
                failed_there(test_runs, name) ==> #[trigger] tests_by(compilation, name)
        },
{
    let none: Seq<Seq<char>> = Seq::empty();
    let models = gather(model_runs, if_unfinished());
    let failed = gather(test_runs, if_failed_test());
    let tests = with_members(none, failed);
    lemma_with_members(none, failed);
    assert forall|name: Seq<char>| true implies #[trigger] models.contains(name) == left_over(
        model_runs,
        name,
    ) by {
        law_unfinished_models_fell_short(model_runs, name);
    }
    assert forall|name: Seq<char>| true implies #[trigger] tests.contains(name) == failed_there(
        test_runs,
        name,
    ) by {
        law_failed_tests_failed(test_runs, name);
        assert(with_members(none, failed).contains(name) <==> failed.contains(name));
    }
    lemma_first_found(models, name_gone(compilation));
    lemma_first_found(tests, test_gone(compilation));
    if models.len() > 0 {
        assert(models.contains(models[0]));
        assert(left_over(model_runs, models[0]));
    }
    if tests.len() > 0 {
        assert(tests.contains(tests[0]));
        assert(failed_there(test_runs, tests[0]));
    }
    assert forall|i: int| 0 <= i < model_runs.len() && fell_short(
        #[trigger] model_runs[i],
    ) implies models.len() > 0 by {
        assert(left_over(model_runs, model_runs[i].model_id));
        assert(models.contains(model_runs[i].model_id));
    }
    assert forall|i: int|
        0 <= i < test_runs.len() && (#[trigger] test_runs[i]).status
            == ExecutionStatus::Failed implies tests.len() > 0 by {
        assert(failed_there(test_runs, test_runs[i].test_id));
        assert(tests.contains(test_runs[i].test_id));
    }
    if first_where(models, name_gone(compilation)) is None {
        assert forall|name: Seq<char>| left_over(model_runs, name) implies #[trigger] has_model(
            compilation,
            name,
        ) by {
            assert(models.contains(name));
            let k = choose|k: int| 0 <= k < models.len() && models[k] == name;
            assert(!name_gone(compilation)(models[k]));
            lemma_has_model(compilation, name);
        }
    } else {
        let name = first_where(models, name_gone(compilation))->0;
        assert(models.contains(name));
        lemma_has_model(compilation, name);
        assert(left_over(model_runs, name) && !has_model(compilation, name));
    }
    if first_where(tests, test_gone(compilation)) is None {
        assert forall|name: Seq<char>| failed_there(test_runs, name) implies #[trigger] tests_by(
            compilation,
            name,
        ) by {
            assert(tests.contains(name));
            let k = choose|k: int| 0 <= k < tests.len() && tests[k] == name;
            assert(!test_gone(compilation)(tests[k]));
            lemma_tests_by(compilation, name);
        }
    } else {
        let name = first_where(tests, test_gone(compilation))->0;
        assert(tests.contains(name));
        lemma_tests_by(compilation, name);
        assert(failed_there(test_runs, name) && !tests_by(compilation, name));
    }
}

/// A run is resumed exactly where the workspace compiles, state is kept, the
/// run is there with its plan, it ended neither passed nor failed, it targeted
/// the environment asked for, and the workspace still has every model and seed
/// of that plan; it is then resumed with that plan.
pub proof fn law_resumes_are_granted_to_interrupted_runs(
    compilation: CompilationView,
    has_state: bool,
    stored: Option<StoredRunView>,
    id_or_prefix: Seq<char>,
    environment: Option<Seq<char>>,
)
    ensures
        resumable(compilation, has_state, stored, id_or_prefix, environment) is Ok <==> {
            &&& compilation.ok
            &&& has_state
            &&& stored is Some
            &&& stored->0.plan is Some
            &&& stored->0.record.status != ExecutionStatus::Passed
            &&& stored->0.record.status != ExecutionStatus::Failed
            &&& stored->0.record.environment == environment
            &&& forall|i: int|
                0 <= i < stored->0.plan->0.models.len() ==> has_model(
                    compilation,
                    (#[trigger] stored->0.plan->0.models[i]).id,
                )
            &&& forall|i: int|
                0 <= i < stored->0.plan->0.seeds.len() ==> has_seed(
                    compilation,
                    (#[trigger] stored->0.plan->0.seeds[i]).name,
                )
        },
        resumable(compilation, has_state, stored, id_or_prefix, environment) matches Ok(plan)
            ==> stored->0.plan == Some(plan),
{
    if stored is Some && stored->0.plan is Some {
        let plan = stored->0.plan->0;
        lemma_first_found(plan.models, model_gone(compilation));
        lemma_first_found(plan.seeds, seed_gone(compilation));
        if first_where(plan.models, model_gone(compilation)) is None {
            assert forall|i: int| 0 <= i < plan.models.len() implies has_model(
                compilation,
                (#[trigger] plan.models[i]).id,
            ) by {
                assert(!model_gone(compilation)(plan.models[i]));
                lemma_has_model(compilation, plan.models[i].id);
            }
        } else {
            let model = first_where(plan.models, model_gone(compilation))->0;
            let k = choose|k: int| 0 <= k < plan.models.len() && plan.models[k] == model;
            lemma_has_model(compilation, plan.models[k].id);
        }
        if first_where(plan.seeds, seed_gone(compilation)) is None {
            assert forall|i: int| 0 <= i < plan.seeds.len() implies has_seed(
                compilation,
                (#[trigger] plan.seeds[i]).name,
            ) by {
                assert(!seed_gone(compilation)(plan.seeds[i]));
                lemma_has_seed(compilation, plan.seeds[i].name);
            }
        } else {
            let seed = first_where(plan.seeds, seed_gone(compilation))->0;
            let k = choose|k: int| 0 <= k < plan.seeds.len() && plan.seeds[k] == seed;
            lemma_has_seed(compilation, plan.seeds[k].name);
        }
    }
}

/// An id or prefix stands for a run exactly where it matches that one alone.
pub proof fn law_ids_stand_for_one_run(
    matches: Seq<RunSummaryView>,
    id_or_prefix: Seq<char>,
    run_id: Seq<char>,
)
    ensures
        resolved_run(matches, id_or_prefix) == Ok::<Seq<char>, EngineErrorView>(run_id) <==> (
        matches.len() == 1 && matches[0].run_id == run_id),
        resolved_run(matches, id_or_prefix) is Err <==> matches.len() != 1,
{
}

/// Whether a plan builds a model of a name.
pub open spec fn builds(plan: PlanView, name: Seq<char>) -> bool {
    exists|i: int|
        0 <= i < plan.models.len() && (#[trigger] plan.models[i]).id == name
            && plan.models[i].action == PlanAction::Build
}

/// Whether a retry concerns a test: it failed before, or it reads a model that
/// the plan builds.
pub open spec fn concerns(
    plan: PlanView,
    failed_tests: Seq<Seq<char>>,
    test: PlannedTestView,
) -> bool {
    failed_tests.contains(test.id) || exists|i: int|
        0 <= i < test.targets.len() && builds(plan, #[trigger] test.targets[i])
}

proof fn lemma_builds(plan: PlanView, name: Seq<char>)
    ensures
        gather(plan.models, if_built()).contains(name) <==> builds(plan, name),
{
    let f = if_built();
    lemma_gather_member(plan.models, f, name);
    if builds(plan, name) {
        let i = choose|i: int|
            0 <= i < plan.models.len() && (#[trigger] plan.models[i]).id == name
                && plan.models[i].action == PlanAction::Build;
        assert(f(plan.models[i])[0] == name);
        assert(f(plan.models[i]).contains(name));
    }
}

proof fn lemma_concerns(plan: PlanView, failed_tests: Seq<Seq<char>>, test: PlannedTestView)
    ensures
        (failed_tests.contains(test.id) || any_of(test.targets, gather(plan.models, if_built())))
            <==> concerns(plan, failed_tests, test),
{
    let rebuilt = gather(plan.models, if_built());
    assert forall|i: int| 0 <= i < test.targets.len() implies rebuilt.contains(
        #[trigger] test.targets[i],
    ) == builds(plan, test.targets[i]) by {
        lemma_builds(plan, test.targets[i]);
    }
}

/// A retry keeps the planned tests that failed before or read a model that is
/// built again, and no others, and everything else of the plan; it is refused
/// exactly where nothing is built and no such test is planned.
pub proof fn law_retries_test_what_is_concerned(
    plan: PlanView,
    failed_tests: Seq<Seq<char>>,
    run_id: Seq<char>,
    test: PlannedTestView,
)
    ensures
        scoped_retry(plan, failed_tests, run_id) matches Ok(scoped) ==> {
            &&& scoped.tests.contains(test) <==> plan.tests.contains(test) && concerns(
                plan,
                failed_tests,
                test,
            )
            &&& scoped == (PlanView { tests: scoped.tests, ..plan })
        },
        scoped_retry(plan, failed_tests, run_id) is Err <==> {
            &&& forall|i: int|
                0 <= i < plan.models.len() ==> (#[trigger] plan.models[i]).action
                    != PlanAction::Build
            &&& forall|i: int|
                0 <= i < plan.tests.len() ==> !concerns(
                    plan,
                    failed_tests,
                    #[trigger] plan.tests[i],
                )
        },
{
    let rebuilt = gather(plan.models, if_built());
    let f = if_concerned(failed_tests, rebuilt);
    let tests = gather(plan.tests, f);
    lemma_gather_member(plan.tests, f, test);
    lemma_concerns(plan, failed_tests, test);
    if plan.tests.contains(test) && concerns(plan, failed_tests, test) {
        let k = choose|k: int| 0 <= k < plan.tests.len() && plan.tests[k] == test;
        assert(f(plan.tests[k])[0] == test);
        assert(f(plan.tests[k]).contains(test));
    }
    if rebuilt.len() > 0 {
        assert(rebuilt.contains(rebuilt[0]));
        lemma_builds(plan, rebuilt[0]);
    }
    assert forall|i: int|
        0 <= i < plan.models.len() && rebuilt.len() == 0 implies (#[trigger] plan.models[i]).action
        != PlanAction::Build by {
        lemma_builds(plan, plan.models[i].id);
        assert(!rebuilt.contains(plan.models[i].id));
    }
    if tests.len() > 0 {
        let found = tests[0];
        assert(tests.contains(found));
        lemma_gather_member(plan.tests, f, found);
        lemma_concerns(plan, failed_tests, found);
    }
    assert forall|i: int| 0 <= i < plan.tests.len() && tests.len() == 0 implies !concerns(
        plan,
        failed_tests,
        #[trigger] plan.tests[i],
    ) by {
        let at = plan.tests[i];
        lemma_concerns(plan, failed_tests, at);
        lemma_gather_member(plan.tests, f, at);
        if concerns(plan, failed_tests, at) {
            assert(f(plan.tests[i])[0] == at);
            assert(f(plan.tests[i]).contains(at));
            assert(tests.contains(at));
        }
    }
}

/// Whether the record at `i` is the last one of a model's name.
pub open spec fn last_of_models(records: Seq<ModelRunRecordView>, name: Seq<char>, i: int) -> bool {
    &&& 0 <= i < records.len()
    &&& records[i].model_id == name
    &&& forall|j: int| i < j < records.len() ==> (#[trigger] records[j]).model_id != name
}

/// What a run's records say of a model is what the last record of its name
/// says.
pub proof fn law_models_speak_by_their_last_record(
    records: Seq<ModelRunRecordView>,
    name: Seq<char>,
)
    ensures
        ascending(models_by_name(records)),
        match named(models_by_name(records), name) {
            Some(record) => exists|i: int| #[trigger]
                last_of_models(records, name, i) && records[i] == record,
            None => forall|i: int|
                0 <= i < records.len() ==> (#[trigger] records[i]).model_id != name,
        },
    decreases records.len(),
{
    if records.len() > 0 {
        let rest = records.drop_last();
        let last = records.last();
        law_models_speak_by_their_last_record(rest, name);
        lemma_with_name(models_by_name(rest), last.model_id, last);
        assert(named(models_by_name(records), name) == if name == last.model_id {
            Some(last)
        } else {
            named(models_by_name(rest), name)
        });
        if name == last.model_id {
            assert(last_of_models(records, name, records.len() - 1));
        } else if named(models_by_name(rest), name) is Some {
            let record = named(models_by_name(rest), name)->0;
            let i = choose|i: int| #[trigger] last_of_models(rest, name, i) && rest[i] == record;
            assert forall|j: int| i < j < records.len() implies (#[trigger] records[j]).model_id
                != name by {
                if j < rest.len() {
                    assert(rest[j] == records[j]);
                }
            }
            assert(last_of_models(records, name, i));
        } else {
            assert forall|i: int| 0 <= i < records.len() implies (#[trigger] records[i]).model_id
                != name by {
                if i < rest.len() {
                    assert(rest[i] == records[i]);
                }
            }
        }
    }
}

/// Whether the record at `i` is the last one of a seed's name.
pub open spec fn last_of_seeds(records: Seq<SeedRunRecordView>, name: Seq<char>, i: int) -> bool {
    &&& 0 <= i < records.len()
    &&& records[i].name == name
    &&& forall|j: int| i < j < records.len() ==> (#[trigger] records[j]).name != name
}

/// What a run's records say of a seed is what the last record of its name
/// says.
pub proof fn law_seeds_speak_by_their_last_record(
    records: Seq<SeedRunRecordView>,
    name: Seq<char>,
)
    ensures
        ascending(seeds_by_name(records)),
        match named(seeds_by_name(records), name) {
            Some(record) => exists|i: int| #[trigger]
                last_of_seeds(records, name, i) && records[i] == record,
            None => forall|i: int| 0 <= i < records.len() ==> (#[trigger] records[i]).name != name,
        },
    decreases records.len(),
{
    if records.len() > 0 {
        let rest = records.drop_last();
        let last = records.last();
        law_seeds_speak_by_their_last_record(rest, name);
        lemma_with_name(seeds_by_name(rest), last.name, last);
        assert(named(seeds_by_name(records), name) == if name == last.name {
            Some(last)
        } else {
            named(seeds_by_name(rest), name)
        });
        if name == last.name {
            assert(last_of_seeds(records, name, records.len() - 1));
        } else if named(seeds_by_name(rest), name) is Some {
            let record = named(seeds_by_name(rest), name)->0;
            let i = choose|i: int| #[trigger] last_of_seeds(rest, name, i) && rest[i] == record;
            assert forall|j: int| i < j < records.len() implies (#[trigger] records[j]).name
                != name by {
                if j < rest.len() {
                    assert(rest[j] == records[j]);
                }
            }
            assert(last_of_seeds(records, name, i));
        } else {
            assert forall|i: int| 0 <= i < records.len() implies (#[trigger] records[i]).name
                != name by {
                if i < rest.len() {
                    assert(rest[i] == records[i]);
                }
            }
        }
    }
}

/// Whether a run records of a model that it passed at a version.
pub open spec fn passed_at(prior: PriorRunView, id: Seq<char>, version: Seq<char>) -> bool {
    match named(prior.models, id) {
        Some(record) => record.status == ExecutionStatus::Passed && record.desired_version
            == version,
        None => false,
    }
}

/// A resumed run skips a model that passed in it at the version still desired
/// and whose relation is there; every other model keeps the action that it was
/// planned with, and nothing but action and reasons ever changes.
pub proof fn law_resumed_runs_reuse_current_passes(
    model: PlannedModelView,
    prior: PriorRunView,
    manifest: StoredPlanView,
)
    ensures
        resumed_model(model, prior, manifest).action == if model.exists && passed_at(
            prior,
            model.id,
            model.desired_version,
        ) {
            PlanAction::Skip
        } else {
            model.action
        },
        ({
            let resumed = resumed_model(model, prior, manifest);
            &&& resumed == (PlannedModelView {
                action: resumed.action,
                reasons: resumed.reasons,
                ..model
            })
            &&& resumed.reasons.len() > model.reasons.len()
            &&& resumed.reasons[0].kind == ReasonKind::ResumedRun
            &&& forall|i: int|
                0 <= i < model.reasons.len() ==> resumed.reasons[i + 1]
                    == #[trigger] model.reasons[i]
        }),
{
}

/// A resumed run skips a seed that it loaded from the content that the seed
/// still has and whose relation is there; every other seed stays as planned.
pub proof fn law_resumed_runs_reuse_current_loads(
    seed: PlannedSeedView,
    exists_now: bool,
    prior: PriorRunView,
    manifest: StoredPlanView,
)
    ensures
        ({
            let resumed = resumed_seed(seed, exists_now, prior, manifest);
            let stored = last_where(manifest.seeds, stores_seed(seed.name));
            let reused = exists_now && (named(prior.seeds, seed.name) matches Some(record)
                && record.status == ExecutionStatus::Passed) && (if stored is Some {
                stored->0.desired_version == seed.desired_version
            } else {
                seed.desired_version.len() == 0
            });
            &&& reused ==> resumed.action == PlanAction::Skip && resumed == (PlannedSeedView {
                action: resumed.action,
                reasons: resumed.reasons,
                ..seed
            })
            &&& !reused ==> resumed == seed
        }),
{
    assert(seed.desired_version.len() == 0 ==> seed.desired_version =~= Seq::<char>::empty());
}

/// A resumed run keeps its plan's id and environment, and every model, seed
/// and test that is planned, in place.
pub proof fn law_resumed_plans_keep_their_run(
    plan: PlanView,
    record: RunRecordView,
    manifest: StoredPlanView,
    prior: PriorRunView,
    seed_exists: Seq<bool>,
)
    ensures
        ({
            let resumed = resumed_plan(plan, record, manifest, prior, seed_exists);
            &&& resumed.id == record.plan_id
            &&& resumed.environment == record.environment
            &&& resumed.git is None
            &&& resumed.tests == plan.tests
            &&& resumed.adapter == plan.adapter
            &&& resumed.models.len() == plan.models.len()
            &&& resumed.seeds.len() == plan.seeds.len()
            &&& forall|i: int|
                0 <= i < plan.models.len() ==> (#[trigger] resumed.models[i]).id
                    == plan.models[i].id && resumed.models[i].action == (if plan.models[i].exists
                    && passed_at(prior, plan.models[i].id, plan.models[i].desired_version) {
                    PlanAction::Skip
                } else {
                    plan.models[i].action
                })
            &&& forall|i: int|
                0 <= i < plan.seeds.len() ==> (#[trigger] resumed.seeds[i]).name
                    == plan.seeds[i].name
        }),
{
}

} // verus!
