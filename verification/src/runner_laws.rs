//! What applying a plan promises: which models, seeds and tests are executed,
//! what is settled before anything starts, and what is recorded afterwards.

use vstd::prelude::*;

use crate::events::ExecutionStatus;
use crate::graph::deps_of;
use crate::names::{lemma_name_unique, lemma_with_name, named};
use crate::order::{lemma_listing_hits, lemma_text_listing, text_order, the_listing};
use crate::plan::{PlanAction, PlanView, PlannedModelView, PlannedSeedView};
use crate::run::{ModelResultView, RunResultView, SeedResultView, TestResultView};
use crate::runner::{
    distinct, executed_names, if_known, if_shared, inputs_of, is_name, is_run_result,
    lemma_distinct, lemma_write_counts, load_of, namespace, place_of_target, plan_pass,
    plans_test, reader_entries, readers, reuse_pass, seed_pass, seed_task, settling,
    status_named, target_places, test_task, write_counts, Launch, RunMarkView, SeedTaskView,
    TestTaskView,
};
use crate::schedule::{
    lemma_conclude_unsatisfied, lemma_blocked_below, lemma_satisfy, concluded, journaled,
    unexecuted, ExecutionView, fresh, blocked_by_seed,
};
use crate::schedule_laws::law_failed_seeds_block_their_readers;
use crate::schema_laws::{law_dropping_repeats_keeps_members, law_sorting_lists_rearranges};
use crate::seqs::{count_where, gather, lemma_gather_member};
use crate::source_state::{schema_in_force, seed_place};
use crate::state::SeedRecordView;
use crate::workspace::{
    model_named, relation_text, seed_named, CompilationView, CompiledModelView, CompiledTestView,
};

verus! {

proof fn lemma_distinct_keeps(names: Seq<Seq<char>>, x: Seq<char>)
    requires
        names.contains(x),
    ensures
        distinct(names).contains(x),
    decreases names.len(),
{
    let rest = names.drop_last();
    let k = choose|k: int| 0 <= k < names.len() && names[k] == x;
    let before = distinct(rest);
    if k < rest.len() {
        assert(rest[k] == x);
        lemma_distinct_keeps(rest, x);
        let at = choose|at: int| 0 <= at < before.len() && before[at] == x;
        assert(distinct(names)[at] == x);
    } else if !before.contains(x) {
        assert(distinct(names)[before.len() as int] == x);
    }
}

/// The models that are executed are those that are planned and that the
/// workspace has, each once.
pub proof fn law_planned_models_are_executed_once(
    models: Seq<CompiledModelView>,
    planned: Seq<PlannedModelView>,
    name: Seq<char>,
)
    ensures
        executed_names(models, planned).contains(name) <==> (exists|i: int|
            0 <= i < planned.len() && (#[trigger] planned[i]).id == name) && model_named(
            models,
            name,
        ) is Some,
        executed_names(models, planned).no_duplicates(),
{
    let f = if_known(models);
    let all = gather(planned, f);
    lemma_distinct(all);
    lemma_gather_member(planned, f, name);
    if (exists|i: int| 0 <= i < planned.len() && (#[trigger] planned[i]).id == name)
        && model_named(models, name) is Some {
        let i = choose|i: int| 0 <= i < planned.len() && (#[trigger] planned[i]).id == name;
        assert(f(planned[i])[0] == name);
        assert(f(planned[i]).contains(name));
        lemma_distinct_keeps(all, name);
    }
}

proof fn lemma_count_some(items: Seq<Seq<char>>, name: Seq<char>)
    ensures
        count_where(items, is_name(name)) > 0 <==> items.contains(name),
    decreases items.len(),
{
    if items.len() > 0 {
        let rest = items.drop_last();
        lemma_count_some(rest, name);
        if items.contains(name) {
            let k = choose|k: int| 0 <= k < items.len() && items[k] == name;
            if k < rest.len() {
                assert(rest[k] == name);
            }
        }
        if rest.contains(name) {
            let k = choose|k: int| 0 <= k < rest.len() && rest[k] == name;
            assert(items[k] == name);
        }
        assert(items[items.len() - 1] == items.last());
    }
}

/// One executed model is a reader of another exactly where it depends on it.
pub proof fn law_readers_depend_on_what_they_read(
    models: Seq<CompiledModelView>,
    names: Seq<Seq<char>>,
    i: int,
    j: usize,
)
    requires
        0 <= i < names.len() <= usize::MAX,
        j < names.len(),
    ensures
        readers(models, names, i).contains(j) <==> deps_of(models, names[j as int]).contains(
            names[i],
        ),
{
    let listing = the_listing(names.len(), text_order(names));
    let f = reader_entries(models, names, i);
    lemma_text_listing(names);
    lemma_listing_hits(listing, names.len(), j);
    lemma_gather_member(listing, f, j);
    let deps = deps_of(models, names[j as int]);
    lemma_count_some(deps, names[i]);
    if deps.contains(names[i]) {
        let k = choose|k: int| 0 <= k < listing.len() && listing[k] == j;
        assert(f(listing[k])[0] == j);
        assert(f(listing[k]).contains(j));
    }
    if readers(models, names, i).contains(j) {
        let k = choose|k: int| 0 <= k < listing.len() && f(#[trigger] listing[k]).contains(j);
        let entries = f(listing[k]);
        let m = choose|m: int| 0 <= m < entries.len() && entries[m] == j;
        assert(entries[m] == listing[k]);
    }
}

/// Only a planned skip or reuse settles a model without building it.
pub proof fn law_only_skips_and_reuses_settle(action: PlanAction)
    ensures
        settling(action) == Some(ExecutionStatus::Skipped) <==> action == PlanAction::Skip,
        settling(action) == Some(ExecutionStatus::Cached) <==> action == PlanAction::Cached,
        settling(action) is None <==> action == PlanAction::Build || action
            == PlanAction::Unknown,
{
}

proof fn lemma_reuse_pass(v: ExecutionView, flags: Seq<bool>, k: nat)
    requires
        v.sound(),
        k <= v.blanks.len(),
        flags.len() >= k,
        forall|i: int| 0 <= i < v.blanks.len() ==> #[trigger] v.status[i]
            == ExecutionStatus::Pending,
    ensures
        ({
            let w = reuse_pass(v, flags, k);
            &&& w.sound()
            &&& w.blanks == v.blanks
            &&& forall|i: int|
                0 <= i < v.blanks.len() ==> #[trigger] w.status[i] == if i < k && flags[i] {
                    ExecutionStatus::Cached
                } else {
                    ExecutionStatus::Pending
                }
        }),
    decreases k,
{
    if k > 0 {
        lemma_reuse_pass(v, flags, (k - 1) as nat);
        let u = reuse_pass(v, flags, (k - 1) as nat);
        let blank = u.blanks[k - 1];
        assert(u.status[k - 1] == ExecutionStatus::Pending);
        lemma_satisfy(
            u,
            k - 1,
            ModelResultView {
                status: ExecutionStatus::Cached,
                reasons: blank.reasons.push("reused from earlier in this run"@),
                ..blank
            },
        );
    }
}

proof fn lemma_plan_pass(v: ExecutionView, actions: Seq<PlanAction>, k: nat)
    requires
        v.sound(),
        k <= v.blanks.len(),
        actions.len() >= k,
    ensures
        ({
            let w = plan_pass(v, actions, k);
            &&& w.sound()
            &&& w.blanks == v.blanks
            &&& forall|i: int|
                0 <= i < v.blanks.len() ==> #[trigger] w.status[i] == if i < k && v.status[i]
                    == ExecutionStatus::Pending && settling(actions[i]) is Some {
                    settling(actions[i])->0
                } else {
                    v.status[i]
                }
        }),
    decreases k,
{
    if k > 0 {
        lemma_plan_pass(v, actions, (k - 1) as nat);
        let u = plan_pass(v, actions, (k - 1) as nat);
        assert(u.status[k - 1] == v.status[k - 1]);
        if settling(actions[k - 1]) is Some && u.status[k - 1] == ExecutionStatus::Pending {
            lemma_satisfy(
                u,
                k - 1,
                ModelResultView { status: settling(actions[k - 1])->0, ..u.blanks[k - 1] },
            );
            let w = plan_pass(v, actions, k);
            assert(w.sound());
        }
    }
}

proof fn lemma_seed_pass(v: ExecutionView, flags: Seq<bool>, k: nat, now: Seq<char>)
    requires
        v.sound(),
        k <= v.blanks.len(),
        flags.len() >= k,
    ensures
        ({
            let w = seed_pass(v, flags, k, now);
            &&& w.sound()
            &&& w.blanks == v.blanks
            &&& forall|i: int|
                0 <= i < k && flags[i] && v.status[i] == ExecutionStatus::Pending
                    ==> #[trigger] w.status[i] == ExecutionStatus::Blocked
            &&& forall|i: int|
                0 <= i < v.blanks.len() ==> #[trigger] w.status[i] == v.status[i] || (
                w.status[i] == ExecutionStatus::Blocked && !v.status[i].terminal())
        }),
    decreases k,
{
    if k > 0 {
        lemma_seed_pass(v, flags, (k - 1) as nat, now);
        let u = seed_pass(v, flags, (k - 1) as nat, now);
        if flags[k - 1] && u.status[k - 1] == ExecutionStatus::Pending {
            let at = (k - 1) as usize;
            let result = unexecuted(
                u.blanks[k - 1],
                ExecutionStatus::Blocked,
                crate::failure::FailureCategory::Dependency,
                "blocked by a failed seed load"@,
                now,
            );
            lemma_conclude_unsatisfied(u, k - 1, result);
            let w = journaled(concluded(u, k - 1, result), at);
            assert(w.sound());
            lemma_blocked_below(w, at, now);
            crate::schedule::lemma_seed_block_keeps(u, at, now);
            assert forall|i: int| 0 <= i < v.blanks.len() implies (#[trigger] blocked_by_seed(
                u,
                at,
                now,
            ).status[i] == u.status[i] || (blocked_by_seed(u, at, now).status[i]
                == ExecutionStatus::Blocked && !u.status[i].terminal())) by {
                law_failed_seeds_block_their_readers(u, at, now, i as usize);
            }
            law_failed_seeds_block_their_readers(u, at, now, at);
        }
    }
}

/// What is decided before any model starts: a model that passed earlier in the
/// run at the version still desired, and whose relation is there, is reused; a
/// model that the plan skips or reuses is settled so; of the others one that
/// reads a seed which failed to load is blocked, and one that is blocked reads
/// such a seed or is to be built below one that does. A run that was cancelled,
/// or fails fast with a failed seed, starts nothing.
pub proof fn law_models_are_settled_before_the_start(launch: Launch, now: Seq<char>, i: int)
    requires
        0 <= i < launch.names().len(),
        fresh(
            crate::runner::blank_results(launch.compilation.models, launch.plan.models),
            crate::runner::all_readers(launch.compilation.models, launch.names()),
            launch.concurrency,
            launch.fail_fast,
            launch.events,
        ).sound(),
    ensures
        ({
            let v = launch.begun(now);
            let reused = launch.info(i).exists && (named(
                launch.prior.models,
                launch.names()[i],
            ) matches Some(record) && record.status == ExecutionStatus::Passed
                && record.desired_version == launch.model(i).version.hash);
            let builds = launch.info(i).action == PlanAction::Build || launch.info(i).action
                == PlanAction::Unknown;
            &&& reused ==> v.status[i] == ExecutionStatus::Cached
            &&& !reused && launch.info(i).action == PlanAction::Cached ==> v.status[i]
                == ExecutionStatus::Cached
            &&& !reused && launch.info(i).action == PlanAction::Skip ==> v.status[i]
                == ExecutionStatus::Skipped
            &&& !reused && builds ==> v.status[i] == ExecutionStatus::Pending || v.status[i]
                == ExecutionStatus::Blocked
            &&& !reused && builds && launch.unloaded()[i] ==> v.status[i]
                == ExecutionStatus::Blocked
            &&& v.cancelled == launch.cancelled
            &&& v.failed_fast == (launch.fail_fast && launch.failed.len() > 0)
            &&& v.inflight == 0
        }),
{
    let n = launch.names().len();
    let start = fresh(
        crate::runner::blank_results(launch.compilation.models, launch.plan.models),
        crate::runner::all_readers(launch.compilation.models, launch.names()),
        launch.concurrency,
        launch.fail_fast,
        launch.events,
    );
    lemma_reuse_pass(start, launch.reused(), n);
    let a = reuse_pass(start, launch.reused(), n);
    lemma_plan_pass(a, launch.actions(), n);
    let b = plan_pass(a, launch.actions(), n);
    lemma_seed_pass(b, launch.unloaded(), n, now);
    let c = seed_pass(b, launch.unloaded(), n, now);
    assert(a.status[i] == a.status[i]);
    assert(b.status[i] == b.status[i]);
    assert(c.status[i] == c.status[i]);
    lemma_passes_keep(start, launch.reused(), launch.actions(), launch.unloaded(), n, now);
}

proof fn lemma_passes_keep(
    v: ExecutionView,
    reused: Seq<bool>,
    actions: Seq<PlanAction>,
    unloaded: Seq<bool>,
    n: nat,
    now: Seq<char>,
)
    requires
        v.sound(),
        n == v.blanks.len(),
        reused.len() == n,
        actions.len() == n,
        unloaded.len() == n,
        forall|i: int| 0 <= i < n ==> #[trigger] v.status[i] == ExecutionStatus::Pending,
    ensures
        ({
            let w = seed_pass(plan_pass(reuse_pass(v, reused, n), actions, n), unloaded, n, now);
            &&& w.cancelled == v.cancelled
            &&& w.failed_fast == v.failed_fast
            &&& w.inflight == v.inflight
        }),
{
    lemma_reuse_pass(v, reused, n);
    let a = reuse_pass(v, reused, n);
    lemma_reuse_keeps(v, reused, n);
    lemma_plan_pass(a, actions, n);
    lemma_plan_keeps(a, actions, n);
    lemma_seed_keeps(plan_pass(a, actions, n), unloaded, n, now);
}

proof fn lemma_reuse_keeps(v: ExecutionView, flags: Seq<bool>, k: nat)
    ensures
        reuse_pass(v, flags, k).cancelled == v.cancelled,
        reuse_pass(v, flags, k).failed_fast == v.failed_fast,
        reuse_pass(v, flags, k).inflight == v.inflight,
    decreases k,
{
    if k > 0 {
        lemma_reuse_keeps(v, flags, (k - 1) as nat);
    }
}

proof fn lemma_plan_keeps(v: ExecutionView, actions: Seq<PlanAction>, k: nat)
    ensures
        plan_pass(v, actions, k).cancelled == v.cancelled,
        plan_pass(v, actions, k).failed_fast == v.failed_fast,
        plan_pass(v, actions, k).inflight == v.inflight,
    decreases k,
{
    if k > 0 {
        lemma_plan_keeps(v, actions, (k - 1) as nat);
    }
}

proof fn lemma_seed_keeps(v: ExecutionView, flags: Seq<bool>, k: nat, now: Seq<char>)
    requires
        v.sound(),
        k <= v.blanks.len(),
        flags.len() >= k,
    ensures
        seed_pass(v, flags, k, now).cancelled == v.cancelled,
        seed_pass(v, flags, k, now).failed_fast == v.failed_fast,
        seed_pass(v, flags, k, now).inflight == v.inflight,
    decreases k,
{
    if k > 0 {
        lemma_seed_keeps(v, flags, (k - 1) as nat, now);
        lemma_seed_pass(v, flags, (k - 1) as nat, now);
        let u = seed_pass(v, flags, (k - 1) as nat, now);
        if flags[k - 1] && u.status[k - 1] == ExecutionStatus::Pending {
            let at = (k - 1) as usize;
            let result = unexecuted(
                u.blanks[k - 1],
                ExecutionStatus::Blocked,
                crate::failure::FailureCategory::Dependency,
                "blocked by a failed seed load"@,
                now,
            );
            lemma_conclude_unsatisfied(u, k - 1, result);
            let w = journaled(concluded(u, k - 1, result), at);
            assert(w.sound());
            lemma_blocked_below(w, at, now);
            crate::schedule::lemma_blocked_along(
                w,
                crate::schedule::walk(
                    w.children,
                    crate::schedule::open_models(w.status),
                    crate::schedule::below(w.children, at),
                ),
                now,
            );
        }
    }
}

/// A seed is loaded, or left alone, exactly where it is planned and the
/// workspace has it, and at that seed's place.
pub proof fn law_planned_seeds_have_tasks(
    compilation: CompilationView,
    adapter: Seq<char>,
    seeds: Seq<PlannedSeedView>,
    task: SeedTaskView,
)
    ensures
        gather(seeds, seed_task(compilation, adapter)).contains(task) <==> {
            &&& seeds.contains(task.planned)
            &&& seed_named(compilation.seeds, task.planned.name) is Some
            &&& task.relation == seed_place(
                seed_named(compilation.seeds, task.planned.name)->0,
                compilation.defaults.catalog,
                schema_in_force(compilation.defaults.schema, adapter),
                adapter,
            )
        },
{
    let f = seed_task(compilation, adapter);
    lemma_gather_member(seeds, f, task);
    if gather(seeds, f).contains(task) {
        let k = choose|k: int| 0 <= k < seeds.len() && f(#[trigger] seeds[k]).contains(task);
        assert(task.planned == seeds[k]);
        assert(seeds.contains(seeds[k]));
    }
    if seeds.contains(task.planned) && seed_named(compilation.seeds, task.planned.name) is Some
        && task.relation == seed_place(
        seed_named(compilation.seeds, task.planned.name)->0,
        compilation.defaults.catalog,
        schema_in_force(compilation.defaults.schema, adapter),
        adapter,
    ) {
        let k = choose|k: int| 0 <= k < seeds.len() && seeds[k] == task.planned;
        assert(f(seeds[k])[0] == task);
        assert(f(seeds[k]).contains(task));
    }
}

/// A test gets a task exactly where it is planned and the workspace has it;
/// the task runs that test's query.
pub proof fn law_planned_tests_have_tasks(
    plan: PlanView,
    v: ExecutionView,
    catalog: Option<Seq<char>>,
    schema: Option<Seq<char>>,
    failed: Seq<Seq<char>>,
    tests: Seq<CompiledTestView>,
    task: TestTaskView,
)
    ensures
        gather(tests, test_task(plan, v, catalog, schema, failed)).contains(task) <==> (exists|
            i: int,
        |
            0 <= i < tests.len() && (#[trigger] tests[i]).id == task.test && tests[i].compiled_sql
                == task.compiled_sql && task.inputs == inputs_of(
                tests[i],
                v,
                catalog,
                schema,
                failed,
            )) && exists|j: int|
            0 <= j < plan.tests.len() && (#[trigger] plan.tests[j]).id == task.test,
{
    let f = test_task(plan, v, catalog, schema, failed);
    lemma_gather_member(tests, f, task);
    if (exists|i: int|
        0 <= i < tests.len() && (#[trigger] tests[i]).id == task.test && tests[i].compiled_sql
            == task.compiled_sql && task.inputs == inputs_of(
            tests[i],
            v,
            catalog,
            schema,
            failed,
        )) && exists|j: int|
        0 <= j < plan.tests.len() && (#[trigger] plan.tests[j]).id == task.test {
        let i = choose|i: int|
            0 <= i < tests.len() && (#[trigger] tests[i]).id == task.test && tests[i].compiled_sql
                == task.compiled_sql && task.inputs == inputs_of(
                tests[i],
                v,
                catalog,
                schema,
                failed,
            );
        assert(plans_test(plan.tests, tests[i].id));
        assert(f(tests[i])[0] == task);
        assert(f(tests[i]).contains(task));
    }
}

/// A test waits for its targets, each with the status that the target has in
/// the execution, and for the seeds behind its sources.
pub proof fn law_tests_wait_for_what_they_read(
    test: CompiledTestView,
    v: ExecutionView,
    catalog: Option<Seq<char>>,
    schema: Option<Seq<char>>,
    failed: Seq<Seq<char>>,
    i: int,
    at: int,
)
    requires
        0 <= i < test.targets.len(),
        0 <= at < v.blanks.len(),
        v.blanks[at].model == test.targets[i],
        forall|a: int, b: int|
            0 <= a < b < v.blanks.len() ==> (#[trigger] v.blanks[a]).model != (
            #[trigger] v.blanks[b]).model,
    ensures
        inputs_of(test, v, catalog, schema, failed).targets[i] == (test.targets[i], v.status[at]),
        inputs_of(test, v, catalog, schema, failed).targets.len() == test.targets.len(),
        inputs_of(test, v, catalog, schema, failed).sources.len() == test.sources.len(),
{
    lemma_status_found(v, test.targets[i], at, v.blanks.len());
}

proof fn lemma_status_found(v: ExecutionView, name: Seq<char>, at: int, k: nat)
    requires
        0 <= at < k <= v.blanks.len(),
        v.blanks[at].model == name,
        forall|a: int, b: int|
            0 <= a < b < v.blanks.len() ==> (#[trigger] v.blanks[a]).model != (
            #[trigger] v.blanks[b]).model,
    ensures
        status_named(v, name, k) == v.status[at],
    decreases k,
{
    if at < k - 1 {
        assert(v.blanks[at].model != v.blanks[k - 1].model);
        lemma_status_found(v, name, at, (k - 1) as nat);
    }
}

/// The result of a run holds the results of exactly the models that are done,
/// is cancelled where the run was, and otherwise failed exactly where some
/// node failed.
pub proof fn law_results_are_of_the_run(
    r: RunResultView,
    v: ExecutionView,
    run_id: Seq<char>,
    plan_id: Seq<char>,
    environment: Option<Seq<char>>,
    continued_from: Option<Seq<char>>,
    started_at: Seq<char>,
    finished_at: Seq<char>,
    warnings: Seq<Seq<char>>,
    seeds: Seq<SeedResultView>,
    tests: Seq<TestResultView>,
    result: ModelResultView,
)
    requires
        is_run_result(
            r,
            v,
            run_id,
            plan_id,
            environment,
            continued_from,
            started_at,
            finished_at,
            warnings,
            seeds,
            tests,
        ),
    ensures
        r.models.contains(result) <==> v.results.contains(Some(result)),
        r.seeds == seeds,
        r.tests == tests,
        r.run_id == run_id && r.plan_id == plan_id && r.environment == environment,
        r.started_at == started_at && r.finished_at == finished_at,
        r.continued_from == continued_from,
        r.warnings == warnings,
        v.cancelled <==> r.status == ExecutionStatus::Cancelled,
        !v.cancelled ==> (r.status == ExecutionStatus::Failed <==> r.counts.failed > 0),
        !v.cancelled ==> (r.status == ExecutionStatus::Passed <==> r.counts.failed == 0),
{
    crate::schedule_laws::law_results_are_of_done_models(v.results, result);
}

/// Counts a planned model that writes a target.
pub open spec fn writes(planned: Seq<Seq<char>>, target: Seq<char>) -> spec_fn(
    CompiledModelView,
) -> bool {
    |model: CompiledModelView|
        planned.contains(model.id) && relation_text(model.target) == target
}

proof fn lemma_writes(
    models: Seq<CompiledModelView>,
    planned: Seq<Seq<char>>,
    target: Seq<char>,
)
    requires
        models.len() <= usize::MAX,
    ensures
        count_where(models, writes(planned, target)) <= models.len(),
        named(write_counts(models, planned), target) == if count_where(
            models,
            writes(planned, target),
        ) == 0 {
            None
        } else {
            Some(count_where(models, writes(planned, target)) as usize)
        },
    decreases models.len(),
{
    if models.len() > 0 {
        let rest = models.drop_last();
        lemma_writes(rest, planned, target);
        lemma_write_counts(rest, planned);
        let before = write_counts(rest, planned);
        let model = models.last();
        let own = relation_text(model.target);
        if planned.contains(model.id) {
            let next: usize = match named(before, own) {
                Some(count) => (count + 1) as usize,
                None => 1usize,
            };
            lemma_with_name(before, own, next);
            assert(write_counts(models, planned) == crate::names::with_name(before, own, next));
            assert(named(crate::names::with_name(before, own, next), target) == if target == own {
                Some(next)
            } else {
                named(before, target)
            });
        }
    }
}

proof fn lemma_two_of<A>(items: Seq<A>, p: spec_fn(A) -> bool)
    ensures
        count_where(items, p) > 0 <==> exists|i: int| 0 <= i < items.len() && p(
            #[trigger] items[i],
        ),
        count_where(items, p) > 1 <==> exists|i: int, j: int|
            0 <= i < j < items.len() && p(#[trigger] items[i]) && p(#[trigger] items[j]),
    decreases items.len(),
{
    if items.len() > 0 {
        let rest = items.drop_last();
        let last = items.len() - 1;
        lemma_two_of(rest, p);
        assert forall|i: int| 0 <= i < rest.len() implies #[trigger] rest[i] == items[i] by {}
        if exists|i: int| 0 <= i < rest.len() && p(#[trigger] rest[i]) {
            let i = choose|i: int| 0 <= i < rest.len() && p(#[trigger] rest[i]);
            assert(p(items[i]));
            if p(items[last]) {
                assert(i < last && p(items[i]) && p(items[last]));
            }
        }
        if p(items.last()) {
            assert(p(items[last]));
        }
        if exists|i: int, j: int|
            0 <= i < j < rest.len() && p(#[trigger] rest[i]) && p(#[trigger] rest[j]) {
            let (i, j) = choose|i: int, j: int|
                0 <= i < j < rest.len() && p(#[trigger] rest[i]) && p(#[trigger] rest[j]);
            assert(p(items[i]) && p(items[j]));
        }
        if exists|i: int| 0 <= i < items.len() && p(#[trigger] items[i]) {
            let i = choose|i: int| 0 <= i < items.len() && p(#[trigger] items[i]);
            if i < last {
                assert(p(rest[i]));
            }
        }
        if exists|i: int, j: int|
            0 <= i < j < items.len() && p(#[trigger] items[i]) && p(#[trigger] items[j]) {
            let (i, j) = choose|i: int, j: int|
                0 <= i < j < items.len() && p(#[trigger] items[i]) && p(#[trigger] items[j]);
            assert(p(rest[i]));
            if j < last {
                assert(p(rest[j]));
            }
        }
    }
}

/// A target is held to be shared exactly where two planned models write it.
pub proof fn law_shared_targets_have_two_writers(
    models: Seq<CompiledModelView>,
    planned: Seq<Seq<char>>,
    target: Seq<char>,
)
    requires
        models.len() <= usize::MAX,
    ensures
        gather(write_counts(models, planned), if_shared()).contains(target) <==> exists|
            i: int,
            j: int,
        |
            0 <= i < j < models.len() && planned.contains((#[trigger] models[i]).id)
                && planned.contains((#[trigger] models[j]).id) && relation_text(models[i].target)
                == target && relation_text(models[j].target) == target,
{
    let counts = write_counts(models, planned);
    let p = writes(planned, target);
    let f = if_shared();
    lemma_writes(models, planned, target);
    lemma_write_counts(models, planned);
    lemma_two_of(models, p);
    lemma_gather_member(counts, f, target);
    if gather(counts, f).contains(target) {
        let k = choose|k: int| 0 <= k < counts.len() && f(#[trigger] counts[k]).contains(target);
        lemma_name_unique(counts, k);
        assert(counts[k].0 == target);
        let (i, j) = choose|i: int, j: int|
            0 <= i < j < models.len() && p(#[trigger] models[i]) && p(#[trigger] models[j]);
        assert(planned.contains(models[i].id) && planned.contains(models[j].id));
    }
    if exists|i: int, j: int|
        0 <= i < j < models.len() && planned.contains((#[trigger] models[i]).id)
            && planned.contains((#[trigger] models[j]).id) && relation_text(models[i].target)
            == target && relation_text(models[j].target) == target {
        let (i, j) = choose|i: int, j: int|
            0 <= i < j < models.len() && planned.contains((#[trigger] models[i]).id)
                && planned.contains((#[trigger] models[j]).id) && relation_text(models[i].target)
                == target && relation_text(models[j].target) == target;
        assert(p(models[i]) && p(models[j]));
        let count = named(counts, target);
        assert(count is Some);
        assert(crate::names::has_name(counts, target));
        let k = crate::names::name_index(counts, target);
        assert(counts[k].0 == target);
        lemma_name_unique(counts, k);
        assert(f(counts[k])[0] == target);
        assert(f(counts[k]).contains(target));
    }
}

/// A namespace is among those that must exist exactly where a planned model
/// writes into it.
pub proof fn law_namespaces_are_those_written_to(
    models: Seq<CompiledModelView>,
    planned: Seq<Seq<char>>,
    catalog: Option<Seq<char>>,
    schema: Seq<char>,
)
    requires
        gather(models, place_of_target(planned)).len() <= usize::MAX,
    ensures
        (exists|k: int|
            0 <= k < target_places(models, planned).len() && {
                let at = namespace(#[trigger] target_places(models, planned)[k]);
                at.catalog == catalog && at.schema == schema
            }) <==> exists|i: int|
            0 <= i < models.len() && planned.contains((#[trigger] models[i]).id)
                && models[i].target.catalog == catalog && models[i].target.schema == schema,
{
    let f = place_of_target(planned);
    let all = gather(models, f);
    let places = target_places(models, planned);
    if exists|k: int|
        0 <= k < places.len() && {
            let at = namespace(#[trigger] places[k]);
            at.catalog == catalog && at.schema == schema
        } {
        let k = choose|k: int|
            0 <= k < places.len() && {
                let at = namespace(#[trigger] places[k]);
                at.catalog == catalog && at.schema == schema
            };
        let place = places[k];
        assert(places.contains(place));
        law_dropping_repeats_keeps_members(crate::order::sorted_lists(all), place);
        law_sorting_lists_rearranges(all, place);
        lemma_gather_member(models, f, place);
        let i = choose|i: int| 0 <= i < models.len() && f(#[trigger] models[i]).contains(place);
        assert(planned.contains(models[i].id));
    }
    if exists|i: int|
        0 <= i < models.len() && planned.contains((#[trigger] models[i]).id)
            && models[i].target.catalog == catalog && models[i].target.schema == schema {
        let i = choose|i: int|
            0 <= i < models.len() && planned.contains((#[trigger] models[i]).id)
                && models[i].target.catalog == catalog && models[i].target.schema == schema;
        let place = f(models[i])[0];
        assert(f(models[i]).contains(place));
        lemma_gather_member(models, f, place);
        law_dropping_repeats_keeps_members(crate::order::sorted_lists(all), place);
        law_sorting_lists_rearranges(all, place);
        let k = choose|k: int| 0 <= k < places.len() && places[k] == place;
        assert(namespace(places[k]).schema == schema);
    }
}

/// The load of a seed is recorded exactly where the seed passed and the
/// workspace has it, with the content that it has there.
pub proof fn law_only_loaded_seeds_are_recorded(
    compilation: CompilationView,
    mark: RunMarkView,
    results: Seq<SeedResultView>,
    record: SeedRecordView,
)
    ensures
        gather(results, load_of(compilation, mark)).contains(record) <==> exists|i: int|
            0 <= i < results.len() && (#[trigger] results[i]).status == ExecutionStatus::Passed
                && seed_named(compilation.seeds, results[i].seed) is Some && record.name
                == seed_named(compilation.seeds, results[i].seed)->0.name && record.content_hash
                == seed_named(compilation.seeds, results[i].seed)->0.content_hash
                && record.target == results[i].target && record.environment == mark.environment
                && record.run_id == mark.run_id && record.loaded_at == mark.finished_at,
{
    let f = load_of(compilation, mark);
    lemma_gather_member(results, f, record);
    if gather(results, f).contains(record) {
        let i = choose|i: int| 0 <= i < results.len() && f(#[trigger] results[i]).contains(record);
        assert(f(results[i])[0] == record);
    }
    if exists|i: int|
        0 <= i < results.len() && (#[trigger] results[i]).status == ExecutionStatus::Passed
            && seed_named(compilation.seeds, results[i].seed) is Some && record.name
            == seed_named(compilation.seeds, results[i].seed)->0.name && record.content_hash
            == seed_named(compilation.seeds, results[i].seed)->0.content_hash && record.target
            == results[i].target && record.environment == mark.environment && record.run_id
            == mark.run_id && record.loaded_at == mark.finished_at {
        let i = choose|i: int|
            0 <= i < results.len() && (#[trigger] results[i]).status == ExecutionStatus::Passed
                && seed_named(compilation.seeds, results[i].seed) is Some && record.name
                == seed_named(compilation.seeds, results[i].seed)->0.name && record.content_hash
                == seed_named(compilation.seeds, results[i].seed)->0.content_hash
                && record.target == results[i].target && record.environment == mark.environment
                && record.run_id == mark.run_id && record.loaded_at == mark.finished_at;
        assert(f(results[i])[0] == record);
        assert(f(results[i]).contains(record));
    }
}

} // verus!
