//! Applying plans: from a plan to an execution, and from a finished execution
//! to the run's result.

use vstd::prelude::*;

use crate::contracts::without_repeats;
use crate::error::{EngineError, EngineErrorView};
use crate::events::{EngineEvent, EngineEventView, ExecutionStatus};
use crate::graph::deps_of;
use crate::names::{named, with_name, NameMap};
use crate::order::{
    is_listing, lemma_listing_hits, lemma_text_listing, lemma_text_order, lemma_the_listing,
    list_items, listed, order_texts, sort_lists, sorted_lists, text_order, the_listing,
};
use crate::plan::{
    staleness_of, Plan, PlanAction, PlanView, PlannedModel, PlannedModelView, PlannedSeed,
    PlannedSeedView, PlannedTest, PlannedTestView,
};
use crate::run::{
    all_statuses, blank_result, counts_of, load_record, model_result, overall, record_build,
    record_load, recording, run_status, tally, ModelResult, ModelResultView, Recording,
    RecordingView, RunCounts, RunOptions, RunResult, RunResultView, SeedResult, SeedResultView,
    TestInputs, TestInputsView, TestResult, TestResultView,
};
use crate::schedule::{
    blocked_by_seed, filled, fresh, if_done, reads_of, reads_upto, settled, times, Execution,
    ExecutionView,
};
use crate::seqs::{
    count_where, gather, last_where, lemma_count_ends, lemma_count_step, lemma_gather_ends,
    lemma_gather_member, lemma_gather_step, lemma_last_ends, lemma_last_step,
};
use crate::source_state::{
    borrowed, relation_for_source, schema_for, schema_in_force, seed_place, seed_relation,
    source_relation,
};
use crate::state::{
    ModelRunRecord, ModelRunRecordView, SeedRecord, SeedRecordView, SeedRunRecord,
    SeedRunRecordView,
};
use crate::text::{cat4, decimal_text, decimal_usize, holds, none_of, put, same, DeepClone};
use crate::util::{fresh_id, is_uuid_text};
use crate::workspace::{
    model_named, relation_text, seed_named, source_text, Compilation, CompilationView,
    CompiledModel, CompiledModelView, CompiledTest, CompiledTestView, Relation, RelationView,
    SourceId, SourceIdView,
};

verus! {

/// Prior per-node records by which a resumed run decides what is safely
/// reusable.
#[derive(Clone, Debug, PartialEq, Eq)]
pub struct PriorRun {
    /// By model name.
    pub models: NameMap<ModelRunRecord>,
    /// By seed name.
    pub seeds: NameMap<SeedRunRecord>,
}

/// The contents of a [`PriorRun`].
pub struct PriorRunView {
    pub models: Seq<(Seq<char>, ModelRunRecordView)>,
    pub seeds: Seq<(Seq<char>, SeedRunRecordView)>,
}

impl DeepView for PriorRun {
    type V = PriorRunView;

    open spec fn deep_view(&self) -> PriorRunView {
        PriorRunView {
            models: self.models.deep_view(),
            seeds: self.seeds.deep_view(),
        }
    }
}

impl DeepClone for PriorRun {
    fn deep_clone(&self) -> (copy: Self) {
        PriorRun {
            models: self.models.deep_clone(),
            seeds: self.seeds.deep_clone(),
        }
    }
}

impl Default for PriorRun {
    fn default() -> (prior: Self)
        ensures
            prior.deep_view() == no_prior(),
    {
        PriorRun { models: NameMap::new(), seeds: NameMap::new() }
    }
}

/// Nothing was executed before.
pub open spec fn no_prior() -> PriorRunView {
    PriorRunView { models: Seq::empty(), seeds: Seq::empty() }
}

/// Whether a model passed before at the version that is still desired; a
/// stale success is never trusted.
pub open spec fn reusable(prior: PriorRunView, id: Seq<char>, desired: Seq<char>) -> bool {
    match named(prior.models, id) {
        Some(record) => record.status == ExecutionStatus::Passed && record.desired_version
            == desired,
        None => false,
    }
}

/// Whether a seed was loaded before from the content it still has.
pub open spec fn seed_reusable(
    prior: PriorRunView,
    name: Seq<char>,
    stored_version: Seq<char>,
    current_hash: Seq<char>,
) -> bool {
    stored_version == current_hash && match named(prior.seeds, name) {
        Some(record) => record.status == ExecutionStatus::Passed,
        None => false,
    }
}

/// The records of models by name; a name recorded twice speaks by its last
/// record.
pub open spec fn models_by_name(records: Seq<ModelRunRecordView>) -> Seq<
    (Seq<char>, ModelRunRecordView),
>
    decreases records.len(),
{
    if records.len() == 0 {
        Seq::empty()
    } else {
        with_name(models_by_name(records.drop_last()), records.last().model_id, records.last())
    }
}

/// The records of seeds by name.
pub open spec fn seeds_by_name(records: Seq<SeedRunRecordView>) -> Seq<
    (Seq<char>, SeedRunRecordView),
>
    decreases records.len(),
{
    if records.len() == 0 {
        Seq::empty()
    } else {
        with_name(seeds_by_name(records.drop_last()), records.last().name, records.last())
    }
}

impl PriorRun {
    /// What the records of an earlier invocation say.
    pub fn of(models: &Vec<ModelRunRecord>, seeds: &Vec<SeedRunRecord>) -> (prior: Self)
        ensures
            prior.deep_view() == (PriorRunView {
                models: models_by_name(models.deep_view()),
                seeds: seeds_by_name(seeds.deep_view()),
            }),
    {
        let mut by_model: NameMap<ModelRunRecord> = NameMap::new();
        let ghost model_views = models.deep_view();
        assert(model_views.take(0) =~= Seq::<ModelRunRecordView>::empty());
        for i in 0..models.len()
            invariant
                model_views == models.deep_view(),
                by_model.deep_view() == models_by_name(model_views.take(i as int)),
        {
            assert(model_views.take(i as int + 1).drop_last() =~= model_views.take(i as int));
            by_model.insert(models[i].model_id.clone(), models[i].deep_clone());
        }
        assert(model_views.take(model_views.len() as int) =~= model_views);
        let mut by_seed: NameMap<SeedRunRecord> = NameMap::new();
        let ghost seed_views = seeds.deep_view();
        assert(seed_views.take(0) =~= Seq::<SeedRunRecordView>::empty());
        for i in 0..seeds.len()
            invariant
                seed_views == seeds.deep_view(),
                by_seed.deep_view() == seeds_by_name(seed_views.take(i as int)),
        {
            assert(seed_views.take(i as int + 1).drop_last() =~= seed_views.take(i as int));
            by_seed.insert(seeds[i].name.clone(), seeds[i].deep_clone());
        }
        assert(seed_views.take(seed_views.len() as int) =~= seed_views);
        PriorRun { models: by_model, seeds: by_seed }
    }

    /// A model's earlier success is reusable only when the version it built is
    /// still the desired version.
    pub fn reusable_model(&self, id: &str, desired_version: &str) -> (r: bool)
        ensures
            r == reusable(self.deep_view(), id@, desired_version@),
    {
        match self.models.get(id) {
            Some(record) => record.status == ExecutionStatus::Passed && same(
                record.desired_version.as_str(),
                desired_version,
            ),
            None => false,
        }
    }

    /// A seed's earlier load is reusable when it succeeded and the stored
    /// desired version still matches the seed's current content hash.
    pub fn reusable_seed(&self, name: &str, stored_version: &str, current_hash: &str) -> (r: bool)
        ensures
            r == seed_reusable(self.deep_view(), name@, stored_version@, current_hash@),
    {
        same(stored_version, current_hash) && match self.seeds.get(name) {
            Some(record) => record.status == ExecutionStatus::Passed,
            None => false,
        }
    }
}

/// The elements of a sequence, each at its first place.
pub open spec fn distinct(names: Seq<Seq<char>>) -> Seq<Seq<char>>
    decreases names.len(),
{
    if names.len() == 0 {
        Seq::empty()
    } else {
        let before = distinct(names.drop_last());
        if before.contains(names.last()) {
            before
        } else {
            before.push(names.last())
        }
    }
}

/// Keeps the name of a planned model that the workspace has.
pub open spec fn if_known(models: Seq<CompiledModelView>) -> spec_fn(PlannedModelView) -> Seq<
    Seq<char>,
> {
    |planned: PlannedModelView|
        if model_named(models, planned.id) is Some {
            seq![planned.id]
        } else {
            Seq::empty()
        }
}

/// The models that are executed, in plan order.
pub open spec fn executed_names(
    models: Seq<CompiledModelView>,
    planned: Seq<PlannedModelView>,
) -> Seq<Seq<char>> {
    distinct(gather(planned, if_known(models)))
}

/// Picks the planned model of a given name.
pub open spec fn plans(id: Seq<char>) -> spec_fn(PlannedModelView) -> bool {
    |planned: PlannedModelView| planned.id == id
}

/// Picks a name.
pub open spec fn is_name(name: Seq<char>) -> spec_fn(Seq<char>) -> bool {
    |other: Seq<char>| other == name
}

/// Model `j` among those that read model `i`: once per read.
pub open spec fn reader_entries(
    models: Seq<CompiledModelView>,
    names: Seq<Seq<char>>,
    i: int,
) -> spec_fn(usize) -> Seq<usize> {
    |j: usize|
        Seq::new(
            count_where(deps_of(models, names[j as int]), is_name(names[i])),
            |k: int| j,
        )
}

/// The models that read model `i`, by name.
pub open spec fn readers(
    models: Seq<CompiledModelView>,
    names: Seq<Seq<char>>,
    i: int,
) -> Seq<usize> {
    gather(the_listing(names.len(), text_order(names)), reader_entries(models, names, i))
}

/// For each model the models that read it.
pub open spec fn all_readers(models: Seq<CompiledModelView>, names: Seq<Seq<char>>) -> Seq<
    Seq<usize>,
> {
    Seq::new(names.len(), |i: int| readers(models, names, i))
}

pub proof fn lemma_distinct(names: Seq<Seq<char>>)
    ensures
        distinct(names).no_duplicates(),
        forall|x: Seq<char>| #[trigger] distinct(names).contains(x) ==> names.contains(x),
        distinct(names).len() <= names.len(),
    decreases names.len(),
{
    if names.len() > 0 {
        let rest = names.drop_last();
        lemma_distinct(rest);
        let before = distinct(rest);
        let after = distinct(names);
        if !before.contains(names.last()) {
            assert forall|i: int, j: int|
                0 <= i < after.len() && 0 <= j < after.len() && i != j implies after[i]
                != after[j] by {
                if i < before.len() && j < before.len() {
                    assert(before[i] != before[j]);
                } else if i < before.len() {
                    assert(before.contains(before[i]));
                } else {
                    assert(before.contains(before[j]));
                }
            }
        }
        assert forall|x: Seq<char>| #[trigger] after.contains(x) implies names.contains(x) by {
            let k = choose|k: int| 0 <= k < after.len() && after[k] == x;
            if k < before.len() {
                assert(before[k] == x);
                assert(before.contains(x));
                let m = choose|m: int| 0 <= m < rest.len() && rest[m] == x;
                assert(names[m] == x);
            } else {
                assert(names[names.len() - 1] == x);
            }
        }
    }
}

pub proof fn lemma_executed_known(
    models: Seq<CompiledModelView>,
    planned: Seq<PlannedModelView>,
    i: int,
)
    requires
        0 <= i < executed_names(models, planned).len(),
    ensures
        model_named(models, executed_names(models, planned)[i]) is Some,
        exists|k: int|
            0 <= k < planned.len() && (#[trigger] planned[k]).id == executed_names(
                models,
                planned,
            )[i],
{
    let f = if_known(models);
    let all = gather(planned, f);
    let name = executed_names(models, planned)[i];
    lemma_distinct(all);
    assert(distinct(all).contains(name));
    crate::seqs::lemma_gather_member(planned, f, name);
    let k = choose|k: int| 0 <= k < planned.len() && f(#[trigger] planned[k]).contains(name);
    let got = f(planned[k]);
    let m = choose|m: int| 0 <= m < got.len() && got[m] == name;
    assert(got == seq![planned[k].id]);
}

fn executed_ids(compilation: &Compilation, plan: &Plan) -> (r: Vec<String>)
    ensures
        r.deep_view() == executed_names(compilation.deep_view().models, plan.deep_view().models),
{
    let items: &Vec<PlannedModel> = &plan.models;
    let known: Vec<String> = known_ids(compilation, items);
    let ghost views = known.deep_view();
    let mut r: Vec<String> = none_of();
    assert(views.take(0) =~= Seq::<Seq<char>>::empty());
    for i in 0..known.len()
        invariant
            views == known.deep_view(),
            r.deep_view() == distinct(views.take(i as int)),
    {
        assert(views.take(i as int + 1).drop_last() =~= views.take(i as int));
        let list: &[String] = r.as_slice();
        assert(list.deep_view() =~= r.deep_view());
        if !holds(list, known[i].as_str()) {
            put(&mut r, known[i].clone());
        }
    }
    assert(views.take(views.len() as int) =~= views);
    r
}

fn known_ids(compilation: &Compilation, items: &Vec<PlannedModel>) -> (r: Vec<String>)
    ensures
        r.deep_view() == gather(items.deep_view(), if_known(compilation.deep_view().models)),
{
    let ghost views = items.deep_view();
    let ghost f = if_known(compilation.deep_view().models);
    proof {
        lemma_gather_ends(views, f);
    }
    let mut r: Vec<String> = none_of();
    for i in 0..items.len()
        invariant
            views == items.deep_view(),
            f == if_known(compilation.deep_view().models),
            r.deep_view() == gather(views.take(i as int), f),
    {
        proof {
            lemma_gather_step(views, i as int, f);
        }
        let ghost before = r.deep_view();
        assert(views[i as int] == items@[i as int].deep_view());
        if compilation.model(items[i].id.as_str()).is_some() {
            put(&mut r, items[i].id.clone());
        }
        assert(r.deep_view() =~= before + f(views[i as int]));
    }
    r
}

/// The plan's last word on a model.
pub fn find_planned<'a>(items: &'a Vec<PlannedModel>, id: &str) -> (r: Option<&'a PlannedModel>)
    ensures
        r.deep_view() == last_where(items.deep_view(), plans(id@)),
{
    let ghost views = items.deep_view();
    let ghost p = plans(id@);
    proof {
        lemma_last_ends(views, p);
    }
    let mut found: Option<&PlannedModel> = None;
    for i in 0..items.len()
        invariant
            views == items.deep_view(),
            p == plans(id@),
            found.deep_view() == last_where(views.take(i as int), p),
    {
        proof {
            lemma_last_step(views, i as int, p);
        }
        assert(views[i as int] == items@[i as int].deep_view());
        if same(items[i].id.as_str(), id) {
            found = Some(&items[i]);
        }
    }
    proof {
        lemma_last_ends(views, p);
    }
    found
}

fn count_name(list: &Vec<String>, name: &str) -> (r: usize)
    ensures
        r == count_where(list.deep_view(), is_name(name@)),
{
    let ghost views = list.deep_view();
    let ghost p = is_name(name@);
    proof {
        lemma_count_ends(views, p);
    }
    let mut r: usize = 0;
    for i in 0..list.len()
        invariant
            views == list.deep_view(),
            p == is_name(name@),
            r <= i,
            r == count_where(views.take(i as int), p),
    {
        proof {
            lemma_count_step(views, i as int, p);
        }
        if same(list[i].as_str(), name) {
            r = r + 1;
        }
    }
    r
}

fn readers_of(
    compilation: &Compilation,
    names: &Vec<String>,
    listing: &Vec<usize>,
    i: usize,
) -> (r: Vec<usize>)
    requires
        i < names@.len(),
        is_listing(listing@, names@.len()),
        listing@ == the_listing(names@.len(), text_order(names.deep_view())),
    ensures
        r@ == readers(compilation.deep_view().models, names.deep_view(), i as int),
        forall|k: int| 0 <= k < r@.len() ==> (#[trigger] r@[k]) < names@.len(),
{
    let ghost models = compilation.deep_view().models;
    let ghost f = reader_entries(models, names.deep_view(), i as int);
    let mut r: Vec<usize> = Vec::new();
    proof {
        lemma_gather_ends(listing@, f);
    }
    for k in 0..listing.len()
        invariant
            i < names@.len(),
            is_listing(listing@, names@.len()),
            models == compilation.deep_view().models,
            f == reader_entries(models, names.deep_view(), i as int),
            r@ == gather(listing@.take(k as int), f),
            forall|m: int| 0 <= m < r@.len() ==> (#[trigger] r@[m]) < names@.len(),
    {
        proof {
            lemma_gather_step(listing@, k as int, f);
        }
        let j: usize = listing[k];
        assert(listing@[k as int] < names@.len());
        let ghost before = r@;
        let count: usize = match compilation.model(names[j].as_str()) {
            Some(model) => count_name(&model.model_dependencies, names[i].as_str()),
            None => 0,
        };
        proof {
            if model_named(models, names.deep_view()[j as int]) is None {
                assert(deps_of(models, names.deep_view()[j as int]).len() == 0);
            }
            assert(count == f(j).len());
        }
        for m in 0..count
            invariant
                j < names@.len(),
                r@ == before + Seq::new(m as nat, |x: int| j),
                forall|x: int| 0 <= x < before.len() ==> (#[trigger] before[x]) < names@.len(),
        {
            r.push(j);
            assert(r@ =~= before + Seq::new(m as nat + 1, |x: int| j));
        }
        assert(r@ =~= before + f(j));
        assert forall|x: int| 0 <= x < r@.len() implies (#[trigger] r@[x]) < names@.len() by {
            if x < before.len() {
                assert(r@[x] == before[x]);
            }
        }
    }
    assert(listing@.take(listing@.len() as int) =~= listing@);
    r
}

fn all_readers_of(compilation: &Compilation, names: &Vec<String>) -> (r: Vec<Vec<usize>>)
    ensures
        r.deep_view() == all_readers(compilation.deep_view().models, names.deep_view()),
        r@.len() == names@.len(),
        forall|i: int, k: int|
            0 <= i < r@.len() && 0 <= k < r@[i]@.len() ==> (#[trigger] r@[i]@[k]) < names@.len(),
{
    let listing: Vec<usize> = order_texts(names);
    proof {
        lemma_text_order(names.deep_view());
        lemma_the_listing(listing@, names@.len(), text_order(names.deep_view()));
    }
    let mut r: Vec<Vec<usize>> = Vec::new();
    for i in 0..names.len()
        invariant
            is_listing(listing@, names@.len()),
            listing@ == the_listing(names@.len(), text_order(names.deep_view())),
            r@.len() == i,
            forall|a: int|
                0 <= a < i ==> (#[trigger] r@[a])@ == readers(
                    compilation.deep_view().models,
                    names.deep_view(),
                    a,
                ),
            forall|a: int, k: int|
                0 <= a < i && 0 <= k < r@[a]@.len() ==> (#[trigger] r@[a]@[k]) < names@.len(),
    {
        r.push(readers_of(compilation, names, &listing, i));
    }
    proof {
        let want = all_readers(compilation.deep_view().models, names.deep_view());
        assert forall|i: int| 0 <= i < names@.len() implies r.deep_view()[i] == want[i] by {
            assert(r@[i].deep_view() =~= r@[i]@);
        }
        assert(r.deep_view() =~= want);
    }
    r
}

proof fn lemma_count_distinct(deps: Seq<Seq<char>>, names: Seq<Seq<char>>, k: nat)
    requires
        names.no_duplicates(),
        k <= names.len(),
    ensures
        name_reads(deps, names, k) <= deps.len(),
    decreases deps.len(),
{
    if deps.len() == 0 {
        lemma_no_reads(deps, names, k);
    } else {
        lemma_count_distinct(deps.drop_last(), names, k);
        lemma_one_more(deps, names, k);
    }
}

spec fn name_reads(deps: Seq<Seq<char>>, names: Seq<Seq<char>>, k: nat) -> nat
    decreases k,
{
    if k == 0 {
        0
    } else {
        name_reads(deps, names, (k - 1) as nat) + count_where(deps, is_name(names[k - 1]))
    }
}

proof fn lemma_no_reads(deps: Seq<Seq<char>>, names: Seq<Seq<char>>, k: nat)
    requires
        deps.len() == 0,
    ensures
        name_reads(deps, names, k) == 0,
    decreases k,
{
    if k > 0 {
        lemma_no_reads(deps, names, (k - 1) as nat);
    }
}

proof fn lemma_one_more(deps: Seq<Seq<char>>, names: Seq<Seq<char>>, k: nat)
    requires
        names.no_duplicates(),
        k <= names.len(),
        deps.len() > 0,
    ensures
        name_reads(deps, names, k) == name_reads(deps.drop_last(), names, k) + (if exists|i: int|
            0 <= i < k && #[trigger] names[i] == deps.last() {
            1nat
        } else {
            0nat
        }),
    decreases k,
{
    if k > 0 {
        lemma_one_more(deps, names, (k - 1) as nat);
        let d = deps.last();
        if names[k - 1] == d {
            if exists|i: int| 0 <= i < k - 1 && #[trigger] names[i] == d {
                let i = choose|i: int| 0 <= i < k - 1 && #[trigger] names[i] == d;
                assert(names[i] != names[k - 1]);
            }
        } else {
            if exists|i: int| 0 <= i < k && #[trigger] names[i] == d {
                let i = choose|i: int| 0 <= i < k && #[trigger] names[i] == d;
                assert(i < k - 1);
            }
        }
    }
}

proof fn lemma_times_listed(
    models: Seq<CompiledModelView>,
    names: Seq<Seq<char>>,
    i: int,
    listing: Seq<usize>,
    j: usize,
)
    requires
        listing.no_duplicates(),
    ensures
        times(gather(listing, reader_entries(models, names, i)), j as int) == if listing.contains(
            j,
        ) {
            count_where(deps_of(models, names[j as int]), is_name(names[i]))
        } else {
            0
        },
    decreases listing.len(),
{
    let f = reader_entries(models, names, i);
    if listing.len() > 0 {
        let rest = listing.drop_last();
        let last = listing.last();
        lemma_times_listed(models, names, i, rest, j);
        lemma_times_concat(gather(rest, f), f(last), j as int);
        lemma_times_repeat(f(last), last, j);
        assert(listing[listing.len() - 1] == last);
        if rest.contains(j) {
            let k = choose|k: int| 0 <= k < rest.len() && rest[k] == j;
            assert(listing[k] == j);
            assert(j != last);
        }
        if listing.contains(j) && j != last {
            let k = choose|k: int| 0 <= k < listing.len() && listing[k] == j;
            assert(rest[k] == j);
        }
    }
}

proof fn lemma_times_concat(a: Seq<usize>, b: Seq<usize>, j: int)
    ensures
        times(a + b, j) == times(a, j) + times(b, j),
    decreases b.len(),
{
    if b.len() == 0 {
        assert(a + b =~= a);
    } else {
        lemma_times_concat(a, b.drop_last(), j);
        assert((a + b).drop_last() =~= a + b.drop_last());
    }
}

proof fn lemma_times_repeat(list: Seq<usize>, value: usize, j: usize)
    requires
        forall|k: int| 0 <= k < list.len() ==> #[trigger] list[k] == value,
    ensures
        times(list, j as int) == if value == j {
            list.len()
        } else {
            0
        },
    decreases list.len(),
{
    if list.len() > 0 {
        lemma_times_repeat(list.drop_last(), value, j);
        assert(list[list.len() - 1] == value);
    }
}

proof fn lemma_reads_bounded(
    models: Seq<CompiledModelView>,
    names: Seq<Seq<char>>,
    j: usize,
    k: nat,
)
    requires
        names.no_duplicates(),
        is_listing(the_listing(names.len(), text_order(names)), names.len()),
        j < names.len(),
        k <= names.len(),
    ensures
        reads_upto(all_readers(models, names), j as int, k) <= name_reads(
            deps_of(models, names[j as int]),
            names,
            k,
        ),
    decreases k,
{
    if k > 0 {
        lemma_reads_bounded(models, names, j, (k - 1) as nat);
        lemma_times_listed(
            models,
            names,
            k - 1,
            the_listing(names.len(), text_order(names)),
            j,
        );
    }
}

/// What a model's results start from.
pub open spec fn blank_results(
    models: Seq<CompiledModelView>,
    planned: Seq<PlannedModelView>,
) -> Seq<ModelResultView> {
    let names = executed_names(models, planned);
    Seq::new(
        names.len(),
        |i: int|
            blank_result(
                model_named(models, names[i])->0,
                last_where(planned, plans(names[i])),
            ),
    )
}

/// Whether the first `k` models that were reused are settled as such.
pub open spec fn reuse_pass(v: ExecutionView, flags: Seq<bool>, k: nat) -> ExecutionView
    decreases k,
{
    if k == 0 {
        v
    } else {
        let u = reuse_pass(v, flags, (k - 1) as nat);
        if flags[k - 1] {
            settled(
                u,
                (k - 1) as usize,
                ExecutionStatus::Cached,
                Some("reused from earlier in this run"@),
            )
        } else {
            u
        }
    }
}

/// The status by which a plan action settles a model; none where the model is
/// to be built.
pub open spec fn settling(action: PlanAction) -> Option<ExecutionStatus> {
    match action {
        PlanAction::Build => None,
        PlanAction::Unknown => None,
        PlanAction::Cached => Some(ExecutionStatus::Cached),
        PlanAction::Skip => Some(ExecutionStatus::Skipped),
    }
}

/// The state once the first `k` models that need no building are settled.
pub open spec fn plan_pass(v: ExecutionView, actions: Seq<PlanAction>, k: nat) -> ExecutionView
    decreases k,
{
    if k == 0 {
        v
    } else {
        let u = plan_pass(v, actions, (k - 1) as nat);
        match settling(actions[k - 1]) {
            Some(status) => if u.status[k - 1] == ExecutionStatus::Pending {
                settled(u, (k - 1) as usize, status, None)
            } else {
                u
            },
            None => u,
        }
    }
}

/// The state once the first `k` models that read a failed seed are blocked.
pub open spec fn seed_pass(
    v: ExecutionView,
    flags: Seq<bool>,
    k: nat,
    now: Seq<char>,
) -> ExecutionView
    decreases k,
{
    if k == 0 {
        v
    } else {
        let u = seed_pass(v, flags, (k - 1) as nat, now);
        if flags[k - 1] && u.status[k - 1] == ExecutionStatus::Pending {
            blocked_by_seed(u, (k - 1) as usize, now)
        } else {
            u
        }
    }
}

/// Whether a model reads a relation whose seed failed to load.
pub open spec fn reads_failed_seed(
    sources: Seq<SourceIdView>,
    catalog: Option<Seq<char>>,
    schema: Option<Seq<char>>,
    failed: Seq<Seq<char>>,
) -> bool {
    exists|i: int|
        0 <= i < sources.len() && failed.contains(
            relation_text(source_relation(#[trigger] sources[i], catalog, schema)),
        )
}

/// Whether any of the sources is the target of a seed that failed to load.
pub fn reads_unloaded(
    sources: &Vec<SourceId>,
    catalog: Option<&str>,
    schema: Option<&str>,
    failed: &Vec<String>,
) -> (r: bool)
    ensures
        r == reads_failed_seed(
            sources.deep_view(),
            catalog.deep_view(),
            schema.deep_view(),
            failed.deep_view(),
        ),
{
    let ghost views = sources.deep_view();
    let list: &[String] = failed.as_slice();
    assert(list.deep_view() =~= failed.deep_view());
    for i in 0..sources.len()
        invariant
            views == sources.deep_view(),
            list.deep_view() == failed.deep_view(),
            forall|j: int|
                0 <= j < i ==> !failed.deep_view().contains(
                    relation_text(
                        source_relation(
                            #[trigger] views[j],
                            catalog.deep_view(),
                            schema.deep_view(),
                        ),
                    ),
                ),
    {
        let target: String = relation_for_source(&sources[i], catalog, schema).display();
        if holds(list, target.as_str()) {
            assert(sources.deep_view()[i as int] == sources@[i as int].deep_view());
            return true;
        }
    }
    false
}

/// What the start of an execution depends on.
pub struct Launch {
    pub compilation: CompilationView,
    pub plan: PlanView,
    pub adapter: Seq<char>,
    pub concurrency: usize,
    pub fail_fast: bool,
    /// Whether the run was cancelled while its seeds were loaded.
    pub cancelled: bool,
    pub prior: PriorRunView,
    /// The targets of the seeds that failed to load.
    pub failed: Seq<Seq<char>>,
    pub events: Seq<EngineEventView>,
}

impl Launch {
    pub open spec fn names(self) -> Seq<Seq<char>> {
        executed_names(self.compilation.models, self.plan.models)
    }

    pub open spec fn model(self, i: int) -> CompiledModelView {
        model_named(self.compilation.models, self.names()[i])->0
    }

    pub open spec fn info(self, i: int) -> PlannedModelView {
        last_where(self.plan.models, plans(self.names()[i]))->0
    }

    /// Models that passed earlier at their still-desired version and whose
    /// relation is still there.
    pub open spec fn reused(self) -> Seq<bool> {
        Seq::new(
            self.names().len(),
            |i: int|
                self.info(i).exists && reusable(
                    self.prior,
                    self.names()[i],
                    self.model(i).version.hash,
                ),
        )
    }

    pub open spec fn actions(self) -> Seq<PlanAction> {
        Seq::new(self.names().len(), |i: int| self.info(i).action)
    }

    /// Models that read a seed which failed to load.
    pub open spec fn unloaded(self) -> Seq<bool> {
        Seq::new(
            self.names().len(),
            |i: int|
                reads_failed_seed(
                    self.model(i).source_dependencies,
                    self.compilation.defaults.catalog,
                    schema_in_force(self.compilation.defaults.schema, self.adapter),
                    self.failed,
                ),
        )
    }

    /// The state with which execution begins: what an earlier invocation
    /// built is reused, what the plan does not build is settled, what reads a
    /// failed seed is blocked, and what waits for nobody is ready. A run that was
    /// cancelled, or in which a seed failed under fail-fast, is stopped before
    /// any model starts.
    pub open spec fn begun(self, now: Seq<char>) -> ExecutionView {
        let n = self.names().len();
        let start = fresh(
            blank_results(self.compilation.models, self.plan.models),
            all_readers(self.compilation.models, self.names()),
            self.concurrency,
            self.fail_fast,
            self.events,
        );
        let ready = filled(
            seed_pass(
                plan_pass(reuse_pass(start, self.reused(), n), self.actions(), n),
                self.unloaded(),
                n,
                now,
            ),
        );
        let stopped = if self.fail_fast && self.failed.len() > 0 {
            ExecutionView { failed_fast: true, ..ready }
        } else {
            ready
        };
        if self.cancelled {
            ExecutionView { cancelled: true, ..stopped }
        } else {
            stopped
        }
    }
}

/// A seed of a plan and the relation it loads into.
#[derive(Clone, Debug, PartialEq, Eq)]
pub struct SeedTask {
    pub planned: PlannedSeed,
    pub relation: Relation,
}

/// The contents of a [`SeedTask`].
pub struct SeedTaskView {
    pub planned: PlannedSeedView,
    pub relation: RelationView,
}

impl DeepView for SeedTask {
    type V = SeedTaskView;

    open spec fn deep_view(&self) -> SeedTaskView {
        SeedTaskView {
            planned: self.planned.deep_view(),
            relation: self.relation.deep_view(),
        }
    }
}

impl DeepClone for SeedTask {
    fn deep_clone(&self) -> (copy: Self) {
        SeedTask {
            planned: self.planned.deep_clone(),
            relation: self.relation.deep_clone(),
        }
    }
}

/// A test of a plan: its query, and what it waits for.
#[derive(Clone, Debug, PartialEq, Eq)]
pub struct TestTask {
    pub test: String,
    pub compiled_sql: String,
    pub inputs: TestInputs,
}

/// The contents of a [`TestTask`].
pub struct TestTaskView {
    pub test: Seq<char>,
    pub compiled_sql: Seq<char>,
    pub inputs: TestInputsView,
}

impl DeepView for TestTask {
    type V = TestTaskView;

    open spec fn deep_view(&self) -> TestTaskView {
        TestTaskView {
            test: self.test@,
            compiled_sql: self.compiled_sql@,
            inputs: self.inputs.deep_view(),
        }
    }
}

impl DeepClone for TestTask {
    fn deep_clone(&self) -> (copy: Self) {
        TestTask {
            test: self.test.deep_clone(),
            compiled_sql: self.compiled_sql.deep_clone(),
            inputs: self.inputs.deep_clone(),
        }
    }
}

/// The task of a planned seed; none where the workspace no longer has it.
pub open spec fn seed_task(compilation: CompilationView, adapter: Seq<char>) -> spec_fn(
    PlannedSeedView,
) -> Seq<SeedTaskView> {
    |planned: PlannedSeedView|
        match seed_named(compilation.seeds, planned.name) {
            Some(seed) => seq![
                SeedTaskView {
                    planned,
                    relation: seed_place(
                        seed,
                        compilation.defaults.catalog,
                        schema_in_force(compilation.defaults.schema, adapter),
                        adapter,
                    ),
                },
            ],
            None => Seq::empty(),
        }
}

/// The status of a model among the first `k` of an execution; pending where it
/// is not one of them.
pub open spec fn status_named(v: ExecutionView, name: Seq<char>, k: nat) -> ExecutionStatus
    decreases k,
{
    if k == 0 {
        ExecutionStatus::Pending
    } else if v.blanks[k - 1].model == name {
        v.status[k - 1]
    } else {
        status_named(v, name, (k - 1) as nat)
    }
}

/// What a test waits for.
pub open spec fn inputs_of(
    test: CompiledTestView,
    v: ExecutionView,
    catalog: Option<Seq<char>>,
    schema: Option<Seq<char>>,
    failed: Seq<Seq<char>>,
) -> TestInputsView {
    TestInputsView {
        targets: Seq::new(
            test.targets.len(),
            |i: int| (test.targets[i], status_named(v, test.targets[i], v.blanks.len())),
        ),
        sources: Seq::new(
            test.sources.len(),
            |i: int|
                (
                    source_text(test.sources[i]),
                    failed.contains(
                        relation_text(source_relation(test.sources[i], catalog, schema)),
                    ),
                ),
        ),
    }
}

/// Whether a plan holds a test.
pub open spec fn plans_test(tests: Seq<PlannedTestView>, id: Seq<char>) -> bool {
    exists|i: int| 0 <= i < tests.len() && (#[trigger] tests[i]).id == id
}

/// The task of a test that the plan holds.
pub open spec fn test_task(
    plan: PlanView,
    v: ExecutionView,
    catalog: Option<Seq<char>>,
    schema: Option<Seq<char>>,
    failed: Seq<Seq<char>>,
) -> spec_fn(CompiledTestView) -> Seq<TestTaskView> {
    |test: CompiledTestView|
        if plans_test(plan.tests, test.id) {
            seq![
                TestTaskView {
                    test: test.id,
                    compiled_sql: test.compiled_sql,
                    inputs: inputs_of(test, v, catalog, schema, failed),
                },
            ]
        } else {
            Seq::empty()
        }
}

fn find_status(execution: &Execution, name: &str) -> (r: ExecutionStatus)
    requires
        execution.deep_view().sound(),
    ensures
        r == status_named(execution.deep_view(), name@, execution.deep_view().blanks.len()),
{
    let n: usize = execution.len();
    let ghost v = execution.deep_view();
    let mut found: ExecutionStatus = ExecutionStatus::Pending;
    for i in 0..n
        invariant
            n == v.blanks.len(),
            v == execution.deep_view(),
            v.sound(),
            found == status_named(v, name@, i as nat),
    {
        if same(execution.blank(i).model.as_str(), name) {
            found = execution.status_of(i);
        }
    }
    found
}

fn is_planned_test(tests: &Vec<PlannedTest>, id: &str) -> (r: bool)
    ensures
        r == plans_test(tests.deep_view(), id@),
{
    let ghost views = tests.deep_view();
    for i in 0..tests.len()
        invariant
            views == tests.deep_view(),
            forall|k: int| 0 <= k < i ==> (#[trigger] views[k]).id != id@,
    {
        assert(views[i as int] == tests@[i as int].deep_view());
        if same(tests[i].id.as_str(), id) {
            return true;
        }
    }
    false
}

fn gather_inputs(
    test: &CompiledTest,
    execution: &Execution,
    catalog: Option<&str>,
    schema: Option<&str>,
    failed: &Vec<String>,
) -> (r: TestInputs)
    requires
        execution.deep_view().sound(),
    ensures
        r.deep_view() == inputs_of(
            test.deep_view(),
            execution.deep_view(),
            catalog.deep_view(),
            schema.deep_view(),
            failed.deep_view(),
        ),
{
    let ghost v = execution.deep_view();
    let ghost names = test.targets.deep_view();
    let ghost places = test.sources.deep_view();
    let ghost want = inputs_of(
        test.deep_view(),
        v,
        catalog.deep_view(),
        schema.deep_view(),
        failed.deep_view(),
    );
    let list: &[String] = failed.as_slice();
    assert(list.deep_view() =~= failed.deep_view());
    let mut targets: Vec<(String, ExecutionStatus)> = Vec::new();
    for i in 0..test.targets.len()
        invariant
            v == execution.deep_view(),
            v.sound(),
            names == test.targets.deep_view(),
            want.targets == inputs_of(
                test.deep_view(),
                v,
                catalog.deep_view(),
                schema.deep_view(),
                failed.deep_view(),
            ).targets,
            targets@.len() == i,
            forall|k: int| 0 <= k < i ==> (#[trigger] targets@[k]).deep_view() == want.targets[k],
    {
        assert(names[i as int] == test.targets@[i as int]@);
        let status: ExecutionStatus = find_status(execution, test.targets[i].as_str());
        targets.push((test.targets[i].clone(), status));
    }
    let mut sources: Vec<(String, bool)> = Vec::new();
    for i in 0..test.sources.len()
        invariant
            places == test.sources.deep_view(),
            list.deep_view() == failed.deep_view(),
            want.sources == inputs_of(
                test.deep_view(),
                v,
                catalog.deep_view(),
                schema.deep_view(),
                failed.deep_view(),
            ).sources,
            sources@.len() == i,
            forall|k: int| 0 <= k < i ==> (#[trigger] sources@[k]).deep_view() == want.sources[k],
    {
        assert(places[i as int] == test.sources@[i as int].deep_view());
        let target: String = relation_for_source(&test.sources[i], catalog, schema).display();
        sources.push((test.sources[i].logical_name(), holds(list, target.as_str())));
    }
    assert(targets.deep_view() =~= want.targets);
    assert(sources.deep_view() =~= want.sources);
    TestInputs { targets, sources }
}

/// Applies plans through one adapter.
#[derive(Clone, Debug, PartialEq, Eq)]
pub struct Runner {
    /// The adapter's name.
    pub adapter: String,
    /// Whether there is a state store.
    pub has_state: bool,
}

/// The contents of a [`Runner`].
pub struct RunnerView {
    pub adapter: Seq<char>,
    pub has_state: bool,
}

impl DeepView for Runner {
    type V = RunnerView;

    open spec fn deep_view(&self) -> RunnerView {
        RunnerView {
            adapter: self.adapter@,
            has_state: self.has_state,
        }
    }
}

impl DeepClone for Runner {
    fn deep_clone(&self) -> (copy: Self) {
        Runner {
            adapter: self.adapter.deep_clone(),
            has_state: self.has_state,
        }
    }
}

impl Runner {
    pub fn new(adapter: String, has_state: bool) -> (runner: Self)
        ensures
            runner.adapter@ == adapter@,
            runner.has_state == has_state,
    {
        Runner { adapter, has_state }
    }

    /// Whether a plan may be executed against a compilation. It may not where
    /// compilation errors block it or the workspace has moved on; otherwise
    /// the run gets its identifier.
    pub fn apply(&self, compilation: &Compilation, plan: &Plan) -> (r: Result<String, EngineError>)
        ensures
            if plan.blocked {
                r matches Err(error) && error.deep_view() == EngineErrorView::Compilation
            } else {
                match staleness_of(plan.deep_view().models, compilation.deep_view().models) {
                    Some(reason) => r matches Err(error) && error.deep_view()
                        == EngineErrorView::StalePlan(reason),
                    None => r matches Ok(run_id) && is_uuid_text(run_id@),
                }
            },
    {
        if plan.blocked {
            return Err(EngineError::Compilation);
        }
        match plan.staleness(compilation) {
            Some(reason) => Err(EngineError::StalePlan(reason)),
            None => Ok(fresh_id()),
        }
    }

    /// The seeds to load before any model is built, in plan order: seed
    /// relations are the physical inputs that models select from.
    pub fn seed_tasks(&self, compilation: &Compilation, plan: &Plan) -> (r: Vec<SeedTask>)
        ensures
            r.deep_view() == gather(
                plan.deep_view().seeds,
                seed_task(compilation.deep_view(), self.adapter@),
            ),
    {
        let catalog: Option<&str> = borrowed(&compilation.defaults.catalog);
        let schema: Option<&str> = schema_for(
            borrowed(&compilation.defaults.schema),
            self.adapter.as_str(),
        );
        let items: &Vec<PlannedSeed> = &plan.seeds;
        let ghost views = items.deep_view();
        let ghost f = seed_task(compilation.deep_view(), self.adapter@);
        proof {
            lemma_gather_ends(views, f);
        }
        let mut r: Vec<SeedTask> = none_of();
        for i in 0..items.len()
            invariant
                views == items.deep_view(),
                f == seed_task(compilation.deep_view(), self.adapter@),
                catalog.deep_view() == compilation.deep_view().defaults.catalog,
                schema.deep_view() == schema_in_force(
                    compilation.deep_view().defaults.schema,
                    self.adapter@,
                ),
                r.deep_view() == gather(views.take(i as int), f),
        {
            proof {
                lemma_gather_step(views, i as int, f);
            }
            let ghost before = r.deep_view();
            assert(views[i as int] == items@[i as int].deep_view());
            if let Some(seed) = compilation.seed(items[i].name.as_str()) {
                let relation: Relation = seed_relation(
                    seed,
                    catalog,
                    schema,
                    self.adapter.as_str(),
                );
                put(&mut r, SeedTask { planned: items[i].deep_clone(), relation });
            }
            assert(r.deep_view() =~= before + f(views[i as int]));
        }
        r
    }

    /// The tests to run once the models are done, in workspace order, each with
    /// the status of what it reads. A test is a consumer of the datasets it
    /// reads: [`crate::run::next_test`] blocks it where they are unavailable.
    pub fn run_tests(
        &self,
        compilation: &Compilation,
        plan: &Plan,
        options: &RunOptions,
        execution: &Execution,
        failed: &Vec<String>,
    ) -> (r: Vec<TestTask>)
        requires
            execution.deep_view().sound(),
        ensures
            r.deep_view() == (if options.run_tests {
                gather(
                    compilation.deep_view().tests,
                    test_task(
                        plan.deep_view(),
                        execution.deep_view(),
                        compilation.deep_view().defaults.catalog,
                        schema_in_force(compilation.deep_view().defaults.schema, self.adapter@),
                        failed.deep_view(),
                    ),
                )
            } else {
                Seq::empty()
            }),
    {
        if !options.run_tests {
            return none_of();
        }
        let catalog: Option<&str> = borrowed(&compilation.defaults.catalog);
        let schema: Option<&str> = schema_for(
            borrowed(&compilation.defaults.schema),
            self.adapter.as_str(),
        );
        let items: &Vec<CompiledTest> = &compilation.tests;
        let ghost views = items.deep_view();
        let ghost f = test_task(
            plan.deep_view(),
            execution.deep_view(),
            catalog.deep_view(),
            schema.deep_view(),
            failed.deep_view(),
        );
        proof {
            lemma_gather_ends(views, f);
        }
        let mut r: Vec<TestTask> = none_of();
        for i in 0..items.len()
            invariant
                views == items.deep_view(),
                f == test_task(
                    plan.deep_view(),
                    execution.deep_view(),
                    catalog.deep_view(),
                    schema.deep_view(),
                    failed.deep_view(),
                ),
                execution.deep_view().sound(),
                r.deep_view() == gather(views.take(i as int), f),
        {
            proof {
                lemma_gather_step(views, i as int, f);
            }
            let ghost before = r.deep_view();
            assert(views[i as int] == items@[i as int].deep_view());
            if is_planned_test(&plan.tests, items[i].id.as_str()) {
                let inputs: TestInputs = gather_inputs(
                    &items[i],
                    execution,
                    catalog,
                    schema,
                    failed,
                );
                put(
                    &mut r,
                    TestTask {
                        test: items[i].id.clone(),
                        compiled_sql: items[i].compiled_sql.clone(),
                        inputs,
                    },
                );
            }
            assert(r.deep_view() =~= before + f(views[i as int]));
        }
        r
    }

    /// Begins the execution of a plan's models, once its seeds are dealt with.
    pub fn execute(
        &self,
        compilation: &Compilation,
        plan: &Plan,
        options: &RunOptions,
        prior: &PriorRun,
        failed: &Vec<String>,
        cancelled: bool,
        events: Vec<EngineEvent>,
        now: &str,
    ) -> (r: Execution)
        ensures
            r.deep_view() == (Launch {
                compilation: compilation.deep_view(),
                plan: plan.deep_view(),
                adapter: self.adapter@,
                concurrency: options.concurrency,
                fail_fast: options.fail_fast,
                cancelled,
                prior: prior.deep_view(),
                failed: failed.deep_view(),
                events: events.deep_view(),
            }).begun(now@),
            r.deep_view().sound(),
    {
        let ghost launch = Launch {
            compilation: compilation.deep_view(),
            plan: plan.deep_view(),
            adapter: self.adapter@,
            concurrency: options.concurrency,
            fail_fast: options.fail_fast,
            cancelled,
            prior: prior.deep_view(),
            failed: failed.deep_view(),
            events: events.deep_view(),
        };
        let ghost models = compilation.deep_view().models;
        let ghost planned = plan.deep_view().models;
        let names: Vec<String> = executed_ids(compilation, plan);
        let n: usize = names.len();
        let ghost views = names.deep_view();
        let children: Vec<Vec<usize>> = all_readers_of(compilation, &names);
        let catalog: Option<&str> = borrowed(&compilation.defaults.catalog);
        let schema: Option<&str> = schema_for(
            borrowed(&compilation.defaults.schema),
            self.adapter.as_str(),
        );
        let mut blanks: Vec<ModelResult> = Vec::new();
        let mut reused: Vec<bool> = Vec::new();
        let mut actions: Vec<PlanAction> = Vec::new();
        let mut unloaded: Vec<bool> = Vec::new();
        for i in 0..n
            invariant
                n == names@.len(),
                views == names.deep_view(),
                models == compilation.deep_view().models,
                planned == plan.deep_view().models,
                views == executed_names(models, planned),
                launch.compilation == compilation.deep_view(),
                launch.plan == plan.deep_view(),
                launch.prior == prior.deep_view(),
                launch.failed == failed.deep_view(),
                catalog.deep_view() == launch.compilation.defaults.catalog,
                schema.deep_view() == schema_in_force(
                    launch.compilation.defaults.schema,
                    launch.adapter,
                ),
                blanks@.len() == i,
                reused@.len() == i,
                actions@.len() == i,
                unloaded@.len() == i,
                forall|k: int|
                    0 <= k < i ==> (#[trigger] blanks@[k]).deep_view() == blank_results(
                        models,
                        planned,
                    )[k],
                forall|k: int| 0 <= k < i ==> #[trigger] reused@[k] == launch.reused()[k],
                forall|k: int| 0 <= k < i ==> #[trigger] actions@[k] == launch.actions()[k],
                forall|k: int| 0 <= k < i ==> #[trigger] unloaded@[k] == launch.unloaded()[k],
        {
            proof {
                lemma_executed_known(models, planned, i as int);
                let k = choose|k: int|
                    0 <= k < planned.len() && (#[trigger] planned[k]).id == views[i as int];
                lemma_last_exists(planned, plans(views[i as int]), k);
            }
            let id: &str = names[i].as_str();
            if let Some(model) = compilation.model(id) {
                if let Some(info) = find_planned(&plan.models, id) {
                    blanks.push(model_result(model, Some(info)));
                    reused.push(
                        info.exists && prior.reusable_model(id, model.version.hash.as_str()),
                    );
                    actions.push(info.action);
                    unloaded.push(
                        reads_unloaded(&model.source_dependencies, catalog, schema, failed),
                    );
                }
            }
        }
        proof {
            assert(blanks.deep_view() =~= blank_results(models, planned));
            assert(reused@ =~= launch.reused());
            assert(actions@ =~= launch.actions());
            assert(unloaded@ =~= launch.unloaded());
            lemma_distinct(gather(planned, if_known(models)));
            crate::order::lemma_text_listing(views);
            assert forall|j: int| 0 <= j < blanks@.len() implies #[trigger] reads_of(
                children.deep_view(),
                j,
            ) <= usize::MAX by {
                lemma_reads_bounded(models, views, j as usize, views.len());
                lemma_executed_known(models, planned, j);
                let deps = deps_of(models, views[j]);
                lemma_count_distinct(deps, views, views.len());
                lemma_deps_bounded(compilation, views[j]);
            }
        }
        let mut r: Execution = Execution::new(
            blanks,
            children,
            options.concurrency,
            options.fail_fast,
            events,
        );
        let ghost start = r.deep_view();
        for i in 0..n
            invariant
                n == start.blanks.len(),
                n == reused@.len(),
                r.deep_view() == reuse_pass(start, reused@, i as nat),
                r.deep_view().sound(),
                r.deep_view().blanks == start.blanks,
                forall|k: int|
                    i <= k < n ==> #[trigger] r.deep_view().status[k] == ExecutionStatus::Pending,
        {
            assert(r.deep_view().status[i as int] == ExecutionStatus::Pending);
            if reused[i] {
                r.settle(
                    i,
                    ExecutionStatus::Cached,
                    Some("reused from earlier in this run".to_owned()),
                );
            }
        }
        let ghost carried = r.deep_view();
        for i in 0..n
            invariant
                n == carried.blanks.len(),
                n == actions@.len(),
                r.deep_view() == plan_pass(carried, actions@, i as nat),
                r.deep_view().sound(),
                r.deep_view().blanks == carried.blanks,
        {
            if r.status_of(i) == ExecutionStatus::Pending {
                match actions[i] {
                    PlanAction::Cached => r.settle(i, ExecutionStatus::Cached, None),
                    PlanAction::Skip => r.settle(i, ExecutionStatus::Skipped, None),
                    _ => {},
                }
            }
        }
        let ghost decided = r.deep_view();
        for i in 0..n
            invariant
                n == decided.blanks.len(),
                n == unloaded@.len(),
                r.deep_view() == seed_pass(decided, unloaded@, i as nat, now@),
                r.deep_view().sound(),
                r.deep_view().blanks == decided.blanks,
        {
            if unloaded[i] && r.status_of(i) == ExecutionStatus::Pending {
                let ghost u = r.deep_view();
                r.block_unloaded(i, now);
                proof {
                    crate::schedule::lemma_seed_block_keeps(u, i, now@);
                }
            }
        }
        r.fill_ready();
        assert(failed.deep_view().len() == failed@.len());
        if options.fail_fast && failed.len() > 0 {
            r.shut_down();
        }
        if cancelled {
            r.cancel();
        }
        r
    }
}

proof fn lemma_last_exists<A>(items: Seq<A>, p: spec_fn(A) -> bool, k: int)
    requires
        0 <= k < items.len(),
        p(items[k]),
    ensures
        last_where(items, p) is Some,
    decreases items.len(),
{
    if !p(items.last()) {
        lemma_last_exists(items.drop_last(), p, k);
    }
}

proof fn lemma_deps_bounded(compilation: &Compilation, id: Seq<char>)
    ensures
        deps_of(compilation.deep_view().models, id).len() <= usize::MAX,
{
    let models = compilation.deep_view().models;
    if model_named(models, id) is Some {
        crate::seqs::lemma_first_found(models, crate::workspace::is_model(id));
        let model = model_named(models, id)->0;
        let k = choose|k: int| 0 <= k < models.len() && models[k] == model;
        assert(models[k] == compilation.models@[k].deep_view());
        assert(models[k].model_dependencies.len() == compilation.models@[k].model_dependencies@.len());
        assert(compilation.models@[k].model_dependencies.len() <= usize::MAX);
    }
}

/// The result of a finished run, whatever its counts come to.
pub open spec fn is_run_result(
    r: RunResultView,
    v: ExecutionView,
    run_id: Seq<char>,
    plan_id: Seq<char>,
    environment: Option<Seq<char>>,
    continued_from: Option<Seq<char>>,
    started_at: Seq<char>,
    finished_at: Seq<char>,
    warnings: Seq<Seq<char>>,
    seeds: Seq<SeedResultView>,
    tests: Seq<TestResultView>,
) -> bool {
    let models = gather(v.results, if_done());
    &&& counts_of(r.counts, all_statuses(models, seeds, tests))
    &&& r == (RunResultView {
        run_id,
        plan_id,
        environment,
        continued_from,
        status: overall(v.cancelled, r.counts),
        started_at,
        finished_at,
        counts: r.counts,
        warnings,
        models,
        tests,
        seeds,
        events: v.events.push(
            EngineEventView::RunFinished { run_id, status: overall(v.cancelled, r.counts) },
        ),
    })
}

/// What is known of a run besides its models.
pub struct RunEnd {
    pub run_id: String,
    pub plan_id: String,
    pub environment: Option<String>,
    pub continued_from: Option<String>,
    pub started_at: String,
    pub finished_at: String,
    pub warnings: Vec<String>,
    pub seeds: Vec<SeedResult>,
    pub tests: Vec<TestResult>,
}

/// The result of a run whose execution is over.
pub fn conclude_run(execution: &Execution, end: RunEnd) -> (r: RunResult)
    requires
        execution.deep_view().results.len() + end.seeds@.len() + end.tests@.len() <= usize::MAX,
    ensures
        is_run_result(
            r.deep_view(),
            execution.deep_view(),
            end.run_id@,
            end.plan_id@,
            end.environment.deep_view(),
            end.continued_from.deep_view(),
            end.started_at@,
            end.finished_at@,
            end.warnings.deep_view(),
            end.seeds.deep_view(),
            end.tests.deep_view(),
        ),
{
    let models: Vec<ModelResult> = execution.results();
    proof {
        lemma_done_bounded(execution.deep_view().results);
        assert(models.deep_view().len() == models@.len());
    }
    let counts: RunCounts = tally(&models, &end.seeds, &end.tests);
    let status: ExecutionStatus = run_status(execution.is_cancelled(), &counts);
    let mut events: Vec<EngineEvent> = execution.events();
    put(&mut events, EngineEvent::RunFinished { run_id: end.run_id.clone(), status });
    RunResult {
        run_id: end.run_id,
        plan_id: end.plan_id,
        environment: end.environment,
        continued_from: end.continued_from,
        status,
        started_at: end.started_at,
        finished_at: end.finished_at,
        counts,
        warnings: end.warnings,
        models,
        tests: end.tests,
        seeds: end.seeds,
        events,
    }
}

proof fn lemma_done_bounded(results: Seq<Option<ModelResultView>>)
    ensures
        gather(results, if_done()).len() <= results.len(),
    decreases results.len(),
{
    if results.len() > 0 {
        lemma_done_bounded(results.drop_last());
    }
}

/// A run passed exactly where it was not cancelled and no node of it failed.
pub proof fn law_a_run_passes_without_failures(
    r: RunResultView,
    v: ExecutionView,
    seeds: Seq<SeedResultView>,
    tests: Seq<TestResultView>,
)
    requires
        counts_of(r.counts, all_statuses(gather(v.results, if_done()), seeds, tests)),
        r.status == overall(v.cancelled, r.counts),
    ensures
        r.status == ExecutionStatus::Passed <==> (!v.cancelled && forall|i: int|
            0 <= i < all_statuses(gather(v.results, if_done()), seeds, tests).len() ==> (
            #[trigger] all_statuses(gather(v.results, if_done()), seeds, tests)[i])
                != ExecutionStatus::Failed),
{
    let all = all_statuses(gather(v.results, if_done()), seeds, tests);
    let p = crate::run::is_status(ExecutionStatus::Failed);
    lemma_count_none(all, p);
    assert(r.counts.failed == count_where(all, p));
    if exists|i: int| 0 <= i < all.len() && all[i] == ExecutionStatus::Failed {
        let i = choose|i: int| 0 <= i < all.len() && all[i] == ExecutionStatus::Failed;
        assert(p(all[i]));
    }
}

proof fn lemma_count_none<A>(items: Seq<A>, p: spec_fn(A) -> bool)
    ensures
        count_where(items, p) == 0 <==> forall|i: int|
            0 <= i < items.len() ==> !p(#[trigger] items[i]),
    decreases items.len(),
{
    if items.len() > 0 {
        let rest = items.drop_last();
        lemma_count_none(rest, p);
        if count_where(items, p) == 0 {
            assert forall|i: int| 0 <= i < items.len() implies !p(#[trigger] items[i]) by {
                if i < rest.len() {
                    assert(!p(rest[i]));
                }
            }
        }
        if forall|i: int| 0 <= i < items.len() ==> !p(#[trigger] items[i]) {
            assert forall|i: int| 0 <= i < rest.len() implies !p(#[trigger] rest[i]) by {
                assert(!p(items[i]));
            }
            assert(!p(items[items.len() - 1]));
        }
    }
}

/// How often each target is written by a planned model, by target.
pub open spec fn write_counts(models: Seq<CompiledModelView>, planned: Seq<Seq<char>>) -> Seq<
    (Seq<char>, usize),
>
    decreases models.len(),
{
    if models.len() == 0 {
        Seq::empty()
    } else {
        let before = write_counts(models.drop_last(), planned);
        let model = models.last();
        let target = relation_text(model.target);
        if planned.contains(model.id) {
            with_name(
                before,
                target,
                match named(before, target) {
                    Some(count) => (count + 1) as usize,
                    None => 1,
                },
            )
        } else {
            before
        }
    }
}

/// Names a target that more than one planned model writes.
pub open spec fn if_shared() -> spec_fn((Seq<char>, usize)) -> Seq<Seq<char>> {
    |entry: (Seq<char>, usize)|
        if entry.1 > 1 {
            seq![entry.0]
        } else {
            Seq::empty()
        }
}

/// Warns of a target that more than one planned model writes.
pub open spec fn shared_warning() -> spec_fn((Seq<char>, usize)) -> Seq<Seq<char>> {
    |entry: (Seq<char>, usize)|
        if entry.1 > 1 {
            seq![
                entry.0 + " is written by "@ + decimal_text(entry.1 as nat)
                    + " planned models; their writes are serialised"@,
            ]
        } else {
            Seq::empty()
        }
}

pub proof fn lemma_write_counts(models: Seq<CompiledModelView>, planned: Seq<Seq<char>>)
    requires
        models.len() <= usize::MAX,
    ensures
        crate::names::ascending(write_counts(models, planned)),
        forall|target: Seq<char>|
            (#[trigger] named(write_counts(models, planned), target)) is Some ==> named(
                write_counts(models, planned),
                target,
            )->0 <= models.len(),
    decreases models.len(),
{
    if models.len() > 0 {
        let rest = models.drop_last();
        lemma_write_counts(rest, planned);
        let before = write_counts(rest, planned);
        let target = relation_text(models.last().target);
        let count: usize = match named(before, target) {
            Some(count) => (count + 1) as usize,
            None => 1,
        };
        crate::names::lemma_with_name(before, target, count);
        assert forall|other: Seq<char>|
            (#[trigger] named(write_counts(models, planned), other)) is Some implies named(
            write_counts(models, planned),
            other,
        )->0 <= models.len() by {
            if named(before, target) is Some {
                assert(named(before, target)->0 <= rest.len());
            }
            if named(before, other) is Some {
                assert(named(before, other)->0 <= rest.len());
            }
        }
    }
}

/// The targets that more than one planned model writes, and a warning for
/// each: their writes must not race, and are serialised.
pub fn shared_targets(compilation: &Compilation, plan: &Plan) -> (r: (Vec<String>, Vec<String>))
    ensures
        ({
            let models = compilation.deep_view().models;
            let counts = write_counts(models, executed_names(models, plan.deep_view().models));
            &&& r.0.deep_view() == gather(counts, if_shared())
            &&& r.1.deep_view() == gather(counts, shared_warning())
        }),
{
    let planned: Vec<String> = executed_ids(compilation, plan);
    let list: &[String] = planned.as_slice();
    assert(list.deep_view() =~= planned.deep_view());
    let ghost ids = planned.deep_view();
    let ghost models = compilation.models.deep_view();
    let mut counts: NameMap<usize> = NameMap::new();
    assert(models.take(0) =~= Seq::<CompiledModelView>::empty());
    for i in 0..compilation.models.len()
        invariant
            ids == list.deep_view(),
            models == compilation.models.deep_view(),
            models.len() == compilation.models@.len(),
            counts.deep_view() == write_counts(models.take(i as int), ids),
    {
        assert(models.take(i as int + 1).drop_last() =~= models.take(i as int));
        let model: &CompiledModel = &compilation.models[i];
        assert(models[i as int] == model.deep_view());
        assert(compilation.models.len() <= usize::MAX);
        proof {
            lemma_write_counts(models.take(i as int), ids);
        }
        if holds(list, model.id.as_str()) {
            let target: String = model.target.display();
            let count: usize = match counts.get(target.as_str()) {
                Some(count) => *count + 1,
                None => 1,
            };
            counts.insert(target, count);
        }
    }
    assert(models.take(models.len() as int) =~= models);
    (shared_names(&counts), shared_warnings(&counts))
}

fn shared_names(counts: &NameMap<usize>) -> (r: Vec<String>)
    ensures
        r.deep_view() == gather(counts.deep_view(), if_shared()),
{
    let ghost views = counts.deep_view();
    let ghost f = if_shared();
    proof {
        lemma_gather_ends(views, f);
    }
    let mut r: Vec<String> = none_of();
    let n: usize = counts.len();
    for i in 0..n
        invariant
            n == views.len(),
            views == counts.deep_view(),
            f == if_shared(),
            r.deep_view() == gather(views.take(i as int), f),
    {
        proof {
            lemma_gather_step(views, i as int, f);
        }
        let ghost before = r.deep_view();
        if *counts.value_at(i) > 1 {
            put(&mut r, counts.key_at(i).clone());
        }
        assert(r.deep_view() =~= before + f(views[i as int]));
    }
    r
}

fn shared_warnings(counts: &NameMap<usize>) -> (r: Vec<String>)
    ensures
        r.deep_view() == gather(counts.deep_view(), shared_warning()),
{
    let ghost views = counts.deep_view();
    let ghost f = shared_warning();
    proof {
        lemma_gather_ends(views, f);
    }
    let mut r: Vec<String> = none_of();
    let n: usize = counts.len();
    for i in 0..n
        invariant
            n == views.len(),
            views == counts.deep_view(),
            f == shared_warning(),
            r.deep_view() == gather(views.take(i as int), f),
    {
        proof {
            lemma_gather_step(views, i as int, f);
        }
        let ghost before = r.deep_view();
        let count: usize = *counts.value_at(i);
        if count > 1 {
            put(
                &mut r,
                cat4(
                    counts.key_at(i).as_str(),
                    " is written by ",
                    decimal_usize(count).as_str(),
                    " planned models; their writes are serialised",
                ),
            );
        }
        assert(r.deep_view() =~= before + f(views[i as int]));
    }
    r
}

/// The place of a planned model's target, in a form whose order is that of
/// catalog and schema: no catalog comes first.
pub open spec fn place_of_target(planned: Seq<Seq<char>>) -> spec_fn(CompiledModelView) -> Seq<
    Seq<Seq<char>>,
> {
    |model: CompiledModelView|
        if planned.contains(model.id) {
            seq![
                match model.target.catalog {
                    None => seq!["0"@, model.target.schema],
                    Some(catalog) => seq!["1"@, catalog, model.target.schema],
                },
            ]
        } else {
            Seq::empty()
        }
}

/// The places of the planned models' targets, each once and in order.
pub open spec fn target_places(models: Seq<CompiledModelView>, planned: Seq<Seq<char>>) -> Seq<
    Seq<Seq<char>>,
> {
    without_repeats(sorted_lists(gather(models, place_of_target(planned))))
}

/// The namespace that a place names.
pub open spec fn namespace(place: Seq<Seq<char>>) -> RelationView {
    if place.len() == 2 {
        RelationView { catalog: None, schema: place[1], table: Seq::empty() }
    } else {
        RelationView { catalog: Some(place[1]), schema: place[2], table: Seq::empty() }
    }
}

fn places_of_targets(compilation: &Compilation, planned: &Vec<String>) -> (r: Vec<Vec<String>>)
    ensures
        r.deep_view() == gather(
            compilation.deep_view().models,
            place_of_target(planned.deep_view()),
        ),
{
    let items: &Vec<CompiledModel> = &compilation.models;
    let list: &[String] = planned.as_slice();
    assert(list.deep_view() =~= planned.deep_view());
    let ghost views = items.deep_view();
    let ghost f = place_of_target(planned.deep_view());
    proof {
        lemma_gather_ends(views, f);
    }
    let mut r: Vec<Vec<String>> = none_of();
    for i in 0..items.len()
        invariant
            views == items.deep_view(),
            f == place_of_target(planned.deep_view()),
            list.deep_view() == planned.deep_view(),
            r.deep_view() == gather(views.take(i as int), f),
    {
        proof {
            lemma_gather_step(views, i as int, f);
        }
        let ghost before = r.deep_view();
        let model: &CompiledModel = &items[i];
        assert(views[i as int] == model.deep_view());
        if holds(list, model.id.as_str()) {
            let mut place: Vec<String> = none_of();
            match &model.target.catalog {
                None => {
                    put(&mut place, "0".to_owned());
                    put(&mut place, model.target.schema.clone());
                    assert(place.deep_view() =~= seq!["0"@, model.target.schema@]);
                },
                Some(catalog) => {
                    put(&mut place, "1".to_owned());
                    put(&mut place, catalog.clone());
                    put(&mut place, model.target.schema.clone());
                    assert(place.deep_view() =~= seq!["1"@, catalog@, model.target.schema@]);
                },
            }
            put(&mut r, place);
        }
        assert(r.deep_view() =~= before + f(views[i as int]));
    }
    r
}

/// The namespaces that must exist before anything is written, each once.
pub fn namespaces(compilation: &Compilation, plan: &Plan) -> (r: Vec<Relation>)
    ensures
        ({
            let models = compilation.deep_view().models;
            let places = target_places(models, executed_names(models, plan.deep_view().models));
            r.deep_view() == Seq::new(places.len(), |i: int| namespace(places[i]))
        }),
{
    let ghost models = compilation.deep_view().models;
    let planned: Vec<String> = executed_ids(compilation, plan);
    let all: Vec<Vec<String>> = places_of_targets(compilation, &planned);
    let sorted: Vec<Vec<String>> = sort_lists(&all);
    let places: Vec<Vec<String>> = crate::contracts::drop_repeats(&sorted);
    let ghost views = places.deep_view();
    proof {
        assert(all.deep_view().len() == all@.len());
        lemma_places_shaped(models, planned.deep_view(), all@.len());
        assert(views == target_places(models, planned.deep_view()));
    }
    let mut r: Vec<Relation> = Vec::new();
    for i in 0..places.len()
        invariant
            views == places.deep_view(),
            forall|k: int|
                0 <= k < views.len() ==> (#[trigger] views[k]).len() == 2 || views[k].len() == 3,
            r@.len() == i,
            forall|k: int| 0 <= k < i ==> (#[trigger] r@[k]).deep_view() == namespace(views[k]),
    {
        let place: &Vec<String> = &places[i];
        assert(views[i as int] == place.deep_view());
        assert(views[i as int].len() == 2 || views[i as int].len() == 3);
        assert(place.deep_view().len() == place@.len());
        let table: String = String::new();
        assert(table@ =~= Seq::<char>::empty());
        if place.len() == 2 {
            assert(place.deep_view()[1] == place@[1]@);
            r.push(Relation { catalog: None, schema: place[1].clone(), table });
        } else {
            assert(place.deep_view()[1] == place@[1]@ && place.deep_view()[2] == place@[2]@);
            r.push(
                Relation { catalog: Some(place[1].clone()), schema: place[2].clone(), table },
            );
        }
    }
    assert(r.deep_view() =~= Seq::new(views.len(), |i: int| namespace(views[i])));
    r
}

proof fn lemma_places_shaped(models: Seq<CompiledModelView>, planned: Seq<Seq<char>>, n: nat)
    requires
        n == gather(models, place_of_target(planned)).len(),
        n <= usize::MAX,
    ensures
        forall|k: int|
            0 <= k < target_places(models, planned).len() ==> (#[trigger] target_places(
                models,
                planned,
            )[k]).len() == 2 || target_places(models, planned)[k].len() == 3,
{
    let all = gather(models, place_of_target(planned));
    let sorted = sorted_lists(all);
    let places = target_places(models, planned);
    crate::order::lemma_list_listing(all);
    let listing = the_listing(all.len(), crate::order::list_order(all));
    crate::state::lemma_repeats_kept(sorted);
    assert forall|k: int| 0 <= k < places.len() implies (#[trigger] places[k]).len() == 2
        || places[k].len() == 3 by {
        assert(sorted.contains(places[k]));
        let m = choose|m: int| 0 <= m < sorted.len() && sorted[m] == places[k];
        assert(listing[m] < all.len());
        let x = all[listing[m] as int];
        assert(x == places[k]);
        assert(all.contains(x));
        crate::seqs::lemma_gather_member(models, place_of_target(planned), x);
        let f = place_of_target(planned);
        let q = choose|q: int| 0 <= q < models.len() && f(#[trigger] models[q]).contains(x);
        let got = f(models[q]);
        let y = choose|y: int| 0 <= y < got.len() && got[y] == x;
        assert(got.len() == 1);
        assert(got[0] == x);
    }
}

/// What a run's outputs are recorded under.
#[derive(Clone, Debug, PartialEq, Eq)]
pub struct RunMark {
    pub environment: Option<String>,
    pub run_id: String,
    pub finished_at: String,
}

/// The contents of a [`RunMark`].
pub struct RunMarkView {
    pub environment: Option<Seq<char>>,
    pub run_id: Seq<char>,
    pub finished_at: Seq<char>,
}

impl DeepView for RunMark {
    type V = RunMarkView;

    open spec fn deep_view(&self) -> RunMarkView {
        RunMarkView {
            environment: self.environment.deep_view(),
            run_id: self.run_id@,
            finished_at: self.finished_at@,
        }
    }
}

impl DeepClone for RunMark {
    fn deep_clone(&self) -> (copy: Self) {
        RunMark {
            environment: self.environment.deep_clone(),
            run_id: self.run_id.deep_clone(),
            finished_at: self.finished_at.deep_clone(),
        }
    }
}

/// Results in the order of their models.
pub open spec fn by_model_name(results: Seq<ModelResultView>) -> Seq<ModelResultView> {
    listed(
        results,
        the_listing(
            results.len(),
            text_order(Seq::new(results.len(), |i: int| results[i].model)),
        ),
    )
}

/// Keeps a result that passed.
pub open spec fn if_passed() -> spec_fn(ModelResultView) -> Seq<ModelResultView> {
    |result: ModelResultView|
        if result.status == ExecutionStatus::Passed {
            seq![result]
        } else {
            Seq::empty()
        }
}

/// What becomes of the version that a model built; nothing unless it passed.
pub open spec fn model_recording(
    compilation: CompilationView,
    result: ModelResultView,
    live: Option<Seq<char>>,
    adapter: Seq<char>,
    mark: RunMarkView,
) -> Option<RecordingView> {
    match model_named(compilation.models, result.model) {
        Some(model) => if result.status == ExecutionStatus::Passed {
            Some(
                recording(
                    model,
                    result,
                    live,
                    mark.environment,
                    adapter,
                    mark.run_id,
                    mark.finished_at,
                ),
            )
        } else {
            None
        },
        None => None,
    }
}

/// The load of a seed that passed.
pub open spec fn load_of(compilation: CompilationView, mark: RunMarkView) -> spec_fn(
    SeedResultView,
) -> Seq<SeedRecordView> {
    |result: SeedResultView|
        match seed_named(compilation.seeds, result.seed) {
            Some(seed) => if result.status == ExecutionStatus::Passed {
                seq![load_record(seed, result, mark.environment, mark.run_id, mark.finished_at)]
            } else {
                Seq::empty()
            },
            None => Seq::empty(),
        }
}

fn sort_results(results: &Vec<ModelResult>) -> (r: Vec<ModelResult>)
    ensures
        r.deep_view() == by_model_name(results.deep_view()),
{
    let mut names: Vec<String> = Vec::new();
    for i in 0..results.len()
        invariant
            names@.len() == i,
            forall|k: int| 0 <= k < i ==> (#[trigger] names@[k])@ == results@[k].model@,
    {
        names.push(results[i].model.clone());
    }
    assert(names.deep_view() =~= Seq::new(
        results.deep_view().len(),
        |i: int| results.deep_view()[i].model,
    ));
    let listing: Vec<usize> = order_texts(&names);
    proof {
        lemma_text_order(names.deep_view());
        lemma_the_listing(listing@, names@.len(), text_order(names.deep_view()));
    }
    assert(results.deep_view().len() == results@.len());
    list_items(results, &listing)
}

/// The results whose versions a run records, in the order of their models:
/// exactly those that passed.
pub fn models_to_record(results: &Vec<ModelResult>) -> (r: Vec<ModelResult>)
    ensures
        r.deep_view() == gather(by_model_name(results.deep_view()), if_passed()),
{
    let items: Vec<ModelResult> = sort_results(results);
    let ghost views = items.deep_view();
    let ghost f = if_passed();
    proof {
        lemma_gather_ends(views, f);
    }
    let mut r: Vec<ModelResult> = none_of();
    for i in 0..items.len()
        invariant
            views == items.deep_view(),
            f == if_passed(),
            r.deep_view() == gather(views.take(i as int), f),
    {
        proof {
            lemma_gather_step(views, i as int, f);
        }
        let ghost before = r.deep_view();
        assert(views[i as int] == items@[i as int].deep_view());
        if items[i].status == ExecutionStatus::Passed {
            put(&mut r, items[i].deep_clone());
        }
        assert(r.deep_view() =~= before + f(views[i as int]));
    }
    r
}

/// What a run records of one model; `live` is the physical identity that the
/// model's relation reports now, where it reports one.
pub fn record_model(
    compilation: &Compilation,
    result: &ModelResult,
    live: &Option<String>,
    adapter: &str,
    mark: &RunMark,
) -> (r: Option<Recording>)
    ensures
        r.deep_view() == model_recording(
            compilation.deep_view(),
            result.deep_view(),
            live.deep_view(),
            adapter@,
            mark.deep_view(),
        ),
{
    match compilation.model(result.model.as_str()) {
        Some(model) => if result.status == ExecutionStatus::Passed {
            Some(
                record_build(
                    model,
                    result,
                    live,
                    &mark.environment,
                    adapter,
                    mark.run_id.as_str(),
                    mark.finished_at.as_str(),
                ),
            )
        } else {
            None
        },
        None => None,
    }
}

/// The seed loads that a run leaves in the state store: one for each seed that
/// passed, in the order of the results.
pub fn record_loads(
    compilation: &Compilation,
    items: &Vec<SeedResult>,
    mark: &RunMark,
) -> (r: Vec<SeedRecord>)
    ensures
        r.deep_view() == gather(
            items.deep_view(),
            load_of(compilation.deep_view(), mark.deep_view()),
        ),
{
    let ghost views = items.deep_view();
    let ghost f = load_of(compilation.deep_view(), mark.deep_view());
    proof {
        lemma_gather_ends(views, f);
    }
    let mut r: Vec<SeedRecord> = none_of();
    for i in 0..items.len()
        invariant
            views == items.deep_view(),
            f == load_of(compilation.deep_view(), mark.deep_view()),
            r.deep_view() == gather(views.take(i as int), f),
    {
        proof {
            lemma_gather_step(views, i as int, f);
        }
        let ghost before = r.deep_view();
        assert(views[i as int] == items@[i as int].deep_view());
        if let Some(seed) = compilation.seed(items[i].seed.as_str()) {
            if items[i].status == ExecutionStatus::Passed {
                put(
                    &mut r,
                    record_load(
                        seed,
                        &items[i],
                        &mark.environment,
                        mark.run_id.as_str(),
                        mark.finished_at.as_str(),
                    ),
                );
            }
        }
        assert(r.deep_view() =~= before + f(views[i as int]));
    }
    r
}

/// The results whose versions are recorded are those that passed, and no others.
pub proof fn law_models_to_record_passed(results: Seq<ModelResultView>, result: ModelResultView)
    requires
        results.len() <= usize::MAX,
    ensures
        gather(by_model_name(results), if_passed()).contains(result) <==> results.contains(result)
            && result.status == ExecutionStatus::Passed,
{
    let sorted = by_model_name(results);
    let f = if_passed();
    let names = Seq::new(results.len(), |i: int| results[i].model);
    let listing = the_listing(results.len(), text_order(names));
    lemma_text_listing(names);
    lemma_gather_member(sorted, f, result);
    if gather(sorted, f).contains(result) {
        let j = choose|j: int| 0 <= j < sorted.len() && f(#[trigger] sorted[j]).contains(result);
        assert(listing[j] < results.len());
        assert(sorted[j] == results[listing[j] as int]);
        assert(results.contains(results[listing[j] as int]));
    }
    if results.contains(result) && result.status == ExecutionStatus::Passed {
        let i = choose|i: int| 0 <= i < results.len() && results[i] == result;
        lemma_listing_hits(listing, results.len(), i as usize);
        let j = choose|j: int| 0 <= j < listing.len() && listing[j] == i as usize;
        assert(sorted[j] == result);
        assert(f(sorted[j])[0] == result);
        assert(f(sorted[j]).contains(result));
    }
}

/// A model's version is recorded exactly when the model passed and its relation
/// still holds what the run wrote, as far as that can be told.
pub proof fn law_only_passed_models_are_recorded(
    compilation: CompilationView,
    result: ModelResultView,
    live: Option<Seq<char>>,
    adapter: Seq<char>,
    mark: RunMarkView,
)
    ensures
        (model_recording(compilation, result, live, adapter, mark) matches Some(
            RecordingView::Record(_),
        )) <==> result.status == ExecutionStatus::Passed && model_named(
            compilation.models,
            result.model,
        ) is Some && (result.output_identity is None || live == result.output_identity),
        model_recording(compilation, result, live, adapter, mark) matches Some(
            RecordingView::Record(record),
        ) ==> record.model_id == result.model && record.version == model_named(
            compilation.models,
            result.model,
        )->Some_0.version && record.environment == mark.environment && record.run_id
            == mark.run_id,
{
}

} // verus!
