//! What comparing branches and locating sources promises: which datasets are
//! compared by value and how, whose rows are counted on which side, and where a
//! source's data and state come from.

use vstd::prelude::*;

use crate::branch_diff::{
    branch_report, by_model, dataset_diff, dataset_rows, deep_request, if_no_key, is_unique,
    stable_keys, BranchDiffRequestView, DatasetPlanView, DatasetReadingView, DatasetStatus,
    SurveyView,
};
use crate::diff::{number_of, DiffReportView, DiffStrategyView};
use crate::order::{lemma_listing_hits, lemma_text_listing, text_order, the_listing};
use crate::seqs::{first_where, lemma_first_found, lemma_gather_member};
use crate::source_state::{backing_seed, loads_into, seed_place, source_relation, PlacesView};
use crate::workspace::{
    model_named, relation_text, AssertionView, CompilationView, CompiledModelView,
    CompiledSeedView, IncrementalStrategyView, SourceIdView,
};

verus! {

/// A source is where it says, and each part that it leaves out is the
/// default's; a schema that nobody names is `default`.
pub proof fn law_sources_fall_back_to_the_defaults(
    source: SourceIdView,
    catalog: Option<Seq<char>>,
    schema: Option<Seq<char>>,
)
    ensures
        ({
            let at = source_relation(source, catalog, schema);
            &&& source.catalog is Some ==> at.catalog == source.catalog
            &&& source.catalog is None ==> at.catalog == catalog
            &&& source.schema is Some ==> at.schema == source.schema->0
            &&& source.schema is None && schema is Some ==> at.schema == schema->0
            &&& source.schema is None && schema is None ==> at.schema == "default"@
            &&& at.table == source.table
        }),
{
}

/// A seed backs a source exactly where it is loaded into the relation that the
/// source names.
pub proof fn law_sources_are_backed_by_seeds_loaded_there(
    source: SourceIdView,
    seeds: Seq<CompiledSeedView>,
    places: PlacesView,
)
    ensures
        backing_seed(source, seeds, places) is Some <==> exists|i: int|
            0 <= i < seeds.len() && relation_text(
                seed_place(#[trigger] seeds[i], places.catalog, places.schema, places.adapter),
            ) == relation_text(source_relation(source, places.catalog, places.schema)),
        backing_seed(source, seeds, places) matches Some(seed) ==> seeds.contains(seed)
            && relation_text(seed_place(seed, places.catalog, places.schema, places.adapter))
            == relation_text(source_relation(source, places.catalog, places.schema)),
{
    let name = relation_text(source_relation(source, places.catalog, places.schema));
    let p = loads_into(name, places.catalog, places.schema, places.adapter);
    lemma_first_found(seeds, p);
    assert forall|i: int| 0 <= i < seeds.len() implies (p(#[trigger] seeds[i]) <==> relation_text(
        seed_place(seeds[i], places.catalog, places.schema, places.adapter),
    ) == name) by {}
}

/// A model's rows are told apart by its incremental key; without one, by the
/// columns of a uniqueness that it declares; without either, by nothing.
pub proof fn law_keys_are_declared(model: CompiledModelView)
    ensures
        model.config.incremental matches Some(IncrementalStrategyView::Key { columns })
            ==> stable_keys(model) == columns,
        !(model.config.incremental matches Some(IncrementalStrategyView::Key { .. }))
            && stable_keys(model).len() > 0 ==> exists|i: int|
            0 <= i < model.assertions.len() && #[trigger] model.assertions[i] == (
            AssertionView::Unique { columns: stable_keys(model) }),
        !(model.config.incremental matches Some(IncrementalStrategyView::Key { .. })) && (
        forall|i: int| 0 <= i < model.assertions.len() ==> !(#[trigger] model.assertions[i]
            is Unique)) ==> stable_keys(model).len() == 0,
{
    lemma_first_found(model.assertions, is_unique());
    if let Some(found) = first_where(model.assertions, is_unique()) {
        let i = choose|i: int| 0 <= i < model.assertions.len() && model.assertions[i] == found;
        assert(model.assertions[i] == found);
        assert(model.assertions[i] is Unique);
    }
}

/// Values are compared exactly where that was asked for and a changed dataset
/// is a model with keys or a declared policy; they are compared by key,
/// candidate against base, over the columns that are no keys.
pub proof fn law_changed_datasets_are_compared_by_value(
    compilation: CompilationView,
    request: BranchDiffRequestView,
    plan: DatasetPlanView,
    reading: DatasetReadingView,
    column: Seq<char>,
)
    ensures
        deep_request(compilation, request, plan, reading) is Some <==> {
            &&& request.deep
            &&& dataset_diff(plan, reading).status == DatasetStatus::Changed
            &&& model_named(compilation.models, plan.dataset) is Some
            &&& stable_keys(model_named(compilation.models, plan.dataset)->0).len() > 0
                || model_named(compilation.models, plan.dataset)->0.config.diff is Some
        },
        deep_request(compilation, request, plan, reading) matches Some(asked) ==> {
            let model = model_named(compilation.models, plan.dataset)->0;
            &&& asked.model == plan.dataset
            &&& asked.candidate_relation == plan.candidate_relation->0
            &&& asked.base_relation == plan.base_relation->0
            &&& asked.candidate_ref == Some(request.candidate_ref)
            &&& asked.base_ref == Some(request.base_ref)
            &&& asked.candidate_version == plan.candidate_version
            &&& asked.base_version == plan.base_version
            &&& asked.key_columns == stable_keys(model)
            &&& asked.strategy == DiffStrategyView::Keyed
            &&& model.config.diff is Some ==> asked.policy == model.config.diff->0
            &&& asked.columns.contains(column) <==> model.schema.known && !stable_keys(
                model,
            ).contains(column) && exists|i: int|
                0 <= i < model.schema.columns.len() && (#[trigger] model.schema.columns[i]).name
                    == column
        },
{
    if deep_request(compilation, request, plan, reading) is Some {
        let model = model_named(compilation.models, plan.dataset)->0;
        let keys = stable_keys(model);
        let f = if_no_key(keys);
        let columns = model.schema.columns;
        lemma_gather_member(columns, f, column);
        assert forall|i: int| 0 <= i < columns.len() implies (f(#[trigger] columns[i]).contains(
            column,
        ) <==> columns[i].name == column && !keys.contains(column)) by {
            if !keys.contains(columns[i].name) {
                assert(f(columns[i])[0] == columns[i].name);
            }
        }
    }
}

/// Rows are counted on the side that has the dataset, and the difference is
/// the candidate's count less the base's.
pub proof fn law_rows_are_counted_by_side(plan: DatasetPlanView, reading: DatasetReadingView)
    ensures
        dataset_rows(plan, reading) matches Ok(rows) ==> {
            let there = plan.candidate_relation is Some && reading.candidate_exists;
            let before = plan.base_relation is Some && reading.base_exists;
            &&& rows.len() == (if there || before {
                1int
            } else {
                0
            })
            &&& there || before ==> {
                &&& rows[0].dataset == plan.dataset
                &&& rows[0].candidate_rows is Some <==> there
                &&& rows[0].base_rows is Some <==> before
                &&& there ==> number_of(reading.candidate_count) == Ok::<
                    i64,
                    crate::error::EngineErrorView,
                >(rows[0].candidate_rows->0)
                &&& before ==> number_of(reading.base_count) == Ok::<
                    i64,
                    crate::error::EngineErrorView,
                >(rows[0].base_rows->0)
                &&& rows[0].delta is Some <==> there && before
                &&& there && before && i64::MIN <= rows[0].candidate_rows->0
                    - rows[0].base_rows->0 <= i64::MAX ==> rows[0].delta->0
                    == rows[0].candidate_rows->0 - rows[0].base_rows->0
            }
        },
{
}

/// A branch comparison passed exactly where every value diff in it did, and it
/// holds every diff that was made.
pub proof fn law_comparisons_pass_where_every_diff_does(
    request: BranchDiffRequestView,
    survey: SurveyView,
    diffs: Seq<DiffReportView>,
    candidate_hash: Option<Seq<char>>,
    base_hash: Option<Seq<char>>,
    started_at: Seq<char>,
    finished_at: Seq<char>,
    diff: DiffReportView,
)
    requires
        diffs.len() <= usize::MAX,
    ensures
        ({
            let report = branch_report(
                request,
                survey,
                diffs,
                candidate_hash,
                base_hash,
                started_at,
                finished_at,
            );
            &&& report.passed <==> forall|i: int|
                0 <= i < diffs.len() ==> (#[trigger] diffs[i]).passed
            &&& report.diffs.contains(diff) <==> diffs.contains(diff)
            &&& report.candidate_ref == request.candidate_ref
            &&& report.base_ref == request.base_ref
            &&& report.candidate_hash == candidate_hash && report.base_hash == base_hash
            &&& report.deep == request.deep
            &&& report.datasets == survey.datasets
            &&& report.schema_changes == survey.schema_changes
        }),
{
    let names = crate::branch_diff::report_models(diffs);
    let listing = the_listing(diffs.len(), text_order(names));
    let sorted = by_model(diffs);
    lemma_text_listing(names);
    assert forall|i: int| 0 <= i < diffs.len() implies sorted.contains(
        #[trigger] diffs[i],
    ) by {
        lemma_listing_hits(listing, diffs.len(), i as usize);
        let j = choose|j: int| 0 <= j < listing.len() && listing[j] == i as usize;
        assert(sorted[j] == diffs[i]);
    }
    assert forall|j: int| 0 <= j < sorted.len() implies diffs.contains(#[trigger] sorted[j]) by {
        assert(listing[j] < diffs.len());
        assert(sorted[j] == diffs[listing[j] as int]);
    }
    if forall|j: int| 0 <= j < sorted.len() ==> (#[trigger] sorted[j]).passed {
        assert forall|i: int| 0 <= i < diffs.len() implies (#[trigger] diffs[i]).passed by {
            assert(sorted.contains(diffs[i]));
            let j = choose|j: int| 0 <= j < sorted.len() && #[trigger] sorted[j] == diffs[i];
            assert(sorted[j].passed);
        }
    }
    if diffs.contains(diff) {
        let i = choose|i: int| 0 <= i < diffs.len() && diffs[i] == diff;
        assert(sorted.contains(diffs[i]));
    }
}

} // verus!
