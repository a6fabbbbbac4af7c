//! The state store's tables and the rules that govern them.
//!
//! A store records runs, materialisations, seed loads, watermarks, promotions
//! and audit evidence. These tables keep their rows in the order in which they
//! were written. Writes that carry a time are ordered by it, so that concurrent
//! runs completing out of order cannot regress shared state; evidence is only
//! ever appended.

use vstd::prelude::*;

use crate::contracts::sorted_claims;
use crate::error::{EngineError, EngineErrorView};
use crate::events::ExecutionStatus;
use crate::names::{with_name, NameMap};
use crate::order::{
    ahead, is_listing, lemma_listing_exists, lemma_listing_hits, lemma_lists_in_order,
    lemma_sort_texts_again, lemma_text_order, lemma_the_listing, list_items, listed, order_texts,
    text_order, the_listing,
};
use crate::nessie::ReferenceInfo;
use crate::promotion::{
    pick_unique_run, reference_to_bind, unique_run, PromotionRecord, PromotionRecordView,
};
use crate::run::RunResult;
use crate::seqs::{
    first_where, gather, lemma_first_ends, lemma_first_found, lemma_first_step, lemma_gather_ends,
    lemma_gather_step,
};
use crate::state::{
    column_of_piece, incremental_key_claim, key_claim, key_on_record, EvidenceKind, EvidenceRecord,
    EvidenceRecordView, MaterializedRecord, MaterializedRecordView, ModelRunRecord,
    ModelRunRecordView, RunRecord, RunRecordView, RunSummary, RunSummaryView, SeedRecord,
    SeedRecordView, SeedRunRecord, SeedRunRecordView, StoredPlan, StoredPlanView, StoredRun,
    StoredRunView, TestRunRecord, TestRunRecordView,
};
use crate::text::{begins, begins_with, cat2, none_of, put, same, split_text, DeepClone};
use crate::util::{
    all_parse, earlier, earlier_than, is_timestamp, json_value, lemma_earlier_asymmetric,
    lemma_newest_order, lemma_text_down_order, newest_order, none_parse, now_rfc3339, order_down,
    order_newest, parse_json, text_down_order,
};

verus! {

/// The last successful time-window watermark of a model in an environment.
#[derive(Clone, Debug, PartialEq, Eq)]
pub struct Watermark {
    pub model_id: String,
    pub environment: Option<String>,
    pub value: String,
    pub run_id: String,
    pub updated_at: String,
}

/// The contents of a [`Watermark`].
pub struct WatermarkView {
    pub model_id: Seq<char>,
    pub environment: Option<Seq<char>>,
    pub value: Seq<char>,
    pub run_id: Seq<char>,
    pub updated_at: Seq<char>,
}

impl DeepView for Watermark {
    type V = WatermarkView;

    open spec fn deep_view(&self) -> WatermarkView {
        WatermarkView {
            model_id: self.model_id@,
            environment: self.environment.deep_view(),
            value: self.value@,
            run_id: self.run_id@,
            updated_at: self.updated_at@,
        }
    }
}

impl DeepClone for Watermark {
    fn deep_clone(&self) -> (copy: Self) {
        Watermark {
            model_id: self.model_id.deep_clone(),
            environment: self.environment.deep_clone(),
            value: self.value.deep_clone(),
            run_id: self.run_id.deep_clone(),
            updated_at: self.updated_at.deep_clone(),
        }
    }
}

/// The tables of a state store.
#[derive(Clone, Debug, PartialEq, Eq)]
pub struct StateTables {
    pub runs: Vec<StoredRun>,
    pub model_runs: Vec<ModelRunRecord>,
    pub seed_runs: Vec<SeedRunRecord>,
    pub test_runs: Vec<TestRunRecord>,
    pub materialized: Vec<MaterializedRecord>,
    pub watermarks: Vec<Watermark>,
    pub seeds: Vec<SeedRecord>,
    pub promotions: Vec<PromotionRecord>,
    pub evidence: Vec<EvidenceRecord>,
}

/// The contents of a [`StateTables`].
pub struct StateTablesView {
    pub runs: Seq<StoredRunView>,
    pub model_runs: Seq<ModelRunRecordView>,
    pub seed_runs: Seq<SeedRunRecordView>,
    pub test_runs: Seq<TestRunRecordView>,
    pub materialized: Seq<MaterializedRecordView>,
    pub watermarks: Seq<WatermarkView>,
    pub seeds: Seq<SeedRecordView>,
    pub promotions: Seq<PromotionRecordView>,
    pub evidence: Seq<EvidenceRecordView>,
}

impl DeepView for StateTables {
    type V = StateTablesView;

    open spec fn deep_view(&self) -> StateTablesView {
        StateTablesView {
            runs: self.runs.deep_view(),
            model_runs: self.model_runs.deep_view(),
            seed_runs: self.seed_runs.deep_view(),
            test_runs: self.test_runs.deep_view(),
            materialized: self.materialized.deep_view(),
            watermarks: self.watermarks.deep_view(),
            seeds: self.seeds.deep_view(),
            promotions: self.promotions.deep_view(),
            evidence: self.evidence.deep_view(),
        }
    }
}

impl DeepClone for StateTables {
    fn deep_clone(&self) -> (copy: Self) {
        StateTables {
            runs: self.runs.deep_clone(),
            model_runs: self.model_runs.deep_clone(),
            seed_runs: self.seed_runs.deep_clone(),
            test_runs: self.test_runs.deep_clone(),
            materialized: self.materialized.deep_clone(),
            watermarks: self.watermarks.deep_clone(),
            seeds: self.seeds.deep_clone(),
            promotions: self.promotions.deep_clone(),
            evidence: self.evidence.deep_clone(),
        }
    }
}

/// The label that an environment is recorded under: none is the empty one.
pub open spec fn label(environment: Option<Seq<char>>) -> Seq<char> {
    match environment {
        Some(name) => name,
        None => Seq::empty(),
    }
}

/// An environment as it is read back: the empty label is none.
pub open spec fn labelled(environment: Option<Seq<char>>) -> Option<Seq<char>> {
    if label(environment).len() == 0 {
        None
    } else {
        environment
    }
}

fn label_of(environment: &Option<String>) -> (r: &str)
    ensures
        r@ == label(environment.deep_view()),
{
    match environment {
        Some(name) => name.as_str(),
        None => {
            proof {
                reveal_strlit("");
                assert(""@ =~= Seq::<char>::empty());
            }
            ""
        },
    }
}

fn wanted_label(environment: Option<&str>) -> (r: &str)
    ensures
        r@ == label(environment.deep_view()),
{
    match environment {
        Some(name) => name,
        None => {
            proof {
                reveal_strlit("");
                assert(""@ =~= Seq::<char>::empty());
            }
            ""
        },
    }
}

fn read_back(environment: &Option<String>) -> (r: Option<String>)
    ensures
        r.deep_view() == labelled(environment.deep_view()),
{
    proof {
        reveal_strlit("");
        assert(""@ =~= Seq::<char>::empty());
    }
    match environment {
        Some(name) => {
            assert(name@.len() == 0 ==> name@ =~= Seq::<char>::empty());
            if same(name.as_str(), "") {
                None
            } else {
                Some(name.clone())
            }
        },
        None => None,
    }
}

/// Rows newest first: later instants first, at one instant the row written last
/// first. Where some stamps parse and some do not, they have no consistent
/// order, and the rows come in some order.
pub open spec fn is_newest_first<T>(rows: Seq<T>, stamps: Seq<Seq<char>>, r: Seq<T>) -> bool {
    if all_parse(stamps) || none_parse(stamps) {
        r == listed(rows, the_listing(rows.len(), newest_order(stamps)))
    } else {
        exists|listing: Seq<usize>|
            #[trigger] is_listing(listing, rows.len()) && r == listed(rows, listing)
    }
}

fn newest_first<T: DeepClone>(rows: &Vec<T>, stamps: &Vec<String>) -> (r: Vec<T>)
    requires
        stamps@.len() == rows@.len(),
    ensures
        is_newest_first(rows.deep_view(), stamps.deep_view(), r.deep_view()),
{
    let listing: Vec<usize> = order_newest(stamps);
    assert(rows.deep_view().len() == rows@.len());
    assert(stamps.deep_view().len() == stamps@.len());
    proof {
        if all_parse(stamps.deep_view()) || none_parse(stamps.deep_view()) {
            lemma_newest_order(stamps.deep_view());
            lemma_the_listing(listing@, rows@.len(), newest_order(stamps.deep_view()));
        } else {
            assert(is_listing(listing@, rows.deep_view().len()));
        }
    }
    list_items(rows, &listing)
}

/// Rows in the order of their keys.
pub open spec fn by_key<T>(rows: Seq<T>, keys: Seq<Seq<char>>) -> Seq<T> {
    listed(rows, the_listing(rows.len(), text_order(keys)))
}

fn in_key_order<T: DeepClone>(rows: &Vec<T>, keys: &Vec<String>) -> (r: Vec<T>)
    requires
        keys@.len() == rows@.len(),
    ensures
        r.deep_view() == by_key(rows.deep_view(), keys.deep_view()),
{
    let listing: Vec<usize> = order_texts(keys);
    proof {
        lemma_text_order(keys.deep_view());
        lemma_the_listing(listing@, keys@.len(), text_order(keys.deep_view()));
    }
    assert(rows.deep_view().len() == rows@.len());
    list_items(rows, &listing)
}

/// What a run's row shows in a listing of runs.
pub open spec fn run_summary(row: StoredRunView) -> RunSummaryView {
    RunSummaryView {
        run_id: row.record.run_id,
        plan_id: row.record.plan_id,
        environment: row.record.environment,
        reference_hash: row.record.reference_hash,
        started_at: row.record.started_at,
        finished_at: row.record.finished_at,
        status: row.record.status,
        model_count: row.record.model_count,
        failed_count: row.record.failed_count,
    }
}

fn summarize(row: &StoredRun) -> (r: RunSummary)
    ensures
        r.deep_view() == run_summary(row.deep_view()),
{
    RunSummary {
        run_id: row.record.run_id.clone(),
        plan_id: row.record.plan_id.clone(),
        environment: row.record.environment.deep_clone(),
        reference_hash: row.record.reference_hash.deep_clone(),
        started_at: row.record.started_at.clone(),
        finished_at: row.record.finished_at.deep_clone(),
        status: row.record.status,
        model_count: row.record.model_count,
        failed_count: row.record.failed_count,
    }
}

/// Every run.
pub open spec fn every_run() -> spec_fn(StoredRunView) -> Seq<RunSummaryView> {
    |row: StoredRunView| seq![run_summary(row)]
}

/// The runs recorded under an environment's label.
pub open spec fn runs_under(environment: Option<Seq<char>>) -> spec_fn(StoredRunView) -> Seq<
    RunSummaryView,
> {
    |row: StoredRunView|
        if label(row.record.environment) == label(environment) {
            seq![run_summary(row)]
        } else {
            Seq::empty()
        }
}

/// The runs whose id starts with a prefix.
pub open spec fn runs_starting(prefix: Seq<char>) -> spec_fn(StoredRunView) -> Seq<
    RunSummaryView,
> {
    |row: StoredRunView|
        if begins(row.record.run_id, prefix) {
            seq![run_summary(row)]
        } else {
            Seq::empty()
        }
}

/// When each of the runs started.
pub open spec fn starts(runs: Seq<RunSummaryView>) -> Seq<Seq<char>> {
    Seq::new(runs.len(), |i: int| runs[i].started_at)
}

fn newest_runs(rows: &Vec<RunSummary>) -> (r: Vec<RunSummary>)
    ensures
        is_newest_first(rows.deep_view(), starts(rows.deep_view()), r.deep_view()),
{
    let mut stamps: Vec<String> = Vec::new();
    for i in 0..rows.len()
        invariant
            stamps@.len() == i,
            forall|k: int| 0 <= k < i ==> (#[trigger] stamps@[k])@ == rows@[k].started_at@,
    {
        stamps.push(rows[i].started_at.clone());
    }
    assert(stamps.deep_view() =~= starts(rows.deep_view()));
    newest_first(rows, &stamps)
}

/// Picks the run with a given id.
pub open spec fn is_run(run_id: Seq<char>) -> spec_fn(StoredRunView) -> bool {
    |row: StoredRunView| row.record.run_id == run_id
}

/// The rows with every row of the given run changed by `f`.
pub open spec fn runs_amended(
    runs: Seq<StoredRunView>,
    run_id: Seq<char>,
    f: spec_fn(RunRecordView) -> RunRecordView,
) -> Seq<StoredRunView> {
    Seq::new(
        runs.len(),
        |i: int|
            if runs[i].record.run_id == run_id {
                StoredRunView { record: f(runs[i].record), plan: runs[i].plan }
            } else {
                runs[i]
            },
    )
}

/// A run that is open again.
pub open spec fn reopened() -> spec_fn(RunRecordView) -> RunRecordView {
    |record: RunRecordView|
        RunRecordView { status: ExecutionStatus::Running, finished_at: None, ..record }
}

/// A run bound to a reference's head.
pub open spec fn bound_to(hash: Seq<char>) -> spec_fn(RunRecordView) -> RunRecordView {
    |record: RunRecordView| RunRecordView { reference_hash: Some(hash), ..record }
}

/// A run that finished.
pub open spec fn finished_as(
    status: ExecutionStatus,
    finished_at: Seq<char>,
    failed_count: usize,
) -> spec_fn(RunRecordView) -> RunRecordView {
    |record: RunRecordView|
        RunRecordView { status, finished_at: Some(finished_at), failed_count, ..record }
}

/// The row of a run that starts.
pub open spec fn started_row(run: RunRecordView, plan: StoredPlanView) -> StoredRunView {
    StoredRunView {
        record: RunRecordView { environment: labelled(run.environment), ..run },
        plan: Some(plan),
    }
}

/// Keeps the rows of other models or runs.
pub open spec fn unless_model_run(run_id: Seq<char>, model_id: Seq<char>) -> spec_fn(
    ModelRunRecordView,
) -> Seq<ModelRunRecordView> {
    |row: ModelRunRecordView|
        if row.run_id == run_id && row.model_id == model_id {
            Seq::empty()
        } else {
            seq![row]
        }
}

/// Keeps the rows of other seeds or runs.
pub open spec fn unless_seed_run(run_id: Seq<char>, name: Seq<char>) -> spec_fn(
    SeedRunRecordView,
) -> Seq<SeedRunRecordView> {
    |row: SeedRunRecordView|
        if row.run_id == run_id && row.name == name {
            Seq::empty()
        } else {
            seq![row]
        }
}

/// Keeps the rows of other tests or runs.
pub open spec fn unless_test_run(run_id: Seq<char>, test_id: Seq<char>) -> spec_fn(
    TestRunRecordView,
) -> Seq<TestRunRecordView> {
    |row: TestRunRecordView|
        if row.run_id == run_id && row.test_id == test_id {
            Seq::empty()
        } else {
            seq![row]
        }
}

/// Keeps the other promotions.
pub open spec fn unless_promotion(promotion_id: Seq<char>) -> spec_fn(PromotionRecordView) -> Seq<
    PromotionRecordView,
> {
    |row: PromotionRecordView|
        if row.promotion_id == promotion_id {
            Seq::empty()
        } else {
            seq![row]
        }
}

/// The model rows of a run.
pub open spec fn models_of_run(run_id: Seq<char>) -> spec_fn(ModelRunRecordView) -> Seq<
    ModelRunRecordView,
> {
    |row: ModelRunRecordView|
        if row.run_id == run_id {
            seq![row]
        } else {
            Seq::empty()
        }
}

/// The seed rows of a run.
pub open spec fn seeds_of_run(run_id: Seq<char>) -> spec_fn(SeedRunRecordView) -> Seq<
    SeedRunRecordView,
> {
    |row: SeedRunRecordView|
        if row.run_id == run_id {
            seq![row]
        } else {
            Seq::empty()
        }
}

/// The test rows of a run.
pub open spec fn tests_of_run(run_id: Seq<char>) -> spec_fn(TestRunRecordView) -> Seq<
    TestRunRecordView,
> {
    |row: TestRunRecordView|
        if row.run_id == run_id {
            seq![row]
        } else {
            Seq::empty()
        }
}

/// Picks the materialisation of a model in an environment.
pub open spec fn is_materialized(
    model_id: Seq<char>,
    environment: Option<Seq<char>>,
) -> spec_fn(MaterializedRecordView) -> bool {
    |row: MaterializedRecordView|
        row.model_id == model_id && label(row.environment) == label(environment)
}

/// The materialisations of a version.
pub open spec fn materialized_as(hash: Seq<char>) -> spec_fn(MaterializedRecordView) -> Seq<
    MaterializedRecordView,
> {
    |row: MaterializedRecordView|
        if row.version.hash == hash {
            seq![row]
        } else {
            Seq::empty()
        }
}

/// The materialisations in an environment.
pub open spec fn materialized_under(environment: Option<Seq<char>>) -> spec_fn(
    MaterializedRecordView,
) -> Seq<MaterializedRecordView> {
    |row: MaterializedRecordView|
        if label(row.environment) == label(environment) {
            seq![row]
        } else {
            Seq::empty()
        }
}

/// The materialisations of several versions, by hash.
pub open spec fn by_hashes(
    rows: Seq<MaterializedRecordView>,
    hashes: Seq<Seq<char>>,
) -> Seq<(Seq<char>, Seq<MaterializedRecordView>)>
    decreases hashes.len(),
{
    if hashes.len() == 0 {
        Seq::empty()
    } else {
        with_name(
            by_hashes(rows, hashes.drop_last()),
            hashes.last(),
            gather(rows, materialized_as(hashes.last())),
        )
    }
}

/// A materialisation as it is recorded.
pub open spec fn materialized_row(record: MaterializedRecordView) -> MaterializedRecordView {
    MaterializedRecordView { environment: labelled(record.environment), ..record }
}

/// The materialisations after one is recorded: it takes the place of the one on
/// record for its model and environment, unless it is older; where there is none
/// it is added.
pub open spec fn with_materialized(
    rows: Seq<MaterializedRecordView>,
    record: MaterializedRecordView,
) -> Seq<MaterializedRecordView> {
    let same_place = is_materialized(record.model_id, record.environment);
    if first_where(rows, same_place) is None {
        rows.push(materialized_row(record))
    } else {
        Seq::new(
            rows.len(),
            |i: int|
                if same_place(rows[i]) && !earlier(
                    record.materialized_at,
                    rows[i].materialized_at,
                ) {
                    materialized_row(record)
                } else {
                    rows[i]
                },
        )
    }
}

/// Picks the load of a seed in an environment.
pub open spec fn is_load(name: Seq<char>, environment: Option<Seq<char>>) -> spec_fn(
    SeedRecordView,
) -> bool {
    |row: SeedRecordView| row.name == name && label(row.environment) == label(environment)
}

/// The seed loads in an environment.
pub open spec fn loads_under(environment: Option<Seq<char>>) -> spec_fn(SeedRecordView) -> Seq<
    SeedRecordView,
> {
    |row: SeedRecordView|
        if label(row.environment) == label(environment) {
            seq![row]
        } else {
            Seq::empty()
        }
}

/// A seed load as it is recorded.
pub open spec fn load_row(record: SeedRecordView) -> SeedRecordView {
    SeedRecordView { environment: labelled(record.environment), ..record }
}

/// The seed loads after one is recorded, ordered as materialisations are.
pub open spec fn with_load(rows: Seq<SeedRecordView>, record: SeedRecordView) -> Seq<
    SeedRecordView,
> {
    let same_place = is_load(record.name, record.environment);
    if first_where(rows, same_place) is None {
        rows.push(load_row(record))
    } else {
        Seq::new(
            rows.len(),
            |i: int|
                if same_place(rows[i]) && !earlier(record.loaded_at, rows[i].loaded_at) {
                    load_row(record)
                } else {
                    rows[i]
                },
        )
    }
}

/// Picks the watermark of a model in an environment.
pub open spec fn is_watermark(
    model_id: Seq<char>,
    environment: Option<Seq<char>>,
) -> spec_fn(WatermarkView) -> bool {
    |row: WatermarkView| row.model_id == model_id && label(row.environment) == label(environment)
}

/// When a run started, where it is on record.
pub open spec fn start_of(runs: Seq<StoredRunView>, run_id: Seq<char>) -> Option<Seq<char>> {
    match first_where(runs, is_run(run_id)) {
        Some(row) => Some(row.record.started_at),
        None => None,
    }
}

/// When a watermark's writer started; a writer that is not on record counts as
/// starting now.
pub open spec fn writer_start(runs: Seq<StoredRunView>, row: WatermarkView) -> Seq<char> {
    match start_of(runs, row.run_id) {
        Some(start) => start,
        None => row.updated_at,
    }
}

/// When the writer of the watermark on record started; one that no longer
/// resolves loses to any writer.
pub open spec fn holder_start(runs: Seq<StoredRunView>, row: WatermarkView) -> Seq<char> {
    match start_of(runs, row.run_id) {
        Some(start) => start,
        None => Seq::empty(),
    }
}

/// A watermark as it is recorded.
pub open spec fn watermark_row(row: WatermarkView) -> WatermarkView {
    WatermarkView { environment: labelled(row.environment), ..row }
}

/// The watermarks after one is set: a watermark is an observation made by a run,
/// so the run that started later prevails, whatever order the writes land in.
pub open spec fn with_watermark(
    rows: Seq<WatermarkView>,
    runs: Seq<StoredRunView>,
    mark: WatermarkView,
) -> Seq<WatermarkView> {
    let same_place = is_watermark(mark.model_id, mark.environment);
    if first_where(rows, same_place) is None {
        rows.push(watermark_row(mark))
    } else {
        Seq::new(
            rows.len(),
            |i: int|
                if same_place(rows[i]) && !earlier(
                    writer_start(runs, mark),
                    holder_start(runs, rows[i]),
                ) {
                    watermark_row(mark)
                } else {
                    rows[i]
                },
        )
    }
}

/// Picks the evidence with a given id.
pub open spec fn is_evidence(evidence_id: Seq<char>) -> spec_fn(EvidenceRecordView) -> bool {
    |row: EvidenceRecordView| row.evidence_id == evidence_id
}

/// The evidence of a kind for a subject.
pub open spec fn evidence_about(kind: EvidenceKind, subject: Seq<char>) -> spec_fn(
    EvidenceRecordView,
) -> Seq<EvidenceRecordView> {
    |row: EvidenceRecordView|
        if row.kind == kind && row.subject == subject {
            seq![row]
        } else {
            Seq::empty()
        }
}

/// The evidence of a kind.
pub open spec fn evidence_of(kind: EvidenceKind) -> spec_fn(EvidenceRecordView) -> Seq<
    EvidenceRecordView,
> {
    |row: EvidenceRecordView|
        if row.kind == kind {
            seq![row]
        } else {
            Seq::empty()
        }
}

/// Keeps what is not evidence of a kind for a subject.
pub open spec fn unless_about(kind: EvidenceKind, subject: Seq<char>) -> spec_fn(
    EvidenceRecordView,
) -> Seq<EvidenceRecordView> {
    |row: EvidenceRecordView|
        if row.kind == kind && row.subject == subject {
            Seq::empty()
        } else {
            seq![row]
        }
}

/// An evidence row as it is read: its payload as compact JSON.
pub open spec fn decoded(row: EvidenceRecordView) -> EvidenceRecordView {
    EvidenceRecordView {
        payload: match json_value(row.payload) {
            Ok(payload) => payload,
            Err(_) => row.payload,
        },
        ..row
    }
}

/// Evidence rows as they are read.
pub open spec fn decoded_rows(rows: Seq<EvidenceRecordView>) -> Seq<EvidenceRecordView> {
    Seq::new(rows.len(), |i: int| decoded(rows[i]))
}

/// Whether every payload decodes.
pub open spec fn readable(rows: Seq<EvidenceRecordView>) -> bool {
    forall|i: int| 0 <= i < rows.len() ==> json_value((#[trigger] rows[i]).payload) is Ok
}

/// The failure to read a payload that does not decode.
pub open spec fn corrupt(message: Seq<char>) -> EngineErrorView {
    EngineErrorView::State("Conversion error from type Text at index: 0, "@ + message)
}

/// When each piece of evidence was produced.
pub open spec fn evidence_times(rows: Seq<EvidenceRecordView>) -> Seq<Seq<char>> {
    Seq::new(rows.len(), |i: int| rows[i].created_at)
}

/// Picks a row whose payload does not decode.
pub open spec fn is_unreadable() -> spec_fn(EvidenceRecordView) -> bool {
    |row: EvidenceRecordView| json_value(row.payload) is Err
}

/// The rows in the order in which they are read: by the text of their time, the
/// greatest first, and of equal texts the row written last first.
pub open spec fn reading_order(rows: Seq<EvidenceRecordView>) -> Seq<EvidenceRecordView> {
    listed(rows, the_listing(rows.len(), text_down_order(evidence_times(rows))))
}

/// Whether `error` is the failure to read the rows: that of the first one, in
/// reading order, whose payload does not decode.
pub open spec fn is_corruption_of(rows: Seq<EvidenceRecordView>, error: EngineErrorView) -> bool {
    match first_where(reading_order(rows), is_unreadable()) {
        Some(row) => json_value(row.payload) matches Err(message) && error == corrupt(message),
        None => false,
    }
}

/// Whether the rows hold evidence for a subject and target.
pub open spec fn covers_pair(
    rows: Seq<EvidenceRecordView>,
    subject: Seq<char>,
    target_ref: Seq<char>,
) -> bool {
    exists|i: int|
        0 <= i < rows.len() && (#[trigger] rows[i]).subject == subject && rows[i].target_ref
            == target_ref
}

/// The first row for each subject and target.
pub open spec fn first_per_pair(rows: Seq<EvidenceRecordView>) -> Seq<EvidenceRecordView>
    decreases rows.len(),
{
    if rows.len() == 0 {
        Seq::empty()
    } else {
        let before = first_per_pair(rows.drop_last());
        if covers_pair(before, rows.last().subject, rows.last().target_ref) {
            before
        } else {
            before.push(rows.last())
        }
    }
}

/// A materialisation whose key is filled in from what was recorded before keys
/// were: an incremental key's columns were then the only key there was. Without
/// one the key stays unknown, which is not the same as absent.
pub open spec fn backfilled(row: MaterializedRecordView) -> MaterializedRecordView {
    if row.effective_key is None && row.incremental_strategy == Some("key"@)
        && row.incremental_key is Some && key_claim(row.incremental_key->0) is Some {
        MaterializedRecordView { effective_key: key_claim(row.incremental_key->0), ..row }
    } else {
        row
    }
}

fn place_materialized(rows: &Vec<MaterializedRecord>, record: &MaterializedRecord) -> (r: Vec<
    MaterializedRecord,
>)
    ensures
        r.deep_view() == with_materialized(rows.deep_view(), record.deep_view()),
{
    let row: MaterializedRecord = MaterializedRecord {
        model_id: record.model_id.clone(),
        environment: read_back(&record.environment),
        version: record.version.deep_clone(),
        detail: record.detail.deep_clone(),
        target: record.target.clone(),
        incremental_strategy: record.incremental_strategy.deep_clone(),
        incremental_key: record.incremental_key.deep_clone(),
        adapter: record.adapter.deep_clone(),
        output_identity: record.output_identity.deep_clone(),
        contract: record.contract.deep_clone(),
        effective_key: record.effective_key.deep_clone(),
        run_id: record.run_id.clone(),
        materialized_at: record.materialized_at.clone(),
    };
    assert(row.deep_view() == materialized_row(record.deep_view()));
    let ghost views = rows.deep_view();
    let ghost given = record.deep_view();
    let ghost p = is_materialized(given.model_id, given.environment);
    proof {
        lemma_first_ends(views, p);
    }
    let mut found: bool = false;
    let mut r: Vec<MaterializedRecord> = Vec::new();
    for i in 0..rows.len()
        invariant
            views == rows.deep_view(),
            given == record.deep_view(),
            row.deep_view() == materialized_row(given),
            p == is_materialized(given.model_id, given.environment),
            !found ==> first_where(views, p) == first_where(views.skip(i as int), p),
            found ==> first_where(views, p) is Some,
            r@.len() == i,
            forall|k: int|
                0 <= k < i ==> (#[trigger] r@[k]).deep_view() == (if p(views[k]) && !earlier(
                    given.materialized_at,
                    views[k].materialized_at,
                ) {
                    materialized_row(given)
                } else {
                    views[k]
                }),
    {
        assert(views[i as int] == rows@[i as int].deep_view());
        proof {
            lemma_first_step(views, i as int, p);
        }
        let matching: bool = same(rows[i].model_id.as_str(), record.model_id.as_str()) && same(
            label_of(&rows[i].environment),
            label_of(&record.environment),
        );
        assert(matching == p(views[i as int]));
        if matching {
            found = true;
        }
        let stale: bool = earlier_than(
            record.materialized_at.as_str(),
            rows[i].materialized_at.as_str(),
        );
        if matching && !stale {
            r.push(row.deep_clone());
        } else {
            r.push(rows[i].deep_clone());
        }
    }
    proof {
        lemma_first_ends(views, p);
    }
    if !found {
        let ghost before = r.deep_view();
        proof {
            lemma_first_found(views, p);
            assert(before =~= views);
        }
        put(&mut r, row);
    } else {
        assert(r.deep_view() =~= with_materialized(views, given));
    }
    r
}

fn place_load(rows: &Vec<SeedRecord>, record: &SeedRecord) -> (r: Vec<SeedRecord>)
    ensures
        r.deep_view() == with_load(rows.deep_view(), record.deep_view()),
{
    let row: SeedRecord = SeedRecord {
        name: record.name.clone(),
        environment: read_back(&record.environment),
        content_hash: record.content_hash.clone(),
        target: record.target.clone(),
        run_id: record.run_id.clone(),
        loaded_at: record.loaded_at.clone(),
    };
    assert(row.deep_view() == load_row(record.deep_view()));
    let ghost views = rows.deep_view();
    let ghost given = record.deep_view();
    let ghost p = is_load(given.name, given.environment);
    proof {
        lemma_first_ends(views, p);
    }
    let mut found: bool = false;
    let mut r: Vec<SeedRecord> = Vec::new();
    for i in 0..rows.len()
        invariant
            views == rows.deep_view(),
            given == record.deep_view(),
            row.deep_view() == load_row(given),
            p == is_load(given.name, given.environment),
            !found ==> first_where(views, p) == first_where(views.skip(i as int), p),
            found ==> first_where(views, p) is Some,
            r@.len() == i,
            forall|k: int|
                0 <= k < i ==> (#[trigger] r@[k]).deep_view() == (if p(views[k]) && !earlier(
                    given.loaded_at,
                    views[k].loaded_at,
                ) {
                    load_row(given)
                } else {
                    views[k]
                }),
    {
        assert(views[i as int] == rows@[i as int].deep_view());
        proof {
            lemma_first_step(views, i as int, p);
        }
        let matching: bool = same(rows[i].name.as_str(), record.name.as_str()) && same(
            label_of(&rows[i].environment),
            label_of(&record.environment),
        );
        assert(matching == p(views[i as int]));
        if matching {
            found = true;
        }
        let stale: bool = earlier_than(record.loaded_at.as_str(), rows[i].loaded_at.as_str());
        if matching && !stale {
            r.push(row.deep_clone());
        } else {
            r.push(rows[i].deep_clone());
        }
    }
    proof {
        lemma_first_ends(views, p);
    }
    if !found {
        let ghost before = r.deep_view();
        proof {
            lemma_first_found(views, p);
            assert(before =~= views);
        }
        put(&mut r, row);
    } else {
        assert(r.deep_view() =~= with_load(views, given));
    }
    r
}

fn find_start(runs: &Vec<StoredRun>, run_id: &str) -> (r: Option<String>)
    ensures
        r.deep_view() == start_of(runs.deep_view(), run_id@),
{
    let ghost views = runs.deep_view();
    let ghost p = is_run(run_id@);
    proof {
        lemma_first_ends(views, p);
    }
    for i in 0..runs.len()
        invariant
            views == runs.deep_view(),
            p == is_run(run_id@),
            first_where(views, p) == first_where(views.skip(i as int), p),
    {
        proof {
            lemma_first_step(views, i as int, p);
        }
        assert(views[i as int] == runs@[i as int].deep_view());
        if same(runs[i].record.run_id.as_str(), run_id) {
            return Some(runs[i].record.started_at.clone());
        }
    }
    proof {
        lemma_first_ends(views, p);
    }
    None
}

fn place_watermark(rows: &Vec<Watermark>, runs: &Vec<StoredRun>, mark: &Watermark) -> (r: Vec<
    Watermark,
>)
    ensures
        r.deep_view() == with_watermark(rows.deep_view(), runs.deep_view(), mark.deep_view()),
{
    let row: Watermark = Watermark {
        model_id: mark.model_id.clone(),
        environment: read_back(&mark.environment),
        value: mark.value.clone(),
        run_id: mark.run_id.clone(),
        updated_at: mark.updated_at.clone(),
    };
    let writer: String = match find_start(runs, mark.run_id.as_str()) {
        Some(start) => start,
        None => mark.updated_at.clone(),
    };
    let ghost views = rows.deep_view();
    let ghost given = mark.deep_view();
    let ghost all = runs.deep_view();
    let ghost p = is_watermark(given.model_id, given.environment);
    proof {
        reveal_strlit("");
        assert(""@ =~= Seq::<char>::empty());
        lemma_first_ends(views, p);
    }
    let mut found: bool = false;
    let mut r: Vec<Watermark> = Vec::new();
    for i in 0..rows.len()
        invariant
            ""@ == Seq::<char>::empty(),
            views == rows.deep_view(),
            given == mark.deep_view(),
            all == runs.deep_view(),
            row.deep_view() == watermark_row(given),
            writer@ == writer_start(all, given),
            p == is_watermark(given.model_id, given.environment),
            !found ==> first_where(views, p) == first_where(views.skip(i as int), p),
            found ==> first_where(views, p) is Some,
            r@.len() == i,
            forall|k: int|
                0 <= k < i ==> (#[trigger] r@[k]).deep_view() == (if p(views[k]) && !earlier(
                    writer_start(all, given),
                    holder_start(all, views[k]),
                ) {
                    watermark_row(given)
                } else {
                    views[k]
                }),
    {
        assert(views[i as int] == rows@[i as int].deep_view());
        proof {
            lemma_first_step(views, i as int, p);
        }
        let matching: bool = same(rows[i].model_id.as_str(), mark.model_id.as_str()) && same(
            label_of(&rows[i].environment),
            label_of(&mark.environment),
        );
        assert(matching == p(views[i as int]));
        if matching {
            found = true;
        }
        let holder: String = match find_start(runs, rows[i].run_id.as_str()) {
            Some(start) => start,
            None => "".to_owned(),
        };
        let stale: bool = earlier_than(writer.as_str(), holder.as_str());
        if matching && !stale {
            r.push(row.deep_clone());
        } else {
            r.push(rows[i].deep_clone());
        }
    }
    proof {
        lemma_first_ends(views, p);
    }
    if !found {
        let ghost before = r.deep_view();
        proof {
            lemma_first_found(views, p);
            assert(before =~= views);
        }
        put(&mut r, row);
    } else {
        assert(r.deep_view() =~= with_watermark(views, all, given));
    }
    r
}

fn read_evidence(rows: &Vec<EvidenceRecord>) -> (r: Result<Vec<EvidenceRecord>, EngineError>)
    ensures
        if readable(rows.deep_view()) {
            r matches Ok(v) && is_newest_first(
                decoded_rows(rows.deep_view()),
                evidence_times(rows.deep_view()),
                v.deep_view(),
            )
        } else {
            r matches Err(e) && is_corruption_of(rows.deep_view(), e.deep_view())
        },
{
    let ghost views = rows.deep_view();
    let mut stamps: Vec<String> = Vec::new();
    for i in 0..rows.len()
        invariant
            views == rows.deep_view(),
            stamps@.len() == i,
            forall|k: int| 0 <= k < i ==> (#[trigger] stamps@[k])@ == views[k].created_at,
    {
        assert(views[i as int] == rows@[i as int].deep_view());
        stamps.push(rows[i].created_at.clone());
    }
    assert(stamps.deep_view() =~= evidence_times(views));
    let listing: Vec<usize> = order_down(&stamps);
    proof {
        lemma_text_down_order(stamps.deep_view());
        lemma_the_listing(listing@, rows@.len(), text_down_order(stamps.deep_view()));
    }
    let ordered: Vec<EvidenceRecord> = list_items(rows, &listing);
    assert(ordered.deep_view() == reading_order(views));
    if let Some(message) = first_complaint(&ordered) {
        proof {
            lemma_first_found(ordered.deep_view(), is_unreadable());
            let k = choose|k: int|
                0 <= k < ordered.deep_view().len() && is_unreadable()(
                    #[trigger] ordered.deep_view()[k],
                );
            assert(listing@[k] < rows@.len());
            assert(json_value(views[listing@[k] as int].payload) is Err);
        }
        return Err(
            EngineError::State(
                cat2("Conversion error from type Text at index: 0, ", message.as_str()),
            ),
        );
    }
    proof {
        lemma_first_found(ordered.deep_view(), is_unreadable());
        assert forall|i: int| 0 <= i < views.len() implies json_value(
            (#[trigger] views[i]).payload,
        ) is Ok by {
            lemma_listing_hits(listing@, rows@.len(), i as usize);
            let k = choose|k: int| 0 <= k < listing@.len() && listing@[k] == i as usize;
            assert(!is_unreadable()(ordered.deep_view()[k]));
        }
    }
    let mut read: Vec<EvidenceRecord> = Vec::new();
    for i in 0..rows.len()
        invariant
            views == rows.deep_view(),
            readable(views),
            read@.len() == i,
            forall|k: int| 0 <= k < i ==> (#[trigger] read@[k]).deep_view() == decoded(views[k]),
    {
        assert(views[i as int] == rows@[i as int].deep_view());
        let mut row: EvidenceRecord = rows[i].deep_clone();
        if let Ok(payload) = parse_json(rows[i].payload.as_str()) {
            row.payload = payload;
        }
        assert(row.deep_view() == decoded(views[i as int]));
        read.push(row);
    }
    assert(read.deep_view() =~= decoded_rows(views));
    Ok(newest_first(&read, &stamps))
}

fn first_complaint(rows: &Vec<EvidenceRecord>) -> (r: Option<String>)
    ensures
        match first_where(rows.deep_view(), is_unreadable()) {
            Some(row) => r matches Some(message) && json_value(row.payload) == Err::<
                Seq<char>,
                Seq<char>,
            >(message@),
            None => r is None,
        },
{
    let ghost views = rows.deep_view();
    let ghost p = is_unreadable();
    proof {
        lemma_first_ends(views, p);
    }
    for i in 0..rows.len()
        invariant
            views == rows.deep_view(),
            p == is_unreadable(),
            first_where(views, p) == first_where(views.skip(i as int), p),
    {
        proof {
            lemma_first_step(views, i as int, p);
        }
        assert(views[i as int] == rows@[i as int].deep_view());
        if let Err(message) = parse_json(rows[i].payload.as_str()) {
            return Some(message);
        }
    }
    proof {
        lemma_first_ends(views, p);
    }
    None
}

fn pair_is_covered(rows: &Vec<EvidenceRecord>, subject: &str, target_ref: &str) -> (r: bool)
    ensures
        r == covers_pair(rows.deep_view(), subject@, target_ref@),
{
    let ghost views = rows.deep_view();
    for i in 0..rows.len()
        invariant
            views == rows.deep_view(),
            forall|k: int|
                0 <= k < i ==> !((#[trigger] views[k]).subject == subject@ && views[k].target_ref
                    == target_ref@),
    {
        assert(views[i as int] == rows@[i as int].deep_view());
        if same(rows[i].subject.as_str(), subject) && same(
            rows[i].target_ref.as_str(),
            target_ref,
        ) {
            return true;
        }
    }
    false
}

fn keep_first_per_pair(rows: &Vec<EvidenceRecord>) -> (r: Vec<EvidenceRecord>)
    ensures
        r.deep_view() == first_per_pair(rows.deep_view()),
{
    let ghost views = rows.deep_view();
    let mut r: Vec<EvidenceRecord> = none_of();
    assert(views.take(0) =~= Seq::<EvidenceRecordView>::empty());
    for i in 0..rows.len()
        invariant
            views == rows.deep_view(),
            r.deep_view() == first_per_pair(views.take(i as int)),
    {
        assert(views[i as int] == rows@[i as int].deep_view());
        assert(views.take(i as int + 1).drop_last() =~= views.take(i as int));
        let covered: bool = pair_is_covered(
            &r,
            rows[i].subject.as_str(),
            rows[i].target_ref.as_str(),
        );
        if !covered {
            put(&mut r, rows[i].deep_clone());
        }
    }
    assert(views.take(views.len() as int) =~= views);
    r
}

impl StateTables {
    /// Empty tables.
    pub fn in_memory() -> (tables: Self)
        ensures
            tables.deep_view() == (StateTablesView {
                runs: Seq::empty(),
                model_runs: Seq::empty(),
                seed_runs: Seq::empty(),
                test_runs: Seq::empty(),
                materialized: Seq::empty(),
                watermarks: Seq::empty(),
                seeds: Seq::empty(),
                promotions: Seq::empty(),
                evidence: Seq::empty(),
            }),
    {
        StateTables {
            runs: none_of(),
            model_runs: none_of(),
            seed_runs: none_of(),
            test_runs: none_of(),
            materialized: none_of(),
            watermarks: none_of(),
            seeds: none_of(),
            promotions: none_of(),
            evidence: none_of(),
        }
    }

    /// Tables as they are when a store is opened again: keys that older rows
    /// recorded only as incremental keys are filled in.
    pub fn open(self) -> (tables: Self)
        ensures
            tables.deep_view() == (StateTablesView {
                materialized: Seq::new(
                    self.deep_view().materialized.len(),
                    |i: int| backfilled(self.deep_view().materialized[i]),
                ),
                ..self.deep_view()
            }),
    {
        let rows: Vec<MaterializedRecord> = self.materialized;
        let ghost views = rows.deep_view();
        let mut filled: Vec<MaterializedRecord> = Vec::new();
        for i in 0..rows.len()
            invariant
                views == rows.deep_view(),
                filled@.len() == i,
                forall|k: int|
                    0 <= k < i ==> (#[trigger] filled@[k]).deep_view() == backfilled(views[k]),
        {
            assert(views[i as int] == rows@[i as int].deep_view());
            let mut row: MaterializedRecord = rows[i].deep_clone();
            let keyed: bool = match &row.incremental_strategy {
                Some(strategy) => same(strategy.as_str(), "key"),
                None => false,
            };
            if row.effective_key.is_none() && keyed {
                let claim: Option<Vec<Vec<String>>> = match &row.incremental_key {
                    Some(raw) => incremental_key_claim(raw.as_str()),
                    None => None,
                };
                if claim.is_some() {
                    row.effective_key = claim;
                }
            }
            assert(row.deep_view() == backfilled(views[i as int]));
            filled.push(row);
        }
        assert(filled.deep_view() =~= Seq::new(views.len(), |i: int| backfilled(views[i])));
        StateTables {
            runs: self.runs,
            model_runs: self.model_runs,
            seed_runs: self.seed_runs,
            test_runs: self.test_runs,
            materialized: filled,
            watermarks: self.watermarks,
            seeds: self.seeds,
            promotions: self.promotions,
            evidence: self.evidence,
        }
    }

    /// Record a run starting, with the plan it is executing.
    pub fn start_run(&mut self, run: &RunRecord, plan: &StoredPlan) -> (r: Result<
        (),
        EngineError,
    >)
        ensures
            if first_where(old(self).deep_view().runs, is_run(run.run_id@)) is Some {
                &&& r matches Err(e) && e.deep_view() == EngineErrorView::State(
                    "UNIQUE constraint failed: runs.run_id"@,
                )
                &&& final(self).deep_view() == old(self).deep_view()
            } else {
                &&& r == Ok::<(), EngineError>(())
                &&& final(self).deep_view() == (StateTablesView {
                    runs: old(self).deep_view().runs.push(
                        started_row(run.deep_view(), plan.deep_view()),
                    ),
                    ..old(self).deep_view()
                })
            },
    {
        let known: Option<String> = find_start(&self.runs, run.run_id.as_str());
        if known.is_some() {
            return Err(EngineError::State("UNIQUE constraint failed: runs.run_id".to_owned()));
        }
        put(
            &mut self.runs,
            StoredRun {
                record: RunRecord {
                    run_id: run.run_id.clone(),
                    plan_id: run.plan_id.clone(),
                    environment: read_back(&run.environment),
                    reference_hash: run.reference_hash.deep_clone(),
                    started_at: run.started_at.clone(),
                    finished_at: run.finished_at.deep_clone(),
                    status: run.status,
                    model_count: run.model_count,
                    failed_count: run.failed_count,
                },
                plan: Some(plan.deep_clone()),
            },
        );
        Ok(())
    }

    /// Re-open an interrupted run for continuation: status back to `running`,
    /// the finish time cleared, the original start kept.
    pub fn reopen_run(&mut self, run_id: &str)
        ensures
            final(self).deep_view() == (StateTablesView {
                runs: runs_amended(old(self).deep_view().runs, run_id@, reopened()),
                ..old(self).deep_view()
            }),
    {
        let mut rows: Vec<StoredRun> = Vec::new();
        let ghost views = self.runs.deep_view();
        for i in 0..self.runs.len()
            invariant
                views == self.runs.deep_view(),
                *self == *old(self),
                rows@.len() == i,
                forall|k: int|
                    0 <= k < i ==> (#[trigger] rows@[k]).deep_view() == runs_amended(
                        views,
                        run_id@,
                        reopened(),
                    )[k],
        {
            assert(views[i as int] == self.runs@[i as int].deep_view());
            let mut row: StoredRun = self.runs[i].deep_clone();
            if same(row.record.run_id.as_str(), run_id) {
                row.record.status = ExecutionStatus::Running;
                row.record.finished_at = None;
            }
            rows.push(row);
        }
        assert(rows.deep_view() =~= runs_amended(views, run_id@, reopened()));
        self.runs = rows;
    }

    /// Bind the run to the reference head it validated: the post-run head, never
    /// the pre-run snapshot, since a Nessie candidate advances with every write.
    pub fn bind_run_reference_hash(&mut self, run_id: &str, reference_hash: &str)
        ensures
            final(self).deep_view() == (StateTablesView {
                runs: runs_amended(old(self).deep_view().runs, run_id@, bound_to(reference_hash@)),
                ..old(self).deep_view()
            }),
    {
        let mut rows: Vec<StoredRun> = Vec::new();
        let ghost views = self.runs.deep_view();
        for i in 0..self.runs.len()
            invariant
                views == self.runs.deep_view(),
                *self == *old(self),
                rows@.len() == i,
                forall|k: int|
                    0 <= k < i ==> (#[trigger] rows@[k]).deep_view() == runs_amended(
                        views,
                        run_id@,
                        bound_to(reference_hash@),
                    )[k],
        {
            assert(views[i as int] == self.runs@[i as int].deep_view());
            let mut row: StoredRun = self.runs[i].deep_clone();
            if same(row.record.run_id.as_str(), run_id) {
                row.record.reference_hash = Some(reference_hash.to_owned());
            }
            rows.push(row);
        }
        assert(rows.deep_view() =~= runs_amended(views, run_id@, bound_to(reference_hash@)));
        self.runs = rows;
    }

    /// Record how a run ended.
    pub fn finish_run(
        &mut self,
        run_id: &str,
        status: ExecutionStatus,
        finished_at: &str,
        failed_count: usize,
    )
        ensures
            final(self).deep_view() == (StateTablesView {
                runs: runs_amended(
                    old(self).deep_view().runs,
                    run_id@,
                    finished_as(status, finished_at@, failed_count),
                ),
                ..old(self).deep_view()
            }),
    {
        let mut rows: Vec<StoredRun> = Vec::new();
        let ghost views = self.runs.deep_view();
        let ghost f = finished_as(status, finished_at@, failed_count);
        for i in 0..self.runs.len()
            invariant
                views == self.runs.deep_view(),
                *self == *old(self),
                f == finished_as(status, finished_at@, failed_count),
                rows@.len() == i,
                forall|k: int|
                    0 <= k < i ==> (#[trigger] rows@[k]).deep_view() == runs_amended(
                        views,
                        run_id@,
                        f,
                    )[k],
        {
            assert(views[i as int] == self.runs@[i as int].deep_view());
            let mut row: StoredRun = self.runs[i].deep_clone();
            if same(row.record.run_id.as_str(), run_id) {
                row.record.status = status;
                row.record.finished_at = Some(finished_at.to_owned());
                row.record.failed_count = failed_count;
            }
            rows.push(row);
        }
        assert(rows.deep_view() =~= runs_amended(views, run_id@, f));
        self.runs = rows;
    }

    /// Record a model's execution, in place of what its run recorded of it
    /// before: called on each transition.
    pub fn record_model(&mut self, record: &ModelRunRecord)
        ensures
            final(self).deep_view() == (StateTablesView {
                model_runs: gather(
                    old(self).deep_view().model_runs,
                    unless_model_run(record.run_id@, record.model_id@),
                ).push(record.deep_view()),
                ..old(self).deep_view()
            }),
    {
        let items: &Vec<ModelRunRecord> = &self.model_runs;
        let ghost views = items.deep_view();
        let ghost f = unless_model_run(record.run_id@, record.model_id@);
        proof {
            lemma_gather_ends(views, f);
        }
        let mut rows: Vec<ModelRunRecord> = none_of();
        for i in 0..items.len()
            invariant
                views == items.deep_view(),
                f == unless_model_run(record.run_id@, record.model_id@),
                rows.deep_view() == gather(views.take(i as int), f),
        {
            proof {
                lemma_gather_step(views, i as int, f);
            }
            let ghost before = rows.deep_view();
            assert(views[i as int] == items@[i as int].deep_view());
            if !(same(items[i].run_id.as_str(), record.run_id.as_str()) && same(
                items[i].model_id.as_str(),
                record.model_id.as_str(),
            )) {
                put(&mut rows, items[i].deep_clone());
            }
            assert(rows.deep_view() =~= before + f(views[i as int]));
        }
        put(&mut rows, record.deep_clone());
        self.model_runs = rows;
    }

    /// Record a seed's execution, in place of what its run recorded of it before.
    pub fn record_seed_run(&mut self, record: &SeedRunRecord)
        ensures
            final(self).deep_view() == (StateTablesView {
                seed_runs: gather(
                    old(self).deep_view().seed_runs,
                    unless_seed_run(record.run_id@, record.name@),
                ).push(record.deep_view()),
                ..old(self).deep_view()
            }),
    {
        let items: &Vec<SeedRunRecord> = &self.seed_runs;
        let ghost views = items.deep_view();
        let ghost f = unless_seed_run(record.run_id@, record.name@);
        proof {
            lemma_gather_ends(views, f);
        }
        let mut rows: Vec<SeedRunRecord> = none_of();
        for i in 0..items.len()
            invariant
                views == items.deep_view(),
                f == unless_seed_run(record.run_id@, record.name@),
                rows.deep_view() == gather(views.take(i as int), f),
        {
            proof {
                lemma_gather_step(views, i as int, f);
            }
            let ghost before = rows.deep_view();
            assert(views[i as int] == items@[i as int].deep_view());
            if !(same(items[i].run_id.as_str(), record.run_id.as_str()) && same(
                items[i].name.as_str(),
                record.name.as_str(),
            )) {
                put(&mut rows, items[i].deep_clone());
            }
            assert(rows.deep_view() =~= before + f(views[i as int]));
        }
        put(&mut rows, record.deep_clone());
        self.seed_runs = rows;
    }

    /// Record a test's execution, in place of what its run recorded of it before.
    pub fn record_test(&mut self, record: &TestRunRecord)
        ensures
            final(self).deep_view() == (StateTablesView {
                test_runs: gather(
                    old(self).deep_view().test_runs,
                    unless_test_run(record.run_id@, record.test_id@),
                ).push(record.deep_view()),
                ..old(self).deep_view()
            }),
    {
        let items: &Vec<TestRunRecord> = &self.test_runs;
        let ghost views = items.deep_view();
        let ghost f = unless_test_run(record.run_id@, record.test_id@);
        proof {
            lemma_gather_ends(views, f);
        }
        let mut rows: Vec<TestRunRecord> = none_of();
        for i in 0..items.len()
            invariant
                views == items.deep_view(),
                f == unless_test_run(record.run_id@, record.test_id@),
                rows.deep_view() == gather(views.take(i as int), f),
        {
            proof {
                lemma_gather_step(views, i as int, f);
            }
            let ghost before = rows.deep_view();
            assert(views[i as int] == items@[i as int].deep_view());
            if !(same(items[i].run_id.as_str(), record.run_id.as_str()) && same(
                items[i].test_id.as_str(),
                record.test_id.as_str(),
            )) {
                put(&mut rows, items[i].deep_clone());
            }
            assert(rows.deep_view() =~= before + f(views[i as int]));
        }
        put(&mut rows, record.deep_clone());
        self.test_runs = rows;
    }

    /// Every run, newest first.
    pub fn runs(&self) -> (r: Vec<RunSummary>)
        ensures
            ({
                let rows = gather(self.deep_view().runs, every_run());
                is_newest_first(rows, starts(rows), r.deep_view())
            }),
    {
        let items: &Vec<StoredRun> = &self.runs;
        let ghost views = items.deep_view();
        let ghost f = every_run();
        proof {
            lemma_gather_ends(views, f);
        }
        let mut rows: Vec<RunSummary> = none_of();
        for i in 0..items.len()
            invariant
                views == items.deep_view(),
                f == every_run(),
                rows.deep_view() == gather(views.take(i as int), f),
        {
            proof {
                lemma_gather_step(views, i as int, f);
            }
            let ghost before = rows.deep_view();
            assert(views[i as int] == items@[i as int].deep_view());
            put(&mut rows, summarize(&items[i]));
            assert(rows.deep_view() =~= before + f(views[i as int]));
        }
        newest_runs(&rows)
    }

    fn runs_labelled(&self, environment: Option<&str>) -> (r: Vec<RunSummary>)
        ensures
            ({
                let rows = gather(self.deep_view().runs, runs_under(environment.deep_view()));
                is_newest_first(rows, starts(rows), r.deep_view())
            }),
    {
        let wanted: &str = wanted_label(environment);
        let items: &Vec<StoredRun> = &self.runs;
        let ghost views = items.deep_view();
        let ghost f = runs_under(environment.deep_view());
        proof {
            lemma_gather_ends(views, f);
        }
        let mut rows: Vec<RunSummary> = none_of();
        for i in 0..items.len()
            invariant
                views == items.deep_view(),
                f == runs_under(environment.deep_view()),
                wanted@ == label(environment.deep_view()),
                rows.deep_view() == gather(views.take(i as int), f),
        {
            proof {
                lemma_gather_step(views, i as int, f);
            }
            let ghost before = rows.deep_view();
            assert(views[i as int] == items@[i as int].deep_view());
            if same(label_of(&items[i].record.environment), wanted) {
                put(&mut rows, summarize(&items[i]));
            }
            assert(rows.deep_view() =~= before + f(views[i as int]));
        }
        newest_runs(&rows)
    }

    /// The most recent run for an environment, if any.
    pub fn latest_run(&self, environment: Option<&str>) -> (r: Option<RunSummary>)
        ensures
            ({
                let rows = gather(self.deep_view().runs, runs_under(environment.deep_view()));
                exists|list: Seq<RunSummaryView>|
                    #[trigger] is_newest_first(rows, starts(rows), list) && r.deep_view() == (
                    if list.len() == 0 {
                        None
                    } else {
                        Some(list[0])
                    })
            }),
    {
        let runs: Vec<RunSummary> = self.runs_labelled(environment);
        assert(runs.deep_view().len() == runs@.len());
        if runs.len() == 0 {
            None
        } else {
            assert(runs.deep_view()[0] == runs@[0].deep_view());
            Some(runs[0].deep_clone())
        }
    }

    /// A run plus its persisted plan, by id.
    pub fn run(&self, run_id: &str) -> (r: Option<StoredRun>)
        ensures
            r.deep_view() == first_where(self.deep_view().runs, is_run(run_id@)),
    {
        let runs: &Vec<StoredRun> = &self.runs;
        let ghost views = runs.deep_view();
        let ghost p = is_run(run_id@);
        proof {
            lemma_first_ends(views, p);
        }
        for i in 0..runs.len()
            invariant
                views == runs.deep_view(),
                p == is_run(run_id@),
                runs.deep_view() == self.deep_view().runs,
                first_where(views, p) == first_where(views.skip(i as int), p),
        {
            proof {
                lemma_first_step(views, i as int, p);
            }
            assert(views[i as int] == runs@[i as int].deep_view());
            if same(runs[i].record.run_id.as_str(), run_id) {
                return Some(runs[i].deep_clone());
            }
        }
        proof {
            lemma_first_ends(views, p);
        }
        None
    }

    /// Runs whose id starts with `prefix`, newest first.
    pub fn find_runs(&self, prefix: &str) -> (r: Vec<RunSummary>)
        ensures
            ({
                let rows = gather(self.deep_view().runs, runs_starting(prefix@));
                is_newest_first(rows, starts(rows), r.deep_view())
            }),
    {
        let items: &Vec<StoredRun> = &self.runs;
        let ghost views = items.deep_view();
        let ghost f = runs_starting(prefix@);
        proof {
            lemma_gather_ends(views, f);
        }
        let mut rows: Vec<RunSummary> = none_of();
        for i in 0..items.len()
            invariant
                views == items.deep_view(),
                f == runs_starting(prefix@),
                rows.deep_view() == gather(views.take(i as int), f),
        {
            proof {
                lemma_gather_step(views, i as int, f);
            }
            let ghost before = rows.deep_view();
            assert(views[i as int] == items@[i as int].deep_view());
            if begins_with(items[i].record.run_id.as_str(), prefix) {
                put(&mut rows, summarize(&items[i]));
            }
            assert(rows.deep_view() =~= before + f(views[i as int]));
        }
        newest_runs(&rows)
    }

    /// Every model execution record of a run, by model.
    pub fn model_runs(&self, run_id: &str) -> (r: Vec<ModelRunRecord>)
        ensures
            ({
                let rows = gather(self.deep_view().model_runs, models_of_run(run_id@));
                r.deep_view() == by_key(rows, Seq::new(rows.len(), |i: int| rows[i].model_id))
            }),
    {
        let items: &Vec<ModelRunRecord> = &self.model_runs;
        let ghost views = items.deep_view();
        let ghost f = models_of_run(run_id@);
        proof {
            lemma_gather_ends(views, f);
        }
        let mut rows: Vec<ModelRunRecord> = none_of();
        for i in 0..items.len()
            invariant
                views == items.deep_view(),
                f == models_of_run(run_id@),
                rows.deep_view() == gather(views.take(i as int), f),
        {
            proof {
                lemma_gather_step(views, i as int, f);
            }
            let ghost before = rows.deep_view();
            assert(views[i as int] == items@[i as int].deep_view());
            if same(items[i].run_id.as_str(), run_id) {
                put(&mut rows, items[i].deep_clone());
            }
            assert(rows.deep_view() =~= before + f(views[i as int]));
        }
        let mut keys: Vec<String> = Vec::new();
        for i in 0..rows.len()
            invariant
                keys@.len() == i,
                forall|k: int| 0 <= k < i ==> (#[trigger] keys@[k])@ == rows@[k].model_id@,
        {
            keys.push(rows[i].model_id.clone());
        }
        assert(keys.deep_view() =~= Seq::new(
            rows.deep_view().len(),
            |i: int| rows.deep_view()[i].model_id,
        ));
        in_key_order(&rows, &keys)
    }

    /// Every seed execution record of a run, by seed.
    pub fn seed_runs(&self, run_id: &str) -> (r: Vec<SeedRunRecord>)
        ensures
            ({
                let rows = gather(self.deep_view().seed_runs, seeds_of_run(run_id@));
                r.deep_view() == by_key(rows, Seq::new(rows.len(), |i: int| rows[i].name))
            }),
    {
        let items: &Vec<SeedRunRecord> = &self.seed_runs;
        let ghost views = items.deep_view();
        let ghost f = seeds_of_run(run_id@);
        proof {
            lemma_gather_ends(views, f);
        }
        let mut rows: Vec<SeedRunRecord> = none_of();
        for i in 0..items.len()
            invariant
                views == items.deep_view(),
                f == seeds_of_run(run_id@),
                rows.deep_view() == gather(views.take(i as int), f),
        {
            proof {
                lemma_gather_step(views, i as int, f);
            }
            let ghost before = rows.deep_view();
            assert(views[i as int] == items@[i as int].deep_view());
            if same(items[i].run_id.as_str(), run_id) {
                put(&mut rows, items[i].deep_clone());
            }
            assert(rows.deep_view() =~= before + f(views[i as int]));
        }
        let mut keys: Vec<String> = Vec::new();
        for i in 0..rows.len()
            invariant
                keys@.len() == i,
                forall|k: int| 0 <= k < i ==> (#[trigger] keys@[k])@ == rows@[k].name@,
        {
            keys.push(rows[i].name.clone());
        }
        assert(keys.deep_view() =~= Seq::new(
            rows.deep_view().len(),
            |i: int| rows.deep_view()[i].name,
        ));
        in_key_order(&rows, &keys)
    }

    /// Every test execution record of a run, by test.
    pub fn test_runs(&self, run_id: &str) -> (r: Vec<TestRunRecord>)
        ensures
            ({
                let rows = gather(self.deep_view().test_runs, tests_of_run(run_id@));
                r.deep_view() == by_key(rows, Seq::new(rows.len(), |i: int| rows[i].test_id))
            }),
    {
        let items: &Vec<TestRunRecord> = &self.test_runs;
        let ghost views = items.deep_view();
        let ghost f = tests_of_run(run_id@);
        proof {
            lemma_gather_ends(views, f);
        }
        let mut rows: Vec<TestRunRecord> = none_of();
        for i in 0..items.len()
            invariant
                views == items.deep_view(),
                f == tests_of_run(run_id@),
                rows.deep_view() == gather(views.take(i as int), f),
        {
            proof {
                lemma_gather_step(views, i as int, f);
            }
            let ghost before = rows.deep_view();
            assert(views[i as int] == items@[i as int].deep_view());
            if same(items[i].run_id.as_str(), run_id) {
                put(&mut rows, items[i].deep_clone());
            }
            assert(rows.deep_view() =~= before + f(views[i as int]));
        }
        let mut keys: Vec<String> = Vec::new();
        for i in 0..rows.len()
            invariant
                keys@.len() == i,
                forall|k: int| 0 <= k < i ==> (#[trigger] keys@[k])@ == rows@[k].test_id@,
        {
            keys.push(rows[i].test_id.clone());
        }
        assert(keys.deep_view() =~= Seq::new(
            rows.deep_view().len(),
            |i: int| rows.deep_view()[i].test_id,
        ));
        in_key_order(&rows, &keys)
    }

    /// Record the version attached to a successful materialisation. A record
    /// older than the stored one is dropped.
    pub fn record_materialized(&mut self, record: &MaterializedRecord)
        ensures
            final(self).deep_view() == (StateTablesView {
                materialized: with_materialized(
                    old(self).deep_view().materialized,
                    record.deep_view(),
                ),
                ..old(self).deep_view()
            }),
    {
        let rows: Vec<MaterializedRecord> = place_materialized(&self.materialized, record);
        self.materialized = rows;
    }

    /// The materialised version for a model in an environment.
    pub fn materialized_version(&self, model_id: &str, environment: Option<&str>) -> (r: Option<
        MaterializedRecord,
    >)
        ensures
            r.deep_view() == first_where(
                self.deep_view().materialized,
                is_materialized(model_id@, environment.deep_view()),
            ),
    {
        let wanted: &str = wanted_label(environment);
        let rows: &Vec<MaterializedRecord> = &self.materialized;
        let ghost views = rows.deep_view();
        let ghost p = is_materialized(model_id@, environment.deep_view());
        proof {
            lemma_first_ends(views, p);
        }
        for i in 0..rows.len()
            invariant
                views == rows.deep_view(),
                p == is_materialized(model_id@, environment.deep_view()),
                rows.deep_view() == self.deep_view().materialized,
                wanted@ == label(environment.deep_view()),
                first_where(views, p) == first_where(views.skip(i as int), p),
        {
            proof {
                lemma_first_step(views, i as int, p);
            }
            assert(views[i as int] == rows@[i as int].deep_view());
            if same(rows[i].model_id.as_str(), model_id) && same(
                label_of(&rows[i].environment),
                wanted,
            ) {
                return Some(rows[i].deep_clone());
            }
        }
        proof {
            lemma_first_ends(views, p);
        }
        None
    }

    /// All materialisations of a given version hash (for cache reuse checks).
    pub fn materialized_by_hash(&self, version_hash: &str) -> (r: Vec<MaterializedRecord>)
        ensures
            r.deep_view() == gather(self.deep_view().materialized, materialized_as(version_hash@)),
    {
        let items: &Vec<MaterializedRecord> = &self.materialized;
        let ghost views = items.deep_view();
        let ghost f = materialized_as(version_hash@);
        proof {
            lemma_gather_ends(views, f);
        }
        let mut rows: Vec<MaterializedRecord> = none_of();
        for i in 0..items.len()
            invariant
                views == items.deep_view(),
                f == materialized_as(version_hash@),
                rows.deep_view() == gather(views.take(i as int), f),
        {
            proof {
                lemma_gather_step(views, i as int, f);
            }
            let ghost before = rows.deep_view();
            assert(views[i as int] == items@[i as int].deep_view());
            if same(items[i].version.hash.as_str(), version_hash) {
                put(&mut rows, items[i].deep_clone());
            }
            assert(rows.deep_view() =~= before + f(views[i as int]));
        }
        rows
    }

    /// All materialisations of any of the given version hashes, by hash.
    pub fn materialized_by_hashes(&self, version_hashes: &Vec<String>) -> (r: NameMap<
        Vec<MaterializedRecord>,
    >)
        ensures
            r.deep_view() == by_hashes(self.deep_view().materialized, version_hashes.deep_view()),
    {
        let ghost hashes = version_hashes.deep_view();
        let mut r: NameMap<Vec<MaterializedRecord>> = NameMap::new();
        assert(hashes.take(0) =~= Seq::<Seq<char>>::empty());
        for i in 0..version_hashes.len()
            invariant
                hashes == version_hashes.deep_view(),
                r.deep_view() == by_hashes(self.deep_view().materialized, hashes.take(i as int)),
        {
            assert(hashes.take(i as int + 1).drop_last() =~= hashes.take(i as int));
            assert(hashes[i as int] == version_hashes@[i as int]@);
            let found: Vec<MaterializedRecord> = self.materialized_by_hash(
                version_hashes[i].as_str(),
            );
            r.insert(version_hashes[i].clone(), found);
        }
        assert(hashes.take(hashes.len() as int) =~= hashes);
        r
    }

    /// Every materialised model in an environment, by model.
    pub fn materialized_in(&self, environment: Option<&str>) -> (r: Vec<MaterializedRecord>)
        ensures
            ({
                let rows = gather(
                    self.deep_view().materialized,
                    materialized_under(environment.deep_view()),
                );
                r.deep_view() == by_key(rows, Seq::new(rows.len(), |i: int| rows[i].model_id))
            }),
    {
        let wanted: &str = wanted_label(environment);
        let items: &Vec<MaterializedRecord> = &self.materialized;
        let ghost views = items.deep_view();
        let ghost f = materialized_under(environment.deep_view());
        proof {
            lemma_gather_ends(views, f);
        }
        let mut rows: Vec<MaterializedRecord> = none_of();
        for i in 0..items.len()
            invariant
                views == items.deep_view(),
                f == materialized_under(environment.deep_view()),
                wanted@ == label(environment.deep_view()),
                rows.deep_view() == gather(views.take(i as int), f),
        {
            proof {
                lemma_gather_step(views, i as int, f);
            }
            let ghost before = rows.deep_view();
            assert(views[i as int] == items@[i as int].deep_view());
            if same(label_of(&items[i].environment), wanted) {
                put(&mut rows, items[i].deep_clone());
            }
            assert(rows.deep_view() =~= before + f(views[i as int]));
        }
        let mut keys: Vec<String> = Vec::new();
        for i in 0..rows.len()
            invariant
                keys@.len() == i,
                forall|k: int| 0 <= k < i ==> (#[trigger] keys@[k])@ == rows@[k].model_id@,
        {
            keys.push(rows[i].model_id.clone());
        }
        assert(keys.deep_view() =~= Seq::new(
            rows.deep_view().len(),
            |i: int| rows.deep_view()[i].model_id,
        ));
        in_key_order(&rows, &keys)
    }

    /// Record a promotion for audit.
    pub fn record_promotion(&mut self, record: &PromotionRecord)
        ensures
            final(self).deep_view() == (StateTablesView {
                promotions: gather(
                    old(self).deep_view().promotions,
                    unless_promotion(record.promotion_id@),
                ).push(record.deep_view()),
                ..old(self).deep_view()
            }),
    {
        let items: &Vec<PromotionRecord> = &self.promotions;
        let ghost views = items.deep_view();
        let ghost f = unless_promotion(record.promotion_id@);
        proof {
            lemma_gather_ends(views, f);
        }
        let mut rows: Vec<PromotionRecord> = none_of();
        for i in 0..items.len()
            invariant
                views == items.deep_view(),
                f == unless_promotion(record.promotion_id@),
                rows.deep_view() == gather(views.take(i as int), f),
        {
            proof {
                lemma_gather_step(views, i as int, f);
            }
            let ghost before = rows.deep_view();
            assert(views[i as int] == items@[i as int].deep_view());
            if !same(items[i].promotion_id.as_str(), record.promotion_id.as_str()) {
                put(&mut rows, items[i].deep_clone());
            }
            assert(rows.deep_view() =~= before + f(views[i as int]));
        }
        put(&mut rows, record.deep_clone());
        self.promotions = rows;
    }

    /// Recorded promotions, newest first.
    pub fn promotions(&self) -> (r: Vec<PromotionRecord>)
        ensures
            ({
                let rows = self.deep_view().promotions;
                is_newest_first(
                    rows,
                    Seq::new(rows.len(), |i: int| rows[i].timestamp),
                    r.deep_view(),
                )
            }),
    {
        let rows: &Vec<PromotionRecord> = &self.promotions;
        let mut stamps: Vec<String> = Vec::new();
        for i in 0..rows.len()
            invariant
                stamps@.len() == i,
                forall|k: int| 0 <= k < i ==> (#[trigger] stamps@[k])@ == rows@[k].timestamp@,
        {
            stamps.push(rows[i].timestamp.clone());
        }
        assert(stamps.deep_view() =~= Seq::new(
            rows.deep_view().len(),
            |i: int| rows.deep_view()[i].timestamp,
        ));
        newest_first(rows, &stamps)
    }

    /// Append an immutable audit-evidence record. Records are never updated: a
    /// later audit of the same subject appends a new record, and a colliding id
    /// is rejected.
    pub fn record_evidence(&mut self, record: &EvidenceRecord) -> (r: Result<(), EngineError>)
        ensures
            if first_where(old(self).deep_view().evidence, is_evidence(record.evidence_id@))
                is Some {
                &&& r matches Err(e) && e.deep_view() == EngineErrorView::State(
                    "UNIQUE constraint failed: evidence.evidence_id"@,
                )
                &&& final(self).deep_view() == old(self).deep_view()
            } else {
                &&& r == Ok::<(), EngineError>(())
                &&& final(self).deep_view() == (StateTablesView {
                    evidence: old(self).deep_view().evidence.push(record.deep_view()),
                    ..old(self).deep_view()
                })
            },
    {
        if self.has_evidence(record.evidence_id.as_str()) {
            return Err(
                EngineError::State("UNIQUE constraint failed: evidence.evidence_id".to_owned()),
            );
        }
        put(&mut self.evidence, record.deep_clone());
        Ok(())
    }

    fn has_evidence(&self, evidence_id: &str) -> (r: bool)
        ensures
            r == (first_where(self.deep_view().evidence, is_evidence(evidence_id@)) is Some),
    {
        let rows: &Vec<EvidenceRecord> = &self.evidence;
        let ghost views = rows.deep_view();
        let ghost p = is_evidence(evidence_id@);
        proof {
            lemma_first_ends(views, p);
        }
        for i in 0..rows.len()
            invariant
                views == rows.deep_view(),
                p == is_evidence(evidence_id@),
                rows.deep_view() == self.deep_view().evidence,
                first_where(views, p) == first_where(views.skip(i as int), p),
        {
            proof {
                lemma_first_step(views, i as int, p);
            }
            assert(views[i as int] == rows@[i as int].deep_view());
            if same(rows[i].evidence_id.as_str(), evidence_id) {
                return true;
            }
        }
        proof {
            lemma_first_ends(views, p);
        }
        false
    }

    /// Every record of `kind` for a subject, newest first. A payload that does
    /// not decode is corrupt evidence and fails the read.
    pub fn evidence_for(&self, kind: EvidenceKind, subject: &str) -> (r: Result<
        Vec<EvidenceRecord>,
        EngineError,
    >)
        ensures
            ({
                let rows = gather(self.deep_view().evidence, evidence_about(kind, subject@));
                if readable(rows) {
                    r matches Ok(v) && is_newest_first(
                        decoded_rows(rows),
                        evidence_times(rows),
                        v.deep_view(),
                    )
                } else {
                    r matches Err(e) && is_corruption_of(rows, e.deep_view())
                }
            }),
    {
        let items: &Vec<EvidenceRecord> = &self.evidence;
        let ghost views = items.deep_view();
        let ghost f = evidence_about(kind, subject@);
        proof {
            lemma_gather_ends(views, f);
        }
        let mut rows: Vec<EvidenceRecord> = none_of();
        for i in 0..items.len()
            invariant
                views == items.deep_view(),
                f == evidence_about(kind, subject@),
                rows.deep_view() == gather(views.take(i as int), f),
        {
            proof {
                lemma_gather_step(views, i as int, f);
            }
            let ghost before = rows.deep_view();
            assert(views[i as int] == items@[i as int].deep_view());
            if items[i].kind == kind && same(items[i].subject.as_str(), subject) {
                put(&mut rows, items[i].deep_clone());
            }
            assert(rows.deep_view() =~= before + f(views[i as int]));
        }
        read_evidence(&rows)
    }

    /// The newest record of `kind` for each (subject, target) pair that has one:
    /// a candidate audited against two targets keeps both current records.
    pub fn latest_evidence(&self, kind: EvidenceKind) -> (r: Result<
        Vec<EvidenceRecord>,
        EngineError,
    >)
        ensures
            ({
                let rows = gather(self.deep_view().evidence, evidence_of(kind));
                if readable(rows) {
                    r matches Ok(v) && exists|list: Seq<EvidenceRecordView>|
                        #[trigger] is_newest_first(
                            decoded_rows(rows),
                            evidence_times(rows),
                            list,
                        ) && v.deep_view() == first_per_pair(list)
                } else {
                    r matches Err(e) && is_corruption_of(rows, e.deep_view())
                }
            }),
    {
        let items: &Vec<EvidenceRecord> = &self.evidence;
        let ghost views = items.deep_view();
        let ghost f = evidence_of(kind);
        proof {
            lemma_gather_ends(views, f);
        }
        let mut rows: Vec<EvidenceRecord> = none_of();
        for i in 0..items.len()
            invariant
                views == items.deep_view(),
                f == evidence_of(kind),
                rows.deep_view() == gather(views.take(i as int), f),
        {
            proof {
                lemma_gather_step(views, i as int, f);
            }
            let ghost before = rows.deep_view();
            assert(views[i as int] == items@[i as int].deep_view());
            if items[i].kind == kind {
                put(&mut rows, items[i].deep_clone());
            }
            assert(rows.deep_view() =~= before + f(views[i as int]));
        }
        match read_evidence(&rows) {
            Ok(list) => Ok(keep_first_per_pair(&list)),
            Err(error) => Err(error),
        }
    }

    /// Drop a subject's evidence of `kind`, when the binding it describes no
    /// longer exists. This is removal, not mutation: evidence is immutable while
    /// its subject exists.
    pub fn remove_evidence(&mut self, kind: EvidenceKind, subject: &str)
        ensures
            final(self).deep_view() == (StateTablesView {
                evidence: gather(old(self).deep_view().evidence, unless_about(kind, subject@)),
                ..old(self).deep_view()
            }),
    {
        let items: &Vec<EvidenceRecord> = &self.evidence;
        let ghost views = items.deep_view();
        let ghost f = unless_about(kind, subject@);
        proof {
            lemma_gather_ends(views, f);
        }
        let mut rows: Vec<EvidenceRecord> = none_of();
        for i in 0..items.len()
            invariant
                views == items.deep_view(),
                f == unless_about(kind, subject@),
                rows.deep_view() == gather(views.take(i as int), f),
        {
            proof {
                lemma_gather_step(views, i as int, f);
            }
            let ghost before = rows.deep_view();
            assert(views[i as int] == items@[i as int].deep_view());
            if !(items[i].kind == kind && same(items[i].subject.as_str(), subject)) {
                put(&mut rows, items[i].deep_clone());
            }
            assert(rows.deep_view() =~= before + f(views[i as int]));
        }
        self.evidence = rows;
    }

    /// Record a successful time-window watermark, written at the time
    /// `mark.updated_at`.
    pub fn set_watermark_at(&mut self, mark: &Watermark)
        ensures
            final(self).deep_view() == (StateTablesView {
                watermarks: with_watermark(
                    old(self).deep_view().watermarks,
                    old(self).deep_view().runs,
                    mark.deep_view(),
                ),
                ..old(self).deep_view()
            }),
    {
        let rows: Vec<Watermark> = place_watermark(&self.watermarks, &self.runs, mark);
        self.watermarks = rows;
    }

    /// Record a successful time-window watermark now. Only called on success.
    pub fn set_watermark(
        &mut self,
        model_id: &str,
        environment: Option<&str>,
        value: &str,
        run_id: &str,
    )
        ensures
            exists|now: Seq<char>|
                #[trigger] is_timestamp(now) && final(self).deep_view() == (StateTablesView {
                    watermarks: with_watermark(
                        old(self).deep_view().watermarks,
                        old(self).deep_view().runs,
                        (WatermarkView {
                            model_id: model_id@,
                            environment: environment.deep_view(),
                            value: value@,
                            run_id: run_id@,
                            updated_at: now,
                        }),
                    ),
                    ..old(self).deep_view()
                }),
    {
        let mark: Watermark = Watermark {
            model_id: model_id.to_owned(),
            environment: match environment {
                Some(name) => Some(name.to_owned()),
                None => None,
            },
            value: value.to_owned(),
            run_id: run_id.to_owned(),
            updated_at: now_rfc3339(),
        };
        assert(is_timestamp(mark.updated_at@));
        self.set_watermark_at(&mark);
    }

    /// The last successful time-window watermark for a model and environment.
    pub fn watermark(&self, model_id: &str, environment: Option<&str>) -> (r: Option<String>)
        ensures
            r.deep_view() == match first_where(
                self.deep_view().watermarks,
                is_watermark(model_id@, environment.deep_view()),
            ) {
                Some(row) => Some(row.value),
                None => None,
            },
    {
        let wanted: &str = wanted_label(environment);
        let rows: &Vec<Watermark> = &self.watermarks;
        let ghost views = rows.deep_view();
        let ghost p = is_watermark(model_id@, environment.deep_view());
        proof {
            lemma_first_ends(views, p);
        }
        for i in 0..rows.len()
            invariant
                views == rows.deep_view(),
                p == is_watermark(model_id@, environment.deep_view()),
                rows.deep_view() == self.deep_view().watermarks,
                wanted@ == label(environment.deep_view()),
                first_where(views, p) == first_where(views.skip(i as int), p),
        {
            proof {
                lemma_first_step(views, i as int, p);
            }
            assert(views[i as int] == rows@[i as int].deep_view());
            if same(rows[i].model_id.as_str(), model_id) && same(
                label_of(&rows[i].environment),
                wanted,
            ) {
                return Some(rows[i].value.clone());
            }
        }
        proof {
            lemma_first_ends(views, p);
        }
        None
    }

    /// Record a successful seed load, ordered by `loaded_at` as materialisations
    /// are.
    pub fn record_seed(&mut self, record: &SeedRecord)
        ensures
            final(self).deep_view() == (StateTablesView {
                seeds: with_load(old(self).deep_view().seeds, record.deep_view()),
                ..old(self).deep_view()
            }),
    {
        let rows: Vec<SeedRecord> = place_load(&self.seeds, record);
        self.seeds = rows;
    }

    /// The latest seed load for an environment.
    pub fn seed_state(&self, name: &str, environment: Option<&str>) -> (r: Option<SeedRecord>)
        ensures
            r.deep_view() == first_where(
                self.deep_view().seeds,
                is_load(name@, environment.deep_view()),
            ),
    {
        let wanted: &str = wanted_label(environment);
        let rows: &Vec<SeedRecord> = &self.seeds;
        let ghost views = rows.deep_view();
        let ghost p = is_load(name@, environment.deep_view());
        proof {
            lemma_first_ends(views, p);
        }
        for i in 0..rows.len()
            invariant
                views == rows.deep_view(),
                p == is_load(name@, environment.deep_view()),
                rows.deep_view() == self.deep_view().seeds,
                wanted@ == label(environment.deep_view()),
                first_where(views, p) == first_where(views.skip(i as int), p),
        {
            proof {
                lemma_first_step(views, i as int, p);
            }
            assert(views[i as int] == rows@[i as int].deep_view());
            if same(rows[i].name.as_str(), name) && same(
                label_of(&rows[i].environment),
                wanted,
            ) {
                return Some(rows[i].deep_clone());
            }
        }
        proof {
            lemma_first_ends(views, p);
        }
        None
    }

    /// Every seed load recorded for an environment, by seed.
    pub fn seeds_in(&self, environment: Option<&str>) -> (r: Vec<SeedRecord>)
        ensures
            ({
                let rows = gather(self.deep_view().seeds, loads_under(environment.deep_view()));
                r.deep_view() == by_key(rows, Seq::new(rows.len(), |i: int| rows[i].name))
            }),
    {
        let wanted: &str = wanted_label(environment);
        let items: &Vec<SeedRecord> = &self.seeds;
        let ghost views = items.deep_view();
        let ghost f = loads_under(environment.deep_view());
        proof {
            lemma_gather_ends(views, f);
        }
        let mut rows: Vec<SeedRecord> = none_of();
        for i in 0..items.len()
            invariant
                views == items.deep_view(),
                f == loads_under(environment.deep_view()),
                wanted@ == label(environment.deep_view()),
                rows.deep_view() == gather(views.take(i as int), f),
        {
            proof {
                lemma_gather_step(views, i as int, f);
            }
            let ghost before = rows.deep_view();
            assert(views[i as int] == items@[i as int].deep_view());
            if same(label_of(&items[i].environment), wanted) {
                put(&mut rows, items[i].deep_clone());
            }
            assert(rows.deep_view() =~= before + f(views[i as int]));
        }
        let mut keys: Vec<String> = Vec::new();
        for i in 0..rows.len()
            invariant
                keys@.len() == i,
                forall|k: int| 0 <= k < i ==> (#[trigger] keys@[k])@ == rows@[k].name@,
        {
            keys.push(rows[i].name.clone());
        }
        assert(keys.deep_view() =~= Seq::new(
            rows.deep_view().len(),
            |i: int| rows.deep_view()[i].name,
        ));
        in_key_order(&rows, &keys)
    }
}

/// Bind a passed run to its environment's post-run Nessie head: the commit its
/// writes produced, not the pre-run snapshot. An unbound run cannot later promote.
/// `head` is that environment's reference, if it still exists. Nothing is bound
/// when the run did not pass, has no environment, or the reference is gone.
pub fn bind_run_reference(
    state: &mut StateTables,
    result: &RunResult,
    head: &Option<ReferenceInfo>,
)
    ensures
        final(state).deep_view() == (if result.status == ExecutionStatus::Passed
            && result.environment is Some && head is Some {
            StateTablesView {
                runs: runs_amended(
                    old(state).deep_view().runs,
                    result.run_id@,
                    bound_to(head.deep_view()->0.hash),
                ),
                ..old(state).deep_view()
            }
        } else {
            old(state).deep_view()
        }),
{
    if reference_to_bind(result).is_none() {
        return;
    }
    if let Some(info) = head {
        state.bind_run_reference_hash(result.run_id.as_str(), info.hash.as_str());
    }
}

/// Resolve a run id or unique prefix to its summary: the shared lookup wherever a
/// user supplies a partial id.
pub fn find_unique_run(state: &StateTables, id_or_prefix: &str) -> (r: Result<
    RunSummary,
    EngineError,
>)
    ensures
        ({
            let rows = gather(state.deep_view().runs, runs_starting(id_or_prefix@));
            exists|list: Seq<RunSummaryView>|
                #[trigger] is_newest_first(rows, starts(rows), list) && (match unique_run(
                    list,
                    id_or_prefix@,
                ) {
                    Ok(run) => r matches Ok(x) && x.deep_view() == run,
                    Err(error) => r matches Err(e) && e.deep_view() == error,
                })
        }),
{
    let matches: Vec<RunSummary> = state.find_runs(id_or_prefix);
    pick_unique_run(&matches, id_or_prefix)
}

/// What is listed newest first holds every row once, and no row comes after an
/// earlier one.
pub proof fn law_newest_first_is_chronological<T>(
    rows: Seq<T>,
    stamps: Seq<Seq<char>>,
    r: Seq<T>,
)
    requires
        rows.len() <= usize::MAX,
        stamps.len() == rows.len(),
        all_parse(stamps) || none_parse(stamps),
        is_newest_first(rows, stamps, r),
    ensures
        exists|listing: Seq<usize>|
            #[trigger] is_listing(listing, rows.len()) && r == listed(rows, listing) && forall|
                i: int,
                j: int,
            |
                0 <= i < j < rows.len() ==> !earlier(
                    stamps[#[trigger] listing[i] as int],
                    stamps[#[trigger] listing[j] as int],
                ),
{
    let before = newest_order(stamps);
    let listing = the_listing(rows.len(), before);
    lemma_newest_order(stamps);
    lemma_listing_exists(rows.len(), before);
    assert(is_listing(listing, rows.len()));
    assert forall|i: int, j: int| 0 <= i < j < rows.len() implies !earlier(
        stamps[#[trigger] listing[i] as int],
        stamps[#[trigger] listing[j] as int],
    ) by {
        assert(ahead(before, listing[i] as int, listing[j] as int));
        lemma_earlier_asymmetric(stamps[listing[i] as int], stamps[listing[j] as int]);
        assert(listing[i] < rows.len() && listing[j] < rows.len());
    }
}

/// The latest run of an environment started no earlier than any other of its
/// runs.
pub proof fn law_the_latest_run_is_the_newest(
    rows: Seq<RunSummaryView>,
    list: Seq<RunSummaryView>,
    k: int,
)
    requires
        rows.len() <= usize::MAX,
        all_parse(starts(rows)) || none_parse(starts(rows)),
        is_newest_first(rows, starts(rows), list),
        0 <= k < rows.len(),
    ensures
        list.len() > 0,
        !earlier(list[0].started_at, rows[k].started_at),
{
    law_newest_first_is_chronological(rows, starts(rows), list);
    let listing = choose|listing: Seq<usize>|
        #[trigger] is_listing(listing, rows.len()) && list == listed(rows, listing) && forall|
            i: int,
            j: int,
        |
            0 <= i < j < rows.len() ==> !earlier(
                starts(rows)[#[trigger] listing[i] as int],
                starts(rows)[#[trigger] listing[j] as int],
            );
    lemma_listing_hits(listing, rows.len(), k as usize);
    let at = choose|at: int| 0 <= at < listing.len() && listing[at] == k as usize;
    lemma_earlier_asymmetric(rows[k].started_at, rows[k].started_at);
    assert(listing[0] < rows.len());
    if at > 0 {
        assert(!earlier(starts(rows)[listing[0] as int], starts(rows)[listing[at] as int]));
    }
}

/// Whether two records are for the same subject and target.
pub open spec fn same_pair(a: EvidenceRecordView, b: EvidenceRecordView) -> bool {
    a.subject == b.subject && a.target_ref == b.target_ref
}

/// Whether a record is listed ahead of every other for its subject and target.
pub open spec fn is_first_of_pair(
    list: Seq<EvidenceRecordView>,
    record: EvidenceRecordView,
) -> bool {
    exists|k: int|
        0 <= k < list.len() && #[trigger] list[k] == record && forall|m: int|
            0 <= m < k ==> !same_pair(#[trigger] list[m], record)
}

/// The current evidence holds one record for each subject and target that has
/// any, and it is the first that is listed.
pub proof fn law_latest_evidence_is_per_pair(list: Seq<EvidenceRecordView>)
    ensures
        forall|i: int, j: int|
            0 <= i < j < first_per_pair(list).len() ==> !same_pair(
                #[trigger] first_per_pair(list)[i],
                #[trigger] first_per_pair(list)[j],
            ),
        forall|k: int|
            0 <= k < list.len() ==> covers_pair(
                first_per_pair(list),
                (#[trigger] list[k]).subject,
                list[k].target_ref,
            ),
        forall|i: int|
            0 <= i < first_per_pair(list).len() ==> is_first_of_pair(
                list,
                #[trigger] first_per_pair(list)[i],
            ),
    decreases list.len(),
{
    if list.len() > 0 {
        let rest = list.drop_last();
        let before = first_per_pair(rest);
        let after = first_per_pair(list);
        law_latest_evidence_is_per_pair(rest);
        assert forall|k: int| 0 <= k < list.len() implies covers_pair(
            after,
            (#[trigger] list[k]).subject,
            list[k].target_ref,
        ) by {
            if k < rest.len() {
                assert(list[k] == rest[k]);
                let i = choose|i: int|
                    0 <= i < before.len() && (#[trigger] before[i]).subject == rest[k].subject
                        && before[i].target_ref == rest[k].target_ref;
                assert(after[i] == before[i]);
            } else if !covers_pair(before, list.last().subject, list.last().target_ref) {
                assert(after[before.len() as int] == list.last());
            }
        }
        assert forall|i: int| 0 <= i < after.len() implies is_first_of_pair(
            list,
            #[trigger] after[i],
        ) by {
            if i < before.len() {
                assert(after[i] == before[i]);
                assert(is_first_of_pair(rest, before[i]));
                let k = choose|k: int|
                    0 <= k < rest.len() && rest[k] == before[i] && forall|m: int|
                        0 <= m < k ==> !same_pair(#[trigger] rest[m], before[i]);
                assert(list[k] == after[i]);
                assert forall|m: int| 0 <= m < k implies !same_pair(
                    #[trigger] list[m],
                    after[i],
                ) by {
                    assert(list[m] == rest[m]);
                }
            } else {
                let k = rest.len() as int;
                assert(list[k] == after[i]);
                assert forall|m: int| 0 <= m < k implies !same_pair(
                    #[trigger] list[m],
                    after[i],
                ) by {
                    assert(list[m] == rest[m]);
                    assert(covers_pair(before, rest[m].subject, rest[m].target_ref));
                }
            }
        }
    }
}

/// A materialisation once recorded is never replaced by an older one, and one
/// of another model or environment is left alone.
pub proof fn law_materializations_do_not_regress(
    rows: Seq<MaterializedRecordView>,
    record: MaterializedRecordView,
)
    ensures
        forall|i: int|
            0 <= i < rows.len() ==> !earlier(
                (#[trigger] with_materialized(rows, record)[i]).materialized_at,
                rows[i].materialized_at,
            ),
        forall|i: int|
            0 <= i < rows.len() && !is_materialized(record.model_id, record.environment)(rows[i])
                ==> (#[trigger] with_materialized(rows, record)[i]) == rows[i],
{
    assert forall|i: int| 0 <= i < rows.len() implies !earlier(
        (#[trigger] with_materialized(rows, record)[i]).materialized_at,
        rows[i].materialized_at,
    ) by {
        lemma_earlier_asymmetric(rows[i].materialized_at, rows[i].materialized_at);
    }
}

/// A materialisation that is not older than the one on record is the one that
/// is read back for its model and environment.
pub proof fn law_materializations_read_back(
    rows: Seq<MaterializedRecordView>,
    record: MaterializedRecordView,
)
    requires
        forall|i: int|
            0 <= i < rows.len() && is_materialized(record.model_id, record.environment)(
                #[trigger] rows[i],
            ) ==> !earlier(record.materialized_at, rows[i].materialized_at),
    ensures
        first_where(
            with_materialized(rows, record),
            is_materialized(record.model_id, record.environment),
        ) == Some(materialized_row(record)),
{
    let p = is_materialized(record.model_id, record.environment);
    let after = with_materialized(rows, record);
    assert(label(labelled(record.environment)) == label(record.environment)) by {
        assert(label(record.environment).len() == 0 ==> label(record.environment)
            =~= Seq::<char>::empty());
    }
    assert(p(materialized_row(record)));
    if first_where(rows, p) is None {
        lemma_first_found(rows, p);
        assert(p(after[rows.len() as int]));
        lemma_only_match(after, p, materialized_row(record));
    } else {
        lemma_first_found(rows, p);
        let k = choose|k: int| 0 <= k < rows.len() && p(#[trigger] rows[k]);
        assert(after[k] == materialized_row(record));
        lemma_only_match(after, p, materialized_row(record));
    }
}

/// Where every match is the same item and there is one, it is what is found.
proof fn lemma_only_match<A>(items: Seq<A>, p: spec_fn(A) -> bool, item: A)
    requires
        exists|i: int| 0 <= i < items.len() && p(#[trigger] items[i]),
        forall|i: int| 0 <= i < items.len() && p(#[trigger] items[i]) ==> items[i] == item,
    ensures
        first_where(items, p) == Some(item),
{
    lemma_first_found(items, p);
}

/// A seed load once recorded is never replaced by an older one.
pub proof fn law_loads_do_not_regress(rows: Seq<SeedRecordView>, record: SeedRecordView)
    ensures
        forall|i: int|
            0 <= i < rows.len() ==> !earlier(
                (#[trigger] with_load(rows, record)[i]).loaded_at,
                rows[i].loaded_at,
            ),
{
    assert forall|i: int| 0 <= i < rows.len() implies !earlier(
        (#[trigger] with_load(rows, record)[i]).loaded_at,
        rows[i].loaded_at,
    ) by {
        lemma_earlier_asymmetric(rows[i].loaded_at, rows[i].loaded_at);
    }
}

/// A watermark is never rewound by a run that started before the run which set
/// it.
pub proof fn law_watermarks_follow_run_generation(
    rows: Seq<WatermarkView>,
    runs: Seq<StoredRunView>,
    mark: WatermarkView,
    i: int,
)
    requires
        0 <= i < rows.len(),
        earlier(writer_start(runs, mark), holder_start(runs, rows[i])),
    ensures
        with_watermark(rows, runs, mark)[i] == rows[i],
{
}

/// Evidence ids are unique, and stay so: a row that would repeat one is refused.
pub proof fn law_evidence_ids_stay_unique(
    rows: Seq<EvidenceRecordView>,
    record: EvidenceRecordView,
)
    requires
        forall|i: int, j: int|
            0 <= i < j < rows.len() ==> (#[trigger] rows[i]).evidence_id != (
            #[trigger] rows[j]).evidence_id,
        first_where(rows, is_evidence(record.evidence_id)) is None,
    ensures
        forall|i: int, j: int|
            0 <= i < j < rows.push(record).len() ==> (#[trigger] rows.push(record)[i]).evidence_id
                != (#[trigger] rows.push(record)[j]).evidence_id,
{
    lemma_first_found(rows, is_evidence(record.evidence_id));
}

/// Removing a subject's evidence of a kind leaves none of it, and leaves the
/// evidence of every other kind or subject as it was.
pub proof fn law_removal_is_per_kind_and_subject(
    rows: Seq<EvidenceRecordView>,
    kind: EvidenceKind,
    subject: Seq<char>,
    other_kind: EvidenceKind,
    other_subject: Seq<char>,
)
    ensures
        gather(gather(rows, unless_about(kind, subject)), evidence_about(other_kind, other_subject))
            == (if other_kind == kind && other_subject == subject {
            Seq::empty()
        } else {
            gather(rows, evidence_about(other_kind, other_subject))
        }),
    decreases rows.len(),
{
    let keep = unless_about(kind, subject);
    let pick = evidence_about(other_kind, other_subject);
    lemma_gather_ends(rows, keep);
    lemma_gather_ends(rows, pick);
    lemma_gather_ends(gather(rows, keep), pick);
    if rows.len() > 0 {
        let before = rows.drop_last();
        law_removal_is_per_kind_and_subject(before, kind, subject, other_kind, other_subject);
        let kept = gather(before, keep);
        assert(gather(rows, keep) == kept + keep(rows.last()));
        assert(gather(rows, pick) == gather(before, pick) + pick(rows.last()));
        if keep(rows.last()).len() == 0 {
            assert(gather(rows, keep) =~= kept);
            assert(pick(rows.last()) =~= (if other_kind == kind && other_subject == subject {
                seq![rows.last()]
            } else {
                Seq::empty()
            }));
            assert(gather(before, pick) + Seq::<EvidenceRecordView>::empty() =~= gather(
                before,
                pick,
            ));
        } else {
            let grown = gather(rows, keep);
            assert(grown =~= kept.push(rows.last()));
            assert(grown.drop_last() =~= kept);
            assert(gather(grown, pick) == gather(kept, pick) + pick(rows.last()));
            if other_kind == kind && other_subject == subject {
                assert(pick(rows.last()) =~= Seq::<EvidenceRecordView>::empty());
                assert(gather(grown, pick) =~= Seq::<EvidenceRecordView>::empty());
            }
        }
    } else {
        assert(gather(rows, keep) =~= Seq::<EvidenceRecordView>::empty());
    }
}

/// Opening a store again changes no key that its records prove.
pub proof fn law_backfill_keeps_recorded_keys(row: MaterializedRecordView)
    requires
        row.incremental_key matches Some(raw) ==> gather(
            split_text(raw, ','),
            column_of_piece(),
        ).len() <= usize::MAX,
    ensures
        key_on_record(backfilled(row)) == key_on_record(row),
{
    if row.incremental_key is Some && key_claim(row.incremental_key->0) is Some {
        let columns = gather(split_text(row.incremental_key->0, ','), column_of_piece());
        let claim = key_claim(row.incremental_key->0)->0;
        lemma_sort_texts_again(columns);
        assert(sorted_claims(claim) =~= claim);
        lemma_lists_in_order(claim);
    }
}

/// Opening a store a second time changes nothing more.
pub proof fn law_backfill_settles(row: MaterializedRecordView)
    ensures
        backfilled(backfilled(row)) == backfilled(row),
{
}

/// A run that is opened again keeps its start, and finishing it afterwards
/// leaves what finishing it at once would have.
pub proof fn law_reopening_keeps_the_start(
    record: RunRecordView,
    status: ExecutionStatus,
    finished_at: Seq<char>,
    failed_count: usize,
)
    ensures
        reopened()(record).started_at == record.started_at,
        finished_as(status, finished_at, failed_count)(reopened()(record)) == finished_as(
            status,
            finished_at,
            failed_count,
        )(record),
{
}

} // verus!
