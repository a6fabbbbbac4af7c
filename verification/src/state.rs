//! Operational run state: the records that runs, materialisations and audits
//! leave behind, and what each of them proves.

use vstd::prelude::*;

use crate::contracts::{
    canonical_claims, key_difference, sort_claims, sorted_claims, without_repeats, RecordedKey,
    RecordedKeyView,
};
use crate::events::ExecutionStatus;
use crate::failure::{Attempt, AttemptView};
use crate::order::{
    lemma_list_listing, lemma_lists_in_order, lemma_sort_texts_again, list_lt, sort_lists,
    sort_texts, sorted_lists, sorted_texts,
};
use crate::seqs::{gather, lemma_gather_ends, lemma_gather_step};
use crate::text::{none_of, one_of, put, same, split_on, split_text, trim, trim_text, DeepClone};
use crate::workspace::{
    ModelContract, ModelContractView, ModelVersion, ModelVersionView, VersionDetail,
    VersionDetailView,
};

verus! {

/// A single run.
#[derive(Clone, Debug, PartialEq, Eq)]
pub struct RunRecord {
    pub run_id: String,
    pub plan_id: String,
    pub environment: Option<String>,
    /// The Nessie commit whose contents this run's evidence validated. `None`
    /// for runs outside a Nessie reference flow.
    pub reference_hash: Option<String>,
    pub started_at: String,
    pub finished_at: Option<String>,
    pub status: ExecutionStatus,
    pub model_count: usize,
    pub failed_count: usize,
}

/// The contents of a [`RunRecord`].
pub struct RunRecordView {
    pub run_id: Seq<char>,
    pub plan_id: Seq<char>,
    pub environment: Option<Seq<char>>,
    pub reference_hash: Option<Seq<char>>,
    pub started_at: Seq<char>,
    pub finished_at: Option<Seq<char>>,
    pub status: ExecutionStatus,
    pub model_count: usize,
    pub failed_count: usize,
}

impl DeepView for RunRecord {
    type V = RunRecordView;

    open spec fn deep_view(&self) -> RunRecordView {
        RunRecordView {
            run_id: self.run_id@,
            plan_id: self.plan_id@,
            environment: self.environment.deep_view(),
            reference_hash: self.reference_hash.deep_view(),
            started_at: self.started_at@,
            finished_at: self.finished_at.deep_view(),
            status: self.status,
            model_count: self.model_count,
            failed_count: self.failed_count,
        }
    }
}

impl DeepClone for RunRecord {
    fn deep_clone(&self) -> (copy: Self) {
        RunRecord {
            run_id: self.run_id.deep_clone(),
            plan_id: self.plan_id.deep_clone(),
            environment: self.environment.deep_clone(),
            reference_hash: self.reference_hash.deep_clone(),
            started_at: self.started_at.deep_clone(),
            finished_at: self.finished_at.deep_clone(),
            status: self.status,
            model_count: self.model_count,
            failed_count: self.failed_count,
        }
    }
}

/// The plan a run executed, persisted so that the run can be resumed or its
/// failed work retried.
#[derive(Clone, Debug, PartialEq, Eq)]
pub struct StoredPlan {
    pub plan_id: String,
    pub environment: Option<String>,
    pub models: Vec<StoredPlanModel>,
    pub seeds: Vec<StoredPlanSeed>,
    pub tests: Vec<StoredPlanTest>,
}

/// The contents of a [`StoredPlan`].
pub struct StoredPlanView {
    pub plan_id: Seq<char>,
    pub environment: Option<Seq<char>>,
    pub models: Seq<StoredPlanModelView>,
    pub seeds: Seq<StoredPlanSeedView>,
    pub tests: Seq<StoredPlanTestView>,
}

impl DeepView for StoredPlan {
    type V = StoredPlanView;

    open spec fn deep_view(&self) -> StoredPlanView {
        StoredPlanView {
            plan_id: self.plan_id@,
            environment: self.environment.deep_view(),
            models: self.models.deep_view(),
            seeds: self.seeds.deep_view(),
            tests: self.tests.deep_view(),
        }
    }
}

impl DeepClone for StoredPlan {
    fn deep_clone(&self) -> (copy: Self) {
        StoredPlan {
            plan_id: self.plan_id.deep_clone(),
            environment: self.environment.deep_clone(),
            models: self.models.deep_clone(),
            seeds: self.seeds.deep_clone(),
            tests: self.tests.deep_clone(),
        }
    }
}

/// A model of a stored plan.
#[derive(Clone, Debug, PartialEq, Eq)]
pub struct StoredPlanModel {
    pub id: String,
    pub target: String,
    /// The plan action as its stable string (`build`, `skip`, `cached`,
    /// `unknown`).
    pub action: String,
    pub desired_version: String,
    pub full_rebuild: bool,
    pub watermark: Option<String>,
}

/// The contents of a [`StoredPlanModel`].
pub struct StoredPlanModelView {
    pub id: Seq<char>,
    pub target: Seq<char>,
    pub action: Seq<char>,
    pub desired_version: Seq<char>,
    pub full_rebuild: bool,
    pub watermark: Option<Seq<char>>,
}

impl DeepView for StoredPlanModel {
    type V = StoredPlanModelView;

    open spec fn deep_view(&self) -> StoredPlanModelView {
        StoredPlanModelView {
            id: self.id@,
            target: self.target@,
            action: self.action@,
            desired_version: self.desired_version@,
            full_rebuild: self.full_rebuild,
            watermark: self.watermark.deep_view(),
        }
    }
}

impl DeepClone for StoredPlanModel {
    fn deep_clone(&self) -> (copy: Self) {
        StoredPlanModel {
            id: self.id.deep_clone(),
            target: self.target.deep_clone(),
            action: self.action.deep_clone(),
            desired_version: self.desired_version.deep_clone(),
            full_rebuild: self.full_rebuild,
            watermark: self.watermark.deep_clone(),
        }
    }
}

/// A seed of a stored plan.
#[derive(Clone, Debug, PartialEq, Eq)]
pub struct StoredPlanSeed {
    pub name: String,
    pub target: String,
    pub path: String,
    pub action: String,
    pub desired_version: String,
}

/// The contents of a [`StoredPlanSeed`].
pub struct StoredPlanSeedView {
    pub name: Seq<char>,
    pub target: Seq<char>,
    pub path: Seq<char>,
    pub action: Seq<char>,
    pub desired_version: Seq<char>,
}

impl DeepView for StoredPlanSeed {
    type V = StoredPlanSeedView;

    open spec fn deep_view(&self) -> StoredPlanSeedView {
        StoredPlanSeedView {
            name: self.name@,
            target: self.target@,
            path: self.path@,
            action: self.action@,
            desired_version: self.desired_version@,
        }
    }
}

impl DeepClone for StoredPlanSeed {
    fn deep_clone(&self) -> (copy: Self) {
        StoredPlanSeed {
            name: self.name.deep_clone(),
            target: self.target.deep_clone(),
            path: self.path.deep_clone(),
            action: self.action.deep_clone(),
            desired_version: self.desired_version.deep_clone(),
        }
    }
}

/// A test of a stored plan.
#[derive(Clone, Debug, PartialEq, Eq)]
pub struct StoredPlanTest {
    pub id: String,
    pub targets: Vec<String>,
    pub sources: Vec<String>,
}

/// The contents of a [`StoredPlanTest`].
pub struct StoredPlanTestView {
    pub id: Seq<char>,
    pub targets: Seq<Seq<char>>,
    pub sources: Seq<Seq<char>>,
}

impl DeepView for StoredPlanTest {
    type V = StoredPlanTestView;

    open spec fn deep_view(&self) -> StoredPlanTestView {
        StoredPlanTestView {
            id: self.id@,
            targets: self.targets.deep_view(),
            sources: self.sources.deep_view(),
        }
    }
}

impl DeepClone for StoredPlanTest {
    fn deep_clone(&self) -> (copy: Self) {
        StoredPlanTest {
            id: self.id.deep_clone(),
            targets: self.targets.deep_clone(),
            sources: self.sources.deep_clone(),
        }
    }
}

/// A run loaded back from the store: its record plus the persisted plan.
#[derive(Clone, Debug, PartialEq, Eq)]
pub struct StoredRun {
    pub record: RunRecord,
    /// `None` for runs recorded before plan persistence existed.
    pub plan: Option<StoredPlan>,
}

/// The contents of a [`StoredRun`].
pub struct StoredRunView {
    pub record: RunRecordView,
    pub plan: Option<StoredPlanView>,
}

impl DeepView for StoredRun {
    type V = StoredRunView;

    open spec fn deep_view(&self) -> StoredRunView {
        StoredRunView {
            record: self.record.deep_view(),
            plan: self.plan.deep_view(),
        }
    }
}

impl DeepClone for StoredRun {
    fn deep_clone(&self) -> (copy: Self) {
        StoredRun {
            record: self.record.deep_clone(),
            plan: self.plan.deep_clone(),
        }
    }
}

/// A single model execution within a run.
#[derive(Clone, Debug, PartialEq, Eq)]
pub struct ModelRunRecord {
    pub run_id: String,
    pub model_id: String,
    pub materialization: String,
    /// The plan action that produced this execution.
    pub action: String,
    pub status: ExecutionStatus,
    pub started_at: String,
    /// Empty while the model is still running.
    pub finished_at: String,
    pub sql_hash: String,
    pub target: String,
    /// The desired version this execution was building.
    pub desired_version: String,
    /// Every attempt made, with its own failure classification.
    pub attempts: Vec<Attempt>,
    pub query_id: Option<String>,
    pub error: Option<String>,
    /// Stable failure-category code for the terminal failure.
    pub error_category: Option<String>,
}

/// The contents of a [`ModelRunRecord`].
pub struct ModelRunRecordView {
    pub run_id: Seq<char>,
    pub model_id: Seq<char>,
    pub materialization: Seq<char>,
    pub action: Seq<char>,
    pub status: ExecutionStatus,
    pub started_at: Seq<char>,
    pub finished_at: Seq<char>,
    pub sql_hash: Seq<char>,
    pub target: Seq<char>,
    pub desired_version: Seq<char>,
    pub attempts: Seq<AttemptView>,
    pub query_id: Option<Seq<char>>,
    pub error: Option<Seq<char>>,
    pub error_category: Option<Seq<char>>,
}

impl DeepView for ModelRunRecord {
    type V = ModelRunRecordView;

    open spec fn deep_view(&self) -> ModelRunRecordView {
        ModelRunRecordView {
            run_id: self.run_id@,
            model_id: self.model_id@,
            materialization: self.materialization@,
            action: self.action@,
            status: self.status,
            started_at: self.started_at@,
            finished_at: self.finished_at@,
            sql_hash: self.sql_hash@,
            target: self.target@,
            desired_version: self.desired_version@,
            attempts: self.attempts.deep_view(),
            query_id: self.query_id.deep_view(),
            error: self.error.deep_view(),
            error_category: self.error_category.deep_view(),
        }
    }
}

impl DeepClone for ModelRunRecord {
    fn deep_clone(&self) -> (copy: Self) {
        ModelRunRecord {
            run_id: self.run_id.deep_clone(),
            model_id: self.model_id.deep_clone(),
            materialization: self.materialization.deep_clone(),
            action: self.action.deep_clone(),
            status: self.status,
            started_at: self.started_at.deep_clone(),
            finished_at: self.finished_at.deep_clone(),
            sql_hash: self.sql_hash.deep_clone(),
            target: self.target.deep_clone(),
            desired_version: self.desired_version.deep_clone(),
            attempts: self.attempts.deep_clone(),
            query_id: self.query_id.deep_clone(),
            error: self.error.deep_clone(),
            error_category: self.error_category.deep_clone(),
        }
    }
}

/// A single seed execution within a run.
#[derive(Clone, Debug, PartialEq, Eq)]
pub struct SeedRunRecord {
    pub run_id: String,
    pub name: String,
    pub status: ExecutionStatus,
    pub target: String,
    pub attempts: Vec<Attempt>,
    pub error: Option<String>,
    pub error_category: Option<String>,
    pub started_at: String,
    pub finished_at: String,
}

/// The contents of a [`SeedRunRecord`].
pub struct SeedRunRecordView {
    pub run_id: Seq<char>,
    pub name: Seq<char>,
    pub status: ExecutionStatus,
    pub target: Seq<char>,
    pub attempts: Seq<AttemptView>,
    pub error: Option<Seq<char>>,
    pub error_category: Option<Seq<char>>,
    pub started_at: Seq<char>,
    pub finished_at: Seq<char>,
}

impl DeepView for SeedRunRecord {
    type V = SeedRunRecordView;

    open spec fn deep_view(&self) -> SeedRunRecordView {
        SeedRunRecordView {
            run_id: self.run_id@,
            name: self.name@,
            status: self.status,
            target: self.target@,
            attempts: self.attempts.deep_view(),
            error: self.error.deep_view(),
            error_category: self.error_category.deep_view(),
            started_at: self.started_at@,
            finished_at: self.finished_at@,
        }
    }
}

impl DeepClone for SeedRunRecord {
    fn deep_clone(&self) -> (copy: Self) {
        SeedRunRecord {
            run_id: self.run_id.deep_clone(),
            name: self.name.deep_clone(),
            status: self.status,
            target: self.target.deep_clone(),
            attempts: self.attempts.deep_clone(),
            error: self.error.deep_clone(),
            error_category: self.error_category.deep_clone(),
            started_at: self.started_at.deep_clone(),
            finished_at: self.finished_at.deep_clone(),
        }
    }
}

/// A single test execution within a run.
#[derive(Clone, Debug, PartialEq, Eq)]
pub struct TestRunRecord {
    pub run_id: String,
    pub test_id: String,
    pub status: ExecutionStatus,
    pub row_count: u64,
    pub query_id: Option<String>,
    pub error: Option<String>,
    /// Stable failure-category code (`test`, `adapter`, ...).
    pub error_category: Option<String>,
    pub started_at: String,
    pub finished_at: String,
}

/// The contents of a [`TestRunRecord`].
pub struct TestRunRecordView {
    pub run_id: Seq<char>,
    pub test_id: Seq<char>,
    pub status: ExecutionStatus,
    pub row_count: u64,
    pub query_id: Option<Seq<char>>,
    pub error: Option<Seq<char>>,
    pub error_category: Option<Seq<char>>,
    pub started_at: Seq<char>,
    pub finished_at: Seq<char>,
}

impl DeepView for TestRunRecord {
    type V = TestRunRecordView;

    open spec fn deep_view(&self) -> TestRunRecordView {
        TestRunRecordView {
            run_id: self.run_id@,
            test_id: self.test_id@,
            status: self.status,
            row_count: self.row_count,
            query_id: self.query_id.deep_view(),
            error: self.error.deep_view(),
            error_category: self.error_category.deep_view(),
            started_at: self.started_at@,
            finished_at: self.finished_at@,
        }
    }
}

impl DeepClone for TestRunRecord {
    fn deep_clone(&self) -> (copy: Self) {
        TestRunRecord {
            run_id: self.run_id.deep_clone(),
            test_id: self.test_id.deep_clone(),
            status: self.status,
            row_count: self.row_count,
            query_id: self.query_id.deep_clone(),
            error: self.error.deep_clone(),
            error_category: self.error_category.deep_clone(),
            started_at: self.started_at.deep_clone(),
            finished_at: self.finished_at.deep_clone(),
        }
    }
}

/// A compact run summary for history queries.
#[derive(Clone, Debug, PartialEq, Eq)]
pub struct RunSummary {
    pub run_id: String,
    pub plan_id: String,
    /// Environment label the run was recorded under (`None` = default).
    pub environment: Option<String>,
    /// The Nessie commit this run validated, when the run was bound to one.
    pub reference_hash: Option<String>,
    pub started_at: String,
    pub finished_at: Option<String>,
    pub status: ExecutionStatus,
    pub model_count: usize,
    pub failed_count: usize,
}

/// The contents of a [`RunSummary`].
pub struct RunSummaryView {
    pub run_id: Seq<char>,
    pub plan_id: Seq<char>,
    pub environment: Option<Seq<char>>,
    pub reference_hash: Option<Seq<char>>,
    pub started_at: Seq<char>,
    pub finished_at: Option<Seq<char>>,
    pub status: ExecutionStatus,
    pub model_count: usize,
    pub failed_count: usize,
}

impl DeepView for RunSummary {
    type V = RunSummaryView;

    open spec fn deep_view(&self) -> RunSummaryView {
        RunSummaryView {
            run_id: self.run_id@,
            plan_id: self.plan_id@,
            environment: self.environment.deep_view(),
            reference_hash: self.reference_hash.deep_view(),
            started_at: self.started_at@,
            finished_at: self.finished_at.deep_view(),
            status: self.status,
            model_count: self.model_count,
            failed_count: self.failed_count,
        }
    }
}

impl DeepClone for RunSummary {
    fn deep_clone(&self) -> (copy: Self) {
        RunSummary {
            run_id: self.run_id.deep_clone(),
            plan_id: self.plan_id.deep_clone(),
            environment: self.environment.deep_clone(),
            reference_hash: self.reference_hash.deep_clone(),
            started_at: self.started_at.deep_clone(),
            finished_at: self.finished_at.deep_clone(),
            status: self.status,
            model_count: self.model_count,
            failed_count: self.failed_count,
        }
    }
}

/// The version recorded against a physical materialisation.
#[derive(Clone, Debug, PartialEq, Eq)]
pub struct MaterializedRecord {
    pub model_id: String,
    pub environment: Option<String>,
    pub version: ModelVersion,
    /// The named version inputs at materialisation time. `None` for rows
    /// written before detail was persisted.
    pub detail: Option<VersionDetail>,
    pub target: String,
    pub incremental_strategy: Option<String>,
    pub incremental_key: Option<String>,
    /// The adapter that produced the materialisation: execution semantics
    /// differ across adapters, so a version hash alone is no proof that the
    /// same bytes are there.
    pub adapter: Option<String>,
    /// The strong physical identity of `target` captured right after the
    /// write. `None` where none could be proved; such rows cannot back a
    /// cross-environment cache hit.
    pub output_identity: Option<String>,
    /// The model's contract at materialisation time.
    pub contract: Option<ModelContract>,
    /// The effective row-identity key at materialisation time, one column set
    /// per claim. `Some` of an empty list means the record proves the model
    /// had no key; `None` means nothing about the key was persisted.
    pub effective_key: Option<Vec<Vec<String>>>,
    pub run_id: String,
    pub materialized_at: String,
}

/// The contents of a [`MaterializedRecord`].
pub struct MaterializedRecordView {
    pub model_id: Seq<char>,
    pub environment: Option<Seq<char>>,
    pub version: ModelVersionView,
    pub detail: Option<VersionDetailView>,
    pub target: Seq<char>,
    pub incremental_strategy: Option<Seq<char>>,
    pub incremental_key: Option<Seq<char>>,
    pub adapter: Option<Seq<char>>,
    pub output_identity: Option<Seq<char>>,
    pub contract: Option<ModelContractView>,
    pub effective_key: Option<Seq<Seq<Seq<char>>>>,
    pub run_id: Seq<char>,
    pub materialized_at: Seq<char>,
}

impl DeepView for MaterializedRecord {
    type V = MaterializedRecordView;

    open spec fn deep_view(&self) -> MaterializedRecordView {
        MaterializedRecordView {
            model_id: self.model_id@,
            environment: self.environment.deep_view(),
            version: self.version.deep_view(),
            detail: self.detail.deep_view(),
            target: self.target@,
            incremental_strategy: self.incremental_strategy.deep_view(),
            incremental_key: self.incremental_key.deep_view(),
            adapter: self.adapter.deep_view(),
            output_identity: self.output_identity.deep_view(),
            contract: self.contract.deep_view(),
            effective_key: self.effective_key.deep_view(),
            run_id: self.run_id@,
            materialized_at: self.materialized_at@,
        }
    }
}

impl DeepClone for MaterializedRecord {
    fn deep_clone(&self) -> (copy: Self) {
        MaterializedRecord {
            model_id: self.model_id.deep_clone(),
            environment: self.environment.deep_clone(),
            version: self.version.deep_clone(),
            detail: self.detail.deep_clone(),
            target: self.target.deep_clone(),
            incremental_strategy: self.incremental_strategy.deep_clone(),
            incremental_key: self.incremental_key.deep_clone(),
            adapter: self.adapter.deep_clone(),
            output_identity: self.output_identity.deep_clone(),
            contract: self.contract.deep_clone(),
            effective_key: self.effective_key.deep_clone(),
            run_id: self.run_id.deep_clone(),
            materialized_at: self.materialized_at.deep_clone(),
        }
    }
}

/// The non-empty columns that comma-separated text names, trimmed.
pub open spec fn column_of_piece() -> spec_fn(Seq<char>) -> Seq<Seq<char>> {
    |piece: Seq<char>|
        if trim_text(piece).len() > 0 {
            seq![trim_text(piece)]
        } else {
            Seq::empty()
        }
}

/// The key claim that comma-joined columns encode; nothing where no column is
/// named.
pub open spec fn key_claim(raw: Seq<char>) -> Option<Seq<Seq<Seq<char>>>> {
    let columns = gather(split_text(raw, ','), column_of_piece());
    if columns.len() == 0 {
        None
    } else {
        Some(seq![sorted_texts(columns)])
    }
}

/// The canonical key claim a persisted `incremental_key` string encodes: the
/// comma-joined columns, sorted as `effective_key` claims are. `None` for an
/// empty column list.
pub fn incremental_key_claim(raw: &str) -> (claim: Option<Vec<Vec<String>>>)
    ensures
        claim.deep_view() == key_claim(raw@),
{
    let pieces: Vec<String> = split_on(raw, ',');
    let ghost views = pieces.deep_view();
    let ghost f = column_of_piece();
    proof {
        lemma_gather_ends(views, f);
    }
    let mut columns: Vec<String> = none_of();
    for i in 0..pieces.len()
        invariant
            views == pieces.deep_view(),
            f == column_of_piece(),
            columns.deep_view() == gather(views.take(i as int), f),
    {
        proof {
            lemma_gather_step(views, i as int, f);
        }
        let ghost before = columns.deep_view();
        let column: String = trim(pieces[i].as_str());
        if !column.as_str().is_empty() {
            put(&mut columns, column);
        }
        assert(columns.deep_view() =~= before + f(views[i as int]));
    }
    assert(columns.deep_view().len() == columns@.len());
    if columns.len() == 0 {
        None
    } else {
        Some(one_of(sort_texts(&columns)))
    }
}

/// What a record proves about the row-identity key it was materialised with.
pub open spec fn key_on_record(record: MaterializedRecordView) -> RecordedKeyView {
    match record.effective_key {
        Some(key) => RecordedKeyView::Known(
            if key.len() == 0 {
                None
            } else {
                Some(sorted_lists(sorted_claims(key)))
            },
        ),
        None => if record.incremental_strategy == Some("key"@) && record.incremental_key is Some
            && key_claim(record.incremental_key->0) is Some {
            RecordedKeyView::Known(key_claim(record.incremental_key->0))
        } else {
            RecordedKeyView::Unknown
        },
    }
}

impl MaterializedRecord {
    /// What this record proves about the row-identity key it was materialised
    /// with.
    ///
    /// - A persisted `effective_key` (including an empty set, recorded
    ///   keyless) is known evidence.
    /// - A legacy row with an incremental `key` strategy reconstructs its
    ///   columns: before `effective_key` existed, that strategy was the only
    ///   key concept state recorded.
    /// - Anything else is `Unknown`: its historical key cannot be told from
    ///   "no key", and promotion evidence must not treat it as keyless.
    pub fn recorded_key(&self) -> (r: RecordedKey)
        ensures
            r.deep_view() == key_on_record(self.deep_view()),
    {
        if let Some(key) = &self.effective_key {
            assert(key.deep_view().len() == key@.len());
            if key.len() == 0 {
                return RecordedKey::Known(None);
            }
            let each: Vec<Vec<String>> = sort_claims(key);
            return RecordedKey::Known(Some(sort_lists(&each)));
        }
        if let Some(strategy) = &self.incremental_strategy {
            if same(strategy.as_str(), "key") {
                if let Some(raw) = &self.incremental_key {
                    if let Some(claim) = incremental_key_claim(raw.as_str()) {
                        return RecordedKey::Known(Some(claim));
                    }
                }
            }
        }
        RecordedKey::Unknown
    }
}

/// A record that persisted a model's effective key, the empty list standing
/// for none, compares as unchanged against that model: what is written is
/// what is read back.
pub proof fn law_recorded_key_matches_its_model(
    record: MaterializedRecordView,
    claims: Seq<Seq<Seq<char>>>,
)
    requires
        claims.len() <= usize::MAX,
        forall|i: int| 0 <= i < claims.len() ==> (#[trigger] claims[i]).len() <= usize::MAX,
        record.effective_key == Some(
            match canonical_claims(claims) {
                Some(key) => key,
                None => Seq::empty(),
            },
        ),
    ensures
        key_difference(key_on_record(record), canonical_claims(claims)) is None,
{
    if claims.len() > 0 {
        let each = sorted_claims(claims);
        let all = sorted_lists(each);
        let key = without_repeats(all);
        lemma_list_listing(each);
        lemma_repeats_kept(all);
        let listing = crate::order::the_listing(each.len(), crate::order::list_order(each));
        assert forall|i: int| 0 <= i < key.len() implies sorted_texts(#[trigger] key[i])
            == key[i] by {
            assert(all.contains(key[i]));
            let k = choose|k: int| 0 <= k < all.len() && all[k] == key[i];
            assert(listing[k] < each.len());
            let m = listing[k] as int;
            assert(all[k] == each[m]);
            assert(each[m] == sorted_texts(claims[m]));
            lemma_sort_texts_again(claims[m]);
        }
        assert(sorted_claims(key) =~= key);
        assert forall|i: int, j: int| 0 <= i < j < all.len() implies !list_lt(
            #[trigger] all[j],
            #[trigger] all[i],
        ) by {
            assert(listing[i] < each.len() && listing[j] < each.len());
            crate::order::lemma_list_order(each);
            let before = crate::order::list_order(each);
            assert(crate::order::ahead(before, listing[i] as int, listing[j] as int));
            if before(listing[j] as int, listing[i] as int) {
                assert(before(listing[j] as int, listing[j] as int));
            }
        }
        lemma_repeats_in_order(all);
        lemma_lists_in_order(key);
    }
}

/// Dropping repeats keeps only what was there, and something where there was
/// something.
pub proof fn lemma_repeats_kept(items: Seq<Seq<Seq<char>>>)
    ensures
        without_repeats(items).len() <= items.len(),
        items.len() > 0 ==> without_repeats(items).len() > 0,
        forall|i: int|
            0 <= i < without_repeats(items).len() ==> items.contains(
                #[trigger] without_repeats(items)[i],
            ),
    decreases items.len(),
{
    if items.len() <= 1 {
        assert forall|i: int| 0 <= i < items.len() implies items.contains(#[trigger] items[i]) by {}
    } else {
        let rest = items.drop_last();
        lemma_repeats_kept(rest);
        assert forall|i: int| 0 <= i < without_repeats(items).len() implies items.contains(
            #[trigger] without_repeats(items)[i],
        ) by {
            if i < without_repeats(rest).len() {
                let x = without_repeats(rest)[i];
                assert(without_repeats(items)[i] == x);
                assert(rest.contains(x));
                let k = choose|k: int| 0 <= k < rest.len() && rest[k] == x;
                assert(items[k] == x);
            } else {
                assert(items[items.len() - 1] == items.last());
            }
        }
    }
}

proof fn lemma_repeats_in_order(items: Seq<Seq<Seq<char>>>)
    requires
        forall|i: int, j: int|
            0 <= i < j < items.len() ==> !list_lt(#[trigger] items[j], #[trigger] items[i]),
    ensures
        forall|i: int, j: int|
            0 <= i < j < without_repeats(items).len() ==> !list_lt(
                #[trigger] without_repeats(items)[j],
                #[trigger] without_repeats(items)[i],
            ),
    decreases items.len(),
{
    if items.len() > 1 {
        let rest = items.drop_last();
        assert forall|i: int, j: int| 0 <= i < j < rest.len() implies !list_lt(
            #[trigger] rest[j],
            #[trigger] rest[i],
        ) by {
            assert(!list_lt(items[j], items[i]));
        }
        lemma_repeats_in_order(rest);
        lemma_repeats_kept(rest);
        let kept = without_repeats(items);
        let short = without_repeats(rest);
        assert forall|i: int, j: int| 0 <= i < j < kept.len() implies !list_lt(
            #[trigger] kept[j],
            #[trigger] kept[i],
        ) by {
            if j < short.len() {
                assert(kept[i] == short[i] && kept[j] == short[j]);
            } else {
                assert(kept[i] == short[i]);
                assert(rest.contains(short[i]));
                let k = choose|k: int| 0 <= k < rest.len() && rest[k] == short[i];
                assert(items[k] == short[i]);
                assert(!list_lt(items[items.len() - 1], items[k]));
            }
        }
    }
}

/// The kind of audit evidence a record carries: which typed document the
/// payload decodes as.
#[derive(Clone, Copy, Debug, PartialEq, Eq, Structural)]
pub enum EvidenceKind {
    /// A candidate environment's provisioning record.
    Environment,
    /// A branch-diff audit report.
    BranchDiff,
    /// A lineage-diff audit.
    LineageDiff,
}

impl DeepView for EvidenceKind {
    type V = EvidenceKind;

    open spec fn deep_view(&self) -> EvidenceKind {
        *self
    }
}

impl DeepClone for EvidenceKind {
    fn deep_clone(&self) -> (copy: Self) {
        *self
    }
}

/// The kind that a stored word denotes.
pub open spec fn evidence_kind(value: Seq<char>) -> Option<EvidenceKind> {
    if value == "environment"@ {
        Some(EvidenceKind::Environment)
    } else if value == "branch_diff"@ {
        Some(EvidenceKind::BranchDiff)
    } else if value == "lineage_diff"@ {
        Some(EvidenceKind::LineageDiff)
    } else {
        None
    }
}

impl EvidenceKind {
    pub open spec fn text(self) -> Seq<char> {
        match self {
            EvidenceKind::Environment => "environment"@,
            EvidenceKind::BranchDiff => "branch_diff"@,
            EvidenceKind::LineageDiff => "lineage_diff"@,
        }
    }

    pub fn as_str(&self) -> (r: &'static str)
        ensures
            r@ == self.text(),
    {
        match self {
            EvidenceKind::Environment => "environment",
            EvidenceKind::BranchDiff => "branch_diff",
            EvidenceKind::LineageDiff => "lineage_diff",
        }
    }

    pub fn parse(value: &str) -> (r: Option<Self>)
        ensures
            r == evidence_kind(value@),
    {
        if same(value, "environment") {
            Some(EvidenceKind::Environment)
        } else if same(value, "branch_diff") {
            Some(EvidenceKind::BranchDiff)
        } else if same(value, "lineage_diff") {
            Some(EvidenceKind::LineageDiff)
        } else {
            None
        }
    }
}

/// A stored evidence kind reads back as itself.
pub proof fn law_evidence_kind_reads_back(kind: EvidenceKind)
    ensures
        evidence_kind(kind.text()) == Some(kind),
{
    reveal_strlit("environment");
    reveal_strlit("branch_diff");
    reveal_strlit("lineage_diff");
    assert("environment"@[0] == 'e' && "branch_diff"@[0] == 'b' && "lineage_diff"@[0] == 'l');
}

/// One immutable audit-evidence record: the portable, shared form of the
/// workspace's promotion artifacts. `payload` is the document as JSON text;
/// the other columns exist for lookup and inspection, and the payload remains
/// authoritative.
#[derive(Clone, Debug, PartialEq, Eq)]
pub struct EvidenceRecord {
    pub evidence_id: String,
    pub kind: EvidenceKind,
    /// The candidate ref the evidence speaks for.
    pub subject: String,
    /// The other side of a pair-scoped record (a branch diff's base ref);
    /// empty when the kind is not pair-scoped.
    pub target_ref: String,
    /// The subject's commit the evidence was produced at, when bound.
    pub candidate_hash: Option<String>,
    /// The target's commit the evidence was produced at, when bound.
    pub target_hash: Option<String>,
    /// The definitional fingerprint the evidence carries, when it has one.
    pub fingerprint: Option<String>,
    pub payload: String,
    /// The producing run, when the evidence is run-scoped.
    pub run_id: Option<String>,
    /// When the evidence was produced, in RFC 3339.
    pub created_at: String,
}

/// The contents of a [`EvidenceRecord`].
pub struct EvidenceRecordView {
    pub evidence_id: Seq<char>,
    pub kind: EvidenceKind,
    pub subject: Seq<char>,
    pub target_ref: Seq<char>,
    pub candidate_hash: Option<Seq<char>>,
    pub target_hash: Option<Seq<char>>,
    pub fingerprint: Option<Seq<char>>,
    pub payload: Seq<char>,
    pub run_id: Option<Seq<char>>,
    pub created_at: Seq<char>,
}

impl DeepView for EvidenceRecord {
    type V = EvidenceRecordView;

    open spec fn deep_view(&self) -> EvidenceRecordView {
        EvidenceRecordView {
            evidence_id: self.evidence_id@,
            kind: self.kind,
            subject: self.subject@,
            target_ref: self.target_ref@,
            candidate_hash: self.candidate_hash.deep_view(),
            target_hash: self.target_hash.deep_view(),
            fingerprint: self.fingerprint.deep_view(),
            payload: self.payload@,
            run_id: self.run_id.deep_view(),
            created_at: self.created_at@,
        }
    }
}

impl DeepClone for EvidenceRecord {
    fn deep_clone(&self) -> (copy: Self) {
        EvidenceRecord {
            evidence_id: self.evidence_id.deep_clone(),
            kind: self.kind,
            subject: self.subject.deep_clone(),
            target_ref: self.target_ref.deep_clone(),
            candidate_hash: self.candidate_hash.deep_clone(),
            target_hash: self.target_hash.deep_clone(),
            fingerprint: self.fingerprint.deep_clone(),
            payload: self.payload.deep_clone(),
            run_id: self.run_id.deep_clone(),
            created_at: self.created_at.deep_clone(),
        }
    }
}

/// A seed load recorded against an environment.
#[derive(Clone, Debug, PartialEq, Eq)]
pub struct SeedRecord {
    pub name: String,
    pub environment: Option<String>,
    /// The seed CSV's content hash at load time.
    pub content_hash: String,
    pub target: String,
    pub run_id: String,
    pub loaded_at: String,
}

/// The contents of a [`SeedRecord`].
pub struct SeedRecordView {
    pub name: Seq<char>,
    pub environment: Option<Seq<char>>,
    pub content_hash: Seq<char>,
    pub target: Seq<char>,
    pub run_id: Seq<char>,
    pub loaded_at: Seq<char>,
}

impl DeepView for SeedRecord {
    type V = SeedRecordView;

    open spec fn deep_view(&self) -> SeedRecordView {
        SeedRecordView {
            name: self.name@,
            environment: self.environment.deep_view(),
            content_hash: self.content_hash@,
            target: self.target@,
            run_id: self.run_id@,
            loaded_at: self.loaded_at@,
        }
    }
}

impl DeepClone for SeedRecord {
    fn deep_clone(&self) -> (copy: Self) {
        SeedRecord {
            name: self.name.deep_clone(),
            environment: self.environment.deep_clone(),
            content_hash: self.content_hash.deep_clone(),
            target: self.target.deep_clone(),
            run_id: self.run_id.deep_clone(),
            loaded_at: self.loaded_at.deep_clone(),
        }
    }
}

/// A status as it is stored.
pub fn status_str(status: ExecutionStatus) -> (r: &'static str)
    ensures
        r@ == status.label_text(),
{
    status.label()
}

/// The status a stored word denotes; an unknown word denotes `pending`.
pub open spec fn status_of(value: Seq<char>) -> ExecutionStatus {
    if value == "passed"@ {
        ExecutionStatus::Passed
    } else if value == "failed"@ {
        ExecutionStatus::Failed
    } else if value == "skipped"@ {
        ExecutionStatus::Skipped
    } else if value == "cached"@ {
        ExecutionStatus::Cached
    } else if value == "blocked"@ {
        ExecutionStatus::Blocked
    } else if value == "cancelled"@ {
        ExecutionStatus::Cancelled
    } else if value == "running"@ {
        ExecutionStatus::Running
    } else if value == "ready"@ {
        ExecutionStatus::Ready
    } else {
        ExecutionStatus::Pending
    }
}

/// Reads a stored status.
pub fn parse_status(value: &str) -> (r: ExecutionStatus)
    ensures
        r == status_of(value@),
{
    if same(value, "passed") {
        ExecutionStatus::Passed
    } else if same(value, "failed") {
        ExecutionStatus::Failed
    } else if same(value, "skipped") {
        ExecutionStatus::Skipped
    } else if same(value, "cached") {
        ExecutionStatus::Cached
    } else if same(value, "blocked") {
        ExecutionStatus::Blocked
    } else if same(value, "cancelled") {
        ExecutionStatus::Cancelled
    } else if same(value, "running") {
        ExecutionStatus::Running
    } else if same(value, "ready") {
        ExecutionStatus::Ready
    } else {
        ExecutionStatus::Pending
    }
}

/// Every status reads back as itself from the word it is stored as.
pub proof fn law_status_reads_back(status: ExecutionStatus)
    ensures
        status_of(status.label_text()) == status,
{
    reveal_strlit("pending");
    reveal_strlit("ready");
    reveal_strlit("running");
    reveal_strlit("passed");
    reveal_strlit("failed");
    reveal_strlit("skipped");
    reveal_strlit("cached");
    reveal_strlit("blocked");
    reveal_strlit("cancelled");
    assert("passed"@[0] == 'p' && "passed"@[1] == 'a');
    assert("pending"@[0] == 'p' && "pending"@[1] == 'e');
    assert("failed"@[0] == 'f');
    assert("skipped"@[0] == 's');
    assert("blocked"@[0] == 'b');
    assert("running"@[0] == 'r' && "running"@[1] == 'u');
    assert("ready"@[0] == 'r' && "ready"@[1] == 'e');
    assert("cached"@.len() == 6 && "cached"@[0] == 'c');
    assert("cancelled"@.len() == 9 && "cancelled"@[0] == 'c');
}

} // verus!
