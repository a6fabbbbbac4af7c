//! Promotion gates.
//!
//! A promotion is authorised by a list of named gates, each producing a pass
//! or fail with a human detail. Human output and machine output are derived
//! from the same [`GateReport`].

use vstd::prelude::*;

use crate::events::ExecutionStatus;
use crate::gate_laws::{
    base_kept, diff_accepted, law_sound_evidence_passes, merges_cleanly, no_test_failed,
    nothing_held_up, ran_well, schema_kept,
};
use crate::nessie::{Conflict, ConflictView, MergeOutcome, MergeOutcomeView};
use crate::seqs::{gather, lemma_gather_ends, lemma_gather_step};
use crate::state::{
    ModelRunRecord, ModelRunRecordView, RunSummary, RunSummaryView, TestRunRecord,
    TestRunRecordView,
};
use crate::text::{
    cat2, cat3, cat5, cat7, decimal_text, decimal_usize, join, join_text, none_of, one_of, put,
    put_all, same, DeepClone,
};

verus! {

/// A single gate result.
#[derive(Clone, Debug, PartialEq, Eq)]
pub struct GateResult {
    pub name: String,
    pub passed: bool,
    pub detail: String,
}

/// The contents of a [`GateResult`].
pub struct GateResultView {
    pub name: Seq<char>,
    pub passed: bool,
    pub detail: Seq<char>,
}

impl DeepView for GateResult {
    type V = GateResultView;

    open spec fn deep_view(&self) -> GateResultView {
        GateResultView {
            name: self.name@,
            passed: self.passed,
            detail: self.detail@,
        }
    }
}

impl DeepClone for GateResult {
    fn deep_clone(&self) -> (copy: Self) {
        GateResult {
            name: self.name.deep_clone(),
            passed: self.passed,
            detail: self.detail.deep_clone(),
        }
    }
}

/// The evaluated gate set.
#[derive(Clone, Debug, PartialEq, Eq)]
pub struct GateReport {
    pub results: Vec<GateResult>,
    pub passed: bool,
}

/// The contents of a [`GateReport`].
pub struct GateReportView {
    pub results: Seq<GateResultView>,
    pub passed: bool,
}

impl DeepView for GateReport {
    type V = GateReportView;

    open spec fn deep_view(&self) -> GateReportView {
        GateReportView {
            results: self.results.deep_view(),
            passed: self.passed,
        }
    }
}

impl DeepClone for GateReport {
    fn deep_clone(&self) -> (copy: Self) {
        GateReport {
            results: self.results.deep_clone(),
            passed: self.passed,
        }
    }
}

/// Keeps a gate that failed.
pub open spec fn if_failed() -> spec_fn(GateResultView) -> Seq<GateResultView> {
    |result: GateResultView|
        if result.passed {
            Seq::empty()
        } else {
            seq![result]
        }
}

impl GateReport {
    /// The failed gates, for error messages.
    pub fn failures(&self) -> (r: Vec<GateResult>)
        ensures
            r.deep_view() == gather(self.deep_view().results, if_failed()),
    {
        let items: &Vec<GateResult> = &self.results;
        let ghost views = items.deep_view();
        let ghost f = if_failed();
        proof {
            lemma_gather_ends(views, f);
        }
        let mut r: Vec<GateResult> = none_of();
        for i in 0..items.len()
            invariant
                views == items.deep_view(),
                f == if_failed(),
                r.deep_view() == gather(views.take(i as int), f),
        {
            proof {
                lemma_gather_step(views, i as int, f);
            }
            let ghost before = r.deep_view();
            assert(views[i as int] == items@[i as int].deep_view());
            if !items[i].passed {
                put(&mut r, items[i].deep_clone());
            }
            assert(r.deep_view() =~= before + f(views[i as int]));
        }
        r
    }
}

/// Everything gate evaluation needs, gathered by the caller.
#[derive(Clone, Debug, PartialEq, Eq)]
pub struct GateInput {
    /// The latest run recorded for the candidate reference.
    pub run: Option<RunSummary>,
    /// Model records of that run.
    pub model_runs: Vec<ModelRunRecord>,
    /// Test records of that run.
    pub test_runs: Vec<TestRunRecord>,
    /// Whether a passing data diff is required.
    pub require_diff: bool,
    /// The audited diff's verdict, when one was recorded.
    pub diff_passed: Option<bool>,
    /// Why the audited diff cannot be used (stale artifact), when applicable.
    pub diff_rejected: Option<String>,
    /// Breaking schema changes found by the audit.
    pub breaking_schema_changes: Vec<String>,
    /// Explicit waiver for breaking schema changes.
    pub allow_breaking_schema: bool,
    /// The target hash observed when the candidate was provisioned.
    pub expected_target_hash: Option<String>,
    /// The target hash right now.
    pub actual_target_hash: Option<String>,
    /// A non-destructive merge check, when one was performed.
    pub merge_check: Option<MergeOutcome>,
}

/// The contents of a [`GateInput`].
pub struct GateInputView {
    pub run: Option<RunSummaryView>,
    pub model_runs: Seq<ModelRunRecordView>,
    pub test_runs: Seq<TestRunRecordView>,
    pub require_diff: bool,
    pub diff_passed: Option<bool>,
    pub diff_rejected: Option<Seq<char>>,
    pub breaking_schema_changes: Seq<Seq<char>>,
    pub allow_breaking_schema: bool,
    pub expected_target_hash: Option<Seq<char>>,
    pub actual_target_hash: Option<Seq<char>>,
    pub merge_check: Option<MergeOutcomeView>,
}

impl DeepView for GateInput {
    type V = GateInputView;

    open spec fn deep_view(&self) -> GateInputView {
        GateInputView {
            run: self.run.deep_view(),
            model_runs: self.model_runs.deep_view(),
            test_runs: self.test_runs.deep_view(),
            require_diff: self.require_diff,
            diff_passed: self.diff_passed.deep_view(),
            diff_rejected: self.diff_rejected.deep_view(),
            breaking_schema_changes: self.breaking_schema_changes.deep_view(),
            allow_breaking_schema: self.allow_breaking_schema,
            expected_target_hash: self.expected_target_hash.deep_view(),
            actual_target_hash: self.actual_target_hash.deep_view(),
            merge_check: self.merge_check.deep_view(),
        }
    }
}

impl DeepClone for GateInput {
    fn deep_clone(&self) -> (copy: Self) {
        GateInput {
            run: self.run.deep_clone(),
            model_runs: self.model_runs.deep_clone(),
            test_runs: self.test_runs.deep_clone(),
            require_diff: self.require_diff,
            diff_passed: self.diff_passed.deep_clone(),
            diff_rejected: self.diff_rejected.deep_clone(),
            breaking_schema_changes: self.breaking_schema_changes.deep_clone(),
            allow_breaking_schema: self.allow_breaking_schema,
            expected_target_hash: self.expected_target_hash.deep_clone(),
            actual_target_hash: self.actual_target_hash.deep_clone(),
            merge_check: self.merge_check.deep_clone(),
        }
    }
}

impl Default for GateInput {
    fn default() -> (input: Self)
        ensures
            input.deep_view() == no_input(),
    {
        GateInput {
            run: None,
            model_runs: none_of(),
            test_runs: none_of(),
            require_diff: false,
            diff_passed: None,
            diff_rejected: None,
            breaking_schema_changes: none_of(),
            allow_breaking_schema: false,
            expected_target_hash: None,
            actual_target_hash: None,
            merge_check: None,
        }
    }
}

/// Nothing was gathered.
pub open spec fn no_input() -> GateInputView {
    GateInputView {
        run: None,
        model_runs: Seq::empty(),
        test_runs: Seq::empty(),
        require_diff: false,
        diff_passed: None,
        diff_rejected: None,
        breaking_schema_changes: Seq::empty(),
        allow_breaking_schema: false,
        expected_target_hash: None,
        actual_target_hash: None,
        merge_check: None,
    }
}

/// A gate, from its parts.
pub open spec fn gate_of(name: Seq<char>, passed: bool, detail: Seq<char>) -> GateResultView {
    GateResultView { name, passed, detail }
}

fn gate(name: &str, passed: bool, detail: String) -> (r: GateResult)
    ensures
        r.deep_view() == gate_of(name@, passed, detail@),
{
    GateResult { name: name.to_owned(), passed, detail }
}

/// The candidate must have a finished, fully successful run.
pub open spec fn run_gate(input: GateInputView) -> GateResultView {
    match input.run {
        Some(run) => if run.status == ExecutionStatus::Passed && run.failed_count == 0 {
            gate_of("run"@, true, "run "@ + run.run_id + " passed"@)
        } else {
            gate_of(
                "run"@,
                false,
                "latest run "@ + run.run_id + " "@ + run.status.label_text() + " ("@
                    + decimal_text(run.failed_count as nat) + " failed)"@,
            )
        },
        None => gate_of("run"@, false, "no recorded run for the candidate reference"@),
    }
}

/// Names a test that failed.
pub open spec fn if_test_failed() -> spec_fn(TestRunRecordView) -> Seq<Seq<char>> {
    |record: TestRunRecordView|
        if record.status == ExecutionStatus::Failed {
            seq![record.test_id]
        } else {
            Seq::empty()
        }
}

/// No test may have failed in the candidate run. Vacuously true when the run
/// had no tests.
pub open spec fn tests_gate(input: GateInputView) -> GateResultView {
    let failed = gather(input.test_runs, if_test_failed());
    if input.run is None {
        gate_of("tests"@, false, "no run to audit"@)
    } else if failed.len() == 0 {
        gate_of("tests"@, true, decimal_text(input.test_runs.len()) + " tests passed"@)
    } else {
        gate_of(
            "tests"@,
            false,
            decimal_text(failed.len()) + " tests failed: "@ + join_text(failed, ", "@),
        )
    }
}

/// Names a model that was blocked or cancelled.
pub open spec fn if_not_run() -> spec_fn(ModelRunRecordView) -> Seq<Seq<char>> {
    |record: ModelRunRecordView|
        if record.status == ExecutionStatus::Blocked || record.status
            == ExecutionStatus::Cancelled {
            seq![record.model_id]
        } else {
            Seq::empty()
        }
}

/// No blocked or cancelled model work may remain.
pub open spec fn blocked_gate(input: GateInputView) -> GateResultView {
    let blocked = gather(input.model_runs, if_not_run());
    if input.run is None {
        gate_of("blocked"@, false, "no run to audit"@)
    } else if blocked.len() == 0 {
        gate_of("blocked"@, true, "no blocked or cancelled work"@)
    } else {
        gate_of(
            "blocked"@,
            false,
            decimal_text(blocked.len()) + " models blocked or cancelled: "@ + join_text(
                blocked,
                ", "@,
            ),
        )
    }
}

/// Breaking schema changes block unless explicitly waived.
pub open spec fn schema_gate(input: GateInputView) -> GateResultView {
    let breaking = input.breaking_schema_changes;
    if breaking.len() == 0 {
        gate_of("schema"@, true, "no breaking schema changes"@)
    } else if input.allow_breaking_schema {
        gate_of("schema"@, true, decimal_text(breaking.len()) + " breaking changes waived"@)
    } else {
        gate_of("schema"@, false, "breaking schema changes: "@ + join_text(breaking, ", "@))
    }
}

/// A required data diff must be usable and must have passed; where none is
/// required there is no such gate.
pub open spec fn diff_gate(input: GateInputView) -> Seq<GateResultView> {
    if !input.require_diff {
        Seq::empty()
    } else {
        seq![
            match input.diff_rejected {
                Some(reason) => gate_of("data_diff"@, false, reason),
                None => match input.diff_passed {
                    Some(true) => gate_of("data_diff"@, true, "data diff passed"@),
                    Some(false) => gate_of("data_diff"@, false, "data diff failed policy"@),
                    None => gate_of(
                        "data_diff"@,
                        false,
                        "a passing data diff is required before promotion"@,
                    ),
                },
            },
        ]
    }
}

/// The target must not have moved since the candidate branched. Without a base to
/// compare with the result says so and passes: whether a promotion may go on
/// without one is for its evaluation to say, which refuses it.
pub open spec fn base_gate(input: GateInputView) -> GateResultView {
    match (input.expected_target_hash, input.actual_target_hash) {
        (Some(expected), Some(actual)) => if expected != actual {
            gate_of(
                "base"@,
                false,
                "target advanced since planning (expected "@ + expected + ", found "@ + actual
                    + ")"@,
            )
        } else {
            gate_of("base"@, true, "target unchanged since planning"@)
        },
        _ => gate_of("base"@, true, "no recorded base hash — target freshness not verified"@),
    }
}

/// Conflicts in words.
pub open spec fn conflicts_text(conflicts: Seq<ConflictView>) -> Seq<char> {
    join_text(
        Seq::new(
            conflicts.len(),
            |i: int| conflicts[i].path + ": "@ + conflicts[i].message,
        ),
        "; "@,
    )
}

/// The non-destructive merge check must be clean.
pub open spec fn conflicts_gate(input: GateInputView) -> GateResultView {
    match input.merge_check {
        Some(check) => if check.conflicts.len() == 0 {
            gate_of("conflicts"@, true, "candidate merges cleanly"@)
        } else {
            gate_of("conflicts"@, false, conflicts_text(check.conflicts))
        },
        None => gate_of("conflicts"@, false, "merge check was not performed"@),
    }
}

/// Every gate, in their fixed order.
pub open spec fn all_gates(input: GateInputView) -> Seq<GateResultView> {
    seq![run_gate(input), tests_gate(input), blocked_gate(input), schema_gate(input)] + diff_gate(
        input,
    ) + seq![base_gate(input), conflicts_gate(input)]
}

/// Whether every gate passed.
pub open spec fn gates_passed(results: Seq<GateResultView>) -> bool {
    forall|i: int| 0 <= i < results.len() ==> (#[trigger] results[i]).passed
}

fn check_run(input: &GateInput) -> (r: GateResult)
    ensures
        r.deep_view() == run_gate(input.deep_view()),
{
    match &input.run {
        Some(run) => if run.status == ExecutionStatus::Passed && run.failed_count == 0 {
            gate("run", true, cat3("run ", run.run_id.as_str(), " passed"))
        } else {
            gate(
                "run",
                false,
                cat7(
                    "latest run ",
                    run.run_id.as_str(),
                    " ",
                    run.status.label(),
                    " (",
                    decimal_usize(run.failed_count).as_str(),
                    " failed)",
                ),
            )
        },
        None => gate("run", false, "no recorded run for the candidate reference".to_owned()),
    }
}

fn failed_test_names(items: &Vec<TestRunRecord>) -> (r: Vec<String>)
    ensures
        r.deep_view() == gather(items.deep_view(), if_test_failed()),
{
    let ghost views = items.deep_view();
    let ghost f = if_test_failed();
    proof {
        lemma_gather_ends(views, f);
    }
    let mut r: Vec<String> = none_of();
    for i in 0..items.len()
        invariant
            views == items.deep_view(),
            f == if_test_failed(),
            r.deep_view() == gather(views.take(i as int), f),
    {
        proof {
            lemma_gather_step(views, i as int, f);
        }
        let ghost before = r.deep_view();
        assert(views[i as int] == items@[i as int].deep_view());
        if items[i].status == ExecutionStatus::Failed {
            put(&mut r, items[i].test_id.clone());
        }
        assert(r.deep_view() =~= before + f(views[i as int]));
    }
    r
}

fn check_tests(input: &GateInput) -> (r: GateResult)
    ensures
        r.deep_view() == tests_gate(input.deep_view()),
{
    if input.run.is_none() {
        return gate("tests", false, "no run to audit".to_owned());
    }
    let failed: Vec<String> = failed_test_names(&input.test_runs);
    assert(failed.deep_view().len() == failed@.len());
    assert(input.test_runs.deep_view().len() == input.test_runs@.len());
    if failed.len() == 0 {
        gate(
            "tests",
            true,
            cat2(decimal_usize(input.test_runs.len()).as_str(), " tests passed"),
        )
    } else {
        let list: &[String] = failed.as_slice();
        assert(list.deep_view() =~= failed.deep_view());
        gate(
            "tests",
            false,
            cat3(
                decimal_usize(failed.len()).as_str(),
                " tests failed: ",
                join(list, ", ").as_str(),
            ),
        )
    }
}

fn not_run_names(items: &Vec<ModelRunRecord>) -> (r: Vec<String>)
    ensures
        r.deep_view() == gather(items.deep_view(), if_not_run()),
{
    let ghost views = items.deep_view();
    let ghost f = if_not_run();
    proof {
        lemma_gather_ends(views, f);
    }
    let mut r: Vec<String> = none_of();
    for i in 0..items.len()
        invariant
            views == items.deep_view(),
            f == if_not_run(),
            r.deep_view() == gather(views.take(i as int), f),
    {
        proof {
            lemma_gather_step(views, i as int, f);
        }
        let ghost before = r.deep_view();
        assert(views[i as int] == items@[i as int].deep_view());
        if matches!(items[i].status, ExecutionStatus::Blocked | ExecutionStatus::Cancelled) {
            put(&mut r, items[i].model_id.clone());
        }
        assert(r.deep_view() =~= before + f(views[i as int]));
    }
    r
}

fn check_blocked(input: &GateInput) -> (r: GateResult)
    ensures
        r.deep_view() == blocked_gate(input.deep_view()),
{
    if input.run.is_none() {
        return gate("blocked", false, "no run to audit".to_owned());
    }
    let blocked: Vec<String> = not_run_names(&input.model_runs);
    assert(blocked.deep_view().len() == blocked@.len());
    if blocked.len() == 0 {
        gate("blocked", true, "no blocked or cancelled work".to_owned())
    } else {
        let list: &[String] = blocked.as_slice();
        assert(list.deep_view() =~= blocked.deep_view());
        gate(
            "blocked",
            false,
            cat3(
                decimal_usize(blocked.len()).as_str(),
                " models blocked or cancelled: ",
                join(list, ", ").as_str(),
            ),
        )
    }
}

fn check_schema(input: &GateInput) -> (r: GateResult)
    ensures
        r.deep_view() == schema_gate(input.deep_view()),
{
    let breaking: &Vec<String> = &input.breaking_schema_changes;
    assert(breaking.deep_view().len() == breaking@.len());
    if breaking.len() == 0 {
        gate("schema", true, "no breaking schema changes".to_owned())
    } else if input.allow_breaking_schema {
        gate(
            "schema",
            true,
            cat2(decimal_usize(breaking.len()).as_str(), " breaking changes waived"),
        )
    } else {
        let list: &[String] = breaking.as_slice();
        assert(list.deep_view() =~= breaking.deep_view());
        gate("schema", false, cat2("breaking schema changes: ", join(list, ", ").as_str()))
    }
}

fn check_diff(input: &GateInput) -> (r: Vec<GateResult>)
    ensures
        r.deep_view() == diff_gate(input.deep_view()),
{
    if !input.require_diff {
        return none_of();
    }
    one_of(
        match &input.diff_rejected {
            Some(reason) => gate("data_diff", false, reason.clone()),
            None => match input.diff_passed {
                Some(true) => gate("data_diff", true, "data diff passed".to_owned()),
                Some(false) => gate("data_diff", false, "data diff failed policy".to_owned()),
                None => gate(
                    "data_diff",
                    false,
                    "a passing data diff is required before promotion".to_owned(),
                ),
            },
        },
    )
}

fn check_base(input: &GateInput) -> (r: GateResult)
    ensures
        r.deep_view() == base_gate(input.deep_view()),
{
    match (&input.expected_target_hash, &input.actual_target_hash) {
        (Some(expected), Some(actual)) => if !same(expected.as_str(), actual.as_str()) {
            gate(
                "base",
                false,
                cat5(
                    "target advanced since planning (expected ",
                    expected.as_str(),
                    ", found ",
                    actual.as_str(),
                    ")",
                ),
            )
        } else {
            gate("base", true, "target unchanged since planning".to_owned())
        },
        _ => gate(
            "base",
            true,
            "no recorded base hash — target freshness not verified".to_owned(),
        ),
    }
}

/// Conflicts in words.
pub fn describe_conflicts(conflicts: &Vec<Conflict>) -> (r: String)
    ensures
        r@ == conflicts_text(conflicts.deep_view()),
{
    let mut lines: Vec<String> = Vec::new();
    for i in 0..conflicts.len()
        invariant
            lines@.len() == i,
            forall|k: int|
                0 <= k < i ==> (#[trigger] lines@[k])@ == conflicts@[k].path@ + ": "@
                    + conflicts@[k].message@,
    {
        lines.push(cat3(conflicts[i].path.as_str(), ": ", conflicts[i].message.as_str()));
    }
    let list: &[String] = lines.as_slice();
    let ghost views = conflicts.deep_view();
    assert(list.deep_view() =~= Seq::new(
        views.len(),
        |i: int| views[i].path + ": "@ + views[i].message,
    ));
    join(list, "; ")
}

fn check_conflicts(input: &GateInput) -> (r: GateResult)
    ensures
        r.deep_view() == conflicts_gate(input.deep_view()),
{
    match &input.merge_check {
        Some(check) => if check.is_clean() {
            gate("conflicts", true, "candidate merges cleanly".to_owned())
        } else {
            gate("conflicts", false, describe_conflicts(&check.conflicts))
        },
        None => gate("conflicts", false, "merge check was not performed".to_owned()),
    }
}

pub(crate) fn all_passed(results: &Vec<GateResult>) -> (r: bool)
    ensures
        r == gates_passed(results.deep_view()),
{
    let ghost views = results.deep_view();
    let mut passed: bool = true;
    for i in 0..results.len()
        invariant
            views == results.deep_view(),
            passed == (forall|k: int| 0 <= k < i ==> (#[trigger] views[k]).passed),
    {
        assert(views[i as int] == results@[i as int].deep_view());
        if !results[i].passed {
            passed = false;
        }
    }
    passed
}

/// Evaluate every promotion gate against the gathered evidence.
///
/// The evaluation is pure and order-stable: gate order is fixed so that human
/// and machine output agree.
pub fn evaluate_gates(input: &GateInput) -> (report: GateReport)
    ensures
        report.deep_view().results == all_gates(input.deep_view()),
        report.passed == gates_passed(all_gates(input.deep_view())),
        report.passed ==> ran_well(input.deep_view()) && no_test_failed(input.deep_view())
            && nothing_held_up(input.deep_view()) && merges_cleanly(input.deep_view()),
        ran_well(input.deep_view()) && no_test_failed(input.deep_view()) && nothing_held_up(
            input.deep_view(),
        ) && schema_kept(input.deep_view()) && (input.require_diff ==> diff_accepted(
            input.deep_view(),
        )) && base_kept(input.deep_view()) && merges_cleanly(input.deep_view()) ==> report.passed,
{
    proof {
        law_sound_evidence_passes(input.deep_view());
    }
    let mut results: Vec<GateResult> = none_of();
    put(&mut results, check_run(input));
    put(&mut results, check_tests(input));
    put(&mut results, check_blocked(input));
    put(&mut results, check_schema(input));
    put_all(&mut results, check_diff(input));
    put(&mut results, check_base(input));
    put(&mut results, check_conflicts(input));
    assert(results.deep_view() =~= all_gates(input.deep_view()));
    let passed: bool = all_passed(&results);
    GateReport { results, passed }
}

/// The gates pass only where the candidate's latest run passed
/// without failures, nothing in it is left blocked or cancelled, no test
/// failed, breaking changes are absent or waived, a required diff passed and
/// was not rejected, no recorded base has moved, and the merge is clean.
pub proof fn law_gates_fail_closed(input: GateInputView)
    requires
        gates_passed(all_gates(input)),
    ensures
        input.run matches Some(run) && run.status == ExecutionStatus::Passed && run.failed_count
            == 0,
        gather(input.test_runs, if_test_failed()).len() == 0,
        gather(input.model_runs, if_not_run()).len() == 0,
        input.breaking_schema_changes.len() == 0 || input.allow_breaking_schema,
        input.require_diff ==> input.diff_rejected is None && input.diff_passed == Some(true),
        input.expected_target_hash is Some && input.actual_target_hash is Some
            ==> input.expected_target_hash == input.actual_target_hash,
        input.merge_check matches Some(check) && check.conflicts.len() == 0,
{
    let all = all_gates(input);
    assert(all[0] == run_gate(input));
    assert(all[1] == tests_gate(input));
    assert(all[2] == blocked_gate(input));
    assert(all[3] == schema_gate(input));
    if input.require_diff {
        assert(all[4] == diff_gate(input)[0]);
    }
    let n = all.len();
    assert(all[n - 2] == base_gate(input));
    assert(all[n - 1] == conflicts_gate(input));
}

} // verus!
