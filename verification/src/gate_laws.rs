//! What the gates of a promotion promise: which evidence each of them passes
//! on, and that sound evidence passes them all.

use vstd::prelude::*;

use crate::events::ExecutionStatus;
use crate::gates::{
    all_gates, base_gate, blocked_gate, conflicts_gate, diff_gate, gates_passed, if_failed,
    if_not_run, if_test_failed, run_gate, schema_gate, tests_gate, GateInputView, GateResultView,
};
use crate::seqs::{gather, lemma_gather_member};

verus! {

/// Whether a result of the given name is among the results, and every result
/// of that name passed exactly where `passed` says so.
pub open spec fn decides(results: Seq<GateResultView>, name: Seq<char>, passed: bool) -> bool {
    &&& exists|i: int| 0 <= i < results.len() && (#[trigger] results[i]).name == name
    &&& forall|i: int|
        0 <= i < results.len() && (#[trigger] results[i]).name == name ==> results[i].passed
            == passed
}

/// Whether the latest run of a candidate ended well.
pub open spec fn ran_well(input: GateInputView) -> bool {
    match input.run {
        Some(run) => run.status == ExecutionStatus::Passed && run.failed_count == 0,
        None => false,
    }
}

/// Whether a run is recorded and none of its test records says that the test
/// failed.
pub open spec fn no_test_failed(input: GateInputView) -> bool {
    input.run is Some && forall|i: int|
        0 <= i < input.test_runs.len() ==> (#[trigger] input.test_runs[i]).status
            != ExecutionStatus::Failed
}

/// Whether a run is recorded and none of its model records says that the model
/// was blocked or cancelled.
pub open spec fn nothing_held_up(input: GateInputView) -> bool {
    input.run is Some && forall|i: int|
        0 <= i < input.model_runs.len() ==> (#[trigger] input.model_runs[i]).status
            != ExecutionStatus::Blocked && input.model_runs[i].status
            != ExecutionStatus::Cancelled
}

/// Whether no schema change breaks, or breaking ones are waived.
pub open spec fn schema_kept(input: GateInputView) -> bool {
    input.breaking_schema_changes.len() == 0 || input.allow_breaking_schema
}

/// Whether the data diff passed and may be used.
pub open spec fn diff_accepted(input: GateInputView) -> bool {
    input.diff_rejected is None && input.diff_passed == Some(true)
}

/// Whether the target is where it was seen, as far as both are known.
pub open spec fn base_kept(input: GateInputView) -> bool {
    input.expected_target_hash is Some && input.actual_target_hash is Some
        ==> input.expected_target_hash == input.actual_target_hash
}

/// Whether a merge was checked and found no conflict.
pub open spec fn merges_cleanly(input: GateInputView) -> bool {
    match input.merge_check {
        Some(check) => check.conflicts.len() == 0,
        None => false,
    }
}

/// The names that the `tests` result lists are those of the records that say a
/// test failed.
pub proof fn law_failed_tests_are_listed(input: GateInputView, name: Seq<char>)
    ensures
        gather(input.test_runs, if_test_failed()).contains(name) <==> exists|i: int|
            0 <= i < input.test_runs.len() && (#[trigger] input.test_runs[i]).test_id == name
                && input.test_runs[i].status == ExecutionStatus::Failed,
{
    let f = if_test_failed();
    lemma_gather_member(input.test_runs, f, name);
    if exists|i: int|
        0 <= i < input.test_runs.len() && (#[trigger] input.test_runs[i]).test_id == name
            && input.test_runs[i].status == ExecutionStatus::Failed {
        let i = choose|i: int|
            0 <= i < input.test_runs.len() && (#[trigger] input.test_runs[i]).test_id == name
                && input.test_runs[i].status == ExecutionStatus::Failed;
        assert(f(input.test_runs[i])[0] == name);
        assert(f(input.test_runs[i]).contains(name));
    }
}

/// The names that the `blocked` result lists are those of the records that say
/// a model was blocked or cancelled.
pub proof fn law_held_up_models_are_listed(input: GateInputView, name: Seq<char>)
    ensures
        gather(input.model_runs, if_not_run()).contains(name) <==> exists|i: int|
            0 <= i < input.model_runs.len() && (#[trigger] input.model_runs[i]).model_id == name
                && (input.model_runs[i].status == ExecutionStatus::Blocked
                || input.model_runs[i].status == ExecutionStatus::Cancelled),
{
    let f = if_not_run();
    lemma_gather_member(input.model_runs, f, name);
    if exists|i: int|
        0 <= i < input.model_runs.len() && (#[trigger] input.model_runs[i]).model_id == name && (
        input.model_runs[i].status == ExecutionStatus::Blocked || input.model_runs[i].status
            == ExecutionStatus::Cancelled) {
        let i = choose|i: int|
            0 <= i < input.model_runs.len() && (#[trigger] input.model_runs[i]).model_id == name
                && (input.model_runs[i].status == ExecutionStatus::Blocked
                || input.model_runs[i].status == ExecutionStatus::Cancelled);
        assert(f(input.model_runs[i])[0] == name);
        assert(f(input.model_runs[i]).contains(name));
    }
}

proof fn lemma_names_apart()
    ensures
        "run"@.len() == 3,
        "base"@.len() == 4,
        "tests"@.len() == 5,
        "schema"@.len() == 6,
        "blocked"@.len() == 7,
        "data_diff"@.len() == 9,
        "conflicts"@.len() == 9,
        "data_diff"@ != "conflicts"@,
{
    reveal_strlit("run");
    reveal_strlit("tests");
    reveal_strlit("blocked");
    reveal_strlit("schema");
    reveal_strlit("data_diff");
    reveal_strlit("base");
    reveal_strlit("conflicts");
    assert("data_diff"@[0] != "conflicts"@[0]);
}

/// Each result passes exactly on the evidence that it is about: `run` where
/// the latest run passed with nothing failed, `tests` where no test record
/// says failed, `blocked` where no model record says blocked or cancelled,
/// `schema` where nothing breaks or breaking is waived, `data_diff`, which is
/// there exactly where it is required, where a usable diff passed, `base`
/// where the target has not moved, and `conflicts` where a merge check was
/// clean.
pub proof fn law_each_gate_goes_by_its_evidence(input: GateInputView)
    ensures
        decides(all_gates(input), "run"@, ran_well(input)),
        decides(all_gates(input), "tests"@, no_test_failed(input)),
        decides(all_gates(input), "blocked"@, nothing_held_up(input)),
        decides(all_gates(input), "schema"@, schema_kept(input)),
        input.require_diff ==> decides(all_gates(input), "data_diff"@, diff_accepted(input)),
        !input.require_diff ==> forall|i: int|
            0 <= i < all_gates(input).len() ==> (#[trigger] all_gates(input)[i]).name
                != "data_diff"@,
        decides(all_gates(input), "base"@, base_kept(input)),
        decides(all_gates(input), "conflicts"@, merges_cleanly(input)),
{
    lemma_names_apart();
    let failed = gather(input.test_runs, if_test_failed());
    let held = gather(input.model_runs, if_not_run());
    if failed.len() > 0 {
        assert(failed.contains(failed[0]));
        law_failed_tests_are_listed(input, failed[0]);
    }
    assert forall|i: int| 0 <= i < input.test_runs.len() && failed.len() == 0 implies (
    #[trigger] input.test_runs[i]).status != ExecutionStatus::Failed by {
        law_failed_tests_are_listed(input, input.test_runs[i].test_id);
        assert(!failed.contains(input.test_runs[i].test_id));
    }
    if held.len() > 0 {
        assert(held.contains(held[0]));
        law_held_up_models_are_listed(input, held[0]);
    }
    assert forall|i: int| 0 <= i < input.model_runs.len() && held.len() == 0 implies (
    #[trigger] input.model_runs[i]).status != ExecutionStatus::Blocked
        && input.model_runs[i].status != ExecutionStatus::Cancelled by {
        law_held_up_models_are_listed(input, input.model_runs[i].model_id);
        assert(!held.contains(input.model_runs[i].model_id));
    }
    let all = all_gates(input);
    let n = all.len();
    assert(all[0] == run_gate(input));
    assert(all[1] == tests_gate(input));
    assert(all[2] == blocked_gate(input));
    assert(all[3] == schema_gate(input));
    if input.require_diff {
        assert(n == 7);
        assert(all[4] == diff_gate(input)[0]);
    } else {
        assert(n == 6);
    }
    assert(all[n - 2] == base_gate(input));
    assert(all[n - 1] == conflicts_gate(input));
    assert(all[0].name == "run"@ && all[0].passed == ran_well(input));
    assert(all[1].name == "tests"@ && all[1].passed == no_test_failed(input));
    assert(all[2].name == "blocked"@ && all[2].passed == nothing_held_up(input));
    assert(all[3].name == "schema"@ && all[3].passed == schema_kept(input));
    assert(all[n - 2].name == "base"@ && all[n - 2].passed == base_kept(input));
    assert(all[n - 1].name == "conflicts"@ && all[n - 1].passed == merges_cleanly(input));
    if input.require_diff {
        assert(all[4].name == "data_diff"@ && all[4].passed == diff_accepted(input));
    }
}

/// Sound evidence passes, and nothing else does: the whole set passes exactly
/// where the latest run passed with nothing failed, no test record says
/// failed, no model record says blocked or cancelled, breaking changes are
/// absent or waived, a diff passed and is usable where one is required, the
/// target has not moved, and a merge check was clean.
pub proof fn law_sound_evidence_passes(input: GateInputView)
    ensures
        gates_passed(all_gates(input)) <==> {
            &&& ran_well(input)
            &&& no_test_failed(input)
            &&& nothing_held_up(input)
            &&& schema_kept(input)
            &&& input.require_diff ==> diff_accepted(input)
            &&& base_kept(input)
            &&& merges_cleanly(input)
        },
{
    law_each_gate_goes_by_its_evidence(input);
    let all = all_gates(input);
    let n = all.len();
    assert(all[0] == run_gate(input));
    assert(all[1] == tests_gate(input));
    assert(all[2] == blocked_gate(input));
    assert(all[3] == schema_gate(input));
    if input.require_diff {
        assert(n == 7);
        assert(all[4] == diff_gate(input)[0]);
    } else {
        assert(n == 6);
    }
    assert(all[n - 2] == base_gate(input));
    assert(all[n - 1] == conflicts_gate(input));
}

/// The failures of a report are its results that did not pass.
pub proof fn law_failures_are_the_results_that_failed(
    results: Seq<GateResultView>,
    result: GateResultView,
)
    ensures
        gather(results, if_failed()).contains(result) <==> results.contains(result)
            && !result.passed,
{
    let f = if_failed();
    lemma_gather_member(results, f, result);
    if results.contains(result) && !result.passed {
        let i = choose|i: int| 0 <= i < results.len() && results[i] == result;
        assert(f(results[i])[0] == result);
        assert(f(results[i]).contains(result));
    }
}

} // verus!
